use onvm_mgr::nflib::structs::CoreStatus;
use onvm_mgr::nflib::threading::{
    onvm_threading_get_core, onvm_threading_release_core, SchedulingError,
};

const AUTO_SHARED: u8 = 0b10;
const AUTO_DEDICATED: u8 = 0b00;
const MANUAL_SHARED: u8 = 0b11;
const MANUAL_DEDICATED: u8 = 0b01;

fn core_entry(enabled: bool, dedicated: bool, nf_count: u16) -> CoreStatus {
    CoreStatus { enabled, is_dedicated_core: dedicated, nf_count }
}

#[test]
fn automatic_takes_the_least_loaded_core() {
    let mut cores = vec![core_entry(true, false, 3), core_entry(true, false, 1), core_entry(true, false, 2)];
    assert_eq!(onvm_threading_get_core(0, AUTO_SHARED, &mut cores), Ok(1));
    assert_eq!(cores[1], core_entry(true, false, 2));
    assert_eq!(cores[0], core_entry(true, false, 3));
    assert_eq!(cores[2], core_entry(true, false, 2));
}

#[test]
fn automatic_takes_the_lowest_core_on_a_tie() {
    let mut cores = vec![core_entry(true, false, 2), core_entry(true, false, 1), core_entry(true, false, 1)];
    assert_eq!(onvm_threading_get_core(2, AUTO_SHARED, &mut cores), Ok(1));
    assert_eq!(onvm_threading_get_core(2, AUTO_SHARED, &mut cores), Ok(2));
    assert_eq!(onvm_threading_get_core(2, AUTO_SHARED, &mut cores), Ok(0));
    assert_eq!(cores[0].nf_count, 3);
    assert_eq!(cores[1].nf_count, 2);
    assert_eq!(cores[2].nf_count, 2);
}

#[test]
fn automatic_passes_over_disabled_and_dedicated_cores() {
    let mut cores = vec![core_entry(false, false, 0), core_entry(true, true, 1), core_entry(true, false, 5)];
    assert_eq!(onvm_threading_get_core(0, AUTO_SHARED, &mut cores), Ok(2));
    assert_eq!(cores[2].nf_count, 6);
}

#[test]
fn automatic_without_an_enabled_core_has_no_cores() {
    let mut cores = vec![core_entry(false, false, 0), core_entry(true, true, 1)];
    let before = cores.clone();
    assert_eq!(onvm_threading_get_core(0, AUTO_SHARED, &mut cores), Err(SchedulingError::NoCores));
    assert_eq!(cores, before);
    let mut none: Vec<CoreStatus> = Vec::new();
    assert_eq!(onvm_threading_get_core(0, AUTO_SHARED, &mut none), Err(SchedulingError::NoCores));
}

#[test]
fn automatic_dedicated_needs_an_idle_core() {
    let mut cores = vec![core_entry(true, false, 1), core_entry(true, false, 2)];
    let before = cores.clone();
    assert_eq!(
        onvm_threading_get_core(0, AUTO_DEDICATED, &mut cores),
        Err(SchedulingError::NoDedicatedCores)
    );
    assert_eq!(cores, before);
    let mut cores = vec![core_entry(true, false, 1), core_entry(true, false, 0)];
    assert_eq!(onvm_threading_get_core(0, AUTO_DEDICATED, &mut cores), Ok(1));
    assert_eq!(cores[1], core_entry(true, true, 1));
}

#[test]
fn manual_out_of_range_is_refused() {
    let mut cores = vec![core_entry(true, false, 0), core_entry(false, false, 0)];
    let before = cores.clone();
    assert_eq!(
        onvm_threading_get_core(2, MANUAL_SHARED, &mut cores),
        Err(SchedulingError::CoreOutOfRange)
    );
    assert_eq!(
        onvm_threading_get_core(1, MANUAL_SHARED, &mut cores),
        Err(SchedulingError::CoreOutOfRange)
    );
    assert_eq!(cores, before);
}

#[test]
fn manual_on_a_dedicated_core_is_busy() {
    let mut cores = vec![core_entry(true, true, 1)];
    let before = cores.clone();
    assert_eq!(onvm_threading_get_core(0, MANUAL_SHARED, &mut cores), Err(SchedulingError::CoreBusy));
    assert_eq!(onvm_threading_get_core(0, MANUAL_DEDICATED, &mut cores), Err(SchedulingError::CoreBusy));
    assert_eq!(cores, before);
}

#[test]
fn manual_shared_adds_to_the_named_core() {
    let mut cores = vec![core_entry(true, false, 0), core_entry(true, false, 4)];
    assert_eq!(onvm_threading_get_core(1, MANUAL_SHARED, &mut cores), Ok(1));
    assert_eq!(cores[1], core_entry(true, false, 5));
    assert_eq!(cores[0], core_entry(true, false, 0));
}

#[test]
fn manual_dedicated_claims_an_idle_core() {
    let mut cores = vec![core_entry(true, false, 0)];
    assert_eq!(onvm_threading_get_core(0, MANUAL_DEDICATED, &mut cores), Ok(0));
    assert_eq!(cores[0], core_entry(true, true, 1));
}

#[test]
fn manual_dedicated_on_an_occupied_core_is_refused() {
    let mut cores = vec![core_entry(true, false, 1), core_entry(true, false, 0)];
    let before = cores.clone();
    assert_eq!(
        onvm_threading_get_core(0, MANUAL_DEDICATED, &mut cores),
        Err(SchedulingError::NoDedicatedCores)
    );
    assert_eq!(cores, before);
}

#[test]
fn release_takes_one_off_and_clears_the_dedication() {
    let mut cores = vec![core_entry(true, true, 1), core_entry(true, false, 3)];
    assert_eq!(onvm_threading_release_core(0, &mut cores), Ok(()));
    assert_eq!(cores[0], core_entry(true, false, 0));
    assert_eq!(onvm_threading_release_core(1, &mut cores), Ok(()));
    assert_eq!(cores[1], core_entry(true, false, 2));
    assert_eq!(onvm_threading_release_core(0, &mut cores), Ok(()));
    assert_eq!(cores[0], core_entry(true, false, 0));
    assert_eq!(onvm_threading_release_core(2, &mut cores), Err(SchedulingError::CoreOutOfRange));
}
