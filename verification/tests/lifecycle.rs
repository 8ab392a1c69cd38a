use onvm_mgr::mgr::get_args::parse_nf_cores;
use onvm_mgr::mgr::global::GlobalNFState;
use onvm_mgr::mgr::net_funcs::{
    onvm_nf_next_instance_id, onvm_nf_ready, onvm_nf_start, onvm_nf_stop, NfError,
};
use onvm_mgr::nflib::constants::{
    MAX_NFS, MAX_NFS_PER_SERVICE, NF_CORE_BUSY, NF_CORE_OUT_OF_RANGE, NF_NO_CORES,
    NF_NO_DEDICATED_CORES, NF_NO_IDS, NF_RUNNING, NF_SERVICE_COUNT_MAX, NF_STARTING, NF_STOPPED,
    NF_WAITING_FOR_ID,
};
use onvm_mgr::nflib::structs::{CoreStatus, Mbuf, MsgObject, OnvmNFMsg, OnvmNfInitCfg};
use onvm_mgr::nflib::threading::SchedulingError;

const SHARED: u16 = 0b10;
const DEDICATED: u16 = 0b00;
const MANUAL_SHARED: u16 = 0b11;
const MANUAL_DEDICATED: u16 = 0b01;

fn manager(num_cores: usize, core_mask: &str) -> GlobalNFState {
    let mut state = GlobalNFState::new(num_cores);
    assert!(parse_nf_cores(core_mask.to_string(), &mut state).is_ok());
    state
}

fn config(options: u16) -> OnvmNfInitCfg {
    let mut cfg = OnvmNfInitCfg::new();
    cfg.init_options = options;
    cfg
}

fn statuses(state: &GlobalNFState) -> Vec<u8> {
    state.nfs.iter().map(|nf| nf.status).collect()
}

fn tables(state: &GlobalNFState) -> (Vec<u8>, Vec<u16>, Vec<CoreStatus>, Vec<Vec<u16>>, u32) {
    (
        statuses(state),
        state.nfs.iter().map(|nf| nf.thread_info.core).collect(),
        state.cores.clone(),
        state.services.clone(),
        state.num_nfs,
    )
}

fn live_on(state: &GlobalNFState, core: u16) -> u16 {
    state
        .nfs
        .iter()
        .filter(|nf| {
            (nf.status == NF_STARTING || nf.status == NF_RUNNING || nf.status == 3)
                && nf.thread_info.core == core
        })
        .count() as u16
}

fn check_accounting(state: &GlobalNFState) {
    for (c, entry) in state.cores.iter().enumerate() {
        assert_eq!(entry.nf_count, live_on(state, c as u16));
        if entry.is_dedicated_core {
            assert!(entry.nf_count <= 1);
        }
    }
    let running = state.nfs.iter().filter(|nf| nf.status == NF_RUNNING || nf.status == 3).count();
    assert_eq!(state.num_nfs as usize, running);
    for members in state.services.iter() {
        assert!(members.len() <= MAX_NFS_PER_SERVICE as usize);
    }
}

#[test]
fn boot_state_is_empty() {
    let state = GlobalNFState::new(4);
    assert_eq!(state.nfs.len(), MAX_NFS as usize);
    assert_eq!(state.cores.len(), 4);
    assert_eq!(state.num_cores(), 4);
    assert_eq!(state.services.len(), 32);
    assert_eq!(state.num_nfs(), 0);
    assert_eq!(state.next_instance_id, 1);
    assert!(statuses(&state).iter().all(|s| *s == NF_WAITING_FOR_ID));
    for (i, nf) in state.nfs.iter().enumerate() {
        assert_eq!(nf.instance_id as usize, i);
    }
    assert_eq!(state.core_entry(2).unwrap(), CoreStatus { enabled: false, is_dedicated_core: false, nf_count: 0 });
    assert_eq!(state.slot(5).unwrap().instance_id, 5);
    assert!(state.service(0).unwrap().is_empty());
    assert_eq!(state.pktmbuf_pool.capacity(), 32767);
    assert_eq!(state.nf_msg_pool.capacity(), 16384);
    assert_eq!(state.nf_init_cfg_pool.capacity(), 128);
    assert_eq!(state.incoming_msg_queue.capacity(), 128);
    check_accounting(&state);
}

#[test]
fn the_first_admission_gets_id_one_and_starts() {
    let mut state = manager(4, "15");
    let mut cfg = config(SHARED);
    assert_eq!(cfg.service_id, 0);
    assert_eq!(onvm_nf_start(&mut cfg, &mut state), Ok(()));
    assert_eq!(cfg.instance_id, 1);
    assert_eq!(cfg.status, NF_STARTING);
    assert_eq!(cfg.core, 0);
    assert_eq!(state.slot(1).unwrap().status, NF_STARTING);
    assert_eq!(state.slot(1).unwrap().service_id, 0);
    assert_eq!(state.slot(1).unwrap().thread_info.core, 0);
    assert_eq!(state.slot(1).unwrap().cfg_block, Some(0));
    assert_eq!(state.core_entry(0).unwrap().nf_count, 1);
    assert_eq!(state.num_nfs(), 0);
    assert_eq!(state.next_instance_id, 2);
    check_accounting(&state);
}

#[test]
fn one_admission_too_many_is_refused() {
    let mut state = manager(4, "15");
    let mut granted = 0;
    for _ in 0..(MAX_NFS as usize - 1) {
        let mut cfg = config(SHARED);
        assert_eq!(onvm_nf_start(&mut cfg, &mut state), Ok(()));
        granted += 1;
    }
    assert_eq!(granted, 127);
    let before = tables(&state);
    let mut cfg = config(SHARED);
    assert_eq!(onvm_nf_start(&mut cfg, &mut state), Err(NfError::NoIds));
    assert_eq!(cfg.status, NF_NO_IDS);
    assert_eq!(tables(&state), before);
    let mut cfg = config(SHARED);
    assert_eq!(onvm_nf_start(&mut cfg, &mut state), Err(NfError::NoIds));
    assert_eq!(tables(&state), before);
    check_accounting(&state);
}

#[test]
fn admissions_get_distinct_ids() {
    let mut state = manager(2, "3");
    let mut ids = Vec::new();
    for _ in 0..20 {
        let mut cfg = config(SHARED);
        assert_eq!(onvm_nf_start(&mut cfg, &mut state), Ok(()));
        assert!(!ids.contains(&cfg.instance_id));
        ids.push(cfg.instance_id);
    }
    assert_eq!(ids, (1..=20).collect::<Vec<u16>>());
    check_accounting(&state);
}

#[test]
fn a_configuration_that_is_not_unassigned_is_refused() {
    let mut state = manager(2, "3");
    let before = tables(&state);
    let mut cfg = config(SHARED);
    cfg.service_id = 3;
    cfg.status = 9;
    assert_eq!(onvm_nf_start(&mut cfg, &mut state), Err(NfError::NotWaitingForId));
    assert_eq!(cfg.status, 9);
    assert_eq!(cfg.instance_id, 0);
    assert_eq!(tables(&state), before);
    assert_eq!(state.next_instance_id, 1);
}

#[test]
fn admission_without_a_core_is_refused_with_the_scheduler_reason() {
    let mut state = GlobalNFState::new(2);
    let before = tables(&state);
    let mut cfg = config(SHARED);
    assert_eq!(onvm_nf_start(&mut cfg, &mut state), Err(NfError::NoCores));
    assert_eq!(cfg.status, NF_NO_CORES);
    assert_eq!(tables(&state), before);

    let mut state = manager(2, "3");
    let mut cfg = config(MANUAL_SHARED);
    cfg.core = 5;
    assert_eq!(onvm_nf_start(&mut cfg, &mut state), Err(NfError::CoreOutOfRange));
    assert_eq!(cfg.status, NF_CORE_OUT_OF_RANGE);

    let mut cfg = config(MANUAL_DEDICATED);
    cfg.core = 1;
    assert_eq!(onvm_nf_start(&mut cfg, &mut state), Ok(()));
    assert_eq!(state.core_entry(1).unwrap(), CoreStatus { enabled: true, is_dedicated_core: true, nf_count: 1 });
    let mut cfg = config(MANUAL_SHARED);
    cfg.core = 1;
    assert_eq!(onvm_nf_start(&mut cfg, &mut state), Err(NfError::CoreBusy));
    assert_eq!(cfg.status, NF_CORE_BUSY);

    let mut cfg = config(SHARED);
    assert_eq!(onvm_nf_start(&mut cfg, &mut state), Ok(()));
    assert_eq!(cfg.core, 0);
    let mut cfg = config(DEDICATED);
    assert_eq!(onvm_nf_start(&mut cfg, &mut state), Err(NfError::NoDedicatedCores));
    assert_eq!(cfg.status, NF_NO_DEDICATED_CORES);
    check_accounting(&state);
}

#[test]
fn a_manual_dedicated_request_for_an_occupied_core_is_refused() {
    let mut state = manager(2, "3");
    let mut cfg = config(MANUAL_SHARED);
    cfg.core = 1;
    assert_eq!(onvm_nf_start(&mut cfg, &mut state), Ok(()));
    assert_eq!(state.core_entry(1).unwrap().nf_count, 1);
    let cores_before = state.cores.clone();
    let slots_before = statuses(&state);
    let mut cfg = config(MANUAL_DEDICATED);
    cfg.core = 1;
    assert_eq!(onvm_nf_start(&mut cfg, &mut state), Err(NfError::NoDedicatedCores));
    assert_eq!(state.cores, cores_before);
    assert_eq!(statuses(&state), slots_before);
}

#[test]
fn the_tag_is_cut_to_fifteen_bytes() {
    let mut state = manager(1, "1");
    let mut cfg = config(SHARED);
    cfg.tag = Some("a-rather-long-tag-for-a-function".to_string());
    cfg.time_to_live = 7;
    cfg.pkt_limit = 9;
    assert_eq!(onvm_nf_start(&mut cfg, &mut state), Ok(()));
    assert_eq!(state.slot(1).unwrap().tag, b"a-rather-long-t".to_vec());
    assert_eq!(state.slot(1).unwrap().flags.time_to_live, 7);
    assert_eq!(state.slot(1).unwrap().flags.pkt_limit, 9);
    assert_eq!(state.slot(1).unwrap().flags.init_options, SHARED);
    let mut cfg = config(SHARED);
    cfg.tag = Some("short".to_string());
    assert_eq!(onvm_nf_start(&mut cfg, &mut state), Ok(()));
    assert_eq!(state.slot(2).unwrap().tag, b"short".to_vec());
    let mut cfg = config(SHARED);
    assert_eq!(onvm_nf_start(&mut cfg, &mut state), Ok(()));
    assert_eq!(state.slot(3).unwrap().tag, Vec::<u8>::new());
}

#[test]
fn ready_needs_a_starting_slot() {
    let mut state = manager(2, "3");
    let before = tables(&state);
    assert_eq!(onvm_nf_ready(1, &mut state), Err(NfError::NotStarting));
    assert_eq!(onvm_nf_ready(200, &mut state), Err(NfError::NotStarting));
    assert_eq!(tables(&state), before);
    let mut cfg = config(SHARED);
    assert_eq!(onvm_nf_start(&mut cfg, &mut state), Ok(()));
    assert_eq!(onvm_nf_ready(1, &mut state), Ok(()));
    assert_eq!(state.slot(1).unwrap().status, NF_RUNNING);
    assert_eq!(state.num_nfs(), 1);
    assert_eq!(state.service(0).unwrap(), &vec![1u16]);
    let before = tables(&state);
    assert_eq!(onvm_nf_ready(1, &mut state), Err(NfError::NotStarting));
    assert_eq!(tables(&state), before);
    check_accounting(&state);
}

#[test]
fn a_service_takes_no_more_than_its_maximum() {
    let mut state = manager(2, "3");
    for _ in 0..(MAX_NFS_PER_SERVICE as usize + 1) {
        let mut cfg = config(SHARED);
        assert_eq!(onvm_nf_start(&mut cfg, &mut state), Ok(()));
    }
    for id in 1..=(MAX_NFS_PER_SERVICE as u16) {
        assert_eq!(onvm_nf_ready(id, &mut state), Ok(()));
    }
    assert_eq!(state.service(0).unwrap().len(), 32);
    let before = tables(&state);
    assert_eq!(onvm_nf_ready(33, &mut state), Err(NfError::ServiceCountMax));
    assert_eq!(tables(&state), before);
    let mut cfg = config(SHARED);
    assert_eq!(onvm_nf_start(&mut cfg, &mut state), Err(NfError::ServiceCountMax));
    assert_eq!(cfg.status, NF_SERVICE_COUNT_MAX);
    assert_eq!(tables(&state), before);
    assert_eq!(state.next_instance_id, 35);
    assert_eq!(onvm_nf_stop(4, &mut state), Ok(()));
    assert_eq!(onvm_nf_ready(33, &mut state), Ok(()));
    assert_eq!(state.service(0).unwrap().len(), 32);
    assert_eq!(state.service(0).unwrap()[31], 33);
    check_accounting(&state);
}

#[test]
fn stopping_a_running_function_frees_what_it_held() {
    let mut state = manager(1, "1");
    let mut first = config(SHARED);
    let mut second = config(SHARED);
    assert_eq!(onvm_nf_start(&mut first, &mut state), Ok(()));
    assert_eq!(onvm_nf_start(&mut second, &mut state), Ok(()));
    assert_eq!(onvm_nf_ready(1, &mut state), Ok(()));
    assert_eq!(onvm_nf_ready(2, &mut state), Ok(()));
    assert_eq!(state.core_entry(0).unwrap().nf_count, 2);
    assert_eq!(state.num_nfs(), 2);
    assert_eq!(state.service(0).unwrap(), &vec![1u16, 2]);
    assert_eq!(onvm_nf_stop(1, &mut state), Ok(()));
    assert_eq!(state.core_entry(0).unwrap().nf_count, 1);
    assert_eq!(state.slot(1).unwrap().status, NF_STOPPED);
    assert_eq!(state.num_nfs(), 1);
    assert_eq!(state.service(0).unwrap(), &vec![2u16]);
    assert_eq!(state.slot(2).unwrap().status, NF_RUNNING);
    check_accounting(&state);
}

#[test]
fn stopping_shifts_the_later_members_up() {
    let mut state = manager(2, "3");
    for _ in 0..5 {
        let mut cfg = config(SHARED);
        assert_eq!(onvm_nf_start(&mut cfg, &mut state), Ok(()));
    }
    for id in [3u16, 1, 5, 2, 4] {
        assert_eq!(onvm_nf_ready(id, &mut state), Ok(()));
    }
    assert_eq!(state.service(0).unwrap(), &vec![3u16, 1, 5, 2, 4]);
    assert_eq!(onvm_nf_stop(5, &mut state), Ok(()));
    assert_eq!(state.service(0).unwrap(), &vec![3u16, 1, 2, 4]);
    assert_eq!(onvm_nf_stop(3, &mut state), Ok(()));
    assert_eq!(state.service(0).unwrap(), &vec![1u16, 2, 4]);
    assert_eq!(onvm_nf_stop(4, &mut state), Ok(()));
    assert_eq!(state.service(0).unwrap(), &vec![1u16, 2]);
    assert_eq!(state.num_nfs(), 2);
    check_accounting(&state);
}

#[test]
fn stopping_a_starting_function_touches_no_service() {
    let mut state = manager(1, "1");
    let mut cfg = config(DEDICATED);
    assert_eq!(onvm_nf_start(&mut cfg, &mut state), Ok(()));
    assert_eq!(state.core_entry(0).unwrap(), CoreStatus { enabled: true, is_dedicated_core: true, nf_count: 1 });
    assert_eq!(state.nf_init_cfg_pool.available(), 127);
    assert_eq!(onvm_nf_stop(1, &mut state), Ok(()));
    assert_eq!(state.slot(1).unwrap().status, NF_STOPPED);
    assert_eq!(state.slot(1).unwrap().cfg_block, None);
    assert_eq!(state.core_entry(0).unwrap(), CoreStatus { enabled: true, is_dedicated_core: false, nf_count: 0 });
    assert_eq!(state.nf_init_cfg_pool.available(), 128);
    assert_eq!(state.num_nfs(), 0);
    assert!(state.service(0).unwrap().is_empty());
    check_accounting(&state);
}

#[test]
fn stop_of_a_slot_that_does_not_run_changes_nothing() {
    let mut state = manager(2, "3");
    let mut cfg = config(SHARED);
    assert_eq!(onvm_nf_start(&mut cfg, &mut state), Ok(()));
    assert_eq!(onvm_nf_ready(1, &mut state), Ok(()));
    let before = tables(&state);
    let pools =
        (state.pktmbuf_pool.available(), state.nf_msg_pool.available(), state.nf_init_cfg_pool.available());
    assert_eq!(onvm_nf_stop(2, &mut state), Err(NfError::NotRunning));
    assert_eq!(onvm_nf_stop(0, &mut state), Err(NfError::NotRunning));
    assert_eq!(onvm_nf_stop(128, &mut state), Err(NfError::NotRunning));
    assert_eq!(onvm_nf_stop(u16::MAX, &mut state), Err(NfError::NotRunning));
    assert_eq!(tables(&state), before);
    assert_eq!(
        (state.pktmbuf_pool.available(), state.nf_msg_pool.available(), state.nf_init_cfg_pool.available()),
        pools
    );
    assert_eq!(onvm_nf_stop(1, &mut state), Ok(()));
    let before = tables(&state);
    assert_eq!(onvm_nf_stop(1, &mut state), Err(NfError::NotRunning));
    assert_eq!(tables(&state), before);
}

#[test]
fn stop_drains_the_rings_into_the_pools() {
    let mut state = manager(1, "1");
    let mut cfg = config(SHARED);
    assert_eq!(onvm_nf_start(&mut cfg, &mut state), Ok(()));
    for _ in 0..70 {
        let handle = state.pktmbuf_pool.acquire().unwrap();
        assert!(state.nfs[1].rx_q.enqueue(Mbuf { handle, meta: None }).is_ok());
    }
    for _ in 0..5 {
        let handle = state.pktmbuf_pool.acquire().unwrap();
        assert!(state.nfs[1].tx_q.enqueue(Mbuf { handle, meta: None }).is_ok());
    }
    for _ in 0..3 {
        let handle = state.nf_msg_pool.acquire().unwrap();
        assert!(state.nfs[1].msg_q.enqueue(MsgObject { handle, msg: OnvmNFMsg::NfStopping(1) }).is_ok());
    }
    assert_eq!(state.pktmbuf_pool.available(), 32767 - 75);
    assert_eq!(state.nf_msg_pool.available(), 16384 - 3);
    assert_eq!(onvm_nf_stop(1, &mut state), Ok(()));
    assert!(state.nfs[1].rx_q.is_empty());
    assert!(state.nfs[1].tx_q.is_empty());
    assert!(state.nfs[1].msg_q.is_empty());
    assert_eq!(state.pktmbuf_pool.available(), 32767);
    assert_eq!(state.nf_msg_pool.available(), 16384);
    assert_eq!(state.nf_init_cfg_pool.available(), 128);
}

#[test]
fn stop_tells_the_parent() {
    let mut state = manager(1, "1");
    for _ in 0..2 {
        let mut cfg = config(SHARED);
        assert_eq!(onvm_nf_start(&mut cfg, &mut state), Ok(()));
    }
    state.nfs[2].thread_info.parent = 1;
    state.nfs[1].thread_info.children_count = 1;
    assert_eq!(onvm_nf_stop(2, &mut state), Ok(()));
    assert_eq!(state.slot(1).unwrap().thread_info.children_count, 0);
    assert_eq!(state.slot(1).unwrap().status, NF_STARTING);
    check_accounting(&state);
}

#[test]
fn a_stopped_slot_is_used_again() {
    let mut state = manager(1, "1");
    for _ in 0..3 {
        let mut cfg = config(SHARED);
        assert_eq!(onvm_nf_start(&mut cfg, &mut state), Ok(()));
    }
    assert_eq!(onvm_nf_stop(2, &mut state), Ok(()));
    for expected in 4..(MAX_NFS as u16) {
        let mut cfg = config(SHARED);
        assert_eq!(onvm_nf_start(&mut cfg, &mut state), Ok(()));
        assert_eq!(cfg.instance_id, expected);
    }
    assert_eq!(state.next_instance_id, 128);
    let mut cfg = config(SHARED);
    assert_eq!(onvm_nf_start(&mut cfg, &mut state), Ok(()));
    assert_eq!(cfg.instance_id, 2);
    assert_eq!(state.slot(2).unwrap().status, NF_STARTING);
    assert_eq!(state.next_instance_id, 3);
    let mut cfg = config(SHARED);
    assert_eq!(onvm_nf_start(&mut cfg, &mut state), Err(NfError::NoIds));
    check_accounting(&state);
}

#[test]
fn next_instance_id_walks_and_wraps() {
    let mut state = manager(1, "1");
    assert_eq!(onvm_nf_next_instance_id(&mut state), 1);
    assert_eq!(onvm_nf_next_instance_id(&mut state), 2);
    assert_eq!(state.next_instance_id, 3);
    state.next_instance_id = 127;
    assert_eq!(onvm_nf_next_instance_id(&mut state), 127);
    assert_eq!(state.next_instance_id, 128);
    assert_eq!(onvm_nf_next_instance_id(&mut state), 1);
    assert_eq!(state.next_instance_id, 2);
}

#[test]
fn refusals_map_to_status_codes() {
    assert_eq!(NfError::NoIds.status_code(0), 6);
    assert_eq!(NfError::ServiceCountMax.status_code(0), 8);
    assert_eq!(NfError::IdConflict.status_code(0), 5);
    assert_eq!(NfError::NoCores.status_code(0), 9);
    assert_eq!(NfError::NoDedicatedCores.status_code(0), 10);
    assert_eq!(NfError::CoreOutOfRange.status_code(0), 11);
    assert_eq!(NfError::CoreBusy.status_code(0), 12);
    assert_eq!(NfError::NotWaitingForId.status_code(3), 3);
    assert_eq!(NfError::NotStarting.status_code(4), 4);
    assert_eq!(NfError::NotRunning.status_code(2), 2);
    assert_eq!(NfError::from_scheduling(SchedulingError::NoCores), NfError::NoCores);
    assert_eq!(NfError::from_scheduling(SchedulingError::NoDedicatedCores), NfError::NoDedicatedCores);
    assert_eq!(NfError::from_scheduling(SchedulingError::CoreOutOfRange), NfError::CoreOutOfRange);
    assert_eq!(NfError::from_scheduling(SchedulingError::CoreBusy), NfError::CoreBusy);
}

#[test]
fn accounting_holds_through_a_mixed_run() {
    let mut state = manager(3, "7");
    for round in 0..40u16 {
        let mut cfg = config(if round % 5 == 0 { MANUAL_SHARED } else { SHARED });
        cfg.core = round % 3;
        assert_eq!(onvm_nf_start(&mut cfg, &mut state), Ok(()));
        check_accounting(&state);
        if round % 2 == 0 {
            assert_eq!(onvm_nf_ready(cfg.instance_id, &mut state), Ok(()));
            check_accounting(&state);
        }
        if round % 3 == 0 {
            assert_eq!(onvm_nf_stop(cfg.instance_id, &mut state), Ok(()));
            check_accounting(&state);
        }
    }
}

#[test]
fn accessors_are_bounds_checked() {
    let state = manager(2, "3");
    assert!(state.slot(127).is_some());
    assert!(state.slot(128).is_none());
    assert!(state.core_entry(1).is_some());
    assert!(state.core_entry(2).is_none());
    assert!(state.service(31).is_some());
    assert!(state.service(32).is_none());
}

#[test]
fn rings_are_set_up_anew() {
    let mut state = manager(1, "1");
    let mut cfg = config(SHARED);
    assert_eq!(onvm_nf_start(&mut cfg, &mut state), Ok(()));
    assert!(state.nfs[1].rx_q.enqueue(Mbuf { handle: 3, meta: None }).is_ok());
    assert!(state.nfs[9].msg_q.enqueue(MsgObject { handle: 1, msg: OnvmNFMsg::NfReady(1) }).is_ok());
    let before = tables(&state);
    onvm_mgr::mgr::net_funcs::onvm_nf_init_rings(&mut state);
    assert!(state.nfs.iter().all(|nf| nf.rx_q.is_empty() && nf.tx_q.is_empty() && nf.msg_q.is_empty()));
    assert!(state.nfs.iter().all(|nf| nf.rx_q.capacity() == 16384 && nf.msg_q.capacity() == 128));
    assert_eq!(tables(&state), before);
}
