use onvm_mgr::mgr::get_args::parse_portmask;
use onvm_mgr::mgr::global::GlobalNFState;
use onvm_mgr::mgr::ports::{
    answer_reports, link_round, port_init_next, port_rss_hash, port_tx_offloads, ports_to_check,
    tx_rings, ErrnoCodes, LinkCheck, LinkProbe, PortError, PortStep,
};

fn codes() -> ErrnoCodes {
    ErrnoCodes { enotsup: 95, enodev: 19, einval: 22, eio: 5, enomem: 12 }
}

fn probe(port: u8, retval: i32, up: bool) -> LinkProbe {
    LinkProbe { port, retval, up }
}

#[test]
fn answers_report_negated_error_numbers() {
    assert!(answer_reports(-95, 95));
    assert!(!answer_reports(95, 95));
    assert!(!answer_reports(0, 95));
    assert!(!answer_reports(i32::MIN, i32::MIN));
    assert!(answer_reports(i32::MIN + 1, i32::MAX));
}

#[test]
fn a_port_is_set_up_step_by_step() {
    let c = codes();
    let mut step = PortStep::DevInfo;
    let mut seen = vec![step];
    while step != PortStep::Done {
        step = port_init_next(step, 0, &c, 2).unwrap();
        seen.push(step);
    }
    assert_eq!(
        seen,
        vec![
            PortStep::DevInfo,
            PortStep::Configure,
            PortStep::AdjustDescriptors,
            PortStep::RxQueueSetup { queue: 0 },
            PortStep::RxQueueSetup { queue: 1 },
            PortStep::TxQueueSetup { queue: 0 },
            PortStep::TxQueueSetup { queue: 1 },
            PortStep::PromiscuousEnable,
            PortStep::Start,
            PortStep::Done,
        ]
    );
    assert_eq!(port_init_next(PortStep::Done, -1, &c, 2), Ok(PortStep::Done));
    assert_eq!(port_init_next(PortStep::AdjustDescriptors, 0, &c, 0), Ok(PortStep::PromiscuousEnable));
    assert_eq!(port_init_next(PortStep::AdjustDescriptors, 3, &c, 1), Ok(PortStep::RxQueueSetup { queue: 0 }));
    assert_eq!(
        port_init_next(PortStep::RxQueueSetup { queue: 0 }, 0, &c, 1),
        Ok(PortStep::TxQueueSetup { queue: 0 })
    );
    assert_eq!(
        port_init_next(PortStep::RxQueueSetup { queue: u16::MAX }, 0, &c, u16::MAX),
        Ok(PortStep::TxQueueSetup { queue: 0 })
    );
    assert_eq!(
        port_init_next(PortStep::TxQueueSetup { queue: 0 }, 0, &c, 1),
        Ok(PortStep::PromiscuousEnable)
    );
}

#[test]
fn each_failed_call_has_its_reason() {
    let c = codes();
    assert_eq!(port_init_next(PortStep::DevInfo, -95, &c, 1), Err(PortError::NoDevInfo));
    assert_eq!(port_init_next(PortStep::DevInfo, -19, &c, 1), Err(PortError::InvalidPort));
    assert_eq!(port_init_next(PortStep::DevInfo, -5, &c, 1), Ok(PortStep::Configure));
    assert_eq!(port_init_next(PortStep::Configure, 1, &c, 1), Err(PortError::Configure));
    assert_eq!(port_init_next(PortStep::Configure, -22, &c, 1), Err(PortError::Configure));
    assert_eq!(port_init_next(PortStep::AdjustDescriptors, -1, &c, 1), Err(PortError::AdjustDescriptors));
    let rx = PortStep::RxQueueSetup { queue: 0 };
    assert_eq!(port_init_next(rx, -5, &c, 1), Err(PortError::DeviceRemoved));
    assert_eq!(port_init_next(rx, -22, &c, 1), Err(PortError::BadRxQueue));
    assert_eq!(port_init_next(rx, -12, &c, 1), Err(PortError::NoRxMemory));
    assert_eq!(port_init_next(rx, -95, &c, 1), Ok(PortStep::TxQueueSetup { queue: 0 }));
    let tx = PortStep::TxQueueSetup { queue: 0 };
    assert_eq!(port_init_next(tx, -12, &c, 1), Err(PortError::NoTxMemory));
    assert_eq!(port_init_next(tx, -5, &c, 1), Ok(PortStep::PromiscuousEnable));
    assert_eq!(port_init_next(PortStep::PromiscuousEnable, -95, &c, 1), Err(PortError::NoPromiscuous));
    assert_eq!(port_init_next(PortStep::PromiscuousEnable, -19, &c, 1), Err(PortError::InvalidPort));
    assert_eq!(port_init_next(PortStep::PromiscuousEnable, 0, &c, 1), Ok(PortStep::Start));
    assert_eq!(port_init_next(PortStep::Start, -1, &c, 1), Err(PortError::Start));
    assert_eq!(port_init_next(PortStep::Start, 0, &c, 1), Ok(PortStep::Done));
}

#[test]
fn transmit_rings_are_what_the_cores_leave() {
    assert_eq!(tx_rings(8), Some(6));
    assert_eq!(tx_rings(2), Some(0));
    assert_eq!(tx_rings(1), None);
    assert_eq!(tx_rings(0), None);
}

#[test]
fn offloads_and_hashes_follow_the_device() {
    assert_eq!(port_tx_offloads(0b1110, 0x1_0000, 0x1_0000), 0x1_000e);
    assert_eq!(port_tx_offloads(0b1110, 0x0_ffff, 0x1_0000), 0b1110);
    assert_eq!(port_rss_hash(0b1111, 0b0101), (0b0101, true));
    assert_eq!(port_rss_hash(0b0101, 0b1111), (0b0101, false));
}

#[test]
fn the_ports_to_check_are_those_the_mask_selects() {
    let mut state = GlobalNFState::new(1);
    assert!(parse_portmask(8, "1a".to_string(), &mut state).is_ok());
    assert_eq!(ports_to_check(&state.ports, !0), vec![1, 3, 4]);
    assert_eq!(ports_to_check(&state.ports, 0b1010), vec![1, 3]);
    assert_eq!(ports_to_check(&state.ports, 0), Vec::<u8>::new());
}

#[test]
fn a_link_that_is_down_is_waited_for_and_then_reported() {
    let c = codes();
    let mut check = LinkCheck::new();
    let probes = vec![probe(0, 0, true), probe(1, 0, false), probe(2, -95, true)];
    let round = link_round(&mut check, &probes, &c).unwrap();
    assert!(round.lines.is_empty());
    assert!(round.wait);
    assert_eq!(check, LinkCheck { round: 1, print_flag: true, done: false });
    let probes = vec![probe(0, 0, true), probe(1, 0, false), probe(2, 0, true)];
    let round = link_round(&mut check, &probes, &c).unwrap();
    assert_eq!(round.lines, probes);
    assert!(!round.wait);
    assert_eq!(check, LinkCheck { round: 2, print_flag: true, done: true });
    let round = link_round(&mut check, &probes, &c).unwrap();
    assert!(round.lines.is_empty());
    assert!(check.done);
}

#[test]
fn links_that_are_up_end_the_check_after_its_last_round() {
    let c = codes();
    let mut check = LinkCheck::new();
    let probes = vec![probe(0, 0, true), probe(1, 0, true)];
    let mut rounds = 0;
    while !check.done {
        let round = link_round(&mut check, &probes, &c).unwrap();
        assert!(round.lines.is_empty());
        assert!(!round.wait);
        rounds += 1;
        assert!(rounds <= 90);
    }
    assert_eq!(rounds, 90);
    assert_eq!(check, LinkCheck { round: 90, print_flag: true, done: true });
}

#[test]
fn a_failed_probe_ends_the_check_with_its_reason() {
    let c = codes();
    let mut check = LinkCheck::new();
    let probes = vec![probe(0, 0, true), probe(1, -95, true)];
    assert_eq!(link_round(&mut check, &probes, &c).err(), Some(PortError::NoLinkStatus));
    assert_eq!(check, LinkCheck::new());
    let probes = vec![probe(0, -19, true), probe(1, -95, true)];
    assert_eq!(link_round(&mut check, &probes, &c).err(), Some(PortError::InvalidPort));
    let probes = vec![probe(0, 0, false), probe(1, -95, true)];
    assert!(link_round(&mut check, &probes, &c).is_ok());
    let probes = vec![probe(0, 0, false), probe(1, -95, true)];
    assert_eq!(link_round(&mut check, &probes, &c).err(), Some(PortError::NoLinkStatus));
}
