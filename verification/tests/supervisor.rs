use onvm_mgr::mgr::get_args::{parse_nf_cores, parse_portmask};
use onvm_mgr::mgr::global::GlobalNFState;
use onvm_mgr::mgr::net_funcs::{
    onvm_nf_ready, onvm_nf_recv_msg, onvm_nf_send_msg_to_mgr, onvm_nf_start, BusError,
};
use onvm_mgr::nflib::constants::NF_RUNNING;
use onvm_mgr::nflib::structs::{OnvmNFMsg, OnvmNfInitCfg};
use onvm_mgr::{
    master_thread_step, notify_shutdown, pkt_limit_reached, time_is_up, total_rx, MasterPhase,
    MasterThread, MgrState, StepReport, MAX_SHUTDOWN_ITERS,
};

fn manager() -> GlobalNFState {
    let mut state = GlobalNFState::new(2);
    assert!(parse_nf_cores("3".to_string(), &mut state).is_ok());
    state
}

fn running_nf(state: &mut GlobalNFState) -> u16 {
    let mut cfg = OnvmNfInitCfg::new();
    cfg.init_options = 0b10;
    assert_eq!(onvm_nf_start(&mut cfg, state), Ok(()));
    assert_eq!(onvm_nf_ready(cfg.instance_id, state), Ok(()));
    cfg.instance_id
}

fn settings(time_to_live: u8, pkt_limit: u8) -> MgrState {
    let mut config = MgrState::new();
    config.global_time_to_live = time_to_live;
    config.global_pkt_limit = pkt_limit;
    config
}

#[test]
fn default_settings() {
    let config = MgrState::new();
    assert_eq!(config.global_stats_sleep_time, 1);
    assert_eq!(config.global_verbosity_level, 0);
    assert_eq!(config.global_pkt_limit, 0);
    assert_eq!(config.global_time_to_live, 0);
    let thread = MasterThread::new(config, 77);
    assert_eq!(thread.phase, MasterPhase::Running);
    assert_eq!(thread.start_cycles, 77);
    assert!(thread.worker_keep_running);
    assert!(!thread.is_done());
    assert_eq!(MAX_SHUTDOWN_ITERS, 10);
}

#[test]
fn the_time_to_live_counts_whole_seconds() {
    let config = settings(5, 0);
    assert!(!time_is_up(&config, 1000, 1000, 1000));
    assert!(!time_is_up(&config, 1000, 5999, 1000));
    assert!(time_is_up(&config, 1000, 6000, 1000));
    assert!(time_is_up(&config, 1000, 900_000, 1000));
    assert!(time_is_up(&config, 0, 5, 1));
    assert!(!time_is_up(&config, 0, 4, 1));
    let unlimited = settings(0, 0);
    assert!(!time_is_up(&unlimited, 0, u64::MAX, 1));
}

#[test]
fn the_packet_limit_counts_millions_over_the_ports_in_use() {
    let mut state = GlobalNFState::new(1);
    assert!(parse_portmask(8, "5".to_string(), &mut state).is_ok());
    state.ports.rx_stats.rx[0] = 600_000;
    state.ports.rx_stats.rx[1] = 9_000_000;
    state.ports.rx_stats.rx[2] = 399_999;
    assert_eq!(total_rx(&state.ports), 999_999);
    assert!(!pkt_limit_reached(&settings(0, 1), &state.ports));
    state.ports.rx_stats.rx[2] = 400_000;
    assert_eq!(total_rx(&state.ports), 1_000_000);
    assert!(pkt_limit_reached(&settings(0, 1), &state.ports));
    assert!(!pkt_limit_reached(&settings(0, 2), &state.ports));
    assert!(!pkt_limit_reached(&settings(0, 0), &state.ports));
    state.ports.rx_stats.rx[0] = u64::MAX;
    state.ports.rx_stats.rx[2] = u64::MAX;
    assert_eq!(total_rx(&state.ports), 2 * (u64::MAX as u128));
    assert!(pkt_limit_reached(&settings(0, 255), &state.ports));
}

#[test]
fn a_turn_without_a_limit_handles_the_messages_and_goes_on() {
    let mut state = manager();
    let mut thread = MasterThread::new(settings(0, 0), 0);
    let mut cfg = OnvmNfInitCfg::new();
    cfg.init_options = 0b10;
    assert_eq!(onvm_nf_send_msg_to_mgr(OnvmNFMsg::NfStarting(cfg), &mut state), Ok(()));
    assert_eq!(onvm_nf_send_msg_to_mgr(OnvmNFMsg::NfReady(1), &mut state), Ok(()));
    match master_thread_step(&mut thread, &mut state, 1_000_000, 1) {
        StepReport::Tick { replies } => {
            assert_eq!(replies.len(), 2);
            assert_eq!(replies[0].result, Ok(()));
            assert_eq!(replies[1].result, Ok(()));
        },
        _ => panic!("the thread was running"),
    }
    assert_eq!(thread.phase, MasterPhase::Running);
    assert!(thread.worker_keep_running);
    assert_eq!(state.slot(1).unwrap().status, NF_RUNNING);
    assert_eq!(state.num_nfs(), 1);
}

#[test]
fn shutdown_tells_every_slot_that_is_not_running() {
    let mut state = manager();
    let first = running_nf(&mut state);
    let second = running_nf(&mut state);
    let mut cfg = OnvmNfInitCfg::new();
    cfg.init_options = 0b10;
    assert_eq!(onvm_nf_start(&mut cfg, &mut state), Ok(()));
    let notices = notify_shutdown(&mut state);
    assert_eq!(notices.len(), 126);
    assert!(notices.iter().all(|n| n.result == Ok(())));
    assert!(notices.iter().all(|n| n.instance_id != first && n.instance_id != second));
    assert_eq!(notices[0].instance_id, 0);
    assert_eq!(notices[1].instance_id, 3);
    assert_eq!(notices[125].instance_id, 127);
    assert!(onvm_nf_recv_msg(first, &mut state).is_none());
    match onvm_nf_recv_msg(3, &mut state) {
        Some(OnvmNFMsg::NfStopping(id)) => assert_eq!(id, 3),
        _ => panic!("slot 3 was told to stop"),
    }
    assert!(onvm_nf_recv_msg(3, &mut state).is_none());
}

#[test]
fn shutdown_notices_that_do_not_fit_are_dropped() {
    let mut state = manager();
    while state.nf_msg_pool.available() > 2 {
        assert!(state.nf_msg_pool.acquire().is_ok());
    }
    let notices = notify_shutdown(&mut state);
    assert_eq!(notices.len(), 128);
    assert_eq!(notices[0].result, Ok(()));
    assert_eq!(notices[1].result, Ok(()));
    assert!(notices[2..].iter().all(|n| n.result == Err(BusError::PoolExhausted)));
}

#[test]
fn the_shutdown_ends_after_ten_rounds_whatever_the_functions_do() {
    let mut state = manager();
    running_nf(&mut state);
    running_nf(&mut state);
    let mut thread = MasterThread::new(settings(3, 0), 100);
    match master_thread_step(&mut thread, &mut state, 102, 1) {
        StepReport::Tick { replies } => assert!(replies.is_empty()),
        _ => panic!("the time to live has not passed"),
    }
    match master_thread_step(&mut thread, &mut state, 103, 1) {
        StepReport::ShutdownBegun {
            replies,
            time_exceeded,
            pkts_exceeded,
            notices,
            round_replies,
            waiting_for,
        } => {
            assert!(replies.is_empty());
            assert!(time_exceeded);
            assert!(!pkts_exceeded);
            assert_eq!(notices.len(), 126);
            assert!(round_replies.is_empty());
            assert_eq!(waiting_for, 2);
        },
        _ => panic!("the time to live has passed"),
    }
    assert_eq!(thread.phase, MasterPhase::ShuttingDown { rounds_done: 1 });
    assert!(!thread.worker_keep_running);
    assert_eq!(onvm_nf_send_msg_to_mgr(OnvmNFMsg::NfStopping(1), &mut state), Ok(()));
    let mut rounds = 1;
    loop {
        match master_thread_step(&mut thread, &mut state, 104, 1) {
            StepReport::Round { replies, waiting_for } => {
                rounds += 1;
                if rounds == 2 {
                    assert_eq!(replies.len(), 1);
                    assert_eq!(replies[0].result, Ok(()));
                } else {
                    assert!(replies.is_empty());
                }
                assert_eq!(waiting_for, 1);
                assert_eq!(thread.phase, MasterPhase::ShuttingDown { rounds_done: rounds });
            },
            StepReport::Finished { still_running } => {
                assert_eq!(still_running, 1);
                break;
            },
            _ => panic!("the thread shuts down"),
        }
        assert!(rounds <= MAX_SHUTDOWN_ITERS);
    }
    assert_eq!(rounds, MAX_SHUTDOWN_ITERS);
    assert!(thread.is_done());
    match master_thread_step(&mut thread, &mut state, 105, 1) {
        StepReport::Idle => {},
        _ => panic!("the thread had finished"),
    }
    assert!(thread.is_done());
}

#[test]
fn the_packet_limit_starts_the_shutdown() {
    let mut state = manager();
    assert!(parse_portmask(2, "1".to_string(), &mut state).is_ok());
    state.ports.rx_stats.rx[0] = 2_000_000;
    let mut thread = MasterThread::new(settings(0, 2), 0);
    match master_thread_step(&mut thread, &mut state, 0, 1) {
        StepReport::ShutdownBegun { time_exceeded, pkts_exceeded, waiting_for, .. } => {
            assert!(!time_exceeded);
            assert!(pkts_exceeded);
            assert_eq!(waiting_for, 0);
        },
        _ => panic!("the packet limit is reached"),
    }
    let mut turns = 0;
    while !thread.is_done() {
        let _ = master_thread_step(&mut thread, &mut state, 0, 1);
        turns += 1;
        assert!(turns <= 10);
    }
    assert_eq!(turns, 10);
}
