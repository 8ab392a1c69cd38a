use onvm_mgr::mgr::get_args::parse_nf_cores;
use onvm_mgr::mgr::global::GlobalNFState;
use onvm_mgr::mgr::net_funcs::{
    onvm_nf_check_status, onvm_nf_dispatch, onvm_nf_handle_batch, onvm_nf_poll, onvm_nf_recv_msg,
    onvm_nf_send_msg, onvm_nf_send_msg_to_mgr, BusError, NfError,
};
use onvm_mgr::nflib::constants::{NF_RUNNING, NF_STARTING, NF_STOPPED};
use onvm_mgr::nflib::structs::{OnvmNFMsg, OnvmNfInitCfg};

fn manager() -> GlobalNFState {
    let mut state = GlobalNFState::new(2);
    assert!(parse_nf_cores("3".to_string(), &mut state).is_ok());
    state
}

fn shared_config() -> OnvmNfInitCfg {
    let mut cfg = OnvmNfInitCfg::new();
    cfg.init_options = 0b10;
    cfg
}

fn stopping_id(msg: Option<OnvmNFMsg>) -> Option<u16> {
    match msg {
        Some(OnvmNFMsg::NfStopping(id)) => Some(id),
        _ => None,
    }
}

#[test]
fn messages_arrive_in_the_order_they_were_sent() {
    let mut state = manager();
    assert_eq!(onvm_nf_send_msg(5, OnvmNFMsg::NfStopping(11), &mut state), Ok(()));
    assert_eq!(onvm_nf_send_msg(5, OnvmNFMsg::NfStopping(22), &mut state), Ok(()));
    assert_eq!(onvm_nf_send_msg(6, OnvmNFMsg::NfStopping(99), &mut state), Ok(()));
    assert_eq!(onvm_nf_send_msg(5, OnvmNFMsg::NfStopping(33), &mut state), Ok(()));
    assert_eq!(state.nf_msg_pool.available(), 16384 - 4);
    assert_eq!(stopping_id(onvm_nf_recv_msg(5, &mut state)), Some(11));
    assert_eq!(stopping_id(onvm_nf_recv_msg(5, &mut state)), Some(22));
    assert_eq!(stopping_id(onvm_nf_recv_msg(5, &mut state)), Some(33));
    assert!(onvm_nf_recv_msg(5, &mut state).is_none());
    assert_eq!(stopping_id(onvm_nf_recv_msg(6, &mut state)), Some(99));
    assert_eq!(state.nf_msg_pool.available(), 16384);
    assert!(onvm_nf_recv_msg(500, &mut state).is_none());
}

#[test]
fn a_full_ring_drops_the_message_and_frees_its_object() {
    let mut state = manager();
    for i in 0..128u16 {
        assert_eq!(onvm_nf_send_msg(1, OnvmNFMsg::NfStopping(i), &mut state), Ok(()));
    }
    assert_eq!(state.nf_msg_pool.available(), 16384 - 128);
    assert_eq!(onvm_nf_send_msg(1, OnvmNFMsg::NfStopping(500), &mut state), Err(BusError::RingFull));
    assert_eq!(state.nf_msg_pool.available(), 16384 - 128);
    assert_eq!(state.nfs[1].msg_q.count(), 128);
    assert_eq!(stopping_id(onvm_nf_recv_msg(1, &mut state)), Some(0));
    assert_eq!(onvm_nf_send_msg(1, OnvmNFMsg::NfStopping(128), &mut state), Ok(()));
}

#[test]
fn sending_to_no_slot_is_refused() {
    let mut state = manager();
    assert_eq!(onvm_nf_send_msg(128, OnvmNFMsg::NfReady(1), &mut state), Err(BusError::NoSuchSlot));
    assert_eq!(state.nf_msg_pool.available(), 16384);
}

#[test]
fn an_exhausted_pool_sends_nothing() {
    let mut state = manager();
    while state.nf_msg_pool.acquire().is_ok() {}
    assert_eq!(onvm_nf_send_msg(1, OnvmNFMsg::NfReady(1), &mut state), Err(BusError::PoolExhausted));
    assert_eq!(onvm_nf_send_msg_to_mgr(OnvmNFMsg::NfReady(1), &mut state), Err(BusError::PoolExhausted));
    assert!(state.nfs[1].msg_q.is_empty());
    assert!(state.incoming_msg_queue.is_empty());
}

#[test]
fn the_ring_to_the_manager_is_bounded() {
    let mut state = manager();
    for i in 0..128u16 {
        assert_eq!(onvm_nf_send_msg_to_mgr(OnvmNFMsg::NfReady(i), &mut state), Ok(()));
    }
    assert_eq!(onvm_nf_send_msg_to_mgr(OnvmNFMsg::NfReady(0), &mut state), Err(BusError::RingFull));
    assert_eq!(state.nf_msg_pool.available(), 16384 - 128);
    let batch = onvm_nf_poll(&mut state);
    assert_eq!(batch.len(), 128);
    for (i, obj) in batch.iter().enumerate() {
        match obj.msg {
            OnvmNFMsg::NfReady(id) => assert_eq!(id as usize, i),
            _ => panic!("a readiness notice was sent"),
        }
    }
    assert!(state.incoming_msg_queue.is_empty());
    assert!(onvm_nf_poll(&mut state).is_empty());
}

#[test]
fn check_status_handles_the_batch_in_order_and_frees_the_objects() {
    let mut state = manager();
    assert!(onvm_nf_check_status(&mut state).is_empty());
    assert_eq!(onvm_nf_send_msg_to_mgr(OnvmNFMsg::NfStarting(shared_config()), &mut state), Ok(()));
    assert_eq!(onvm_nf_send_msg_to_mgr(OnvmNFMsg::NfReady(1), &mut state), Ok(()));
    assert_eq!(onvm_nf_send_msg_to_mgr(OnvmNFMsg::NfStarting(shared_config()), &mut state), Ok(()));
    assert_eq!(onvm_nf_send_msg_to_mgr(OnvmNFMsg::NfReady(7), &mut state), Ok(()));
    assert_eq!(onvm_nf_send_msg_to_mgr(OnvmNFMsg::NfStopping(1), &mut state), Ok(()));
    assert_eq!(onvm_nf_send_msg_to_mgr(OnvmNFMsg::NfStopping(1), &mut state), Ok(()));
    assert_eq!(state.nf_msg_pool.available(), 16384 - 6);
    let replies = onvm_nf_check_status(&mut state);
    assert_eq!(replies.len(), 6);
    assert_eq!(replies[0].result, Ok(()));
    match &replies[0].msg {
        OnvmNFMsg::NfStarting(cfg) => {
            assert_eq!(cfg.instance_id, 1);
            assert_eq!(cfg.status, NF_STARTING);
        },
        _ => panic!("the first answer is to an admission"),
    }
    assert_eq!(replies[1].result, Ok(()));
    assert_eq!(replies[2].result, Ok(()));
    match &replies[2].msg {
        OnvmNFMsg::NfStarting(cfg) => assert_eq!(cfg.instance_id, 2),
        _ => panic!("the third answer is to an admission"),
    }
    assert_eq!(replies[3].result, Err(NfError::NotStarting));
    assert_eq!(replies[4].result, Ok(()));
    assert_eq!(replies[5].result, Err(NfError::NotRunning));
    assert_eq!(state.nf_msg_pool.available(), 16384);
    assert!(state.incoming_msg_queue.is_empty());
    assert_eq!(state.slot(1).unwrap().status, NF_STOPPED);
    assert_eq!(state.slot(2).unwrap().status, NF_STARTING);
    assert_eq!(state.num_nfs(), 0);
}

#[test]
fn dispatch_goes_by_the_kind_of_message() {
    let mut state = manager();
    let reply = onvm_nf_dispatch(OnvmNFMsg::NfStarting(shared_config()), &mut state);
    assert_eq!(reply.result, Ok(()));
    let reply = onvm_nf_dispatch(OnvmNFMsg::NfReady(1), &mut state);
    assert_eq!(reply.result, Ok(()));
    assert_eq!(state.slot(1).unwrap().status, NF_RUNNING);
    let reply = onvm_nf_dispatch(OnvmNFMsg::NfStopping(1), &mut state);
    assert_eq!(reply.result, Ok(()));
    assert_eq!(state.slot(1).unwrap().status, NF_STOPPED);
    let mut bad = shared_config();
    bad.service_id = 1;
    let reply = onvm_nf_dispatch(OnvmNFMsg::NfStarting(bad), &mut state);
    assert_eq!(reply.result, Err(NfError::NotWaitingForId));
    assert!(onvm_nf_handle_batch(Vec::new(), &mut state).is_empty());
}
