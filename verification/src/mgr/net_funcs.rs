//! The lifecycle of the network functions (admission, readiness and
//! termination) and the control messages between them and the manager.

use super::global::{
    active_count, blocks_wf, cores_wf, is_active, is_live, live_on_core, live_total, lives_on, services_wf,
    status_is_active, status_is_live, view_wf, GlobalNFState, ManagerView, NF_INIT_CFG_POOL_SIZE,
    NF_MSG_POOL_SIZE,
};
use crate::nflib::constants::{
    MAX_NFS, MAX_NFS_PER_SERVICE, NF_CORE_BUSY, NF_CORE_OUT_OF_RANGE, NF_ID_CONFLICT,
    NF_MSG_QUEUE_SIZE, NF_NO_CORES, NF_NO_DEDICATED_CORES, NF_NO_IDS, NF_QUEUE_RINGSIZE, NF_RUNNING,
    NF_SERVICE_COUNT_MAX, NF_STARTING, NF_STOPPED, NF_WAITING_FOR_ID, NUM_MBUFS, PACKET_READ_SIZE, TAG_SIZE,
};
use crate::nflib::funcs_macros::onvm_nf_is_valid;
use crate::nflib::pool::{
    free_after_release, free_after_release_all, handle_in_use, lemma_release_all_step, Pool,
};
use crate::nflib::ring::Ring;
use crate::nflib::structs::{Flags, Mbuf, MsgObject, OnvmNFMsg, OnvmNfInitCfg, SlotView, ThreadInfo};
use crate::nflib::threading::{
    assign_outcome, cores_after_assign, cores_after_release, lemma_assign_outcome, onvm_threading_get_core,
    onvm_threading_release_core, SchedulingError,
};
use vstd::prelude::*;

verus! {

/// Why a request of a network function was refused.
#[derive(Clone, Copy, Debug, PartialEq, Eq, Structural)]
pub enum NfError {
    /// The configuration does not declare itself unassigned: its service id
    /// is not `NF_WAITING_FOR_ID`.
    NotWaitingForId,
    /// No instance id is free.
    NoIds,
    /// The service already has its maximum of running network functions.
    ServiceCountMax,
    /// The chosen instance id belongs to a running network function.
    IdConflict,
    /// No core is reserved for network functions and free of a dedication.
    NoCores,
    /// A dedicated core was asked for and none is idle.
    NoDedicatedCores,
    /// The core named in the request does not exist or is not reserved for
    /// network functions.
    CoreOutOfRange,
    /// The core named in the request is dedicated to another network
    /// function.
    CoreBusy,
    /// The slot is not starting, so it cannot become ready.
    NotStarting,
    /// The slot is neither starting, running nor paused, so there is nothing
    /// to stop.
    NotRunning,
}

/// The refusal of a request that stands for a refusal of the scheduler.
pub open spec fn spec_from_scheduling(e: SchedulingError) -> NfError {
    match e {
        SchedulingError::NoCores => NfError::NoCores,
        SchedulingError::NoDedicatedCores => NfError::NoDedicatedCores,
        SchedulingError::CoreOutOfRange => NfError::CoreOutOfRange,
        SchedulingError::CoreBusy => NfError::CoreBusy,
    }
}

/// The status a refused configuration is marked with. A configuration that
/// does not declare itself unassigned keeps the status it came with, and so
/// does the subject of a refused readiness or stop.
pub open spec fn spec_status_code(e: NfError, before: u8) -> u8 {
    match e {
        NfError::NoIds => NF_NO_IDS,
        NfError::ServiceCountMax => NF_SERVICE_COUNT_MAX,
        NfError::IdConflict => NF_ID_CONFLICT,
        NfError::NoCores => NF_NO_CORES,
        NfError::NoDedicatedCores => NF_NO_DEDICATED_CORES,
        NfError::CoreOutOfRange => NF_CORE_OUT_OF_RANGE,
        NfError::CoreBusy => NF_CORE_BUSY,
        _ => before,
    }
}

impl NfError {
    /// The refusal that stands for a refusal of the scheduler.
    pub fn from_scheduling(e: SchedulingError) -> (r: NfError)
        ensures
            r == spec_from_scheduling(e),
    {
        match e {
            SchedulingError::NoCores => NfError::NoCores,
            SchedulingError::NoDedicatedCores => NfError::NoDedicatedCores,
            SchedulingError::CoreOutOfRange => NfError::CoreOutOfRange,
            SchedulingError::CoreBusy => NfError::CoreBusy,
        }
    }

    /// The status a refused configuration is marked with, `before` where the
    /// refusal leaves the status alone.
    pub fn status_code(&self, before: u8) -> (r: u8)
        ensures
            r == spec_status_code(*self, before),
    {
        match self {
            NfError::NoIds => NF_NO_IDS,
            NfError::ServiceCountMax => NF_SERVICE_COUNT_MAX,
            NfError::IdConflict => NF_ID_CONFLICT,
            NfError::NoCores => NF_NO_CORES,
            NfError::NoDedicatedCores => NF_NO_DEDICATED_CORES,
            NfError::CoreOutOfRange => NF_CORE_OUT_OF_RANGE,
            NfError::CoreBusy => NF_CORE_BUSY,
            _ => before,
        }
    }
}

/// Replacing one slot changes the count of a core by what the slot
/// contributed before and contributes after.
pub proof fn lemma_live_on_core_update(slots: Seq<SlotView>, i: int, slot: SlotView, core: int)
    requires
        0 <= i < slots.len(),
    ensures
        live_on_core(slots.update(i, slot), core) + (if lives_on(slots[i], core) {
            1nat
        } else {
            0nat
        }) == live_on_core(slots, core) + (if lives_on(slot, core) {
            1nat
        } else {
            0nat
        }),
    decreases slots.len(),
{
    let n = slots.len() - 1;
    if i == n {
        assert(slots.update(i, slot).drop_last() =~= slots.drop_last());
    } else {
        assert(slots.update(i, slot).drop_last() =~= slots.drop_last().update(i, slot));
        lemma_live_on_core_update(slots.drop_last(), i, slot, core);
    }
}

/// Replacing one slot changes the number of running network functions by
/// what the slot contributed before and contributes after.
pub proof fn lemma_active_count_update(slots: Seq<SlotView>, i: int, slot: SlotView)
    requires
        0 <= i < slots.len(),
    ensures
        active_count(slots.update(i, slot)) + (if is_active(slots[i].status) {
            1nat
        } else {
            0nat
        }) == active_count(slots) + (if is_active(slot.status) {
            1nat
        } else {
            0nat
        }),
    decreases slots.len(),
{
    let n = slots.len() - 1;
    if i == n {
        assert(slots.update(i, slot).drop_last() =~= slots.drop_last());
    } else {
        assert(slots.update(i, slot).drop_last() =~= slots.drop_last().update(i, slot));
        lemma_active_count_update(slots.drop_last(), i, slot);
    }
}

/// Replacing one slot changes the number of slots that hold a network
/// function by what the slot contributed before and contributes after.
pub proof fn lemma_live_total_update(slots: Seq<SlotView>, i: int, slot: SlotView)
    requires
        0 <= i < slots.len(),
    ensures
        live_total(slots.update(i, slot)) + (if is_live(slots[i].status) {
            1nat
        } else {
            0nat
        }) == live_total(slots) + (if is_live(slot.status) {
            1nat
        } else {
            0nat
        }),
    decreases slots.len(),
{
    let n = slots.len() - 1;
    if i == n {
        assert(slots.update(i, slot).drop_last() =~= slots.drop_last());
    } else {
        assert(slots.update(i, slot).drop_last() =~= slots.drop_last().update(i, slot));
        lemma_live_total_update(slots.drop_last(), i, slot);
    }
}

/// No more slots hold a network function than there are slots; fewer where
/// a slot holds none.
pub proof fn lemma_live_total_bound(slots: Seq<SlotView>)
    ensures
        live_total(slots) <= slots.len(),
        forall|i: int|
            0 <= i < slots.len() && !is_live((#[trigger] slots[i]).status) ==> live_total(slots)
                < slots.len(),
    decreases slots.len(),
{
    if slots.len() > 0 {
        lemma_live_total_bound(slots.drop_last());
        assert forall|i: int|
            0 <= i < slots.len() && !is_live((#[trigger] slots[i]).status) implies live_total(slots)
            < slots.len() by {
            if i < slots.len() - 1 {
                assert(slots.drop_last()[i] == slots[i]);
            }
        }
    }
}

/// No core has more network functions bound to it than there are slots.
pub proof fn lemma_live_on_core_bound(slots: Seq<SlotView>, core: int)
    ensures
        live_on_core(slots, core) <= slots.len(),
    decreases slots.len(),
{
    if slots.len() > 0 {
        lemma_live_on_core_bound(slots.drop_last(), core);
    }
}

/// No more network functions run than there are slots; one fewer where a
/// slot is not running.
pub proof fn lemma_active_count_bound(slots: Seq<SlotView>)
    ensures
        active_count(slots) <= slots.len(),
        forall|i: int|
            0 <= i < slots.len() && !is_active((#[trigger] slots[i]).status) ==> active_count(slots)
                < slots.len(),
    decreases slots.len(),
{
    if slots.len() > 0 {
        lemma_active_count_bound(slots.drop_last());
        assert forall|i: int|
            0 <= i < slots.len() && !is_active((#[trigger] slots[i]).status) implies active_count(slots)
            < slots.len() by {
            if i < slots.len() - 1 {
                assert(slots.drop_last()[i] == slots[i]);
            }
        }
    }
}

/// The first instance id from `from` upwards whose slot holds no network
/// function, or `MAX_NFS` where there is none.
pub open spec fn first_free_from(slots: Seq<SlotView>, from: int) -> int
    decreases MAX_NFS - from,
{
    if from < 0 || from >= MAX_NFS {
        MAX_NFS as int
    } else if !is_live(slots[from].status) {
        from
    } else {
        first_free_from(slots, from + 1)
    }
}

/// What `first_free_from` finds is free and is the first such id.
pub proof fn lemma_first_free_from(slots: Seq<SlotView>, from: int)
    requires
        0 <= from <= MAX_NFS,
        slots.len() == MAX_NFS,
    ensures
        from <= first_free_from(slots, from) <= MAX_NFS,
        first_free_from(slots, from) < MAX_NFS ==> !is_live(
            slots[first_free_from(slots, from)].status,
        ),
        forall|j: int| from <= j < first_free_from(slots, from) ==> is_live((#[trigger] slots[j]).status),
    decreases MAX_NFS - from,
{
    if from < MAX_NFS && is_live(slots[from].status) {
        lemma_first_free_from(slots, from + 1);
    }
}

/// The instance id the next admission gets, and where the search after it
/// starts. The search goes upwards from where the last one ended, passes
/// over the slots that hold a network function and, at the end of the
/// table, starts again at id 1. `MAX_NFS` stands for "none": every slot is
/// taken, or as many network functions run as there are slots.
pub open spec fn next_instance_id_outcome(v: ManagerView) -> (u32, nat) {
    if v.num_nfs >= MAX_NFS {
        (MAX_NFS as u32, v.next_instance_id)
    } else {
        let a = first_free_from(v.slots, v.next_instance_id as int);
        if a < MAX_NFS {
            (a as u32, (a + 1) as nat)
        } else {
            let b = first_free_from(v.slots, 1);
            if b < MAX_NFS {
                (b as u32, (b + 1) as nat)
            } else {
                (MAX_NFS as u32, MAX_NFS as nat)
            }
        }
    }
}

/// Hands out the next free instance id, or `MAX_NFS` where there is none.
/// Only the place where the next search starts changes.
pub fn onvm_nf_next_instance_id(global_state: &mut GlobalNFState) -> (r: u32)
    requires
        old(global_state).wf(),
    ensures
        final(global_state).wf(),
        r == next_instance_id_outcome(old(global_state)@).0,
        final(global_state)@ == (ManagerView {
            next_instance_id: next_instance_id_outcome(old(global_state)@).1,
            ..old(global_state)@
        }),
        r <= MAX_NFS,
        r < MAX_NFS ==> r >= 1 && !is_live(old(global_state)@.slots[r as int].status),
{
    if global_state.num_nfs >= MAX_NFS as u32 {
        return MAX_NFS as u32;
    }
    let ghost slots = global_state@.slots;
    let ghost start = global_state.next_instance_id as int;
    while global_state.next_instance_id < MAX_NFS as u32
        invariant
            global_state.wf(),
            global_state@ == (ManagerView {
                next_instance_id: global_state.next_instance_id as nat,
                ..old(global_state)@
            }),
            slots == old(global_state)@.slots,
            old(global_state).num_nfs < MAX_NFS,
            start == old(global_state).next_instance_id,
            start <= global_state.next_instance_id <= MAX_NFS,
            first_free_from(slots, start) == first_free_from(
                slots,
                global_state.next_instance_id as int,
            ),
        decreases MAX_NFS - global_state.next_instance_id,
    {
        let instance_id = global_state.next_instance_id;
        global_state.next_instance_id = global_state.next_instance_id + 1;
        let status = global_state.nfs[instance_id as usize].status;
        proof {
            assert(slots[instance_id as int].status == status);
            assert(first_free_from(slots, instance_id as int) == if is_live(status) {
                first_free_from(slots, instance_id + 1)
            } else {
                instance_id as int
            });
        }
        if !status_is_live(status) {
            return instance_id;
        }
    }
    global_state.next_instance_id = 1;
    while global_state.next_instance_id < MAX_NFS as u32
        invariant
            global_state.wf(),
            global_state@ == (ManagerView {
                next_instance_id: global_state.next_instance_id as nat,
                ..old(global_state)@
            }),
            slots == old(global_state)@.slots,
            old(global_state).num_nfs < MAX_NFS,
            start == old(global_state).next_instance_id,
            first_free_from(slots, start) == MAX_NFS,
            1 <= global_state.next_instance_id <= MAX_NFS,
            first_free_from(slots, 1) == first_free_from(slots, global_state.next_instance_id as int),
        decreases MAX_NFS - global_state.next_instance_id,
    {
        let instance_id = global_state.next_instance_id;
        global_state.next_instance_id = global_state.next_instance_id + 1;
        let status = global_state.nfs[instance_id as usize].status;
        proof {
            assert(slots[instance_id as int].status == status);
            assert(first_free_from(slots, instance_id as int) == if is_live(status) {
                first_free_from(slots, instance_id + 1)
            } else {
                instance_id as int
            });
        }
        if !status_is_live(status) {
            return instance_id;
        }
    }
    MAX_NFS as u32
}

/// The core options of a configuration: the low byte of its options.
pub open spec fn core_options(init_options: u16) -> u8 {
    (init_options % 256) as u8
}

/// The tag a slot keeps of a configuration: the bytes of the configuration's
/// tag, cut off after `TAG_SIZE` of them; nothing where it has no tag.
pub open spec fn tag_bytes(tag: Option<String>) -> Seq<u8> {
    match tag {
        None => Seq::<u8>::empty(),
        Some(s) => {
            let bytes = vstd::utf8::encode_utf8(s@);
            if bytes.len() <= TAG_SIZE {
                bytes
            } else {
                bytes.take(TAG_SIZE as int)
            }
        },
    }
}

/// The slot `before` after the network function of `cfg` was admitted to it,
/// bound to core `core` and given the configuration block `block`. The
/// rings stay as they are.
pub open spec fn started_slot(before: SlotView, cfg: OnvmNfInitCfg, core: u16, block: usize) -> SlotView {
    SlotView {
        instance_id: before.instance_id,
        service_id: cfg.service_id,
        status: NF_STARTING,
        tag: tag_bytes(cfg.tag),
        thread_info: ThreadInfo { core, parent: 0, children_count: 0 },
        flags: Flags {
            init_options: cfg.init_options,
            time_to_live: cfg.time_to_live,
            pkt_limit: cfg.pkt_limit,
        },
        cfg_block: Some(block),
        rx_q: before.rx_q,
        tx_q: before.tx_q,
        msg_q: before.msg_q,
    }
}

/// What the admission of a network function leads to: the manager's new
/// state, the configuration as it is handed back, and the answer.
///
/// The configuration must declare itself unassigned, by a service id of
/// `NF_WAITING_FOR_ID`; one that does not is refused and nothing changes.
/// Then an instance id is
/// searched, which moves the start of the next search whatever follows. The
/// admission is refused, and the configuration marked with the reason, where
/// no id is free, where the service is full, or where the scheduler has no
/// core. Otherwise the slot of the id starts, bound to the core the
/// scheduler assigned and holding the configuration block on top of the
/// pool, and the configuration carries the id, the core and the status
/// `NF_STARTING`.
pub open spec fn start_outcome(v: ManagerView, cfg: OnvmNfInitCfg) -> (
    ManagerView,
    OnvmNfInitCfg,
    Result<(), NfError>,
) {
    if cfg.service_id != NF_WAITING_FOR_ID {
        (v, cfg, Err(NfError::NotWaitingForId))
    } else {
        let (id, next) = next_instance_id_outcome(v);
        let searched = ManagerView { next_instance_id: next, ..v };
        if id >= MAX_NFS {
            (searched, OnvmNfInitCfg { status: NF_NO_IDS, ..cfg }, Err(NfError::NoIds))
        } else if v.services[cfg.service_id as int].len() >= MAX_NFS_PER_SERVICE {
            (
                searched,
                OnvmNfInitCfg { status: NF_SERVICE_COUNT_MAX, ..cfg },
                Err(NfError::ServiceCountMax),
            )
        } else {
            match assign_outcome(v.cores, cfg.core, core_options(cfg.init_options)) {
                Err(e) => (
                    searched,
                    OnvmNfInitCfg {
                        status: spec_status_code(spec_from_scheduling(e), cfg.status),
                        ..cfg
                    },
                    Err(spec_from_scheduling(e)),
                ),
                Ok(core) => (
                    ManagerView {
                        next_instance_id: next,
                        cores: cores_after_assign(v.cores, core as int, core_options(cfg.init_options)),
                        cfg_pool_free: v.cfg_pool_free.drop_last(),
                        slots: v.slots.update(
                            id as int,
                            started_slot(v.slots[id as int], cfg, core, v.cfg_pool_free.last()),
                        ),
                        ..v
                    },
                    OnvmNfInitCfg { instance_id: id as u16, core, status: NF_STARTING, ..cfg },
                    Ok(()),
                ),
            }
        }
    }
}

/// The search for an instance id keeps the state well formed, and an id it
/// hands out is at least 1 and names a slot that holds no network function.
pub proof fn lemma_next_instance_id(v: ManagerView)
    requires
        view_wf(v),
    ensures
        view_wf(ManagerView { next_instance_id: next_instance_id_outcome(v).1, ..v }),
        next_instance_id_outcome(v).0 <= MAX_NFS,
        next_instance_id_outcome(v).0 < MAX_NFS ==> next_instance_id_outcome(v).0 >= 1 && !is_live(
            v.slots[next_instance_id_outcome(v).0 as int].status,
        ),
{
    lemma_first_free_from(v.slots, v.next_instance_id as int);
    lemma_first_free_from(v.slots, 1);
}

/// While a slot holds no network function, the pool of configuration
/// blocks has a block left.
pub proof fn lemma_cfg_block_left(v: ManagerView)
    requires
        view_wf(v),
    ensures
        v.cfg_pool_free.len() > 0,
{
    lemma_live_total_bound(v.slots);
    assert(!is_live(v.slots[0].status));
}

/// An admission keeps the state well formed, whatever its answer: the
/// cores still count their network functions, the services their members,
/// and every network function has a configuration block of its own.
pub proof fn lemma_start_wf(v: ManagerView, cfg: OnvmNfInitCfg)
    requires
        view_wf(v),
    ensures
        view_wf(start_outcome(v, cfg).0),
{
    let out = start_outcome(v, cfg);
    if cfg.service_id == NF_WAITING_FOR_ID {
        lemma_next_instance_id(v);
        let (id, next) = next_instance_id_outcome(v);
        let flags = core_options(cfg.init_options);
        if out.2 is Ok {
            let core = assign_outcome(v.cores, cfg.core, flags)->Ok_0;
            lemma_assign_outcome(v.cores, cfg.core, flags);
            let slot = started_slot(v.slots[id as int], cfg, core, v.cfg_pool_free.last());
            let w = out.0;
            assert(w.slots == v.slots.update(id as int, slot));
            assert forall|c: int| 0 <= c < w.cores.len() implies (#[trigger] w.cores[c]).nf_count
                == live_on_core(w.slots, c) by {
                lemma_live_on_core_update(v.slots, id as int, slot, c);
                lemma_live_on_core_bound(v.slots, c);
            }
            lemma_active_count_update(v.slots, id as int, slot);
            lemma_live_total_update(v.slots, id as int, slot);
            lemma_cfg_block_left(v);
            assert(blocks_wf(w)) by {
                let block = v.cfg_pool_free.last();
                assert(v.cfg_pool_free.contains(block));
                assert forall|i: int|
                    0 <= i < w.slots.len() && is_live((#[trigger] w.slots[i]).status) implies w.slots[i].cfg_block
                    is Some && handle_in_use(
                    NF_INIT_CFG_POOL_SIZE as nat,
                    w.cfg_pool_free,
                    w.slots[i].cfg_block->0,
                ) by {
                    let h = w.slots[i].cfg_block->0;
                    if i != id {
                        assert(v.slots[i] == w.slots[i]);
                    }
                    if w.cfg_pool_free.contains(h) {
                        let k = choose|k: int| 0 <= k < w.cfg_pool_free.len() && w.cfg_pool_free[k] == h;
                        assert(v.cfg_pool_free[k] == h);
                    }
                }
                assert forall|i: int, j: int|
                    0 <= i < w.slots.len() && 0 <= j < w.slots.len() && i != j && is_live(
                        (#[trigger] w.slots[i]).status,
                    ) && is_live((#[trigger] w.slots[j]).status) implies w.slots[i].cfg_block
                    != w.slots[j].cfg_block by {
                    if i != id {
                        assert(v.slots[i] == w.slots[i]);
                    }
                    if j != id {
                        assert(v.slots[j] == w.slots[j]);
                    }
                }
            }
            assert forall|s: int, k: int|
                0 <= s < w.services.len() && 0 <= k < w.services[s].len() implies {
                let m = #[trigger] w.services[s][k];
                &&& m < MAX_NFS
                &&& is_active(w.slots[m as int].status)
                &&& w.slots[m as int].service_id == s
            } by {
                let m = v.services[s][k];
                assert(is_active(v.slots[m as int].status));
            }
            assert forall|i: int|
                0 <= i < w.slots.len() && is_active((#[trigger] w.slots[i]).status) implies w.services[w.slots[i].service_id as int].contains(
                i as u16,
            ) by {
                assert(v.slots[i] == w.slots[i]);
            }
        }
    }
}

/// The bytes of a configuration's tag that a slot keeps.
fn copy_tag(tag: &Option<String>) -> (r: Vec<u8>)
    ensures
        r@ == tag_bytes(*tag),
{
    let mut out: Vec<u8> = Vec::new();
    match tag {
        None => {},
        Some(s) => {
            let bytes = s.as_str().as_bytes();
            let n = if bytes.len() <= TAG_SIZE {
                bytes.len()
            } else {
                TAG_SIZE
            };
            let mut i: usize = 0;
            while i < n
                invariant
                    i <= n,
                    n <= bytes@.len(),
                    out@ == bytes@.take(i as int),
                decreases n - i,
            {
                out.push(bytes[i]);
                proof {
                    assert(out@ =~= bytes@.take(i as int + 1));
                }
                i = i + 1;
            }
            proof {
                assert(bytes@.take(bytes@.len() as int) =~= bytes@);
            }
        },
    }
    out
}

/// Admits a network function: gives it an instance id, a core and a
/// configuration block, and puts its slot into the state `NF_STARTING`.
///
/// The configuration is handed back with the id, the core and the new
/// status, or, where the admission is refused, with the status that names
/// the reason. A refused admission changes nothing of the tables; it may
/// have moved the place where the next search for an id starts.
pub fn onvm_nf_start(nf_init_cfg: &mut OnvmNfInitCfg, global_state: &mut GlobalNFState) -> (r: Result<
    (),
    NfError,
>)
    requires
        old(global_state).wf(),
    ensures
        final(global_state).wf(),
        final(global_state)@ == start_outcome(old(global_state)@, *old(nf_init_cfg)).0,
        *final(nf_init_cfg) == start_outcome(old(global_state)@, *old(nf_init_cfg)).1,
        r == start_outcome(old(global_state)@, *old(nf_init_cfg)).2,
{
    if nf_init_cfg.service_id != NF_WAITING_FOR_ID as u16 {
        return Err(NfError::NotWaitingForId);
    }
    proof {
        lemma_start_wf(global_state@, *nf_init_cfg);
        lemma_next_instance_id(global_state@);
        lemma_cfg_block_left(global_state@);
    }
    let nf_id = onvm_nf_next_instance_id(global_state);
    if nf_id >= MAX_NFS as u32 {
        nf_init_cfg.status = NF_NO_IDS;
        return Err(NfError::NoIds);
    }
    let id = nf_id as usize;
    let service = nf_init_cfg.service_id as usize;
    assert(global_state@.services[service as int] == global_state.services@[service as int]@);
    if global_state.services[service].len() >= MAX_NFS_PER_SERVICE as usize {
        nf_init_cfg.status = NF_SERVICE_COUNT_MAX;
        return Err(NfError::ServiceCountMax);
    }
    assert(global_state@.slots[id as int] == global_state.nfs@[id as int]@);
    if onvm_nf_is_valid(&global_state.nfs[id]) {
        nf_init_cfg.status = NF_ID_CONFLICT;
        return Err(NfError::IdConflict);
    }
    let options = (nf_init_cfg.init_options % 256) as u8;
    proof {
        assert forall|i: int| 0 <= i < global_state.cores@.len() implies (
        #[trigger] global_state.cores@[i]).nf_count < u16::MAX by {
            lemma_live_on_core_bound(global_state@.slots, i);
        }
    }
    match onvm_threading_get_core(nf_init_cfg.core, options, &mut global_state.cores) {
        Err(e) => {
            let err = NfError::from_scheduling(e);
            nf_init_cfg.status = err.status_code(nf_init_cfg.status);
            Err(err)
        },
        Ok(core) => {
            let block = global_state.nf_init_cfg_pool.acquire();
            let tag = copy_tag(&nf_init_cfg.tag);
            let slot = &mut global_state.nfs[id];
            slot.service_id = nf_init_cfg.service_id;
            slot.status = NF_STARTING;
            slot.tag = tag;
            slot.thread_info = ThreadInfo { core, parent: 0, children_count: 0 };
            slot.flags = Flags {
                init_options: nf_init_cfg.init_options,
                time_to_live: nf_init_cfg.time_to_live,
                pkt_limit: nf_init_cfg.pkt_limit,
            };
            slot.cfg_block = match block {
                Ok(h) => Some(h),
                Err(_) => None,
            };
            nf_init_cfg.instance_id = nf_id as u16;
            nf_init_cfg.core = core;
            nf_init_cfg.status = NF_STARTING;
            proof {
                let expected = start_outcome(old(global_state)@, *old(nf_init_cfg)).0;
                assert(global_state@.slots =~= expected.slots);
                assert(global_state@.services =~= expected.services);
                assert(global_state@ == expected);
            }
            Ok(())
        },
    }
}

/// The pool handles of the packets of a ring, in ring order.
pub open spec fn mbuf_handles(q: Seq<Mbuf>) -> Seq<usize> {
    q.map_values(|m: Mbuf| m.handle)
}

/// The pool handles of the messages of a ring, in ring order.
pub open spec fn msg_handles(q: Seq<MsgObject>) -> Seq<usize> {
    q.map_values(|m: MsgObject| m.handle)
}

/// Empties a packet ring, burst by burst until a burst comes back empty,
/// and gives every packet back to the packet pool.
pub fn drain_packets(ring: &mut Ring<Mbuf>, pool: &mut Pool)
    requires
        old(ring).wf(),
        old(pool).wf(),
    ensures
        final(ring).wf(),
        final(ring).spec_capacity() == old(ring).spec_capacity(),
        final(ring)@ == Seq::<Mbuf>::empty(),
        final(pool).wf(),
        final(pool).spec_capacity() == old(pool).spec_capacity(),
        final(pool).spec_free() == free_after_release_all(
            old(pool).spec_capacity(),
            old(pool).spec_free(),
            mbuf_handles(old(ring)@),
        ),
{
    let ghost all = old(ring)@;
    let ghost hs = mbuf_handles(all);
    let ghost cap = old(pool).spec_capacity();
    let ghost free = old(pool).spec_free();
    let ghost mut done: int = 0;
    proof {
        assert(hs.take(0) =~= Seq::<usize>::empty());
    }
    let mut pkts = ring.dequeue_burst(PACKET_READ_SIZE);
    while pkts.len() > 0
        invariant
            ring.wf(),
            ring.spec_capacity() == old(ring).spec_capacity(),
            pool.wf(),
            pool.spec_capacity() == cap,
            hs == mbuf_handles(all),
            0 <= done,
            done + pkts@.len() <= all.len(),
            pkts@ == all.subrange(done, done + pkts@.len()),
            ring@ == all.skip(done + pkts@.len()),
            pkts@.len() == 0 ==> ring@.len() == 0,
            pool.spec_free() == free_after_release_all(cap, free, hs.take(done)),
        decreases all.len() - done,
    {
        let n = pkts.len();
        let mut i: usize = 0;
        while i < n
            invariant
                i <= n,
                n == pkts@.len(),
                pool.wf(),
                pool.spec_capacity() == cap,
                hs == mbuf_handles(all),
                0 <= done,
                done + n <= all.len(),
                pkts@ == all.subrange(done, done + n),
                pool.spec_free() == free_after_release_all(cap, free, hs.take(done + i)),
            decreases n - i,
        {
            proof {
                lemma_release_all_step(cap, free, hs, done + i);
                assert(pkts@[i as int] == all[done + i]);
            }
            let _ = pool.release(pkts[i].handle);
            i = i + 1;
        }
        proof {
            done = done + n;
        }
        pkts = ring.dequeue_burst(PACKET_READ_SIZE);
        proof {
            assert(pkts@ =~= all.subrange(done, done + pkts@.len()));
            assert(ring@ =~= all.skip(done + pkts@.len()));
        }
    }
    proof {
        assert(done == all.len());
        assert(hs.take(done) =~= hs);
        assert(ring@ =~= Seq::<Mbuf>::empty());
    }
}

/// Empties a message ring, one message after the other, and gives every
/// message object back to the message pool.
pub fn drain_messages(ring: &mut Ring<MsgObject>, pool: &mut Pool)
    requires
        old(ring).wf(),
        old(pool).wf(),
    ensures
        final(ring).wf(),
        final(ring).spec_capacity() == old(ring).spec_capacity(),
        final(ring)@ == Seq::<MsgObject>::empty(),
        final(pool).wf(),
        final(pool).spec_capacity() == old(pool).spec_capacity(),
        final(pool).spec_free() == free_after_release_all(
            old(pool).spec_capacity(),
            old(pool).spec_free(),
            msg_handles(old(ring)@),
        ),
{
    let ghost all = old(ring)@;
    let ghost hs = msg_handles(all);
    let ghost cap = old(pool).spec_capacity();
    let ghost free = old(pool).spec_free();
    let ghost mut done: int = 0;
    proof {
        assert(hs.take(0) =~= Seq::<usize>::empty());
        assert(all.skip(0) =~= all);
    }
    loop
        invariant_except_break
            ring.wf(),
            ring.spec_capacity() == old(ring).spec_capacity(),
            pool.wf(),
            pool.spec_capacity() == cap,
            hs == msg_handles(all),
            0 <= done <= all.len(),
            ring@ == all.skip(done),
            pool.spec_free() == free_after_release_all(cap, free, hs.take(done)),
        ensures
            ring.wf(),
            ring.spec_capacity() == old(ring).spec_capacity(),
            pool.wf(),
            pool.spec_capacity() == cap,
            ring@ == Seq::<MsgObject>::empty(),
            pool.spec_free() == free_after_release_all(cap, free, hs),
        decreases all.len() - done,
    {
        match ring.dequeue() {
            None => {
                proof {
                    assert(done == all.len());
                    assert(hs.take(done) =~= hs);
                    assert(ring@ =~= Seq::<MsgObject>::empty());
                }
                break ;
            },
            Some(obj) => {
                proof {
                    lemma_release_all_step(cap, free, hs, done);
                    assert(obj == all[done]);
                    assert(ring@ =~= all.skip(done + 1));
                }
                let _ = pool.release(obj.handle);
                proof {
                    done = done + 1;
                }
            },
        }
    }
}

/// Takes `id` out of a service's list of members. The members behind it
/// move up by one place, so that the list has no gap.
pub fn remove_service_member(members: &mut Vec<u16>, id: u16)
    ensures
        final(members)@ == old(members)@.remove_value(id),
{
    let mut k: usize = 0;
    while k < members.len()
        invariant
            members@ == old(members)@,
            k <= members@.len(),
            forall|j: int| 0 <= j < k ==> members@[j] != id,
        decreases members@.len() - k,
    {
        if members[k] == id {
            proof {
                old(members)@.index_of_first_ensures(id);
                let first = old(members)@.index_of_first(id);
                assert(old(members)@.contains(id));
                assert(first == Some(k as int));
            }
            let _ = members.remove(k);
            return ;
        }
        k = k + 1;
    }
    proof {
        old(members)@.index_of_first_ensures(id);
        if old(members)@.contains(id) {
            let j = choose|j: int| 0 <= j < old(members)@.len() && old(members)@[j] == id;
            assert(members@[j] != id);
        }
    }
}

/// What a readiness notice for slot `id` leads to.
///
/// Only a starting slot can become ready, and only while its service has
/// room for one more member: a slot that is not starting is refused with
/// `NotStarting`, a full service with `ServiceCountMax`, and either leaves
/// the state as it is. Otherwise the slot runs, the service lists it last,
/// and one more network function counts as running.
pub open spec fn ready_outcome(v: ManagerView, id: u16) -> (ManagerView, Result<(), NfError>) {
    if id >= MAX_NFS || v.slots[id as int].status != NF_STARTING {
        (v, Err(NfError::NotStarting))
    } else {
        let s = v.slots[id as int].service_id as int;
        if v.services[s].len() >= MAX_NFS_PER_SERVICE {
            (v, Err(NfError::ServiceCountMax))
        } else {
            (
                ManagerView {
                    slots: v.slots.update(
                        id as int,
                        SlotView { status: NF_RUNNING, ..v.slots[id as int] },
                    ),
                    services: v.services.update(s, v.services[s].push(id)),
                    num_nfs: v.num_nfs + 1,
                    ..v
                },
                Ok(()),
            )
        }
    }
}

/// A readiness notice keeps the state well formed, whatever its answer.
pub proof fn lemma_ready_wf(v: ManagerView, id: u16)
    requires
        view_wf(v),
    ensures
        view_wf(ready_outcome(v, id).0),
{
    let out = ready_outcome(v, id);
    if out.1 is Ok {
        let w = out.0;
        let i = id as int;
        let s = v.slots[i].service_id as int;
        let slot = SlotView { status: NF_RUNNING, ..v.slots[i] };
        assert(w.slots == v.slots.update(i, slot));
        assert forall|c: int| 0 <= c < w.cores.len() implies (#[trigger] w.cores[c]).nf_count
            == live_on_core(w.slots, c) by {
            lemma_live_on_core_update(v.slots, i, slot, c);
        }
        lemma_active_count_update(v.slots, i, slot);
        lemma_live_total_update(v.slots, i, slot);
        assert(blocks_wf(w)) by {
            assert forall|a: int|
                0 <= a < w.slots.len() && is_live((#[trigger] w.slots[a]).status) implies w.slots[a].cfg_block
                is Some && handle_in_use(
                NF_INIT_CFG_POOL_SIZE as nat,
                w.cfg_pool_free,
                w.slots[a].cfg_block->0,
            ) by {
                assert(is_live(v.slots[a].status));
            }
            assert forall|a: int, b: int|
                0 <= a < w.slots.len() && 0 <= b < w.slots.len() && a != b && is_live(
                    (#[trigger] w.slots[a]).status,
                ) && is_live((#[trigger] w.slots[b]).status) implies w.slots[a].cfg_block
                != w.slots[b].cfg_block by {
                assert(is_live(v.slots[a].status));
                assert(is_live(v.slots[b].status));
            }
        }
        assert(!v.services[s].contains(id)) by {
            if v.services[s].contains(id) {
                let k = choose|k: int| 0 <= k < v.services[s].len() && v.services[s][k] == id;
                assert(is_active(v.slots[v.services[s][k] as int].status));
            }
        }
        assert forall|t: int, j: int, k: int|
            0 <= t < w.services.len() && 0 <= j < k < w.services[t].len() implies (
        #[trigger] w.services[t][j]) != (#[trigger] w.services[t][k]) by {
            if t == s && k == v.services[s].len() {
                assert(v.services[s][j] == w.services[t][j]);
            } else {
                assert(v.services[t][j] != v.services[t][k]);
            }
        }
        assert forall|t: int, k: int| 0 <= t < w.services.len() && 0 <= k < w.services[t].len() implies {
            let m = #[trigger] w.services[t][k];
            &&& m < MAX_NFS
            &&& is_active(w.slots[m as int].status)
            &&& w.slots[m as int].service_id == t
        } by {
            if !(t == s && k == v.services[s].len()) {
                let m = v.services[t][k];
                assert(is_active(v.slots[m as int].status));
            }
        }
        assert forall|j: int|
            0 <= j < w.slots.len() && is_active((#[trigger] w.slots[j]).status) implies w.services[w.slots[j].service_id as int].contains(
            j as u16,
        ) by {
            let t = w.slots[j].service_id as int;
            if j == i {
                assert(w.services[s][v.services[s].len() as int] == id);
            } else {
                assert(v.slots[j] == w.slots[j]);
                let k = choose|k: int| 0 <= k < v.services[t].len() && v.services[t][k] == j as u16;
                assert(w.services[t][k] == j as u16);
            }
        }
    }
}

/// Marks a starting network function as running and registers it with its
/// service. A slot that is not starting, or whose service is full, is
/// refused and nothing changes.
pub fn onvm_nf_ready(ready: u16, global_state: &mut GlobalNFState) -> (r: Result<(), NfError>)
    requires
        old(global_state).wf(),
    ensures
        final(global_state).wf(),
        final(global_state)@ == ready_outcome(old(global_state)@, ready).0,
        r == ready_outcome(old(global_state)@, ready).1,
{
    if ready >= MAX_NFS as u16 {
        return Err(NfError::NotStarting);
    }
    let id = ready as usize;
    assert(global_state@.slots[id as int] == global_state.nfs@[id as int]@);
    if global_state.nfs[id].status != NF_STARTING {
        return Err(NfError::NotStarting);
    }
    let service = global_state.nfs[id].service_id as usize;
    assert(global_state@.services[service as int] == global_state.services@[service as int]@);
    if global_state.services[service].len() >= MAX_NFS_PER_SERVICE as usize {
        return Err(NfError::ServiceCountMax);
    }
    proof {
        lemma_ready_wf(global_state@, ready);
        lemma_active_count_bound(global_state@.slots);
    }
    global_state.services[service].push(ready);
    global_state.num_nfs = global_state.num_nfs + 1;
    global_state.nfs[id].status = NF_RUNNING;
    proof {
        let expected = ready_outcome(old(global_state)@, ready).0;
        assert(global_state@.slots =~= expected.slots);
        assert(global_state@.services =~= expected.services);
        assert(global_state@ == expected);
    }
    Ok(())
}

/// A slot after its network function stopped: stopped, its rings empty and
/// its configuration block given back.
pub open spec fn stopped_slot(before: SlotView) -> SlotView {
    SlotView {
        status: NF_STOPPED,
        cfg_block: None,
        rx_q: Seq::<Mbuf>::empty(),
        tx_q: Seq::<Mbuf>::empty(),
        msg_q: Seq::<MsgObject>::empty(),
        ..before
    }
}

/// A slot after one of its children stopped: one child fewer, a count of
/// zero staying zero.
pub open spec fn child_left(parent: SlotView) -> SlotView {
    SlotView {
        thread_info: ThreadInfo {
            children_count: if parent.thread_info.children_count > 0 {
                (parent.thread_info.children_count - 1) as u16
            } else {
                0
            },
            ..parent.thread_info
        },
        ..parent
    }
}

/// The slots after the network function of slot `id` stopped: the slot is
/// stopped and emptied, and its parent, if it has one, has a child fewer.
pub open spec fn slots_after_stop(slots: Seq<SlotView>, id: int) -> Seq<SlotView> {
    let stopped = slots.update(id, stopped_slot(slots[id]));
    let parent = slots[id].thread_info.parent;
    if parent != 0 && parent < slots.len() {
        stopped.update(parent as int, child_left(stopped[parent as int]))
    } else {
        stopped
    }
}

/// What a stop of slot `id` leads to.
///
/// A slot that is neither starting, running nor paused is refused with
/// `NotRunning`, and the state stays as it is. Otherwise the slot is
/// stopped, its parent loses a child, its core is released, the packets of
/// its two packet rings go back to the packet pool, the messages of its
/// message ring to the message pool, and its configuration block to the
/// pool of those. Where the network function was running or paused, one
/// fewer counts as running and its service lists it no longer, the members
/// behind it moving up.
pub open spec fn stop_outcome(v: ManagerView, id: u16) -> (ManagerView, Result<(), NfError>) {
    if id >= MAX_NFS || !is_live(v.slots[id as int].status) {
        (v, Err(NfError::NotRunning))
    } else {
        let slot = v.slots[id as int];
        let s = slot.service_id as int;
        let cleaned = ManagerView {
            slots: slots_after_stop(v.slots, id as int),
            cores: cores_after_release(v.cores, slot.thread_info.core as int),
            pkt_pool_free: free_after_release_all(
                NUM_MBUFS as nat,
                free_after_release_all(NUM_MBUFS as nat, v.pkt_pool_free, mbuf_handles(slot.rx_q)),
                mbuf_handles(slot.tx_q),
            ),
            msg_pool_free: free_after_release_all(
                NF_MSG_POOL_SIZE as nat,
                v.msg_pool_free,
                msg_handles(slot.msg_q),
            ),
            cfg_pool_free: match slot.cfg_block {
                Some(h) => free_after_release(NF_INIT_CFG_POOL_SIZE as nat, v.cfg_pool_free, h),
                None => v.cfg_pool_free,
            },
            ..v
        };
        if is_active(slot.status) {
            (
                ManagerView {
                    num_nfs: (v.num_nfs - 1) as nat,
                    services: v.services.update(s, v.services[s].remove_value(id)),
                    ..cleaned
                },
                Ok(()),
            )
        } else {
            (cleaned, Ok(()))
        }
    }
}

/// Taking a member out of a list without repetitions leaves the other
/// members, in their order, and nothing else.
pub proof fn lemma_remove_member(members: Seq<u16>, id: u16)
    requires
        forall|j: int, k: int| 0 <= j < k < members.len() ==> members[j] != members[k],
    ensures
        members.remove_value(id).len() <= members.len(),
        !members.remove_value(id).contains(id),
        forall|k: int|
            0 <= k < members.remove_value(id).len() ==> members.contains(
                #[trigger] members.remove_value(id)[k],
            ),
        forall|m: u16| m != id && members.contains(m) ==> members.remove_value(id).contains(m),
        forall|j: int, k: int|
            0 <= j < k < members.remove_value(id).len() ==> members.remove_value(id)[j]
                != members.remove_value(id)[k],
{
    members.index_of_first_ensures(id);
    let after = members.remove_value(id);
    match members.index_of_first(id) {
        None => {},
        Some(p) => {
            members.remove_ensures(p);
            assert forall|k: int| 0 <= k < after.len() implies members.contains(#[trigger] after[k])
                && after[k] != id by {
                if k < p {
                    assert(after[k] == members[k]);
                } else {
                    assert(after[k] == members[k + 1]);
                }
            }
            assert forall|m: u16| m != id && members.contains(m) implies after.contains(m) by {
                let j = choose|j: int| 0 <= j < members.len() && members[j] == m;
                if j < p {
                    assert(after[j] == m);
                } else {
                    assert(after[j - 1] == m);
                }
            }
            assert forall|j: int, k: int| 0 <= j < k < after.len() implies after[j] != after[k] by {
                let a = if j < p {
                    j
                } else {
                    j + 1
                };
                let b = if k < p {
                    k
                } else {
                    k + 1
                };
                assert(after[j] == members[a]);
                assert(after[k] == members[b]);
            }
        },
    }
}

/// A stop keeps the state well formed, whatever its answer: the core the
/// network function ran on counts one fewer, and its service lists it no
/// longer.
pub proof fn lemma_stop_wf(v: ManagerView, id: u16)
    requires
        view_wf(v),
    ensures
        view_wf(stop_outcome(v, id).0),
{
    let out = stop_outcome(v, id);
    if out.1 is Ok {
        let w = out.0;
        let i = id as int;
        let slot = v.slots[i];
        let s = slot.service_id as int;
        let core = slot.thread_info.core as int;
        let stopped = v.slots.update(i, stopped_slot(slot));
        let parent = slot.thread_info.parent as int;
        assert(w.slots == slots_after_stop(v.slots, i));
        assert forall|j: int| 0 <= j < w.slots.len() implies (#[trigger] w.slots[j]).status == (if j
            == i {
            NF_STOPPED
        } else {
            v.slots[j].status
        }) && w.slots[j].thread_info.core == v.slots[j].thread_info.core && w.slots[j].service_id
            == v.slots[j].service_id && w.slots[j].instance_id == v.slots[j].instance_id by {}
        assert forall|c: int| 0 <= c < v.cores.len() implies live_on_core(w.slots, c) + (if c == core {
            1nat
        } else {
            0nat
        }) == live_on_core(v.slots, c) by {
            lemma_live_on_core_update(v.slots, i, stopped_slot(slot), c);
            if parent != 0 && parent < v.slots.len() {
                lemma_live_on_core_update(stopped, parent, child_left(stopped[parent]), c);
            }
        }
        assert(active_count(w.slots) + (if is_active(slot.status) {
            1nat
        } else {
            0nat
        }) == active_count(v.slots)) by {
            lemma_active_count_update(v.slots, i, stopped_slot(slot));
            if parent != 0 && parent < v.slots.len() {
                lemma_active_count_update(stopped, parent, child_left(stopped[parent]));
            }
        }
        assert(cores_wf(w));
        assert(live_total(w.slots) + 1 == live_total(v.slots)) by {
            lemma_live_total_update(v.slots, i, stopped_slot(slot));
            if parent != 0 && parent < v.slots.len() {
                lemma_live_total_update(stopped, parent, child_left(stopped[parent]));
            }
        }
        assert(blocks_wf(w)) by {
            let block = slot.cfg_block->0;
            assert(w.cfg_pool_free == v.cfg_pool_free.push(block));
            assert forall|a: int|
                0 <= a < w.slots.len() && is_live((#[trigger] w.slots[a]).status) implies w.slots[a].cfg_block
                is Some && handle_in_use(
                NF_INIT_CFG_POOL_SIZE as nat,
                w.cfg_pool_free,
                w.slots[a].cfg_block->0,
            ) by {
                assert(a != i);
                assert(is_live(v.slots[a].status));
                assert(w.slots[a].cfg_block == v.slots[a].cfg_block);
                let h = w.slots[a].cfg_block->0;
                if w.cfg_pool_free.contains(h) {
                    let k = choose|k: int| 0 <= k < w.cfg_pool_free.len() && w.cfg_pool_free[k] == h;
                    if k < v.cfg_pool_free.len() {
                        assert(v.cfg_pool_free[k] == h);
                    }
                }
            }
            assert forall|a: int, b: int|
                0 <= a < w.slots.len() && 0 <= b < w.slots.len() && a != b && is_live(
                    (#[trigger] w.slots[a]).status,
                ) && is_live((#[trigger] w.slots[b]).status) implies w.slots[a].cfg_block
                != w.slots[b].cfg_block by {
                assert(is_live(v.slots[a].status));
                assert(is_live(v.slots[b].status));
                assert(w.slots[a].cfg_block == v.slots[a].cfg_block);
                assert(w.slots[b].cfg_block == v.slots[b].cfg_block);
            }
            assert forall|a: int, b: int|
                0 <= a < b < w.cfg_pool_free.len() implies w.cfg_pool_free[a]
                != w.cfg_pool_free[b] by {
                if b == v.cfg_pool_free.len() {
                    assert(v.cfg_pool_free[a] == w.cfg_pool_free[a]);
                }
            }
        }
        if is_active(slot.status) {
            lemma_remove_member(v.services[s], id);
            let after = v.services[s].remove_value(id);
            assert forall|t: int, k: int|
                0 <= t < w.services.len() && 0 <= k < w.services[t].len() implies {
                let m = #[trigger] w.services[t][k];
                &&& m < MAX_NFS
                &&& is_active(w.slots[m as int].status)
                &&& w.slots[m as int].service_id == t
            } by {
                let m = w.services[t][k];
                if t == s {
                    assert(v.services[s].contains(after[k]));
                    let q = choose|q: int| 0 <= q < v.services[s].len() && v.services[s][q] == m;
                    assert(is_active(v.slots[v.services[s][q] as int].status));
                    assert(m != id) by {
                        if m == id {
                            assert(after.contains(id));
                        }
                    }
                } else {
                    assert(is_active(v.slots[v.services[t][k] as int].status));
                    assert(v.slots[v.services[t][k] as int].service_id == t);
                }
            }
            assert forall|j: int|
                0 <= j < w.slots.len() && is_active((#[trigger] w.slots[j]).status) implies w.services[w.slots[j].service_id as int].contains(
                j as u16,
            ) by {
                assert(j != i);
                assert(is_active(v.slots[j].status));
                let t = v.slots[j].service_id as int;
                assert(v.services[t].contains(j as u16));
            }
            assert(services_wf(w));
        } else {
            assert forall|t: int, k: int|
                0 <= t < w.services.len() && 0 <= k < w.services[t].len() implies {
                let m = #[trigger] w.services[t][k];
                &&& m < MAX_NFS
                &&& is_active(w.slots[m as int].status)
                &&& w.slots[m as int].service_id == t
            } by {
                let m = v.services[t][k];
                assert(is_active(v.slots[m as int].status));
            }
            assert(services_wf(w));
        }
    }
}

/// Stops a network function and takes back what it held.
///
/// A slot that is neither starting, running nor paused is refused, and
/// nothing changes. Otherwise the slot is stopped, its parent is told, its
/// core is released, its rings are emptied into the pools and its
/// configuration block is given back; a network function that was running
/// or paused also leaves its service and the count of running network
/// functions.
pub fn onvm_nf_stop(stop: u16, global_state: &mut GlobalNFState) -> (r: Result<(), NfError>)
    requires
        old(global_state).wf(),
    ensures
        final(global_state).wf(),
        final(global_state)@ == stop_outcome(old(global_state)@, stop).0,
        r == stop_outcome(old(global_state)@, stop).1,
{
    if stop >= MAX_NFS as u16 {
        return Err(NfError::NotRunning);
    }
    let id = stop as usize;
    assert(global_state@.slots[id as int] == global_state.nfs@[id as int]@);
    let nf_status = global_state.nfs[id].status;
    if !status_is_live(nf_status) {
        return Err(NfError::NotRunning);
    }
    let service = global_state.nfs[id].service_id as usize;
    let core = global_state.nfs[id].thread_info.core;
    let parent = global_state.nfs[id].thread_info.parent as usize;
    proof {
        lemma_stop_wf(global_state@, stop);
        lemma_active_count_update(
            global_state@.slots,
            id as int,
            stopped_slot(global_state@.slots[id as int]),
        );
        assert(global_state@.services[service as int] == global_state.services@[service as int]@);
    }
    global_state.nfs[id].status = NF_STOPPED;
    if parent != 0 && parent < global_state.nfs.len() {
        let count = global_state.nfs[parent].thread_info.children_count;
        if count > 0 {
            global_state.nfs[parent].thread_info.children_count = count - 1;
        }
    }
    let _ = onvm_threading_release_core(core, &mut global_state.cores);
    drain_packets(&mut global_state.nfs[id].rx_q, &mut global_state.pktmbuf_pool);
    drain_packets(&mut global_state.nfs[id].tx_q, &mut global_state.pktmbuf_pool);
    drain_messages(&mut global_state.nfs[id].msg_q, &mut global_state.nf_msg_pool);
    match global_state.nfs[id].cfg_block {
        Some(h) => {
            let _ = global_state.nf_init_cfg_pool.release(h);
        },
        None => {},
    }
    global_state.nfs[id].cfg_block = None;
    if status_is_active(nf_status) {
        global_state.num_nfs = global_state.num_nfs - 1;
        remove_service_member(&mut global_state.services[service], stop);
    }
    proof {
        let expected = stop_outcome(old(global_state)@, stop).0;
        assert(global_state@.slots =~= expected.slots);
        assert(global_state@.services =~= expected.services);
        assert(global_state@ == expected);
    }
    Ok(())
}

/// Why a control message was not delivered.
#[derive(Clone, Copy, Debug, PartialEq, Eq, Structural)]
pub enum BusError {
    /// The destination is not an instance id.
    NoSuchSlot,
    /// The message pool has no free object.
    PoolExhausted,
    /// The ring of the destination is full; the message is dropped.
    RingFull,
}

/// The answer of the manager to one message: the message as it stands after
/// handling (a configuration carries what the admission wrote into it) and
/// whether the request was granted.
#[derive(Debug, PartialEq, Eq)]
pub struct NfReply {
    pub msg: OnvmNFMsg,
    pub result: Result<(), NfError>,
}

/// A slot with `obj` appended to its message ring.
pub open spec fn with_message(slot: SlotView, obj: MsgObject) -> SlotView {
    SlotView { msg_q: slot.msg_q.push(obj), ..slot }
}

/// What sending `msg` to the network function of slot `dest` leads to.
///
/// A message object is taken from the pool and put on the slot's ring.
/// Where the pool is exhausted or the ring is full the message is dropped,
/// the state stays as it is, and the sender is told; nothing is retried.
pub open spec fn send_outcome(v: ManagerView, dest: u16, msg: OnvmNFMsg) -> (
    ManagerView,
    Result<(), BusError>,
) {
    if dest >= MAX_NFS {
        (v, Err(BusError::NoSuchSlot))
    } else if v.msg_pool_free.len() == 0 {
        (v, Err(BusError::PoolExhausted))
    } else if v.slots[dest as int].msg_q.len() >= NF_MSG_QUEUE_SIZE {
        (v, Err(BusError::RingFull))
    } else {
        (
            ManagerView {
                msg_pool_free: v.msg_pool_free.drop_last(),
                slots: v.slots.update(
                    dest as int,
                    with_message(
                        v.slots[dest as int],
                        MsgObject { handle: v.msg_pool_free.last(), msg },
                    ),
                ),
                ..v
            },
            Ok(()),
        )
    }
}

/// What a network function's sending `msg` to the manager leads to: as
/// `send_outcome`, with the manager's ring of incoming messages in place of
/// a slot's ring.
pub open spec fn send_to_mgr_outcome(v: ManagerView, msg: OnvmNFMsg) -> (
    ManagerView,
    Result<(), BusError>,
) {
    if v.msg_pool_free.len() == 0 {
        (v, Err(BusError::PoolExhausted))
    } else if v.incoming.len() >= MAX_NFS {
        (v, Err(BusError::RingFull))
    } else {
        (
            ManagerView {
                msg_pool_free: v.msg_pool_free.drop_last(),
                incoming: v.incoming.push(MsgObject { handle: v.msg_pool_free.last(), msg }),
                ..v
            },
            Ok(()),
        )
    }
}

/// What the network function of slot `id` gets when it takes a message
/// from its ring: the oldest one, whose object goes back to the pool;
/// nothing where the ring is empty or `id` is no instance id.
pub open spec fn recv_outcome(v: ManagerView, id: u16) -> (ManagerView, Option<OnvmNFMsg>) {
    if id >= MAX_NFS || v.slots[id as int].msg_q.len() == 0 {
        (v, None)
    } else {
        let slot = v.slots[id as int];
        (
            ManagerView {
                msg_pool_free: free_after_release(
                    NF_MSG_POOL_SIZE as nat,
                    v.msg_pool_free,
                    slot.msg_q[0].handle,
                ),
                slots: v.slots.update(id as int, SlotView { msg_q: slot.msg_q.skip(1), ..slot }),
                ..v
            },
            Some(slot.msg_q[0].msg),
        )
    }
}

/// A change to the rings of one slot, to the ring of incoming messages or
/// to the pools keeps the state well formed.
pub proof fn lemma_rings_wf(v: ManagerView, w: ManagerView, i: int)
    requires
        view_wf(v),
        0 <= i < v.slots.len(),
        w.slots == v.slots.update(i, w.slots[i]),
        w.slots[i].instance_id == v.slots[i].instance_id,
        w.slots[i].status == v.slots[i].status,
        w.slots[i].service_id == v.slots[i].service_id,
        w.slots[i].thread_info.core == v.slots[i].thread_info.core,
        w.slots[i].cfg_block == v.slots[i].cfg_block,
        w.cfg_pool_free == v.cfg_pool_free,
        w.cores == v.cores,
        w.services == v.services,
        w.num_nfs == v.num_nfs,
        w.next_instance_id == v.next_instance_id,
        w.ports == v.ports,
    ensures
        view_wf(w),
{
    assert forall|c: int| 0 <= c < w.cores.len() implies (#[trigger] w.cores[c]).nf_count
        == live_on_core(w.slots, c) by {
        lemma_live_on_core_update(v.slots, i, w.slots[i], c);
    }
    lemma_active_count_update(v.slots, i, w.slots[i]);
    lemma_live_total_update(v.slots, i, w.slots[i]);
    assert(blocks_wf(w)) by {
        assert forall|a: int|
            0 <= a < w.slots.len() && is_live((#[trigger] w.slots[a]).status) implies w.slots[a].cfg_block
            is Some && handle_in_use(
            NF_INIT_CFG_POOL_SIZE as nat,
            w.cfg_pool_free,
            w.slots[a].cfg_block->0,
        ) by {
            assert(is_live(v.slots[a].status));
        }
        assert forall|a: int, b: int|
            0 <= a < w.slots.len() && 0 <= b < w.slots.len() && a != b && is_live(
                (#[trigger] w.slots[a]).status,
            ) && is_live((#[trigger] w.slots[b]).status) implies w.slots[a].cfg_block
            != w.slots[b].cfg_block by {
            assert(is_live(v.slots[a].status));
            assert(is_live(v.slots[b].status));
        }
    }
    assert forall|t: int, k: int| 0 <= t < w.services.len() && 0 <= k < w.services[t].len() implies {
        let m = #[trigger] w.services[t][k];
        &&& m < MAX_NFS
        &&& is_active(w.slots[m as int].status)
        &&& w.slots[m as int].service_id == t
    } by {
        let m = v.services[t][k];
        assert(is_active(v.slots[m as int].status));
    }
    assert forall|j: int|
        0 <= j < w.slots.len() && is_active((#[trigger] w.slots[j]).status) implies w.services[w.slots[j].service_id as int].contains(
        j as u16,
    ) by {
        assert(is_active(v.slots[j].status));
    }
}

/// Sending and receiving keep the state well formed.
pub proof fn lemma_bus_wf(v: ManagerView, dest: u16, msg: OnvmNFMsg)
    requires
        view_wf(v),
    ensures
        view_wf(send_outcome(v, dest, msg).0),
        view_wf(send_to_mgr_outcome(v, msg).0),
        view_wf(recv_outcome(v, dest).0),
{
    if dest < MAX_NFS {
        let sent = send_outcome(v, dest, msg).0;
        assert(sent.slots =~= v.slots.update(dest as int, sent.slots[dest as int]));
        lemma_rings_wf(v, sent, dest as int);
        let received = recv_outcome(v, dest).0;
        assert(received.slots =~= v.slots.update(dest as int, received.slots[dest as int]));
        lemma_rings_wf(v, received, dest as int);
    }
    let w = send_to_mgr_outcome(v, msg).0;
    assert(w.slots =~= v.slots.update(0, w.slots[0]));
    lemma_rings_wf(v, w, 0);
}

/// Sends `msg` to the network function of slot `dest`.
///
/// A message object is taken from the pool, filled and put on the ring of
/// the slot. Where the ring is full the object goes back to the pool and the
/// message is dropped; where the pool is exhausted nothing is sent. The
/// caller is told either way and decides whether to try again.
pub fn onvm_nf_send_msg(dest: u16, msg: OnvmNFMsg, global_state: &mut GlobalNFState) -> (r: Result<
    (),
    BusError,
>)
    requires
        old(global_state).wf(),
    ensures
        final(global_state).wf(),
        final(global_state)@ == send_outcome(old(global_state)@, dest, msg).0,
        r == send_outcome(old(global_state)@, dest, msg).1,
{
    if dest >= MAX_NFS as u16 {
        return Err(BusError::NoSuchSlot);
    }
    let id = dest as usize;
    proof {
        lemma_bus_wf(global_state@, dest, msg);
        assert(global_state@.slots[id as int] == global_state.nfs@[id as int]@);
    }
    let handle = match global_state.nf_msg_pool.acquire() {
        Err(_) => {
            return Err(BusError::PoolExhausted);
        },
        Ok(h) => h,
    };
    let obj = MsgObject { handle, msg };
    match global_state.nfs[id].msg_q.enqueue(obj) {
        Ok(()) => {
            proof {
                let expected = send_outcome(old(global_state)@, dest, msg).0;
                assert(global_state@.slots =~= expected.slots);
                assert(global_state@.services =~= expected.services);
                assert(global_state@ == expected);
            }
            Ok(())
        },
        Err(back) => {
            let _ = global_state.nf_msg_pool.release(back.handle);
            proof {
                let expected = old(global_state)@;
                assert(global_state@.msg_pool_free =~= expected.msg_pool_free);
                assert(global_state@.slots =~= expected.slots);
                assert(global_state@.services =~= expected.services);
                assert(global_state@ == expected);
            }
            Err(BusError::RingFull)
        },
    }
}

/// Sends `msg` from a network function to the manager: as
/// `onvm_nf_send_msg`, onto the manager's ring of incoming messages.
pub fn onvm_nf_send_msg_to_mgr(msg: OnvmNFMsg, global_state: &mut GlobalNFState) -> (r: Result<
    (),
    BusError,
>)
    requires
        old(global_state).wf(),
    ensures
        final(global_state).wf(),
        final(global_state)@ == send_to_mgr_outcome(old(global_state)@, msg).0,
        r == send_to_mgr_outcome(old(global_state)@, msg).1,
{
    proof {
        lemma_bus_wf(global_state@, 0, msg);
    }
    let handle = match global_state.nf_msg_pool.acquire() {
        Err(_) => {
            return Err(BusError::PoolExhausted);
        },
        Ok(h) => h,
    };
    let obj = MsgObject { handle, msg };
    match global_state.incoming_msg_queue.enqueue(obj) {
        Ok(()) => {
            proof {
                let expected = send_to_mgr_outcome(old(global_state)@, msg).0;
                assert(global_state@.slots =~= expected.slots);
                assert(global_state@.services =~= expected.services);
                assert(global_state@ == expected);
            }
            Ok(())
        },
        Err(back) => {
            let _ = global_state.nf_msg_pool.release(back.handle);
            proof {
                let expected = old(global_state)@;
                assert(global_state@.msg_pool_free =~= expected.msg_pool_free);
                assert(global_state@.slots =~= expected.slots);
                assert(global_state@.services =~= expected.services);
                assert(global_state@ == expected);
            }
            Err(BusError::RingFull)
        },
    }
}

/// Takes the oldest message from the ring of slot `nf_id`, as the network
/// function of that slot does, and gives its object back to the pool.
pub fn onvm_nf_recv_msg(nf_id: u16, global_state: &mut GlobalNFState) -> (r: Option<OnvmNFMsg>)
    requires
        old(global_state).wf(),
    ensures
        final(global_state).wf(),
        final(global_state)@ == recv_outcome(old(global_state)@, nf_id).0,
        r == recv_outcome(old(global_state)@, nf_id).1,
{
    if nf_id >= MAX_NFS as u16 {
        return None;
    }
    let id = nf_id as usize;
    proof {
        lemma_bus_wf(global_state@, nf_id, OnvmNFMsg::NfReady(0));
        assert(global_state@.slots[id as int] == global_state.nfs@[id as int]@);
    }
    match global_state.nfs[id].msg_q.dequeue() {
        None => {
            proof {
                let expected = old(global_state)@;
                assert(global_state@.slots =~= expected.slots);
                assert(global_state@.services =~= expected.services);
                assert(global_state@ == expected);
            }
            None
        },
        Some(obj) => {
            let _ = global_state.nf_msg_pool.release(obj.handle);
            proof {
                let expected = recv_outcome(old(global_state)@, nf_id).0;
                assert(global_state@.slots =~= expected.slots);
                assert(global_state@.services =~= expected.services);
                assert(global_state@ == expected);
            }
            Some(obj.msg)
        },
    }
}

/// What handling one message leads to: an admission for `NfStarting`, a
/// readiness notice for `NfReady`, a stop for `NfStopping`.
pub open spec fn dispatch_outcome(v: ManagerView, msg: OnvmNFMsg) -> (ManagerView, NfReply) {
    match msg {
        OnvmNFMsg::NfStarting(cfg) => {
            let out = start_outcome(v, cfg);
            (out.0, NfReply { msg: OnvmNFMsg::NfStarting(out.1), result: out.2 })
        },
        OnvmNFMsg::NfReady(id) => {
            let out = ready_outcome(v, id);
            (out.0, NfReply { msg, result: out.1 })
        },
        OnvmNFMsg::NfStopping(id) => {
            let out = stop_outcome(v, id);
            (out.0, NfReply { msg, result: out.1 })
        },
    }
}

/// What handling one message object leads to: its message is handled, then
/// the object goes back to the message pool, whatever the answer was.
pub open spec fn handle_outcome(v: ManagerView, obj: MsgObject) -> (ManagerView, NfReply) {
    let out = dispatch_outcome(v, obj.msg);
    (
        ManagerView {
            msg_pool_free: free_after_release(
                NF_MSG_POOL_SIZE as nat,
                out.0.msg_pool_free,
                obj.handle,
            ),
            ..out.0
        },
        out.1,
    )
}

/// What handling a batch of message objects leads to: they are handled one
/// after the other, in the order of the batch, and answered in that order.
pub open spec fn batch_outcome(v: ManagerView, batch: Seq<MsgObject>) -> (ManagerView, Seq<NfReply>)
    decreases batch.len(),
{
    if batch.len() == 0 {
        (v, Seq::<NfReply>::empty())
    } else {
        let before = batch_outcome(v, batch.drop_last());
        let last = handle_outcome(before.0, batch.last());
        (last.0, before.1.push(last.1))
    }
}

/// What one look at the ring of incoming messages leads to: the ring is
/// emptied at once, and what it held is handled in ring order.
pub open spec fn check_status_outcome(v: ManagerView) -> (ManagerView, Seq<NfReply>) {
    batch_outcome(ManagerView { incoming: Seq::<MsgObject>::empty(), ..v }, v.incoming)
}

/// Handling messages keeps the state well formed.
pub proof fn lemma_handle_wf(v: ManagerView, obj: MsgObject)
    requires
        view_wf(v),
    ensures
        view_wf(dispatch_outcome(v, obj.msg).0),
        view_wf(handle_outcome(v, obj).0),
{
    match obj.msg {
        OnvmNFMsg::NfStarting(cfg) => {
            lemma_start_wf(v, cfg);
        },
        OnvmNFMsg::NfReady(id) => {
            lemma_ready_wf(v, id);
        },
        OnvmNFMsg::NfStopping(id) => {
            lemma_stop_wf(v, id);
        },
    }
    let d = dispatch_outcome(v, obj.msg).0;
    let w = handle_outcome(v, obj).0;
    assert(w.slots =~= d.slots.update(0, w.slots[0]));
    lemma_rings_wf(d, w, 0);
}

/// Handling a batch of messages keeps the state well formed, and answers
/// every message of the batch.
pub proof fn lemma_batch_wf(v: ManagerView, batch: Seq<MsgObject>)
    requires
        view_wf(v),
    ensures
        view_wf(batch_outcome(v, batch).0),
        batch_outcome(v, batch).1.len() == batch.len(),
    decreases batch.len(),
{
    if batch.len() > 0 {
        lemma_batch_wf(v, batch.drop_last());
        lemma_handle_wf(batch_outcome(v, batch.drop_last()).0, batch.last());
    }
}

/// Takes everything that waits on the ring of incoming messages, in one
/// go and in ring order. It never waits: an empty batch is a valid result.
pub fn onvm_nf_poll(global_state: &mut GlobalNFState) -> (batch: Vec<MsgObject>)
    requires
        old(global_state).wf(),
    ensures
        final(global_state).wf(),
        batch@ == old(global_state)@.incoming,
        final(global_state)@ == (ManagerView {
            incoming: Seq::<MsgObject>::empty(),
            ..old(global_state)@
        }),
{
    let batch = global_state.incoming_msg_queue.dequeue_all();
    proof {
        let expected = ManagerView { incoming: Seq::<MsgObject>::empty(), ..old(global_state)@ };
        assert(expected.slots =~= old(global_state)@.slots.update(0, expected.slots[0]));
        lemma_rings_wf(old(global_state)@, expected, 0);
        assert(global_state@.slots =~= expected.slots);
        assert(global_state@.services =~= expected.services);
        assert(global_state@ == expected);
    }
    batch
}

/// Handles one message by its kind.
pub fn onvm_nf_dispatch(msg: OnvmNFMsg, global_state: &mut GlobalNFState) -> (reply: NfReply)
    requires
        old(global_state).wf(),
    ensures
        final(global_state).wf(),
        final(global_state)@ == dispatch_outcome(old(global_state)@, msg).0,
        reply == dispatch_outcome(old(global_state)@, msg).1,
{
    match msg {
        OnvmNFMsg::NfStarting(cfg) => {
            let mut cfg = cfg;
            let result = onvm_nf_start(&mut cfg, global_state);
            NfReply { msg: OnvmNFMsg::NfStarting(cfg), result }
        },
        OnvmNFMsg::NfReady(id) => {
            let result = onvm_nf_ready(id, global_state);
            NfReply { msg: OnvmNFMsg::NfReady(id), result }
        },
        OnvmNFMsg::NfStopping(id) => {
            let result = onvm_nf_stop(id, global_state);
            NfReply { msg: OnvmNFMsg::NfStopping(id), result }
        },
    }
}

/// Handles a batch of message objects in the order of the batch. Each
/// object goes back to the message pool as soon as its message is handled,
/// whatever the answer was.
pub fn onvm_nf_handle_batch(batch: Vec<MsgObject>, global_state: &mut GlobalNFState) -> (replies: Vec<
    NfReply,
>)
    requires
        old(global_state).wf(),
    ensures
        final(global_state).wf(),
        final(global_state)@ == batch_outcome(old(global_state)@, batch@).0,
        replies@ == batch_outcome(old(global_state)@, batch@).1,
{
    let mut replies: Vec<NfReply> = Vec::new();
    let ghost all = batch@;
    let ghost start = global_state@;
    proof {
        assert(all.take(0) =~= Seq::<MsgObject>::empty());
    }
    for obj in it: batch
        invariant
            it.seq() == all,
            start == old(global_state)@,
            global_state.wf(),
            global_state@ == batch_outcome(start, all.take(it.index() as int)).0,
            replies@ == batch_outcome(start, all.take(it.index() as int)).1,
    {
        proof {
            let k = it.index() as int;
            assert(all.take(k + 1).drop_last() =~= all.take(k));
            assert(all.take(k + 1).last() == obj);
            lemma_handle_wf(global_state@, obj);
        }
        let ghost before = global_state@;
        let handle = obj.handle;
        let reply = onvm_nf_dispatch(obj.msg, global_state);
        let ghost dispatched = global_state@;
        let _ = global_state.nf_msg_pool.release(handle);
        replies.push(reply);
        proof {
            let expected = handle_outcome(before, obj).0;
            assert(global_state@.slots =~= expected.slots);
            assert(global_state@.services =~= expected.services);
            assert(global_state@ == expected);
        }
    }
    proof {
        assert(all.take(all.len() as int) =~= all);
    }
    replies
}

/// Looks at the ring of incoming messages once: takes what waits there and
/// handles it in ring order. The answers are handed back in that order, for
/// the caller to log or to pass on.
pub fn onvm_nf_check_status(global_state: &mut GlobalNFState) -> (replies: Vec<NfReply>)
    requires
        old(global_state).wf(),
    ensures
        final(global_state).wf(),
        final(global_state)@ == check_status_outcome(old(global_state)@).0,
        replies@ == check_status_outcome(old(global_state)@).1,
{
    let num_msgs = global_state.incoming_msg_queue.count();
    if num_msgs == 0 {
        proof {
            let v = old(global_state)@;
            assert(v.incoming =~= Seq::<MsgObject>::empty());
        }
        return Vec::new();
    }
    let batch = onvm_nf_poll(global_state);
    onvm_nf_handle_batch(batch, global_state)
}

/// A granted admission hands out an instance id that no network function
/// held: the slot of the id was free before, it is starting afterwards,
/// and still no two slots that hold a network function carry the same id.
pub proof fn lemma_start_unique(v: ManagerView, cfg: OnvmNfInitCfg)
    requires
        view_wf(v),
        start_outcome(v, cfg).2 is Ok,
    ensures
        1 <= start_outcome(v, cfg).1.instance_id < MAX_NFS,
        !is_live(v.slots[start_outcome(v, cfg).1.instance_id as int].status),
        start_outcome(v, cfg).0.slots[start_outcome(v, cfg).1.instance_id as int].status
            == NF_STARTING,
        start_outcome(v, cfg).0.slots[start_outcome(v, cfg).1.instance_id as int].instance_id
            == start_outcome(v, cfg).1.instance_id,
        forall|i: int|
            0 <= i < MAX_NFS && i != start_outcome(v, cfg).1.instance_id ==> (
            #[trigger] start_outcome(v, cfg).0.slots[i]) == v.slots[i],
        forall|i: int, j: int|
            0 <= i < MAX_NFS && 0 <= j < MAX_NFS && i != j && is_live(
                (#[trigger] start_outcome(v, cfg).0.slots[i]).status,
            ) && is_live((#[trigger] start_outcome(v, cfg).0.slots[j]).status) ==> start_outcome(
                v,
                cfg,
            ).0.slots[i].instance_id != start_outcome(v, cfg).0.slots[j].instance_id,
{
    lemma_next_instance_id(v);
    lemma_start_wf(v, cfg);
}

/// A refused admission changes nothing but the place where the next search
/// for an instance id starts: the slots, the cores, the services, the
/// pools and the rings stay as they are.
pub proof fn lemma_start_refused(v: ManagerView, cfg: OnvmNfInitCfg)
    requires
        start_outcome(v, cfg).2 is Err,
    ensures
        start_outcome(v, cfg).0 == (ManagerView {
            next_instance_id: start_outcome(v, cfg).0.next_instance_id,
            ..v
        }),
{
}

/// A stop of a slot that holds no network function is refused and leaves
/// the whole state as it is: the slots, the cores, the services, the pools
/// and the rings.
pub proof fn lemma_stop_refused(v: ManagerView, id: u16)
    requires
        id >= MAX_NFS || !is_live(v.slots[id as int].status),
    ensures
        stop_outcome(v, id) == (v, Err::<(), NfError>(NfError::NotRunning)),
{
}

/// A stop of a slot that holds a network function is granted: the slot is
/// stopped, its core counts one fewer, its configuration block is free
/// again, and a network function that ran leaves the count of the running
/// ones and the list of its service.
pub proof fn lemma_stop_granted(v: ManagerView, id: u16)
    requires
        view_wf(v),
        id < MAX_NFS,
        is_live(v.slots[id as int].status),
    ensures
        stop_outcome(v, id).1 is Ok,
        stop_outcome(v, id).0.slots[id as int].status == NF_STOPPED,
        stop_outcome(v, id).0.cores[v.slots[id as int].thread_info.core as int].nf_count + 1
            == v.cores[v.slots[id as int].thread_info.core as int].nf_count,
        is_active(v.slots[id as int].status) ==> stop_outcome(v, id).0.num_nfs + 1 == v.num_nfs
            && !stop_outcome(v, id).0.services[v.slots[id as int].service_id as int].contains(id),
        stop_outcome(v, id).0.cfg_pool_free == v.cfg_pool_free.push(
            v.slots[id as int].cfg_block->0,
        ),
{
    let slot = v.slots[id as int];
    lemma_live_on_core_update(v.slots, id as int, stopped_slot(slot), slot.thread_info.core as int);
    lemma_active_count_update(v.slots, id as int, stopped_slot(slot));
    if is_active(slot.status) {
        lemma_remove_member(v.services[slot.service_id as int], id);
    }
}

/// The messages of a ring, in ring order.
pub open spec fn queued_messages(q: Seq<MsgObject>) -> Seq<OnvmNFMsg> {
    q.map_values(|obj: MsgObject| obj.msg)
}

/// What the network function of slot `id` gets when it takes `n` times
/// from its ring, one message after the other.
pub open spec fn recv_many(v: ManagerView, id: u16, n: nat) -> (ManagerView, Seq<Option<OnvmNFMsg>>)
    decreases n,
{
    if n == 0 {
        (v, Seq::<Option<OnvmNFMsg>>::empty())
    } else {
        let before = recv_many(v, id, (n - 1) as nat);
        let last = recv_outcome(before.0, id);
        (last.0, before.1.push(last.1))
    }
}

/// Taking from a ring yields its messages oldest first: the `k`-th take
/// yields the `k`-th message that waits, and leaves the later ones.
pub proof fn lemma_recv_in_order(v: ManagerView, id: u16, n: nat)
    requires
        id < MAX_NFS,
        v.slots.len() == MAX_NFS,
        n <= v.slots[id as int].msg_q.len(),
    ensures
        recv_many(v, id, n).1.len() == n,
        forall|k: int|
            0 <= k < n ==> (#[trigger] recv_many(v, id, n).1[k]) == Some(
                queued_messages(v.slots[id as int].msg_q)[k],
            ),
        recv_many(v, id, n).0.slots.len() == MAX_NFS,
        recv_many(v, id, n).0.slots[id as int].msg_q == v.slots[id as int].msg_q.skip(n as int),
    decreases n,
{
    if n > 0 {
        lemma_recv_in_order(v, id, (n - 1) as nat);
        let before = recv_many(v, id, (n - 1) as nat);
        let q = v.slots[id as int].msg_q;
        assert(before.0.slots[id as int].msg_q.skip(1) =~= q.skip(n as int));
    } else {
        assert(v.slots[id as int].msg_q.skip(0) =~= v.slots[id as int].msg_q);
    }
}

/// The bus is first in, first out: messages `m1`, `m2`, `m3` that were sent
/// to a network function, in this order, are taken by it in this order,
/// after whatever waited before them.
pub proof fn lemma_bus_fifo(v: ManagerView, dest: u16, m1: OnvmNFMsg, m2: OnvmNFMsg, m3: OnvmNFMsg)
    requires
        view_wf(v),
        send_outcome(v, dest, m1).1 is Ok,
        send_outcome(send_outcome(v, dest, m1).0, dest, m2).1 is Ok,
        send_outcome(send_outcome(send_outcome(v, dest, m1).0, dest, m2).0, dest, m3).1 is Ok,
    ensures
        ({
            let sent = send_outcome(
                send_outcome(send_outcome(v, dest, m1).0, dest, m2).0,
                dest,
                m3,
            ).0;
            let waiting = v.slots[dest as int].msg_q.len() as int;
            let taken = recv_many(sent, dest, (waiting + 3) as nat).1;
            &&& queued_messages(sent.slots[dest as int].msg_q) == queued_messages(
                v.slots[dest as int].msg_q,
            ) + seq![m1, m2, m3]
            &&& taken.len() == waiting + 3
            &&& forall|k: int|
                0 <= k < waiting ==> (#[trigger] taken[k]) == Some(
                    queued_messages(v.slots[dest as int].msg_q)[k],
                )
            &&& taken[waiting] == Some(m1)
            &&& taken[waiting + 1] == Some(m2)
            &&& taken[waiting + 2] == Some(m3)
        }),
{
    let v1 = send_outcome(v, dest, m1).0;
    let v2 = send_outcome(v1, dest, m2).0;
    let sent = send_outcome(v2, dest, m3).0;
    let waiting = v.slots[dest as int].msg_q.len() as int;
    assert(queued_messages(sent.slots[dest as int].msg_q) =~= queued_messages(
        v.slots[dest as int].msg_q,
    ) + seq![m1, m2, m3]);
    lemma_recv_in_order(sent, dest, (waiting + 3) as nat);
    let taken = recv_many(sent, dest, (waiting + 3) as nat).1;
    assert forall|k: int| 0 <= k < waiting implies (#[trigger] taken[k]) == Some(
        queued_messages(v.slots[dest as int].msg_q)[k],
    ) by {
        assert(queued_messages(sent.slots[dest as int].msg_q)[k] == queued_messages(
            v.slots[dest as int].msg_q,
        )[k]);
    }
}

/// A slot with its three rings empty.
pub open spec fn with_fresh_rings(slot: SlotView) -> SlotView {
    SlotView {
        rx_q: Seq::<Mbuf>::empty(),
        tx_q: Seq::<Mbuf>::empty(),
        msg_q: Seq::<MsgObject>::empty(),
        ..slot
    }
}

/// The slots of which the first `n` have their rings empty.
pub open spec fn slots_with_fresh_rings(slots: Seq<SlotView>, n: nat) -> Seq<SlotView> {
    Seq::new(
        slots.len(),
        |i: int|
            if i < n {
                with_fresh_rings(slots[i])
            } else {
                slots[i]
            },
    )
}

/// Where two tables of slots agree on who holds a network function, on
/// which core and in which state, they count alike.
pub proof fn lemma_same_occupancy(a: Seq<SlotView>, b: Seq<SlotView>, core: int)
    requires
        a.len() == b.len(),
        forall|i: int|
            0 <= i < a.len() ==> (#[trigger] a[i]).status == b[i].status && a[i].thread_info.core
                == b[i].thread_info.core,
    ensures
        live_on_core(a, core) == live_on_core(b, core),
        active_count(a) == active_count(b),
        live_total(a) == live_total(b),
    decreases a.len(),
{
    if a.len() > 0 {
        assert(a.last().status == b.last().status);
        assert(a[a.len() - 1].thread_info.core == b[a.len() - 1].thread_info.core);
        assert forall|i: int| 0 <= i < a.drop_last().len() implies (#[trigger] a.drop_last()[i]).status
            == b.drop_last()[i].status && a.drop_last()[i].thread_info.core
            == b.drop_last()[i].thread_info.core by {
            assert(a[i].status == b[i].status);
        }
        lemma_same_occupancy(a.drop_last(), b.drop_last(), core);
    }
}

/// Emptying rings keeps the state well formed.
pub proof fn lemma_fresh_rings_wf(v: ManagerView, n: nat)
    requires
        view_wf(v),
    ensures
        view_wf(ManagerView { slots: slots_with_fresh_rings(v.slots, n), ..v }),
{
    let w = ManagerView { slots: slots_with_fresh_rings(v.slots, n), ..v };
    assert forall|c: int| 0 <= c < w.cores.len() implies (#[trigger] w.cores[c]).nf_count
        == live_on_core(w.slots, c) by {
        lemma_same_occupancy(w.slots, v.slots, c);
    }
    lemma_same_occupancy(w.slots, v.slots, 0);
    assert(blocks_wf(w)) by {
        assert forall|a: int|
            0 <= a < w.slots.len() && is_live((#[trigger] w.slots[a]).status) implies w.slots[a].cfg_block
            is Some && handle_in_use(
            NF_INIT_CFG_POOL_SIZE as nat,
            w.cfg_pool_free,
            w.slots[a].cfg_block->0,
        ) by {
            assert(is_live(v.slots[a].status));
        }
        assert forall|a: int, b: int|
            0 <= a < w.slots.len() && 0 <= b < w.slots.len() && a != b && is_live(
                (#[trigger] w.slots[a]).status,
            ) && is_live((#[trigger] w.slots[b]).status) implies w.slots[a].cfg_block
            != w.slots[b].cfg_block by {
            assert(is_live(v.slots[a].status));
            assert(is_live(v.slots[b].status));
        }
    }
    assert forall|t: int, k: int| 0 <= t < w.services.len() && 0 <= k < w.services[t].len() implies {
        let m = #[trigger] w.services[t][k];
        &&& m < MAX_NFS
        &&& is_active(w.slots[m as int].status)
        &&& w.slots[m as int].service_id == t
    } by {
        let m = v.services[t][k];
        assert(is_active(v.slots[m as int].status));
    }
    assert forall|j: int|
        0 <= j < w.slots.len() && is_active((#[trigger] w.slots[j]).status) implies w.services[w.slots[j].service_id as int].contains(
        j as u16,
    ) by {
        assert(is_active(v.slots[j].status));
    }
}

/// Sets up the rings of every slot: two packet rings and a message ring,
/// all empty. What the rings held is forgotten.
pub fn onvm_nf_init_rings(global_state: &mut GlobalNFState)
    requires
        old(global_state).wf(),
    ensures
        final(global_state).wf(),
        final(global_state)@ == (ManagerView {
            slots: slots_with_fresh_rings(old(global_state)@.slots, MAX_NFS as nat),
            ..old(global_state)@
        }),
{
    let mut i: usize = 0;
    proof {
        assert(slots_with_fresh_rings(global_state@.slots, 0) =~= global_state@.slots);
    }
    while i < MAX_NFS as usize
        invariant
            i <= MAX_NFS,
            global_state.wf(),
            view_wf(old(global_state)@),
            global_state@ == (ManagerView {
                slots: slots_with_fresh_rings(old(global_state)@.slots, i as nat),
                ..old(global_state)@
            }),
        decreases MAX_NFS - i,
    {
        proof {
            lemma_fresh_rings_wf(old(global_state)@, i as nat + 1);
        }
        let ghost before = global_state@;
        global_state.nfs[i].rx_q = Ring::new(NF_QUEUE_RINGSIZE);
        global_state.nfs[i].tx_q = Ring::new(NF_QUEUE_RINGSIZE);
        global_state.nfs[i].msg_q = Ring::new(NF_MSG_QUEUE_SIZE as usize);
        proof {
            let expected = ManagerView {
                slots: slots_with_fresh_rings(old(global_state)@.slots, i as nat + 1),
                ..old(global_state)@
            };
            assert(before.slots[i as int] == old(global_state)@.slots[i as int]);
            assert(global_state@.slots[i as int] == with_fresh_rings(before.slots[i as int]));
            assert forall|j: int| 0 <= j < MAX_NFS implies global_state@.slots[j]
                == expected.slots[j] by {
                if j != i {
                    assert(global_state@.slots[j] == before.slots[j]);
                }
            }
            assert(global_state@.slots =~= expected.slots);
            assert(global_state@.services =~= expected.services);
        }
        i = i + 1;
    }
}

} // verus!
