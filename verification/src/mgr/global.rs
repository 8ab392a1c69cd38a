//! The manager's state: the slots of the network functions, the core table,
//! the service table, the pools and the ring of incoming messages. One value
//! of `GlobalNFState` is made at startup and handed to every operation.

use crate::nflib::constants::{
    MAX_NFS, MAX_NFS_PER_SERVICE, MAX_SERVICES, NF_PAUSED, NF_RUNNING,
    NF_STARTING, NUM_MBUFS,
};
use crate::nflib::pool::{free_stack_wf, handle_in_use, Pool};
use crate::nflib::ring::Ring;
use crate::nflib::structs::{
    empty_chain, empty_ports, unused_slot, CoreStatus, Flag, MsgObject, OnvmConfiguration, OnvmNF,
    OnvmServiceChain, PortInfo, SlotView,
};
use vstd::prelude::*;

verus! {

/// The number of objects in the pool of control messages: a full message
/// ring for every slot.
pub const NF_MSG_POOL_SIZE: usize = 16384;

/// The number of objects in the pool of configuration blocks: one per slot.
pub const NF_INIT_CFG_POOL_SIZE: usize = 128;

/// The most cores the core table can describe: core ids are 16 bits wide.
pub const MAX_CORES: usize = 0x10000;

/// Whether a slot with this status holds a network function: one that is
/// starting, running or paused.
pub open spec fn is_live(status: u8) -> bool {
    status == NF_STARTING || status == NF_RUNNING || status == NF_PAUSED
}

/// Whether a slot with this status counts as a running network function:
/// one that is running or paused.
pub open spec fn is_active(status: u8) -> bool {
    status == NF_RUNNING || status == NF_PAUSED
}

/// Whether a slot with this status holds a network function.
pub fn status_is_live(status: u8) -> (r: bool)
    ensures
        r == is_live(status),
{
    status == NF_STARTING || status == NF_RUNNING || status == NF_PAUSED
}

/// Whether a slot with this status counts as a running network function.
pub fn status_is_active(status: u8) -> (r: bool)
    ensures
        r == is_active(status),
{
    status == NF_RUNNING || status == NF_PAUSED
}

/// Whether the slot holds a network function bound to core `core`.
pub open spec fn lives_on(slot: SlotView, core: int) -> bool {
    is_live(slot.status) && slot.thread_info.core == core
}

/// The number of slots that hold a network function bound to core `core`.
pub open spec fn live_on_core(slots: Seq<SlotView>, core: int) -> nat
    decreases slots.len(),
{
    if slots.len() == 0 {
        0
    } else {
        live_on_core(slots.drop_last(), core) + if lives_on(slots.last(), core) {
            1nat
        } else {
            0nat
        }
    }
}

/// The number of slots whose network function is running or paused.
pub open spec fn active_count(slots: Seq<SlotView>) -> nat
    decreases slots.len(),
{
    if slots.len() == 0 {
        0
    } else {
        active_count(slots.drop_last()) + if is_active(slots.last().status) {
            1nat
        } else {
            0nat
        }
    }
}

/// The number of slots that hold a network function.
pub open spec fn live_total(slots: Seq<SlotView>) -> nat
    decreases slots.len(),
{
    if slots.len() == 0 {
        0
    } else {
        live_total(slots.drop_last()) + if is_live(slots.last().status) {
            1nat
        } else {
            0nat
        }
    }
}

/// The manager's state as plain values.
pub struct ManagerView {
    /// The slots, one per instance id.
    pub slots: Seq<SlotView>,
    /// The core table, one entry per core.
    pub cores: Seq<CoreStatus>,
    /// Per service, the instance ids of its running members, in the order
    /// they became ready.
    pub services: Seq<Seq<u16>>,
    /// The number of running network functions.
    pub num_nfs: nat,
    /// Where the search for the next free instance id starts.
    pub next_instance_id: nat,
    /// The messages from the network functions that wait for the manager.
    pub incoming: Seq<MsgObject>,
    /// The free stacks of the three pools.
    pub msg_pool_free: Seq<usize>,
    pub cfg_pool_free: Seq<usize>,
    pub pkt_pool_free: Seq<usize>,
    pub ports: PortInfo,
    pub num_services: u8,
    pub num_sockets: u16,
    pub default_chain: OnvmServiceChain,
    pub onvm_config: OnvmConfiguration,
    pub default_service: u16,
    pub default_service_id: u16,
    pub onvm_nf_share_cores: bool,
}

/// The tables have their sizes, every slot carries its own instance id, and
/// the search for a free id starts at an id that can be handed out.
pub open spec fn tables_wf(v: ManagerView) -> bool {
    &&& v.slots.len() == MAX_NFS
    &&& v.services.len() == MAX_SERVICES
    &&& v.cores.len() <= MAX_CORES
    &&& 1 <= v.next_instance_id <= MAX_NFS
    &&& v.ports.wf()
    &&& forall|i: int| 0 <= i < v.slots.len() ==> (#[trigger] v.slots[i]).instance_id == i
}

/// The slots agree with themselves: id 0 is never handed out, and a slot
/// that holds a network function names a core and a service that exist.
pub open spec fn slots_wf(v: ManagerView) -> bool {
    &&& !is_live(v.slots[0].status)
    &&& forall|i: int|
        0 <= i < v.slots.len() && is_live((#[trigger] v.slots[i]).status) ==> {
            &&& v.slots[i].thread_info.core < v.cores.len()
            &&& v.slots[i].service_id < MAX_SERVICES
        }
}

/// Every core counts exactly the network functions bound to it, starting,
/// running or paused; a dedicated core has at most one.
pub open spec fn cores_wf(v: ManagerView) -> bool {
    &&& forall|c: int|
        0 <= c < v.cores.len() ==> (#[trigger] v.cores[c]).nf_count == live_on_core(v.slots, c)
    &&& forall|c: int|
        0 <= c < v.cores.len() && (#[trigger] v.cores[c]).is_dedicated_core ==> v.cores[c].nf_count <= 1
}

/// Every service lists exactly its running and paused network functions,
/// each once, and never more than a service may have; the counter of
/// running network functions counts the same slots.
pub open spec fn services_wf(v: ManagerView) -> bool {
    &&& v.num_nfs == active_count(v.slots)
    &&& forall|s: int|
        0 <= s < v.services.len() ==> (#[trigger] v.services[s]).len() <= MAX_NFS_PER_SERVICE
    &&& forall|s: int, j: int, k: int|
        0 <= s < v.services.len() && 0 <= j < k < v.services[s].len() ==> (
        #[trigger] v.services[s][j]) != (#[trigger] v.services[s][k])
    &&& forall|s: int, k: int|
        0 <= s < v.services.len() && 0 <= k < v.services[s].len() ==> {
            let m = #[trigger] v.services[s][k];
            &&& m < MAX_NFS
            &&& is_active(v.slots[m as int].status)
            &&& v.slots[m as int].service_id == s
        }
    &&& forall|i: int|
        0 <= i < v.slots.len() && is_active((#[trigger] v.slots[i]).status) ==> v.services[v.slots[i].service_id as int].contains(
            i as u16,
        )
}

/// Every slot that holds a network function holds a configuration block
/// of its own, taken from the pool; and the pool has a block left for
/// every slot that holds none.
pub open spec fn blocks_wf(v: ManagerView) -> bool {
    &&& free_stack_wf(NF_INIT_CFG_POOL_SIZE as nat, v.cfg_pool_free)
    &&& forall|i: int|
        0 <= i < v.slots.len() && is_live((#[trigger] v.slots[i]).status) ==> {
            &&& v.slots[i].cfg_block is Some
            &&& handle_in_use(
                NF_INIT_CFG_POOL_SIZE as nat,
                v.cfg_pool_free,
                v.slots[i].cfg_block->0,
            )
        }
    &&& forall|i: int, j: int|
        0 <= i < v.slots.len() && 0 <= j < v.slots.len() && i != j && is_live(
            (#[trigger] v.slots[i]).status,
        ) && is_live((#[trigger] v.slots[j]).status) ==> v.slots[i].cfg_block
            != v.slots[j].cfg_block
    &&& v.cfg_pool_free.len() + live_total(v.slots) >= NF_INIT_CFG_POOL_SIZE
}

/// What holds of the manager's state at every point in time.
pub open spec fn view_wf(v: ManagerView) -> bool {
    &&& tables_wf(v)
    &&& slots_wf(v)
    &&& cores_wf(v)
    &&& services_wf(v)
    &&& blocks_wf(v)
}

/// The free stack of a pool of `capacity` objects of which none is taken:
/// the handles from `capacity - 1` down to 0, so that 0 is handed out
/// first.
pub open spec fn fresh_free_stack(capacity: nat) -> Seq<usize> {
    Seq::new(capacity, |i: int| (capacity - 1 - i) as usize)
}

/// The state at boot of a machine with `num_cores` cores: every slot
/// unused, no core reserved for network functions, no service with a
/// member, no port in use, the pools full and the rings empty.
pub open spec fn boot_view(num_cores: nat) -> ManagerView {
    ManagerView {
        slots: Seq::new(MAX_NFS as nat, |i: int| unused_slot(i as u16)),
        cores: Seq::new(
            num_cores,
            |i: int| CoreStatus { enabled: false, is_dedicated_core: false, nf_count: 0 },
        ),
        services: Seq::new(MAX_SERVICES as nat, |i: int| Seq::<u16>::empty()),
        num_nfs: 0,
        next_instance_id: 1,
        incoming: Seq::<MsgObject>::empty(),
        msg_pool_free: fresh_free_stack(NF_MSG_POOL_SIZE as nat),
        cfg_pool_free: fresh_free_stack(NF_INIT_CFG_POOL_SIZE as nat),
        pkt_pool_free: fresh_free_stack(NUM_MBUFS as nat),
        ports: empty_ports(),
        num_services: MAX_SERVICES,
        num_sockets: 0,
        default_chain: empty_chain(),
        onvm_config: OnvmConfiguration { flags: Flag { onvm_nf_share_cores: 0 } },
        default_service: 0,
        default_service_id: 0,
        onvm_nf_share_cores: false,
    }
}

/// The manager's state. It is made once, at startup, and handed to every
/// operation; nothing of it is global.
pub struct GlobalNFState {
    /// The ring on which the network functions send to the manager.
    pub incoming_msg_queue: Ring<MsgObject>,
    /// The pool of packet buffers.
    pub pktmbuf_pool: Pool,
    /// The pool of control-message objects.
    pub nf_msg_pool: Pool,
    /// The pool of configuration blocks.
    pub nf_init_cfg_pool: Pool,
    /// Per service, the instance ids of its running members.
    pub services: Vec<Vec<u16>>,
    pub num_sockets: u16,
    pub default_chain: OnvmServiceChain,
    pub onvm_config: OnvmConfiguration,
    /// The slots, one per instance id.
    pub nfs: Vec<OnvmNF>,
    pub ports: PortInfo,
    /// The core table, one entry per core.
    pub cores: Vec<CoreStatus>,
    pub num_services: u8,
    /// The number of running network functions.
    pub num_nfs: u32,
    pub default_service: u16,
    pub default_service_id: u16,
    pub onvm_nf_share_cores: bool,
    /// Where the search for the next free instance id starts.
    pub next_instance_id: u32,
}

/// The slots of `nfs` as plain values.
pub open spec fn slot_views(nfs: Seq<OnvmNF>) -> Seq<SlotView> {
    Seq::new(nfs.len(), |i: int| nfs[i]@)
}

/// The member lists of `services` as plain values.
pub open spec fn service_views(services: Seq<Vec<u16>>) -> Seq<Seq<u16>> {
    Seq::new(services.len(), |i: int| services[i]@)
}

impl GlobalNFState {
    /// The state as plain values.
    pub open spec fn view(&self) -> ManagerView {
        ManagerView {
            slots: slot_views(self.nfs@),
            cores: self.cores@,
            services: service_views(self.services@),
            num_nfs: self.num_nfs as nat,
            next_instance_id: self.next_instance_id as nat,
            incoming: self.incoming_msg_queue@,
            msg_pool_free: self.nf_msg_pool.spec_free(),
            cfg_pool_free: self.nf_init_cfg_pool.spec_free(),
            pkt_pool_free: self.pktmbuf_pool.spec_free(),
            ports: self.ports,
            num_services: self.num_services,
            num_sockets: self.num_sockets,
            default_chain: self.default_chain,
            onvm_config: self.onvm_config,
            default_service: self.default_service,
            default_service_id: self.default_service_id,
            onvm_nf_share_cores: self.onvm_nf_share_cores,
        }
    }

    /// The pools and rings are well formed and have their sizes, and the
    /// state as plain values is well formed.
    pub open spec fn wf(&self) -> bool {
        &&& self.incoming_msg_queue.wf()
        &&& self.incoming_msg_queue.spec_capacity() == MAX_NFS
        &&& self.pktmbuf_pool.wf()
        &&& self.pktmbuf_pool.spec_capacity() == NUM_MBUFS
        &&& self.nf_msg_pool.wf()
        &&& self.nf_msg_pool.spec_capacity() == NF_MSG_POOL_SIZE
        &&& self.nf_init_cfg_pool.wf()
        &&& self.nf_init_cfg_pool.spec_capacity() == NF_INIT_CFG_POOL_SIZE
        &&& forall|i: int| 0 <= i < self.nfs@.len() ==> (#[trigger] self.nfs@[i]).wf()
        &&& view_wf(self@)
    }

    /// The state at boot of a machine with `num_cores` cores: every slot
    /// unused, no core reserved for network functions, no service with a
    /// member, no port in use, the pools full and the rings empty.
    pub fn new(num_cores: usize) -> (r: Self)
        requires
            num_cores <= MAX_CORES,
        ensures
            r.wf(),
            r@ == boot_view(num_cores as nat),
    {
        let mut nfs: Vec<OnvmNF> = Vec::new();
        let mut i: usize = 0;
        while i < MAX_NFS as usize
            invariant
                i <= MAX_NFS,
                nfs@.len() == i,
                forall|k: int| 0 <= k < i ==> (#[trigger] nfs@[k]).wf() && nfs@[k]@ == unused_slot(k as u16),
            decreases MAX_NFS - i,
        {
            nfs.push(OnvmNF::new(i as u16));
            i = i + 1;
        }
        let mut cores: Vec<CoreStatus> = Vec::new();
        let mut c: usize = 0;
        while c < num_cores
            invariant
                c <= num_cores,
                cores@.len() == c,
                forall|k: int|
                    0 <= k < c ==> cores@[k] == (CoreStatus {
                        enabled: false,
                        is_dedicated_core: false,
                        nf_count: 0,
                    }),
            decreases num_cores - c,
        {
            cores.push(CoreStatus { enabled: false, is_dedicated_core: false, nf_count: 0 });
            c = c + 1;
        }
        let mut services: Vec<Vec<u16>> = Vec::new();
        let mut s: usize = 0;
        while s < MAX_SERVICES as usize
            invariant
                s <= MAX_SERVICES,
                services@.len() == s,
                forall|k: int| 0 <= k < s ==> (#[trigger] services@[k])@ == Seq::<u16>::empty(),
            decreases MAX_SERVICES - s,
        {
            services.push(Vec::new());
            s = s + 1;
        }
        let r = GlobalNFState {
            incoming_msg_queue: Ring::new(MAX_NFS as usize),
            pktmbuf_pool: Pool::new(NUM_MBUFS as usize),
            nf_msg_pool: Pool::new(NF_MSG_POOL_SIZE),
            nf_init_cfg_pool: Pool::new(NF_INIT_CFG_POOL_SIZE),
            services,
            num_sockets: 0,
            default_chain: OnvmServiceChain::new(),
            onvm_config: OnvmConfiguration::new(),
            nfs,
            ports: PortInfo::new(),
            cores,
            num_services: MAX_SERVICES,
            num_nfs: 0,
            default_service: 0,
            default_service_id: 0,
            onvm_nf_share_cores: false,
            next_instance_id: 1,
        };
        proof {
            let v = r@;
            assert(v.slots =~= Seq::new(MAX_NFS as nat, |i: int| unused_slot(i as u16)));
            assert(v.cores =~= Seq::new(
                num_cores as nat,
                |i: int| CoreStatus { enabled: false, is_dedicated_core: false, nf_count: 0 },
            ));
            assert(v.services =~= Seq::new(MAX_SERVICES as nat, |i: int| Seq::<u16>::empty()));
            assert(v.msg_pool_free =~= fresh_free_stack(NF_MSG_POOL_SIZE as nat));
            assert(v.cfg_pool_free =~= fresh_free_stack(NF_INIT_CFG_POOL_SIZE as nat));
            assert(v.pkt_pool_free =~= fresh_free_stack(NUM_MBUFS as nat));
            lemma_no_live_slots(v.slots);
            assert(free_stack_wf(NF_INIT_CFG_POOL_SIZE as nat, v.cfg_pool_free));
            assert forall|c: int| 0 <= c < v.cores.len() implies (#[trigger] v.cores[c]).nf_count
                == live_on_core(v.slots, c) by {
                lemma_live_on_core_none(v.slots, c);
            }
        }
        r
    }

    /// The slot of instance id `id`, if `id` is an instance id.
    pub fn slot(&self, id: u16) -> (r: Option<&OnvmNF>)
        ensures
            r is Some <==> id < self@.slots.len(),
            r matches Some(nf) ==> *nf == self.nfs@[id as int] && nf@ == self@.slots[id as int],
    {
        if (id as usize) < self.nfs.len() {
            Some(&self.nfs[id as usize])
        } else {
            None
        }
    }

    /// The entry of core `id` in the core table, if there is such a core.
    pub fn core_entry(&self, id: u16) -> (r: Option<CoreStatus>)
        ensures
            r == if id < self@.cores.len() {
                Some(self@.cores[id as int])
            } else {
                None
            },
    {
        if (id as usize) < self.cores.len() {
            Some(self.cores[id as usize])
        } else {
            None
        }
    }

    /// The instance ids of the running members of service `id`, if there is
    /// such a service.
    pub fn service(&self, id: u16) -> (r: Option<&Vec<u16>>)
        ensures
            r is Some <==> id < self@.services.len(),
            r matches Some(members) ==> members@ == self@.services[id as int],
    {
        if (id as usize) < self.services.len() {
            Some(&self.services[id as usize])
        } else {
            None
        }
    }

    /// The number of running network functions.
    pub fn num_nfs(&self) -> (r: u32)
        ensures
            r == self@.num_nfs,
    {
        self.num_nfs
    }

    /// The number of cores the core table describes.
    pub fn num_cores(&self) -> (r: usize)
        ensures
            r == self@.cores.len(),
    {
        self.cores.len()
    }
}

impl Default for GlobalNFState {
    /// The state at boot of a machine without cores.
    fn default() -> (r: Self)
        ensures
            r.wf(),
            r@ == boot_view(0),
    {
        GlobalNFState::new(0)
    }
}

/// What a well-formed state guarantees, in plain terms: no two slots that
/// hold a network function carry the same instance id; no service has more
/// members than a service may have; every core counts exactly the network
/// functions bound to it, and a dedicated core has at most one; and the
/// counter of running network functions counts the running and paused
/// slots.
pub proof fn lemma_state_invariants(v: ManagerView)
    requires
        view_wf(v),
    ensures
        forall|i: int, j: int|
            0 <= i < v.slots.len() && 0 <= j < v.slots.len() && i != j && is_live(
                (#[trigger] v.slots[i]).status,
            ) && is_live((#[trigger] v.slots[j]).status) ==> v.slots[i].instance_id
                != v.slots[j].instance_id,
        forall|s: int|
            0 <= s < v.services.len() ==> (#[trigger] v.services[s]).len() <= MAX_NFS_PER_SERVICE,
        forall|c: int|
            0 <= c < v.cores.len() ==> (#[trigger] v.cores[c]).nf_count == live_on_core(v.slots, c),
        forall|c: int|
            0 <= c < v.cores.len() && (#[trigger] v.cores[c]).is_dedicated_core ==> live_on_core(
                v.slots,
                c,
            ) <= 1,
        v.num_nfs == active_count(v.slots),
{
}

/// Where no slot holds a network function, none is counted.
pub proof fn lemma_no_live_slots(slots: Seq<SlotView>)
    requires
        forall|i: int| 0 <= i < slots.len() ==> !is_live((#[trigger] slots[i]).status),
    ensures
        active_count(slots) == 0,
        live_total(slots) == 0,
    decreases slots.len(),
{
    if slots.len() > 0 {
        lemma_no_live_slots(slots.drop_last());
    }
}

/// Where no slot holds a network function, no core has one bound to it.
pub proof fn lemma_live_on_core_none(slots: Seq<SlotView>, core: int)
    requires
        forall|i: int| 0 <= i < slots.len() ==> !is_live((#[trigger] slots[i]).status),
    ensures
        live_on_core(slots, core) == 0,
    decreases slots.len(),
{
    if slots.len() > 0 {
        lemma_live_on_core_none(slots.drop_last(), core);
    }
}

} // verus!
