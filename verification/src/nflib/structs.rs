//! The data structures shared between the manager and the network functions.

use super::constants::{
    NF_MSG_QUEUE_SIZE, NF_QUEUE_RINGSIZE, NF_WAITING_FOR_ID, ONVM_MAX_CHAIN_LENGTH, PACKET_READ_SIZE,
    RTE_MAX_ETHPORTS,
};
use super::ring::Ring;
use vstd::array::spec_array_fill_for_copy_type;
use vstd::prelude::*;

verus! {

/// A raw message: its kind and its data.
#[derive(Clone, Debug, PartialEq, Eq)]
pub struct OnvmNfMsg {
    pub msg_type: u8,
    pub msg_data: String,
}

/// What is to be done with a packet.
#[derive(Clone, Copy, Debug, PartialEq, Eq, Structural)]
pub enum OnvmAction {
    /// Drop the packet.
    DROP,
    /// Go on to whatever the next action is configured to be.
    NEXT,
    /// Send to the network function named in the destination.
    TONF,
    /// Send the packet out of the port named in the destination.
    OUT,
}

/// What the manager and the network functions note on a packet.
#[derive(Clone, Copy, Debug, PartialEq, Eq, Structural)]
pub struct OnvmPktMeta {
    /// The action to be performed.
    pub action: OnvmAction,
    /// Where to go next.
    pub destination: u16,
    /// Who processed the packet last.
    pub src: u16,
    /// The index of the current step in the service chain.
    pub chain_index: u8,
    /// Bits for custom data of the network functions.
    pub flags: u8,
}

/// A packet buffer: the handle of its object in the packet pool, and the
/// note attached to it, if any.
#[derive(Clone, Copy, Debug, PartialEq, Eq, Structural)]
pub struct Mbuf {
    pub handle: usize,
    pub meta: Option<OnvmPktMeta>,
}

/// A local buffer of packets, used to send packets in bursts to the network
/// functions or to a port. The buffer owns its packets.
pub struct PacketBuf {
    buffer: Vec<Mbuf>,
    count: u16,
}

impl PacketBuf {
    /// The packets in the buffer, in the order they were added.
    pub closed spec fn view(&self) -> Seq<Mbuf> {
        self.buffer@
    }

    /// The count kept beside the buffer agrees with it.
    pub closed spec fn wf(&self) -> bool {
        self.count as nat == self.buffer@.len()
    }

    /// An empty buffer.
    pub fn new() -> (r: Self)
        ensures
            r.wf(),
            r@ == Seq::<Mbuf>::empty(),
    {
        Self { buffer: Vec::with_capacity(PACKET_READ_SIZE), count: 0 }
    }

    /// Appends a packet.
    pub fn add_mbuf(&mut self, pkt: Mbuf)
        requires
            old(self).wf(),
            old(self)@.len() < u16::MAX,
        ensures
            final(self).wf(),
            final(self)@ == old(self)@.push(pkt),
    {
        self.buffer.push(pkt);
        self.count = self.count + 1;
    }

    /// The number of packets in the buffer.
    pub fn len(&self) -> (n: usize)
        ensures
            n == self@.len(),
    {
        self.buffer.len()
    }
}

impl Default for PacketBuf {
    /// An empty buffer.
    fn default() -> (r: Self)
        ensures
            r.wf(),
            r@ == Seq::<Mbuf>::empty(),
    {
        PacketBuf::new()
    }
}

/// Why a packet could not be handed to a transmit thread.
#[derive(Clone, Copy, Debug, PartialEq, Eq, Structural)]
pub enum TxError {
    /// The thread has no packet buffer.
    BufferMissing,
}

/// Packets may be transported by a transmit thread or by a network function.
/// This is the data of a transmit thread: the range of network functions it
/// serves and the buffer of packets bound for the ports.
pub struct TxThreadInfo {
    pub first_nf: u8,
    pub last_nf: u8,
    pub port_tx_bufs: Option<PacketBuf>,
}

impl TxThreadInfo {
    /// The buffer, where there is one, is well formed.
    pub open spec fn wf(&self) -> bool {
        self.port_tx_bufs matches Some(buf) ==> buf.wf()
    }

    /// The data of a transmit thread that serves `first_nf ..= last_nf` and
    /// owns `port_tx_bufs`.
    pub fn new(first_nf: u8, last_nf: u8, port_tx_bufs: PacketBuf) -> (r: Self)
        requires
            port_tx_bufs.wf(),
        ensures
            r.wf(),
            r.first_nf == first_nf,
            r.last_nf == last_nf,
            r.port_tx_bufs == Some(port_tx_bufs),
    {
        Self { first_nf, last_nf, port_tx_bufs: Some(port_tx_bufs) }
    }

    /// Adds a packet to the thread's buffer. A buffer that already holds a
    /// full burst drops the packet silently; a thread without a buffer
    /// refuses it.
    pub fn add_mbuf(&mut self, pkt: Mbuf) -> (r: Result<(), TxError>)
        requires
            old(self).wf(),
        ensures
            final(self).wf(),
            final(self).first_nf == old(self).first_nf,
            final(self).last_nf == old(self).last_nf,
            match old(self).port_tx_bufs {
                None => r == Err::<(), TxError>(TxError::BufferMissing) && final(self).port_tx_bufs
                    is None,
                Some(before) => {
                    &&& r is Ok
                    &&& final(self).port_tx_bufs is Some
                    &&& final(self).port_tx_bufs->0@ == if before@.len() < PACKET_READ_SIZE {
                        before@.push(pkt)
                    } else {
                        before@
                    }
                },
            },
    {
        match self.port_tx_bufs.take() {
            Some(mut buf) => {
                if buf.len() < PACKET_READ_SIZE {
                    buf.add_mbuf(pkt);
                }
                self.port_tx_bufs = Some(buf);
                Ok(())
            },
            None => Err(TxError::BufferMissing),
        }
    }
}

/// Who manages a queue.
#[derive(Clone, Copy, Debug, PartialEq, Eq, Structural)]
pub enum QmgrType {
    NF,
    MGR,
}

/// The buffer behind a queue manager: that of a transmit thread of the
/// manager, or that of a network function.
pub enum Qmgr {
    Mgr(TxThreadInfo),
    NF(PacketBuf),
}

/// What transmit threads and network functions both use to queue packets.
/// The queue manager owns its buffers.
pub struct QueueMgr {
    pub id: u8,
    pub mgr_type: QmgrType,
    pub buf: Qmgr,
    pub nf_rx_buf: PacketBuf,
}

/// Whether a buffer is of the kind that a manager of type `mgr_type` uses.
pub open spec fn qmgr_matches(mgr_type: QmgrType, buf: Qmgr) -> bool {
    match mgr_type {
        QmgrType::MGR => buf is Mgr,
        QmgrType::NF => buf is NF,
    }
}

impl QueueMgr {
    fn get_self(id: u8, mgr_type: QmgrType, buf: Qmgr, nf_rx_buf: PacketBuf) -> (r: Self)
        ensures
            r.id == id,
            r.mgr_type == mgr_type,
            r.buf == buf,
            r.nf_rx_buf == nf_rx_buf,
    {
        Self { id, mgr_type, buf, nf_rx_buf }
    }

    /// A queue manager, provided that the buffer is of the kind its type
    /// asks for.
    pub fn new(id: u8, mgr_type: QmgrType, buf: Qmgr, nf_rx_buf: PacketBuf) -> (r: Option<Self>)
        ensures
            r is Some <==> qmgr_matches(mgr_type, buf),
            r matches Some(q) ==> q.id == id && q.mgr_type == mgr_type && q.buf == buf
                && q.nf_rx_buf == nf_rx_buf,
    {
        match mgr_type {
            QmgrType::MGR => match buf {
                Qmgr::Mgr(_) => Some(Self::get_self(id, mgr_type, buf, nf_rx_buf)),
                Qmgr::NF(_) => None,
            },
            QmgrType::NF => match buf {
                Qmgr::NF(_) => Some(Self::get_self(id, mgr_type, buf, nf_rx_buf)),
                Qmgr::Mgr(_) => None,
            },
        }
    }
}

/// The range of network functions a wakeup thread looks after.
#[derive(Clone, Copy, Debug, PartialEq, Eq, Structural)]
pub struct WakeupThreadContext {
    pub first_nf: u8,
    pub last_nf: u8,
}

/// Packets received, per port.
#[derive(Clone, Copy, Debug)]
pub struct RxStats {
    pub rx: [u64; 32],
}

/// Packets sent and dropped, per port.
#[derive(Clone, Copy, Debug)]
pub struct TxStats {
    pub tx: [u64; 32],
    pub tx_drop: [u64; 32],
}

/// A hardware address.
#[derive(Clone, Copy, Debug)]
pub struct EtherAddr {
    pub addr_bytes: [u8; 6],
}

impl EtherAddr {
    /// The address made of `addr_bytes`.
    pub fn new(addr_bytes: [u8; 6]) -> (r: Self)
        ensures
            r.addr_bytes == addr_bytes,
    {
        Self { addr_bytes }
    }

    /// The address made of the bytes of a hardware address as the packet
    /// library hands it out.
    pub fn from_rte_ether_addr(&self, addr_bytes: [u8; 6]) -> (r: Self)
        ensures
            r.addr_bytes == addr_bytes,
    {
        Self::new(addr_bytes)
    }

    /// The six bytes of the address.
    pub fn get_mac(&self) -> (r: [u8; 6])
        ensures
            r == self.addr_bytes,
    {
        self.addr_bytes
    }
}

impl Default for EtherAddr {
    /// The address of six zero bytes.
    fn default() -> (r: Self)
        ensures
            r.addr_bytes == spec_array_fill_for_copy_type::<u8, 6>(0u8),
    {
        EtherAddr { addr_bytes: [0u8;6] }
    }
}

/// The hardware ports in use, with their addresses and statistics.
pub struct PortInfo {
    /// How many entries of `id` are in use.
    pub num_ports: u8,
    /// The port numbers in use.
    pub id: [u8; 32],
    /// Per port number, 1 once the port is initialised.
    pub init: [u8; 32],
    pub mac: [EtherAddr; 32],
    pub rx_stats: RxStats,
    pub tx_stats: TxStats,
}

impl PortInfo {
    /// No more ports are in use than the table has room for, and each port
    /// in use has a number the per-port tables have an entry for.
    pub open spec fn wf(&self) -> bool {
        &&& self.num_ports <= RTE_MAX_ETHPORTS
        &&& forall|i: int| 0 <= i < self.num_ports ==> (#[trigger] self.id@[i]) < RTE_MAX_ETHPORTS
    }

    /// The numbers of the ports in use, in the order they were registered.
    pub open spec fn in_use(&self) -> Seq<u8> {
        self.id@.take(self.num_ports as int)
    }

    /// A table with no port in use.
    pub fn new() -> (r: Self)
        ensures
            r.wf(),
            r == empty_ports(),
    {
        Self {
            num_ports: 0,
            id: [0u8;32],
            init: [0u8;32],
            mac: [EtherAddr { addr_bytes: [0u8;6] };32],
            rx_stats: RxStats { rx: [0u64;32] },
            tx_stats: TxStats { tx: [0u64;32], tx_drop: [0u64;32] },
        }
    }
}

impl Default for PortInfo {
    /// A table with no port in use.
    fn default() -> (r: Self)
        ensures
            r.wf(),
            r == empty_ports(),
    {
        PortInfo::new()
    }
}

/// The port table at boot: no port in use, every entry and count zero.
pub open spec fn empty_ports() -> PortInfo {
    PortInfo {
        num_ports: 0,
        id: spec_array_fill_for_copy_type::<u8, 32>(0u8),
        init: spec_array_fill_for_copy_type::<u8, 32>(0u8),
        mac: spec_array_fill_for_copy_type::<EtherAddr, 32>(
            EtherAddr { addr_bytes: spec_array_fill_for_copy_type::<u8, 6>(0u8) },
        ),
        rx_stats: RxStats { rx: spec_array_fill_for_copy_type::<u64, 32>(0u64) },
        tx_stats: TxStats {
            tx: spec_array_fill_for_copy_type::<u64, 32>(0u64),
            tx_drop: spec_array_fill_for_copy_type::<u64, 32>(0u64),
        },
    }
}

/// The switches of the manager's configuration.
#[derive(Clone, Copy, Debug, PartialEq, Eq, Structural)]
pub struct Flag {
    pub onvm_nf_share_cores: u8,
}

/// The configuration the manager shares with the network functions.
#[derive(Clone, Copy, Debug, PartialEq, Eq, Structural)]
pub struct OnvmConfiguration {
    pub flags: Flag,
}

impl OnvmConfiguration {
    /// A configuration with every switch off.
    pub fn new() -> (r: Self)
        ensures
            r.flags.onvm_nf_share_cores == 0,
    {
        Self { flags: Flag { onvm_nf_share_cores: 0 } }
    }

    /// Sets the switch for shared cores.
    pub fn set_flag(&mut self, share: u8)
        ensures
            final(self).flags.onvm_nf_share_cores == share,
    {
        self.flags.onvm_nf_share_cores = share;
    }
}

impl Default for OnvmConfiguration {
    /// A configuration with every switch off.
    fn default() -> (r: Self)
        ensures
            r.flags.onvm_nf_share_cores == 0,
    {
        OnvmConfiguration::new()
    }
}

/// The state of one core: whether it is reserved for network functions,
/// whether one of them has it to itself, and how many run on it.
#[derive(Clone, Copy, Debug, PartialEq, Eq, Structural)]
pub struct CoreStatus {
    pub enabled: bool,
    pub is_dedicated_core: bool,
    pub nf_count: u16,
}

impl Default for CoreStatus {
    /// A core that is not reserved for network functions and has none.
    fn default() -> (r: Self)
        ensures
            r == (CoreStatus { enabled: false, is_dedicated_core: false, nf_count: 0 }),
    {
        CoreStatus { enabled: false, is_dedicated_core: false, nf_count: 0 }
    }
}

/// What is needed to start a child of a network function.
#[derive(Clone, Copy, Debug, PartialEq, Eq, Structural)]
pub struct OnvmScaleInfo {}

/// One step of a service chain.
#[derive(Clone, Copy, Debug, PartialEq, Eq, Structural)]
pub struct OnvmServiceChainEntry {
    pub destination: u16,
    pub action: u8,
}

/// A service chain: its steps, how many of them are in use, and how many
/// flows refer to it.
#[derive(Clone, Copy, Debug)]
pub struct OnvmServiceChain {
    pub sc: [OnvmServiceChainEntry; 4],
    pub chain_length: u8,
    pub ref_cnt: u8,
}

impl OnvmServiceChain {
    /// The chain uses no more steps than it has.
    pub open spec fn wf(&self) -> bool {
        self.chain_length <= ONVM_MAX_CHAIN_LENGTH
    }

    /// An empty chain.
    pub fn new() -> (r: Self)
        ensures
            r.wf(),
            r == empty_chain(),
    {
        Self { sc: [OnvmServiceChainEntry { destination: 0, action: 0 };4], chain_length: 0, ref_cnt: 0 }
    }
}

/// Where a network function runs and who started it.
#[derive(Clone, Copy, Debug, PartialEq, Eq, Structural)]
pub struct ThreadInfo {
    /// The core the network function is bound to.
    pub core: u16,
    /// The instance id of the parent, or 0.
    pub parent: u16,
    /// How many children of this network function are alive.
    pub children_count: u16,
}

/// The options and limits a network function was started with.
#[derive(Clone, Copy, Debug, PartialEq, Eq, Structural)]
pub struct Flags {
    pub init_options: u16,
    /// If set, the network function stops when its time reaches this.
    pub time_to_live: u16,
    /// If set, the network function stops when its sent packets reach this.
    pub pkt_limit: u16,
}

/// The sleep state of a network function in shared-core mode: 1 while it
/// sleeps, 0 while it runs.
#[derive(Clone, Copy, Debug, PartialEq, Eq, Structural)]
pub struct SharedCore {
    pub sleep_state: i16,
}

/// The configuration a network function hands to the manager to be
/// admitted.
#[derive(Clone, Debug, PartialEq, Eq)]
pub struct OnvmNfInitCfg {
    pub instance_id: u16,
    pub service_id: u16,
    pub core: u16,
    pub init_options: u16,
    pub status: u8,
    pub tag: Option<String>,
    /// If set, the network function stops when its time reaches this.
    pub time_to_live: u16,
    /// If set, the network function stops when its sent packets reach this.
    pub pkt_limit: u16,
}

impl OnvmNfInitCfg {
    /// A configuration that declares nothing: every number 0, no tag.
    pub fn new() -> (r: Self)
        ensures
            r.instance_id == 0,
            r.service_id == 0,
            r.core == 0,
            r.init_options == 0,
            r.status == 0,
            r.tag is None,
            r.time_to_live == 0,
            r.pkt_limit == 0,
    {
        Self {
            instance_id: 0,
            service_id: 0,
            core: 0,
            init_options: 0,
            status: 0,
            tag: None,
            time_to_live: 0,
            pkt_limit: 0,
        }
    }
}

impl Default for OnvmNfInitCfg {
    /// A configuration that declares nothing: every number 0, no tag.
    fn default() -> (r: Self)
        ensures
            r.instance_id == 0,
            r.service_id == 0,
            r.core == 0,
            r.init_options == 0,
            r.status == 0,
            r.tag is None,
            r.time_to_live == 0,
            r.pkt_limit == 0,
    {
        OnvmNfInitCfg::new()
    }
}

/// A control message. The network functions send all three kinds to the
/// manager; the manager sends `NfStopping` to a network function to tell it
/// to shut down. The slot a message speaks of is named by its instance id.
#[derive(Clone, Debug, PartialEq, Eq)]
pub enum OnvmNFMsg {
    NfStarting(OnvmNfInitCfg),
    NfReady(u16),
    NfStopping(u16),
}

/// A control message in transit: the message and the handle of the object of
/// the message pool that carries it.
#[derive(Clone, Debug, PartialEq, Eq)]
pub struct MsgObject {
    pub handle: usize,
    pub msg: OnvmNFMsg,
}

/// The slot of one network function: its rings, its identity and state, and
/// what it was started with. There is one slot per instance id; a stopped
/// slot is used again by the next network function that gets the id.
pub struct OnvmNF {
    /// Packets on their way to the network function.
    pub rx_q: Ring<Mbuf>,
    /// Packets the network function has sent.
    pub tx_q: Ring<Mbuf>,
    /// Control messages from the manager.
    pub msg_q: Ring<MsgObject>,
    pub nf_tx_mgr: Option<QueueMgr>,
    pub instance_id: u16,
    pub service_id: u16,
    pub status: u8,
    /// The tag of the network function, at most 15 bytes of it.
    pub tag: Vec<u8>,
    pub thread_info: ThreadInfo,
    pub flags: Flags,
    pub shared_core: SharedCore,
    /// The handle of the slot's configuration block, while it has one.
    pub cfg_block: Option<usize>,
}

/// What a slot holds, as plain values.
pub struct SlotView {
    pub instance_id: u16,
    pub service_id: u16,
    pub status: u8,
    pub tag: Seq<u8>,
    pub thread_info: ThreadInfo,
    pub flags: Flags,
    pub cfg_block: Option<usize>,
    pub rx_q: Seq<Mbuf>,
    pub tx_q: Seq<Mbuf>,
    pub msg_q: Seq<MsgObject>,
}

impl OnvmNF {
    /// The slot as plain values.
    pub open spec fn view(&self) -> SlotView {
        SlotView {
            instance_id: self.instance_id,
            service_id: self.service_id,
            status: self.status,
            tag: self.tag@,
            thread_info: self.thread_info,
            flags: self.flags,
            cfg_block: self.cfg_block,
            rx_q: self.rx_q@,
            tx_q: self.tx_q@,
            msg_q: self.msg_q@,
        }
    }

    /// The rings are well formed and have the sizes the manager gives them.
    pub open spec fn wf(&self) -> bool {
        &&& self.rx_q.wf()
        &&& self.tx_q.wf()
        &&& self.msg_q.wf()
        &&& self.rx_q.spec_capacity() == NF_QUEUE_RINGSIZE
        &&& self.tx_q.spec_capacity() == NF_QUEUE_RINGSIZE
        &&& self.msg_q.spec_capacity() == NF_MSG_QUEUE_SIZE
    }

    /// An unused slot for the instance id `instance_id`, with empty rings.
    pub fn new(instance_id: u16) -> (r: Self)
        ensures
            r.wf(),
            r@ == unused_slot(instance_id),
    {
        let r = Self {
            rx_q: Ring::new(NF_QUEUE_RINGSIZE),
            tx_q: Ring::new(NF_QUEUE_RINGSIZE),
            msg_q: Ring::new(NF_MSG_QUEUE_SIZE as usize),
            nf_tx_mgr: None,
            instance_id,
            service_id: 0,
            status: NF_WAITING_FOR_ID,
            tag: Vec::new(),
            thread_info: ThreadInfo { core: 0, parent: 0, children_count: 0 },
            flags: Flags { init_options: 0, time_to_live: 0, pkt_limit: 0 },
            shared_core: SharedCore { sleep_state: 0 },
            cfg_block: None,
        };
        proof {
            assert(r@.tag =~= Seq::<u8>::empty());
        }
        r
    }
}

/// The slot for `instance_id` as it is at boot: waiting for an id, bound to
/// nothing, its rings empty.
pub open spec fn unused_slot(instance_id: u16) -> SlotView {
    SlotView {
        instance_id,
        service_id: 0,
        status: NF_WAITING_FOR_ID,
        tag: Seq::<u8>::empty(),
        thread_info: ThreadInfo { core: 0, parent: 0, children_count: 0 },
        flags: Flags { init_options: 0, time_to_live: 0, pkt_limit: 0 },
        cfg_block: None,
        rx_q: Seq::<Mbuf>::empty(),
        tx_q: Seq::<Mbuf>::empty(),
        msg_q: Seq::<MsgObject>::empty(),
    }
}

/// What a network function keeps of itself while it runs.
pub struct OnvmNfLocalCtx {
    pub nf: Option<OnvmNF>,
    pub nf_init_finished: i16,
    pub keep_running: i16,
    pub nf_stopped: i16,
}

impl Default for OnvmServiceChain {
    /// An empty chain.
    fn default() -> (r: Self)
        ensures
            r.wf(),
            r == empty_chain(),
    {
        OnvmServiceChain::new()
    }
}

/// The service chain at boot: no step in use, no flow referring to it.
pub open spec fn empty_chain() -> OnvmServiceChain {
    OnvmServiceChain {
        sc: spec_array_fill_for_copy_type::<OnvmServiceChainEntry, 4>(
            OnvmServiceChainEntry { destination: 0, action: 0 },
        ),
        chain_length: 0,
        ref_cnt: 0,
    }
}

/// A request for a longest-prefix-match table.
#[derive(Clone, Debug, PartialEq, Eq)]
pub struct LpmRequest {
    pub name: String,
    pub max_num_rules: u32,
    pub num_tbl8s: u32,
    pub socket_id: u32,
    pub status: u32,
}

/// A request for a flow table, as it is put on the manager's message ring.
#[derive(Clone, Copy, Debug, PartialEq, Eq, Structural)]
pub struct FtRequest {}

} // verus!
