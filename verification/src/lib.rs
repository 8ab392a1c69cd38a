//! Control plane of a network-function host manager: the registry of
//! network-function slots, the core scheduler, the control-message bus and
//! the supervisory loop that drives them.

use crate::mgr::get_args::{arg_texts, ConfigError};
use crate::mgr::global::{view_wf, GlobalNFState, ManagerView, MAX_CORES};
use crate::mgr::init::{init, is_init_outcome, InitOutcome};
use crate::mgr::net_funcs::{
    check_status_outcome, lemma_bus_wf, onvm_nf_check_status, onvm_nf_send_msg, send_outcome, BusError,
    NfReply,
};
use crate::nflib::constants::{MAX_NFS, NF_RUNNING, PKT_TTL_MULTIPLIER, TIME_TTL_MULTIPLIER};
use crate::nflib::funcs_macros::onvm_nf_is_valid;
use crate::nflib::structs::{OnvmNFMsg, PortInfo};
use vstd::prelude::*;

pub mod mgr;
pub mod nflib;

verus! {

/// The number of times the master thread looks for stop notices while it
/// shuts down.
pub const MAX_SHUTDOWN_ITERS: u8 = 10;

/// The settings of the master thread.
#[derive(Clone, Copy, Debug, PartialEq, Eq, Structural)]
pub struct MgrState {
    /// The seconds between two turns of the master thread.
    pub global_stats_sleep_time: u8,
    pub global_verbosity_level: u8,
    /// If set, the manager shuts down when this many million packets were
    /// received.
    pub global_pkt_limit: u8,
    /// If set, the manager shuts down after this many seconds.
    pub global_time_to_live: u8,
}

impl MgrState {
    /// The settings the master thread starts with: a turn every second, no
    /// limit on time or packets.
    pub fn new() -> (r: Self)
        ensures
            r == (MgrState {
                global_stats_sleep_time: 1,
                global_verbosity_level: 0,
                global_pkt_limit: 0,
                global_time_to_live: 0,
            }),
    {
        MgrState {
            global_stats_sleep_time: 1,
            global_verbosity_level: 0,
            global_pkt_limit: 0,
            global_time_to_live: 0,
        }
    }
}

impl Default for MgrState {
    /// Settings with every number 0: no sleep between turns, no limits.
    fn default() -> (r: Self)
        ensures
            r == (MgrState {
                global_stats_sleep_time: 0,
                global_verbosity_level: 0,
                global_pkt_limit: 0,
                global_time_to_live: 0,
            }),
    {
        MgrState {
            global_stats_sleep_time: 0,
            global_verbosity_level: 0,
            global_pkt_limit: 0,
            global_time_to_live: 0,
        }
    }
}

/// Where the master thread stands.
#[derive(Clone, Copy, Debug, PartialEq, Eq, Structural)]
pub enum MasterPhase {
    /// Serving the network functions.
    Running,
    /// Shutting down; `rounds_done` looks for stop notices lie behind.
    ShuttingDown { rounds_done: u8 },
    /// Finished.
    Done,
}

/// The master thread between two of its turns.
#[derive(Clone, Copy, Debug, PartialEq, Eq, Structural)]
pub struct MasterThread {
    pub config: MgrState,
    /// The reading of the cycle counter when the thread started.
    pub start_cycles: u64,
    pub phase: MasterPhase,
    /// Whether the threads of the data plane are to keep running.
    pub worker_keep_running: bool,
}

/// A network function that was told to shut down, and whether the notice
/// got onto its ring.
#[derive(Clone, Copy, Debug, PartialEq, Eq)]
pub struct StopNotice {
    pub instance_id: u16,
    pub result: Result<(), BusError>,
}

/// What one turn of the master thread did, for the caller to log.
#[derive(Debug, PartialEq, Eq)]
pub enum StepReport {
    /// A turn while running: the answers to the messages handled.
    Tick { replies: Vec<NfReply> },
    /// A limit was reached and the shutdown began: the answers to the
    /// messages handled before, which limit was reached, who was told to
    /// stop, and the answers and the number of running network functions
    /// of the first look for stop notices.
    ShutdownBegun {
        replies: Vec<NfReply>,
        time_exceeded: bool,
        pkts_exceeded: bool,
        notices: Vec<StopNotice>,
        round_replies: Vec<NfReply>,
        waiting_for: u32,
    },
    /// A further look for stop notices: the answers, and the number of
    /// network functions still running.
    Round { replies: Vec<NfReply>, waiting_for: u32 },
    /// The shutdown ended with this many network functions still running;
    /// they have to be killed by hand.
    Finished { still_running: u32 },
    /// The thread had finished before.
    Idle,
}

/// Whether the time to live has passed: it is set, and the whole seconds
/// since the start are at least as many.
pub open spec fn time_exceeded(config: MgrState, start_cycles: u64, now_cycles: u64, timer_hz: u64) -> bool {
    config.global_time_to_live > 0 && ((now_cycles - start_cycles) * TIME_TTL_MULTIPLIER) / (
    timer_hz as int) >= config.global_time_to_live
}

/// The packets received on the first `n` ports in use, taken together.
pub open spec fn total_rx_pkts(ports: PortInfo, n: nat) -> nat
    decreases n,
{
    if n == 0 {
        0
    } else {
        total_rx_pkts(ports, (n - 1) as nat) + ports.rx_stats.rx@[ports.id@[n - 1] as int] as nat
    }
}

/// Whether the packet limit is reached: it is set, and the packets received
/// on all ports in use are at least that many million.
pub open spec fn pkts_exceeded(config: MgrState, ports: PortInfo) -> bool {
    config.global_pkt_limit > 0 && total_rx_pkts(ports, ports.num_ports as nat)
        >= config.global_pkt_limit * PKT_TTL_MULTIPLIER
}

/// What telling the network functions to shut down leads to, for the first
/// `n` slots: every slot among them that is not running is sent
/// `NfStopping`, in the order of the instance ids. A notice that cannot be
/// sent is dropped.
pub open spec fn notify_outcome(v: ManagerView, n: nat) -> (ManagerView, Seq<StopNotice>)
    decreases n,
{
    if n == 0 {
        (v, Seq::<StopNotice>::empty())
    } else {
        let before = notify_outcome(v, (n - 1) as nat);
        let id = (n - 1) as u16;
        if before.0.slots[id as int].status == NF_RUNNING {
            before
        } else {
            let out = send_outcome(before.0, id, OnvmNFMsg::NfStopping(id));
            (out.0, before.1.push(StopNotice { instance_id: id, result: out.1 }))
        }
    }
}

/// The phase after a turn. While running, the thread goes on unless a limit
/// was reached; then the shutdown begins and its first look for stop
/// notices is done in the same turn. Each further turn is one more look,
/// until `MAX_SHUTDOWN_ITERS` of them are done; the turn after that
/// finishes, whatever the network functions did.
pub open spec fn phase_after(phase: MasterPhase, limit_reached: bool) -> MasterPhase {
    match phase {
        MasterPhase::Running => if limit_reached {
            MasterPhase::ShuttingDown { rounds_done: 1 }
        } else {
            MasterPhase::Running
        },
        MasterPhase::ShuttingDown { rounds_done } => if rounds_done < MAX_SHUTDOWN_ITERS {
            MasterPhase::ShuttingDown { rounds_done: (rounds_done + 1) as u8 }
        } else {
            MasterPhase::Done
        },
        MasterPhase::Done => MasterPhase::Done,
    }
}

/// The turns a thread in this phase still takes until it has finished, once
/// it shuts down.
pub open spec fn turns_left(phase: MasterPhase) -> nat {
    match phase {
        MasterPhase::Running => (MAX_SHUTDOWN_ITERS + 1) as nat,
        MasterPhase::ShuttingDown { rounds_done } => if rounds_done <= MAX_SHUTDOWN_ITERS {
            (MAX_SHUTDOWN_ITERS + 1 - rounds_done) as nat
        } else {
            1
        },
        MasterPhase::Done => 0,
    }
}

/// The phase after `n` turns of a thread that shuts down.
pub open spec fn phase_after_turns(phase: MasterPhase, n: nat) -> MasterPhase
    decreases n,
{
    if n == 0 {
        phase
    } else {
        phase_after(phase_after_turns(phase, (n - 1) as nat), true)
    }
}

/// The shutdown is bounded: a thread that shuts down has finished after at
/// most `MAX_SHUTDOWN_ITERS` further turns, and stays finished. Nothing in
/// this depends on the network functions.
pub proof fn lemma_shutdown_bounded(phase: MasterPhase, n: nat)
    requires
        phase is ShuttingDown,
        phase->rounds_done >= 1,
        n >= MAX_SHUTDOWN_ITERS,
    ensures
        phase_after_turns(phase, n) is Done,
        forall|k: nat|
            k <= n ==> turns_left(#[trigger] phase_after_turns(phase, k)) == if turns_left(phase) >= k {
                turns_left(phase) - k
            } else {
                0
            },
    decreases n,
{
    lemma_turns(phase, n);
}

/// Each turn of a shutdown takes one from the turns that are left.
pub proof fn lemma_turns(phase: MasterPhase, n: nat)
    requires
        !(phase is Running),
    ensures
        forall|k: nat|
            k <= n ==> turns_left(#[trigger] phase_after_turns(phase, k)) == if turns_left(phase) >= k {
                turns_left(phase) - k
            } else {
                0
            },
        forall|k: nat| k <= n ==> !(#[trigger] phase_after_turns(phase, k) is Running),
    decreases n,
{
    if n > 0 {
        lemma_turns(phase, (n - 1) as nat);
        let before = phase_after_turns(phase, (n - 1) as nat);
        assert(phase_after_turns(phase, n) == phase_after(before, true));
    }
}

/// Starts the manager on this machine, which has `total_ports` ports, with
/// the command line `args`.
pub fn main_run(args: Vec<String>, total_ports: u16) -> (r: Result<InitOutcome, ConfigError>)
    ensures
        exists|num_cores: nat|
            1 <= num_cores <= MAX_CORES && #[trigger] is_init_outcome(
                r,
                arg_texts(args@),
                total_ports,
                num_cores,
            ),
{
    init(args, total_ports)
}

impl MasterThread {
    /// The master thread at its start, at the reading `start_cycles` of the
    /// cycle counter: running, the data plane running.
    pub fn new(config: MgrState, start_cycles: u64) -> (r: Self)
        ensures
            r == (MasterThread {
                config,
                start_cycles,
                phase: MasterPhase::Running,
                worker_keep_running: true,
            }),
    {
        MasterThread { config, start_cycles, phase: MasterPhase::Running, worker_keep_running: true }
    }

    /// Whether the thread has finished.
    pub fn is_done(&self) -> (r: bool)
        ensures
            r == (self.phase is Done),
    {
        match self.phase {
            MasterPhase::Done => true,
            _ => false,
        }
    }
}

/// The packets received on all ports in use, taken together.
pub fn total_rx(ports: &PortInfo) -> (r: u128)
    requires
        ports.wf(),
    ensures
        r == total_rx_pkts(*ports, ports.num_ports as nat),
{
    let mut total: u128 = 0;
    let mut i: usize = 0;
    while i < ports.num_ports as usize
        invariant
            ports.wf(),
            i <= ports.num_ports,
            total == total_rx_pkts(*ports, i as nat),
            total <= i * 0xffff_ffff_ffff_ffff,
        decreases ports.num_ports - i,
    {
        let port = ports.id[i] as usize;
        total = total + ports.rx_stats.rx[port] as u128;
        i = i + 1;
    }
    total
}

/// Whether the time to live has passed.
pub fn time_is_up(config: &MgrState, start_cycles: u64, now_cycles: u64, timer_hz: u64) -> (r: bool)
    requires
        timer_hz > 0,
        now_cycles >= start_cycles,
    ensures
        r == time_exceeded(*config, start_cycles, now_cycles, timer_hz),
{
    let cycles: u64 = now_cycles - start_cycles;
    let scale: u64 = TIME_TTL_MULTIPLIER as u64;
    assert(cycles * scale == cycles) by (nonlinear_arith)
        requires
            scale == 1,
    ;
    let elapsed: u64 = cycles * scale;
    config.global_time_to_live > 0 && elapsed / timer_hz >= config.global_time_to_live as u64
}

/// Whether the packet limit is reached.
pub fn pkt_limit_reached(config: &MgrState, ports: &PortInfo) -> (r: bool)
    requires
        ports.wf(),
    ensures
        r == pkts_exceeded(*config, *ports),
{
    if config.global_pkt_limit == 0 {
        return false;
    }
    let lim: u32 = config.global_pkt_limit as u32 * PKT_TTL_MULTIPLIER;
    total_rx(ports) >= lim as u128
}

/// Telling the network functions to shut down keeps the state well formed,
/// and touches neither the ports nor the count of running network
/// functions.
pub proof fn lemma_notify_wf(v: ManagerView, n: nat)
    requires
        view_wf(v),
        n <= MAX_NFS,
    ensures
        view_wf(notify_outcome(v, n).0),
        notify_outcome(v, n).0.num_nfs == v.num_nfs,
        notify_outcome(v, n).0.ports == v.ports,
    decreases n,
{
    if n > 0 {
        lemma_notify_wf(v, (n - 1) as nat);
        let before = notify_outcome(v, (n - 1) as nat);
        let id = (n - 1) as u16;
        lemma_bus_wf(before.0, id, OnvmNFMsg::NfStopping(id));
    }
}

/// Tells the network functions to shut down: every slot that is not running
/// is sent `NfStopping`. A notice that cannot be sent is dropped and
/// reported as such.
pub fn notify_shutdown(global_state: &mut GlobalNFState) -> (notices: Vec<StopNotice>)
    requires
        old(global_state).wf(),
    ensures
        final(global_state).wf(),
        final(global_state)@ == notify_outcome(old(global_state)@, MAX_NFS as nat).0,
        notices@ == notify_outcome(old(global_state)@, MAX_NFS as nat).1,
{
    let mut notices: Vec<StopNotice> = Vec::new();
    let mut i: u16 = 0;
    while i < MAX_NFS as u16
        invariant
            i <= MAX_NFS,
            global_state.wf(),
            global_state@ == notify_outcome(old(global_state)@, i as nat).0,
            notices@ == notify_outcome(old(global_state)@, i as nat).1,
        decreases MAX_NFS - i,
    {
        assert(global_state@.slots[i as int] == global_state.nfs@[i as int]@);
        if !onvm_nf_is_valid(&global_state.nfs[i as usize]) {
            let result = onvm_nf_send_msg(i, OnvmNFMsg::NfStopping(i), global_state);
            notices.push(StopNotice { instance_id: i, result });
        }
        i = i + 1;
    }
    notices
}

/// One turn of the master thread. The caller sleeps between the turns,
/// reads the cycle counter and its frequency, and logs what the turn
/// reports.
///
/// While running, a turn handles the messages that wait for the manager and
/// then looks at the limits. If the time to live has passed or the packet
/// limit is reached, the shutdown begins in the same turn: the data plane
/// is told to stop, the network functions are sent their notices, and the
/// messages are looked at once more. Every further turn looks at the
/// messages again, until that was done `MAX_SHUTDOWN_ITERS` times; the turn
/// after that finishes and reports how many network functions still run.
pub fn master_thread_step(
    thread: &mut MasterThread,
    global_state: &mut GlobalNFState,
    now_cycles: u64,
    timer_hz: u64,
) -> (report: StepReport)
    requires
        old(global_state).wf(),
        timer_hz > 0,
        now_cycles >= old(thread).start_cycles,
    ensures
        final(global_state).wf(),
        final(thread).config == old(thread).config,
        final(thread).start_cycles == old(thread).start_cycles,
        final(thread).phase == phase_after(
            old(thread).phase,
            time_exceeded(old(thread).config, old(thread).start_cycles, now_cycles, timer_hz)
                || pkts_exceeded(old(thread).config, old(global_state)@.ports),
        ),
        match old(thread).phase {
            MasterPhase::Running => {
                let checked = check_status_outcome(old(global_state)@);
                let timed = time_exceeded(
                    old(thread).config,
                    old(thread).start_cycles,
                    now_cycles,
                    timer_hz,
                );
                let counted = pkts_exceeded(old(thread).config, old(global_state)@.ports);
                if timed || counted {
                    let notified = notify_outcome(checked.0, MAX_NFS as nat);
                    let round = check_status_outcome(notified.0);
                    &&& !final(thread).worker_keep_running
                    &&& final(global_state)@ == round.0
                    &&& report matches StepReport::ShutdownBegun {
                        replies,
                        time_exceeded,
                        pkts_exceeded,
                        notices,
                        round_replies,
                        waiting_for,
                    }
                    &&& replies@ == checked.1
                    &&& time_exceeded == timed
                    &&& pkts_exceeded == counted
                    &&& notices@ == notified.1
                    &&& round_replies@ == round.1
                    &&& waiting_for == round.0.num_nfs
                } else {
                    &&& final(thread).worker_keep_running == old(thread).worker_keep_running
                    &&& final(global_state)@ == checked.0
                    &&& report matches StepReport::Tick { replies }
                    &&& replies@ == checked.1
                }
            },
            MasterPhase::ShuttingDown { rounds_done } => {
                &&& final(thread).worker_keep_running == old(thread).worker_keep_running
                &&& if rounds_done < MAX_SHUTDOWN_ITERS {
                    let round = check_status_outcome(old(global_state)@);
                    &&& final(global_state)@ == round.0
                    &&& report matches StepReport::Round { replies, waiting_for }
                    &&& replies@ == round.1
                    &&& waiting_for == round.0.num_nfs
                } else {
                    &&& final(global_state)@ == old(global_state)@
                    &&& report matches StepReport::Finished { still_running }
                    &&& still_running == old(global_state)@.num_nfs
                }
            },
            MasterPhase::Done => {
                &&& final(thread).worker_keep_running == old(thread).worker_keep_running
                &&& final(global_state)@ == old(global_state)@
                &&& report is Idle
            },
        },
{
    match thread.phase {
        MasterPhase::Running => {
            let timed = time_is_up(&thread.config, thread.start_cycles, now_cycles, timer_hz);
            let counted = pkt_limit_reached(&thread.config, &global_state.ports);
            let replies = onvm_nf_check_status(global_state);
            if !(timed || counted) {
                return StepReport::Tick { replies };
            }
            thread.worker_keep_running = false;
            let notices = notify_shutdown(global_state);
            let round_replies = onvm_nf_check_status(global_state);
            thread.phase = MasterPhase::ShuttingDown { rounds_done: 1 };
            StepReport::ShutdownBegun {
                replies,
                time_exceeded: timed,
                pkts_exceeded: counted,
                notices,
                round_replies,
                waiting_for: global_state.num_nfs,
            }
        },
        MasterPhase::ShuttingDown { rounds_done } => {
            if rounds_done < MAX_SHUTDOWN_ITERS {
                let replies = onvm_nf_check_status(global_state);
                thread.phase = MasterPhase::ShuttingDown { rounds_done: rounds_done + 1 };
                StepReport::Round { replies, waiting_for: global_state.num_nfs }
            } else {
                thread.phase = MasterPhase::Done;
                StepReport::Finished { still_running: global_state.num_nfs }
            }
        },
        MasterPhase::Done => StepReport::Idle,
    }
}

} // verus!
