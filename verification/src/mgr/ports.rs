//! The decisions of the port setup. The calls into the packet library are
//! made by the caller; what each answer means, and what is to be done next,
//! is decided here.

use super::constants::{MAX_CHECK_TIME, ONVM_NUM_MGR_AUX_THREADS, ONVM_NUM_RX_THREADS};
use crate::nflib::constants::RTE_MAX_ETHPORTS;
use crate::nflib::structs::PortInfo;
use vstd::prelude::*;

verus! {

/// The error numbers of the platform, as the packet library reports them
/// (negated) from its calls.
#[derive(Clone, Copy, Debug, PartialEq, Eq, Structural)]
pub struct ErrnoCodes {
    pub enotsup: i32,
    pub enodev: i32,
    pub einval: i32,
    pub eio: i32,
    pub enomem: i32,
}

/// The call that is due next in the setup of a port.
#[derive(Clone, Copy, Debug, PartialEq, Eq, Structural)]
pub enum PortStep {
    /// Ask for the capabilities of the device.
    DevInfo,
    /// Configure the device with its numbers of rings.
    Configure,
    /// Let the device adjust the sizes of the rings.
    AdjustDescriptors,
    /// Set up receive ring `queue`.
    RxQueueSetup { queue: u16 },
    /// Set up transmit ring `queue`.
    TxQueueSetup { queue: u16 },
    /// Switch the device to promiscuous mode.
    PromiscuousEnable,
    /// Start the device.
    Start,
    /// Nothing: the port is set up.
    Done,
}

/// Why the setup of a port failed.
#[derive(Clone, Copy, Debug, PartialEq, Eq, Structural)]
pub enum PortError {
    /// The device cannot tell its capabilities.
    NoDevInfo,
    /// There is no device of that port number.
    InvalidPort,
    /// The driver refused the configuration.
    Configure,
    /// The sizes of the rings could not be adjusted.
    AdjustDescriptors,
    /// The device was removed.
    DeviceRemoved,
    /// The packet pool does not fit the receive ring.
    BadRxQueue,
    /// No memory for the receive ring.
    NoRxMemory,
    /// No memory for the transmit ring.
    NoTxMemory,
    /// The device has no promiscuous mode.
    NoPromiscuous,
    /// The driver could not start the device.
    Start,
    /// The device cannot tell the state of its link.
    NoLinkStatus,
}

/// Whether the answer `retval` reports the error number `code`.
pub open spec fn reports(retval: i32, code: i32) -> bool {
    retval as int == -(code as int)
}

/// The step after the receive rings, of which there are `rx_rings`, or
/// after ring `queue` of them.
pub open spec fn after_rx_queue(queue: int, rx_rings: u16) -> PortStep {
    if queue + 1 < rx_rings {
        PortStep::RxQueueSetup { queue: (queue + 1) as u16 }
    } else if rx_rings > 0 {
        PortStep::TxQueueSetup { queue: 0 }
    } else {
        PortStep::PromiscuousEnable
    }
}

/// What the answer `retval` to the call of `step` leads to: the call that is
/// due next, or the failure of the setup. As many transmit rings are set up
/// as receive rings.
pub open spec fn port_step_outcome(step: PortStep, retval: i32, codes: ErrnoCodes, rx_rings: u16) -> Result<
    PortStep,
    PortError,
> {
    match step {
        PortStep::DevInfo => if reports(retval, codes.enotsup) {
            Err(PortError::NoDevInfo)
        } else if reports(retval, codes.enodev) {
            Err(PortError::InvalidPort)
        } else {
            Ok(PortStep::Configure)
        },
        PortStep::Configure => if retval != 0 {
            Err(PortError::Configure)
        } else {
            Ok(PortStep::AdjustDescriptors)
        },
        PortStep::AdjustDescriptors => if retval < 0 {
            Err(PortError::AdjustDescriptors)
        } else {
            Ok(after_rx_queue(-1, rx_rings))
        },
        PortStep::RxQueueSetup { queue } => if reports(retval, codes.eio) {
            Err(PortError::DeviceRemoved)
        } else if reports(retval, codes.einval) {
            Err(PortError::BadRxQueue)
        } else if reports(retval, codes.enomem) {
            Err(PortError::NoRxMemory)
        } else {
            Ok(after_rx_queue(queue as int, rx_rings))
        },
        PortStep::TxQueueSetup { queue } => if reports(retval, codes.enomem) {
            Err(PortError::NoTxMemory)
        } else if queue + 1 < rx_rings {
            Ok(PortStep::TxQueueSetup { queue: (queue + 1) as u16 })
        } else {
            Ok(PortStep::PromiscuousEnable)
        },
        PortStep::PromiscuousEnable => if reports(retval, codes.enotsup) {
            Err(PortError::NoPromiscuous)
        } else if reports(retval, codes.enodev) {
            Err(PortError::InvalidPort)
        } else {
            Ok(PortStep::Start)
        },
        PortStep::Start => if retval < 0 {
            Err(PortError::Start)
        } else {
            Ok(PortStep::Done)
        },
        PortStep::Done => Ok(PortStep::Done),
    }
}

/// Whether the answer `retval` reports the error number `code`.
pub fn answer_reports(retval: i32, code: i32) -> (r: bool)
    ensures
        r == reports(retval, code),
{
    retval as i64 == -(code as i64)
}

/// The step after `done` receive rings were set up.
fn next_after_rx(done: u32, rx_rings: u16) -> (r: PortStep)
    requires
        done <= 0x10000,
    ensures
        r == after_rx_queue(done as int - 1, rx_rings),
{
    if done < rx_rings as u32 {
        PortStep::RxQueueSetup { queue: done as u16 }
    } else if rx_rings > 0 {
        PortStep::TxQueueSetup { queue: 0 }
    } else {
        PortStep::PromiscuousEnable
    }
}

/// Decides what the answer `retval` of the packet library to the call of
/// `step` means: which call is due next, or why the setup of the port
/// failed.
pub fn port_init_next(step: PortStep, retval: i32, codes: &ErrnoCodes, rx_rings: u16) -> (r: Result<
    PortStep,
    PortError,
>)
    ensures
        r == port_step_outcome(step, retval, *codes, rx_rings),
{
    match step {
        PortStep::DevInfo => {
            if answer_reports(retval, codes.enotsup) {
                Err(PortError::NoDevInfo)
            } else if answer_reports(retval, codes.enodev) {
                Err(PortError::InvalidPort)
            } else {
                Ok(PortStep::Configure)
            }
        },
        PortStep::Configure => {
            if retval != 0 {
                Err(PortError::Configure)
            } else {
                Ok(PortStep::AdjustDescriptors)
            }
        },
        PortStep::AdjustDescriptors => {
            if retval < 0 {
                Err(PortError::AdjustDescriptors)
            } else {
                Ok(next_after_rx(0, rx_rings))
            }
        },
        PortStep::RxQueueSetup { queue } => {
            if answer_reports(retval, codes.eio) {
                Err(PortError::DeviceRemoved)
            } else if answer_reports(retval, codes.einval) {
                Err(PortError::BadRxQueue)
            } else if answer_reports(retval, codes.enomem) {
                Err(PortError::NoRxMemory)
            } else {
                Ok(next_after_rx(queue as u32 + 1, rx_rings))
            }
        },
        PortStep::TxQueueSetup { queue } => {
            if answer_reports(retval, codes.enomem) {
                Err(PortError::NoTxMemory)
            } else if queue < u16::MAX && queue + 1 < rx_rings {
                Ok(PortStep::TxQueueSetup { queue: queue + 1 })
            } else {
                Ok(PortStep::PromiscuousEnable)
            }
        },
        PortStep::PromiscuousEnable => {
            if answer_reports(retval, codes.enotsup) {
                Err(PortError::NoPromiscuous)
            } else if answer_reports(retval, codes.enodev) {
                Err(PortError::InvalidPort)
            } else {
                Ok(PortStep::Start)
            }
        },
        PortStep::Start => {
            if retval < 0 {
                Err(PortError::Start)
            } else {
                Ok(PortStep::Done)
            }
        },
        PortStep::Done => Ok(PortStep::Done),
    }
}

/// The transmit rings of a port on a machine with `lcore_count` cores in
/// use: one per core that neither receives nor serves the manager; none
/// where there are not even that many cores.
pub open spec fn spec_tx_rings(lcore_count: u32) -> Option<u32> {
    if lcore_count >= ONVM_NUM_RX_THREADS + ONVM_NUM_MGR_AUX_THREADS {
        Some((lcore_count - ONVM_NUM_RX_THREADS - ONVM_NUM_MGR_AUX_THREADS) as u32)
    } else {
        None
    }
}

/// The number of transmit rings of a port.
pub fn tx_rings(lcore_count: u32) -> (r: Option<u32>)
    ensures
        r == spec_tx_rings(lcore_count),
{
    let reserved: u32 = ONVM_NUM_RX_THREADS as u32 + ONVM_NUM_MGR_AUX_THREADS as u32;
    if lcore_count >= reserved {
        Some(lcore_count - reserved)
    } else {
        None
    }
}

/// The transmit offloads to configure: those asked for, and the fast
/// freeing of buffers where the device can do it.
pub fn port_tx_offloads(requested: u64, capability: u64, fast_free: u64) -> (r: u64)
    ensures
        r == if capability & fast_free != 0 {
            requested | fast_free
        } else {
            requested
        },
{
    if capability & fast_free != 0 {
        requested | fast_free
    } else {
        requested
    }
}

/// The hash functions to configure: those asked for that the device
/// supports, and whether that is fewer than were asked for.
pub fn port_rss_hash(requested: u64, supported: u64) -> (r: (u64, bool))
    ensures
        r.0 == requested & supported,
        r.1 == (requested & supported != requested),
{
    let hash = requested & supported;
    (hash, hash != requested)
}

/// What the manager knows of one link after it asked the device.
#[derive(Clone, Copy, Debug, PartialEq, Eq, Structural)]
pub struct LinkProbe {
    pub port: u8,
    /// The answer of the packet library.
    pub retval: i32,
    /// Whether the link is up.
    pub up: bool,
}

/// The check of the links between two of its rounds.
#[derive(Clone, Copy, Debug, PartialEq, Eq, Structural)]
pub struct LinkCheck {
    /// The rounds that lie behind.
    pub round: u8,
    /// Whether the next round reports the links and ends the check.
    pub print_flag: bool,
    pub done: bool,
}

/// What one round of the check found, for the caller to act on.
#[derive(Clone, Debug, PartialEq, Eq)]
pub struct LinkRound {
    /// The links to report, each with whether it is up.
    pub lines: Vec<LinkProbe>,
    /// Whether to wait before the next round.
    pub wait: bool,
}

/// A `LinkRound` as plain values.
pub struct LinkRoundView {
    pub lines: Seq<LinkProbe>,
    pub wait: bool,
}

impl LinkRound {
    /// The round as plain values.
    pub open spec fn view(&self) -> LinkRoundView {
        LinkRoundView { lines: self.lines@, wait: self.wait }
    }
}

/// Whether a probe failed, and how.
pub open spec fn probe_error(probe: LinkProbe, codes: ErrnoCodes) -> Option<PortError> {
    if reports(probe.retval, codes.enotsup) {
        Some(PortError::NoLinkStatus)
    } else if reports(probe.retval, codes.enodev) {
        Some(PortError::InvalidPort)
    } else {
        None
    }
}

/// What looking at the first `n` probes of a round leads to. While the
/// links are not reported, the look ends at the first link that is down;
/// while they are reported, every link is looked at and listed. A probe
/// that failed ends the look with its failure.
///
/// The result is the failure, or whether the look goes on, whether every
/// link seen was up, and the links listed.
pub open spec fn scan_probes(probes: Seq<LinkProbe>, codes: ErrnoCodes, print_flag: bool, n: nat) -> Result<
    (bool, bool, Seq<LinkProbe>),
    PortError,
>
    decreases n,
{
    if n == 0 {
        Ok((true, true, Seq::<LinkProbe>::empty()))
    } else {
        match scan_probes(probes, codes, print_flag, (n - 1) as nat) {
            Err(e) => Err(e),
            Ok((going, all_up, lines)) => {
                let probe = probes[n - 1];
                if !going {
                    Ok((going, all_up, lines))
                } else if probe_error(probe, codes) is Some {
                    Err(probe_error(probe, codes)->0)
                } else if print_flag {
                    Ok((true, all_up, lines.push(probe)))
                } else if !probe.up {
                    Ok((false, false, lines))
                } else {
                    Ok((true, all_up, lines))
                }
            },
        }
    }
}

/// What one round of the check leads to, given the probes of the ports in
/// question, in the order of the port table.
///
/// A round that reports the links ends the check. Otherwise a round that
/// found a link down asks the caller to wait, and makes the next round
/// report; so does the last of `MAX_CHECK_TIME` rounds, after which the
/// check ends in any case.
pub open spec fn link_round_outcome(check: LinkCheck, probes: Seq<LinkProbe>, codes: ErrnoCodes) -> Result<
    (LinkCheck, LinkRoundView),
    PortError,
> {
    if check.done || check.round >= MAX_CHECK_TIME {
        Ok(
            (
                LinkCheck { done: true, ..check },
                LinkRoundView { lines: Seq::<LinkProbe>::empty(), wait: false },
            ),
        )
    } else {
        match scan_probes(probes, codes, check.print_flag, probes.len()) {
            Err(e) => Err(e),
            Ok((going, all_up, lines)) => if check.print_flag {
                Ok(
                    (
                        LinkCheck { round: (check.round + 1) as u8, print_flag: true, done: true },
                        LinkRoundView { lines, wait: false },
                    ),
                )
            } else {
                Ok(
                    (
                        LinkCheck {
                            round: (check.round + 1) as u8,
                            print_flag: !all_up || check.round == MAX_CHECK_TIME - 1,
                            done: check.round == MAX_CHECK_TIME - 1,
                        },
                        LinkRoundView { lines, wait: !all_up },
                    ),
                )
            },
        }
    }
}

impl LinkCheck {
    /// The check before its first round.
    pub fn new() -> (r: Self)
        ensures
            r == (LinkCheck { round: 0, print_flag: false, done: false }),
    {
        LinkCheck { round: 0, print_flag: false, done: false }
    }
}

/// Decides what one round of the check of the links found: which links to
/// report, whether to wait, and whether the check goes on.
pub fn link_round(check: &mut LinkCheck, probes: &Vec<LinkProbe>, codes: &ErrnoCodes) -> (r: Result<
    LinkRound,
    PortError,
>)
    ensures
        match link_round_outcome(*old(check), probes@, *codes) {
            Err(e) => r is Err && r->Err_0 == e && *final(check) == *old(check),
            Ok((next, round)) => r is Ok && r->Ok_0@ == round && *final(check) == next,
        },
{
    if check.done || check.round >= MAX_CHECK_TIME {
        check.done = true;
        return Ok(LinkRound { lines: Vec::new(), wait: false });
    }
    let mut lines: Vec<LinkProbe> = Vec::new();
    let mut all_up = true;
    let mut going = true;
    let mut i: usize = 0;
    while i < probes.len() && going
        invariant
            i <= probes@.len(),
            *check == *old(check),
            !check.done,
            check.round < MAX_CHECK_TIME,
            scan_probes(probes@, *codes, check.print_flag, i as nat) == Ok::<
                (bool, bool, Seq<LinkProbe>),
                PortError,
            >((going, all_up, lines@)),
        decreases probes@.len() - i,
    {
        let probe = probes[i];
        if answer_reports(probe.retval, codes.enotsup) {
            proof {
                assert(probe_error(probe, *codes) == Some(PortError::NoLinkStatus));
                assert(scan_probes(probes@, *codes, check.print_flag, i as nat + 1) is Err);
                lemma_scan_stops(probes@, *codes, check.print_flag, i as nat + 1, probes@.len());
            }
            return Err(PortError::NoLinkStatus);
        }
        if answer_reports(probe.retval, codes.enodev) {
            proof {
                assert(probe_error(probe, *codes) == Some(PortError::InvalidPort));
                assert(scan_probes(probes@, *codes, check.print_flag, i as nat + 1) is Err);
                lemma_scan_stops(probes@, *codes, check.print_flag, i as nat + 1, probes@.len());
            }
            return Err(PortError::InvalidPort);
        }
        if check.print_flag {
            lines.push(probe);
        } else if !probe.up {
            all_up = false;
            going = false;
        }
        i = i + 1;
    }
    proof {
        lemma_scan_stops(probes@, *codes, check.print_flag, i as nat, probes@.len());
    }
    if check.print_flag {
        check.round = check.round + 1;
        check.done = true;
        return Ok(LinkRound { lines, wait: false });
    }
    let last = check.round == MAX_CHECK_TIME - 1;
    check.round = check.round + 1;
    check.print_flag = !all_up || last;
    check.done = last;
    Ok(LinkRound { lines, wait: !all_up })
}

/// Once a look at the probes has ended, by a failure or at a link that is
/// down, the probes behind change nothing.
pub proof fn lemma_scan_stops(probes: Seq<LinkProbe>, codes: ErrnoCodes, print_flag: bool, n: nat, m: nat)
    requires
        n <= m,
        scan_probes(probes, codes, print_flag, n) is Err || !scan_probes(
            probes,
            codes,
            print_flag,
            n,
        )->Ok_0.0 || n == m,
    ensures
        scan_probes(probes, codes, print_flag, m) == scan_probes(probes, codes, print_flag, n),
    decreases m - n,
{
    if n < m {
        lemma_scan_stops(probes, codes, print_flag, n, (m - 1) as nat);
    }
}

/// The check of the links ends: each round that does not end it takes it
/// one round closer to the last of `MAX_CHECK_TIME`.
pub proof fn lemma_link_check_ends(check: LinkCheck, probes: Seq<LinkProbe>, codes: ErrnoCodes)
    requires
        !check.done,
        check.round < MAX_CHECK_TIME,
        link_round_outcome(check, probes, codes) is Ok,
    ensures
        link_round_outcome(check, probes, codes)->Ok_0.0.round == check.round + 1,
        link_round_outcome(check, probes, codes)->Ok_0.0.round == MAX_CHECK_TIME ==> link_round_outcome(
            check,
            probes,
            codes,
        )->Ok_0.0.done,
        check.print_flag ==> link_round_outcome(check, probes, codes)->Ok_0.0.done,
{
}

/// The numbers of the ports in use that `port_mask` selects, in the order of
/// the port table: those whose bit is set in the mask.
pub open spec fn masked_ports(ports: PortInfo, port_mask: u32, n: nat) -> Seq<u8>
    decreases n,
{
    if n == 0 {
        Seq::<u8>::empty()
    } else {
        let before = masked_ports(ports, port_mask, (n - 1) as nat);
        let id = ports.id@[n - 1];
        if id < 32 && (port_mask >> (id as u32)) & 1u32 == 1u32 {
            before.push(id)
        } else {
            before
        }
    }
}

/// The ports whose links are to be checked.
pub fn ports_to_check(ports: &PortInfo, port_mask: u32) -> (r: Vec<u8>)
    requires
        ports.wf(),
    ensures
        r@ == masked_ports(*ports, port_mask, ports.num_ports as nat),
{
    let mut out: Vec<u8> = Vec::new();
    let mut i: usize = 0;
    while i < ports.num_ports as usize
        invariant
            ports.wf(),
            i <= ports.num_ports,
            out@ == masked_ports(*ports, port_mask, i as nat),
        decreases ports.num_ports - i,
    {
        let id = ports.id[i];
        if (id as usize) < RTE_MAX_ETHPORTS && (port_mask >> (id as u32)) & 1u32 == 1u32 {
            out.push(id);
        }
        i = i + 1;
    }
    out
}

} // verus!
