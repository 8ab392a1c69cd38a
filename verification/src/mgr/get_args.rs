//! The manager's own command-line switches: which ports to use, how many
//! services to offer, and which cores to reserve for network functions.

use super::global::{view_wf, GlobalNFState, ManagerView};
use crate::nflib::constants::{MAX_SERVICES, RTE_MAX_ETHPORTS};
use crate::nflib::structs::{CoreStatus, PortInfo};
use vstd::prelude::*;
use vstd::string::StringSliceAdditionalSpecFns;

verus! {

/// Why the switches were refused.
#[derive(Clone, Copy, Debug, PartialEq, Eq, Structural)]
pub enum ConfigError {
    /// The command line does not fit the switches the manager knows.
    Arguments,
    /// The port mask is not a hexadecimal number of at most 63 bits.
    InvalidPortMask,
    /// The number of services is not a decimal number that fits in a byte.
    InvalidNumServices,
    /// More services were asked for than the manager can offer.
    TooManyServices,
    /// The core mask is not a decimal number that fits in a byte.
    InvalidCoreMask,
}

/// The value of the digit `b` in the given radix, if it is one: `0`-`9`,
/// then `a`-`z` in either case, as far as the radix goes.
pub open spec fn digit_value(b: u8, radix: nat) -> Option<nat> {
    let v: nat = if 48 <= b <= 57 {
        (b - 48) as nat
    } else if 97 <= b <= 122 {
        (b - 97 + 10) as nat
    } else if 65 <= b <= 90 {
        (b - 65 + 10) as nat
    } else {
        radix
    };
    if v < radix {
        Some(v)
    } else {
        None
    }
}

/// The number a run of digits stands for, if all of them are digits of the
/// radix; 0 for no digits.
pub open spec fn digits_value(digits: Seq<u8>, radix: nat) -> Option<nat>
    decreases digits.len(),
{
    if digits.len() == 0 {
        Some(0)
    } else {
        match (digits_value(digits.drop_last(), radix), digit_value(digits.last(), radix)) {
            (Some(a), Some(d)) => Some(a * radix + d),
            _ => None,
        }
    }
}

/// The digits of a number's text: the text without a leading `+`.
pub open spec fn unsigned_digits(text: Seq<u8>) -> Seq<u8> {
    if text.len() > 0 && text[0] == 43 {
        text.skip(1)
    } else {
        text
    }
}

/// The number a text stands for: an optional `+`, then at least one digit
/// of the radix and nothing else, the value being at most `max`.
pub open spec fn number_value(text: Seq<u8>, radix: nat, max: nat) -> Option<nat> {
    let digits = unsigned_digits(text);
    if digits.len() == 0 {
        None
    } else {
        match digits_value(digits, radix) {
            Some(v) => if v <= max {
                Some(v)
            } else {
                None
            },
            None => None,
        }
    }
}

/// A run of digits stands for at least as much as any of its beginnings,
/// and for nothing if one of its beginnings stands for nothing.
pub proof fn lemma_digits_prefix(digits: Seq<u8>, radix: nat, n: int)
    requires
        0 <= n <= digits.len(),
        radix >= 1,
    ensures
        digits_value(digits.take(n), radix) is None ==> digits_value(digits, radix) is None,
        digits_value(digits, radix) matches Some(v) ==> digits_value(digits.take(n), radix)->0 <= v,
    decreases digits.len() - n,
{
    if n < digits.len() {
        lemma_digits_prefix(digits, radix, n + 1);
        assert(digits.take(n + 1).drop_last() =~= digits.take(n));
        let a = digits_value(digits.take(n), radix);
        let d = digit_value(digits[n], radix);
        if a is Some && d is Some {
            assert(a->0 * radix >= a->0) by (nonlinear_arith)
                requires
                    radix >= 1,
            ;
        }
    } else {
        assert(digits.take(n) =~= digits);
    }
}

/// One more digit takes a number over the limit exactly when the number is
/// over the limit's share.
proof fn lemma_over_limit(acc: int, radix: int, v: int, max: int)
    by (nonlinear_arith)
    requires
        radix >= 2,
        0 <= v <= max,
        acc >= 0,
        acc > (max - v) / radix,
    ensures
        acc * radix + v > max,
{
    let q = (max - v) / radix;
    let r = (max - v) % radix;
    assert(q * radix + r == max - v);
    assert(0 <= r < radix);
    assert(acc >= q + 1);
    assert(acc * radix >= (q + 1) * radix);
}

/// One more digit keeps a number within the limit when the number is
/// within the limit's share.
proof fn lemma_under_limit(acc: int, radix: int, v: int, max: int)
    by (nonlinear_arith)
    requires
        radix >= 2,
        0 <= v <= max,
        acc >= 0,
        acc <= (max - v) / radix,
    ensures
        0 <= acc * radix + v <= max,
{
    let q = (max - v) / radix;
    let r = (max - v) % radix;
    assert(q * radix + r == max - v);
    assert(0 <= r < radix);
    assert(acc * radix <= q * radix);
}

/// Reads a number in the given radix from a text: an optional `+`, then at
/// least one digit of the radix and nothing else. A number beyond `max` is
/// refused like a text that is no number.
pub fn parse_number(text: &str, radix: u64, max: u64) -> (r: Option<u64>)
    requires
        2 <= radix <= 36,
    ensures
        match number_value(text.spec_bytes(), radix as nat, max as nat) {
            Some(v) => r == Some(v as u64),
            None => r is None,
        },
{
    let bytes = text.as_bytes();
    let start: usize = if bytes.len() > 0 && bytes[0] == 43 {
        1
    } else {
        0
    };
    if start >= bytes.len() {
        return None;
    }
    let ghost digits = unsigned_digits(bytes@);
    let mut acc: u64 = 0;
    let mut i: usize = start;
    while i < bytes.len()
        invariant
            start <= i <= bytes@.len(),
            start <= 1,
            start < bytes@.len(),
            bytes@ == text.spec_bytes(),
            digits == bytes@.skip(start as int),
            digits == unsigned_digits(bytes@),
            2 <= radix <= 36,
            acc <= max,
            digits_value(digits.take(i - start), radix as nat) == Some(acc as nat),
        decreases bytes@.len() - i,
    {
        let b = bytes[i];
        let v: u64 = if 48 <= b && b <= 57 {
            (b - 48) as u64
        } else if 97 <= b && b <= 122 {
            (b - 97 + 10) as u64
        } else if 65 <= b && b <= 90 {
            (b - 65 + 10) as u64
        } else {
            radix
        };
        proof {
            let k = i - start;
            assert(digits[k] == b);
            assert(digits.take(k + 1).drop_last() =~= digits.take(k));
            lemma_digits_prefix(digits, radix as nat, k + 1);
        }
        if v >= radix {
            return None;
        }
        if v > max || acc > (max - v) / radix {
            proof {
                let k = i - start;
                if v <= max {
                    lemma_over_limit(acc as int, radix as int, v as int, max as int);
                } else {
                    assert(acc * radix >= 0) by (nonlinear_arith)
                        requires
                            acc >= 0,
                            radix >= 0,
                    ;
                }
                assert(digits_value(digits.take(k + 1), radix as nat) == Some(
                    (acc * radix + v) as nat,
                ));
            }
            return None;
        }
        proof {
            lemma_under_limit(acc as int, radix as int, v as int, max as int);
        }
        acc = acc * radix + v;
        i = i + 1;
    }
    proof {
        assert(digits.take(digits.len() as int) =~= digits);
    }
    Some(acc)
}

/// The bytes of a text.
pub open spec fn text_bytes(text: Seq<char>) -> Seq<u8> {
    vstd::utf8::encode_utf8(text)
}

/// Whether bit `bit` of `mask` is set, bit 0 being the least significant.
pub open spec fn mask_bit(mask: u64, bit: nat) -> bool {
    bit < 64 && (mask >> (bit as u64)) & 1u64 == 1u64
}

/// The bits of `mask` below `upto` that are set and lie in `lo .. hi`, in
/// rising order.
pub open spec fn bits_in_range(mask: u64, lo: nat, hi: nat, upto: nat) -> Seq<u8>
    decreases upto,
{
    if upto == 0 {
        Seq::<u8>::empty()
    } else {
        let before = bits_in_range(mask, lo, hi, (upto - 1) as nat);
        let bit = (upto - 1) as nat;
        if mask_bit(mask, bit) && lo <= bit < hi {
            before.push(bit as u8)
        } else {
            before
        }
    }
}

/// The most a port mask can be: 63 bits.
pub const PORT_MASK_MAX: u64 = 0x7fff_ffff_ffff_ffff;

/// The number of bits of a port mask.
pub const PORT_MASK_BITS: u64 = 63;

/// The number of bits of a core mask.
pub const CORE_MASK_BITS: u64 = 8;

/// What the port mask did: whether it selects no port at all, and which
/// ports it names that were passed over.
#[derive(Clone, Debug, PartialEq, Eq)]
pub struct PortMaskReport {
    pub no_ports: bool,
    pub ignored: Vec<u8>,
}

/// A `PortMaskReport` as plain values.
pub struct PortMaskReportView {
    pub no_ports: bool,
    pub ignored: Seq<u8>,
}

impl PortMaskReport {
    /// The report as plain values.
    pub open spec fn view(&self) -> PortMaskReportView {
        PortMaskReportView { no_ports: self.no_ports, ignored: self.ignored@ }
    }
}

/// What the core mask did: whether it reserves no core at all, which cores
/// it reserved, and which cores it names that the machine does not have.
#[derive(Clone, Debug, PartialEq, Eq)]
pub struct NfCoresReport {
    pub no_cores: bool,
    pub registered: Vec<u8>,
    pub ignored: Vec<u8>,
}

/// A `NfCoresReport` as plain values.
pub struct NfCoresReportView {
    pub no_cores: bool,
    pub registered: Seq<u8>,
    pub ignored: Seq<u8>,
}

impl NfCoresReport {
    /// The report as plain values.
    pub open spec fn view(&self) -> NfCoresReportView {
        NfCoresReportView {
            no_cores: self.no_cores,
            registered: self.registered@,
            ignored: self.ignored@,
        }
    }
}

/// The port table, and the ports passed over, after the bits of `mask`
/// below `upto` were read. A set bit registers the port of its number,
/// provided that the machine has such a port and the port table has room;
/// otherwise the port is passed over.
pub open spec fn ports_after(ports: PortInfo, mask: u64, max_ports: u16, upto: nat) -> (
    PortInfo,
    Seq<u8>,
)
    decreases upto,
{
    if upto == 0 {
        (ports, Seq::<u8>::empty())
    } else {
        let before = ports_after(ports, mask, max_ports, (upto - 1) as nat);
        let bit = (upto - 1) as nat;
        if !mask_bit(mask, bit) {
            before
        } else if bit < max_ports && bit < RTE_MAX_ETHPORTS && before.0.num_ports < RTE_MAX_ETHPORTS {
            (
                PortInfo {
                    num_ports: (before.0.num_ports + 1) as u8,
                    id: vstd::array::spec_array_update(
                        before.0.id,
                        before.0.num_ports as int,
                        bit as u8,
                    ),
                    ..before.0
                },
                before.1,
            )
        } else {
            (before.0, before.1.push(bit as u8))
        }
    }
}

/// What a port mask leads to.
///
/// The mask is a hexadecimal number of at most 63 bits; bit `n` selects
/// port `n`. A text that is no such number is refused and nothing changes.
pub open spec fn portmask_outcome(v: ManagerView, text: Seq<u8>, max_ports: u16) -> (
    ManagerView,
    Result<PortMaskReportView, ConfigError>,
) {
    match number_value(text, 16, PORT_MASK_MAX as nat) {
        None => (v, Err(ConfigError::InvalidPortMask)),
        Some(mask) => {
            let after = ports_after(v.ports, mask as u64, max_ports, PORT_MASK_BITS as nat);
            (
                ManagerView { ports: after.0, ..v },
                Ok(PortMaskReportView { no_ports: mask == 0, ignored: after.1 }),
            )
        },
    }
}

/// What a text leads to as the number of services.
///
/// The text is a decimal number that fits in a byte and is not more than
/// the manager can offer. Any other text is refused and nothing changes.
pub open spec fn num_services_outcome(v: ManagerView, text: Seq<u8>) -> (
    ManagerView,
    Result<(), ConfigError>,
) {
    match number_value(text, 10, 255) {
        None => (v, Err(ConfigError::InvalidNumServices)),
        Some(n) => if n > MAX_SERVICES {
            (v, Err(ConfigError::TooManyServices))
        } else {
            (ManagerView { num_services: n as u8, ..v }, Ok(()))
        },
    }
}

/// The core table after the cores that `mask` names were reserved for
/// network functions. Nothing else of an entry changes.
pub open spec fn cores_after_mask(cores: Seq<CoreStatus>, mask: u64) -> Seq<CoreStatus> {
    Seq::new(
        cores.len(),
        |i: int|
            if 0 <= i < CORE_MASK_BITS && mask_bit(mask, i as nat) {
                CoreStatus { enabled: true, ..cores[i] }
            } else {
                cores[i]
            },
    )
}

/// What a core mask leads to.
///
/// The mask is a decimal number that fits in a byte; bit `n` names core
/// `n`. The cores it names that the machine has are reserved for network
/// functions; the others are passed over. A text that is no such number is
/// refused and nothing changes.
pub open spec fn nf_cores_outcome(v: ManagerView, text: Seq<u8>) -> (
    ManagerView,
    Result<NfCoresReportView, ConfigError>,
) {
    match number_value(text, 10, 255) {
        None => (v, Err(ConfigError::InvalidCoreMask)),
        Some(mask) => (
            ManagerView { cores: cores_after_mask(v.cores, mask as u64), ..v },
            Ok(
                NfCoresReportView {
                    no_cores: mask == 0,
                    registered: bits_in_range(mask as u64, 0, v.cores.len(), CORE_MASK_BITS as nat),
                    ignored: bits_in_range(
                        mask as u64,
                        v.cores.len(),
                        CORE_MASK_BITS as nat,
                        CORE_MASK_BITS as nat,
                    ),
                },
            ),
        ),
    }
}

/// Reading a port mask keeps the port table well formed.
pub proof fn lemma_ports_after(ports: PortInfo, mask: u64, max_ports: u16, upto: nat)
    requires
        ports.wf(),
    ensures
        ports_after(ports, mask, max_ports, upto).0.wf(),
    decreases upto,
{
    if upto > 0 {
        lemma_ports_after(ports, mask, max_ports, (upto - 1) as nat);
    }
}

/// The switches keep the state well formed: they touch the port table, the
/// number of services and the reservation of cores, and nothing else.
pub proof fn lemma_switches_wf(v: ManagerView, text: Seq<u8>, max_ports: u16)
    requires
        view_wf(v),
    ensures
        view_wf(portmask_outcome(v, text, max_ports).0),
        view_wf(num_services_outcome(v, text).0),
        view_wf(nf_cores_outcome(v, text).0),
{
    match number_value(text, 16, PORT_MASK_MAX as nat) {
        None => {},
        Some(mask) => {
            lemma_ports_after(v.ports, mask as u64, max_ports, PORT_MASK_BITS as nat);
        },
    }
}

/// Reads bit `bit` of `mask`.
pub fn test_mask_bit(mask: u64, bit: u64) -> (r: bool)
    requires
        bit < 64,
    ensures
        r == mask_bit(mask, bit as nat),
{
    (mask >> bit) & 1u64 == 1u64
}

/// Registers the ports that a port mask selects.
///
/// The mask is a hexadecimal number; bit `n` selects port `n`. A port the
/// machine does not have (`n >= max_ports`), or for which the port table
/// has no room, is passed over and reported. A mask of 0 selects nothing,
/// which is reported too. A text that is no such number is refused and
/// nothing changes.
pub fn parse_portmask(max_ports: u16, portmask: String, global_state: &mut GlobalNFState) -> (r: Result<
    PortMaskReport,
    ConfigError,
>)
    requires
        old(global_state).wf(),
    ensures
        final(global_state).wf(),
        final(global_state)@ == portmask_outcome(
            old(global_state)@,
            text_bytes(portmask@),
            max_ports,
        ).0,
        match portmask_outcome(old(global_state)@, text_bytes(portmask@), max_ports).1 {
            Ok(report) => r is Ok && r->Ok_0@ == report,
            Err(e) => r is Err && r->Err_0 == e,
        },
{
    let pm = match parse_number(portmask.as_str(), 16, PORT_MASK_MAX) {
        None => {
            return Err(ConfigError::InvalidPortMask);
        },
        Some(pm) => pm,
    };
    proof {
        lemma_switches_wf(global_state@, text_bytes(portmask@), max_ports);
    }
    let mut ignored: Vec<u8> = Vec::new();
    let mut count: u64 = 0;
    while count < PORT_MASK_BITS
        invariant
            count <= PORT_MASK_BITS,
            global_state.wf(),
            old(global_state)@.ports.wf(),
            global_state@ == (ManagerView {
                ports: ports_after(old(global_state)@.ports, pm, max_ports, count as nat).0,
                ..old(global_state)@
            }),
            ignored@ == ports_after(old(global_state)@.ports, pm, max_ports, count as nat).1,
        decreases PORT_MASK_BITS - count,
    {
        proof {
            lemma_ports_after(old(global_state)@.ports, pm, max_ports, count as nat + 1);
        }
        if test_mask_bit(pm, count) {
            let n = global_state.ports.num_ports as usize;
            if count < max_ports as u64 && count < RTE_MAX_ETHPORTS as u64 && n < RTE_MAX_ETHPORTS {
                global_state.ports.id[n] = count as u8;
                global_state.ports.num_ports = (n + 1) as u8;
                proof {
                    let expected = ports_after(
                        old(global_state)@.ports,
                        pm,
                        max_ports,
                        count as nat + 1,
                    ).0;
                    assert(global_state.ports.id =~= expected.id);
                    assert(global_state.ports == expected);
                }
            } else {
                ignored.push(count as u8);
            }
        }
        count = count + 1;
    }
    Ok(PortMaskReport { no_ports: pm == 0, ignored })
}

/// Sets the number of services the manager offers. A text that is no
/// decimal number of a byte, or a number beyond `MAX_SERVICES`, is refused
/// and nothing changes.
pub fn parse_num_services(services: String, global_state: &mut GlobalNFState) -> (r: Result<
    (),
    ConfigError,
>)
    requires
        old(global_state).wf(),
    ensures
        final(global_state).wf(),
        final(global_state)@ == num_services_outcome(old(global_state)@, text_bytes(services@)).0,
        r == num_services_outcome(old(global_state)@, text_bytes(services@)).1,
{
    match parse_number(services.as_str(), 10, 255) {
        None => Err(ConfigError::InvalidNumServices),
        Some(n) => {
            if n > MAX_SERVICES as u64 {
                return Err(ConfigError::TooManyServices);
            }
            global_state.num_services = n as u8;
            Ok(())
        },
    }
}

/// Reserves the cores that a core mask names for network functions.
///
/// The mask is a decimal number that fits in a byte; bit `n` names core
/// `n`. A core the machine does not have is passed over and reported. A
/// mask of 0 reserves nothing, which is reported too. A text that is no
/// such number is refused and nothing changes.
pub fn parse_nf_cores(nf_coremask: String, global_state: &mut GlobalNFState) -> (r: Result<
    NfCoresReport,
    ConfigError,
>)
    requires
        old(global_state).wf(),
    ensures
        final(global_state).wf(),
        final(global_state)@ == nf_cores_outcome(old(global_state)@, text_bytes(nf_coremask@)).0,
        match nf_cores_outcome(old(global_state)@, text_bytes(nf_coremask@)).1 {
            Ok(report) => r is Ok && r->Ok_0@ == report,
            Err(e) => r is Err && r->Err_0 == e,
        },
{
    let pm = match parse_number(nf_coremask.as_str(), 10, 255) {
        None => {
            return Err(ConfigError::InvalidCoreMask);
        },
        Some(pm) => pm,
    };
    let max_cores = global_state.cores.len();
    let mut registered: Vec<u8> = Vec::new();
    let mut ignored: Vec<u8> = Vec::new();
    let mut count: u64 = 0;
    let ghost before = old(global_state)@.cores;
    while count < CORE_MASK_BITS
        invariant
            count <= CORE_MASK_BITS,
            global_state.wf(),
            before == old(global_state)@.cores,
            max_cores == before.len(),
            global_state@ == (ManagerView { cores: global_state@.cores, ..old(global_state)@ }),
            global_state@.cores.len() == before.len(),
            forall|i: int|
                0 <= i < before.len() ==> (#[trigger] global_state@.cores[i]) == if i < count
                    && mask_bit(pm, i as nat) {
                    CoreStatus { enabled: true, ..before[i] }
                } else {
                    before[i]
                },
            registered@ == bits_in_range(pm, 0, max_cores as nat, count as nat),
            ignored@ == bits_in_range(pm, max_cores as nat, CORE_MASK_BITS as nat, count as nat),
        decreases CORE_MASK_BITS - count,
    {
        if test_mask_bit(pm, count) {
            if count < max_cores as u64 {
                let mut entry = global_state.cores[count as usize];
                entry.enabled = true;
                global_state.cores.set(count as usize, entry);
                registered.push(count as u8);
            } else {
                ignored.push(count as u8);
            }
        }
        count = count + 1;
    }
    proof {
        assert(global_state@.cores =~= cores_after_mask(before, pm));
    }
    Ok(NfCoresReport { no_cores: pm == 0, registered, ignored })
}

/// What the switches did, for the caller to warn about.
#[derive(Clone, Debug, PartialEq, Eq)]
pub struct AppArgsReport {
    /// The report of the port mask, if one was given.
    pub ports: Option<PortMaskReport>,
    /// The report of the core mask, if one was given.
    pub cores: Option<NfCoresReport>,
}

/// An `AppArgsReport` as plain values.
pub struct AppArgsReportView {
    pub ports: Option<PortMaskReportView>,
    pub cores: Option<NfCoresReportView>,
}

impl AppArgsReport {
    /// The report as plain values.
    pub open spec fn view(&self) -> AppArgsReportView {
        AppArgsReportView {
            ports: match self.ports {
                Some(p) => Some(p@),
                None => None,
            },
            cores: match self.cores {
                Some(c) => Some(c@),
                None => None,
            },
        }
    }
}

/// The first switch, in the order port mask, number of services, core mask,
/// whose text is refused, with the reason.
pub open spec fn first_switch_error(
    portmask: Option<Seq<char>>,
    services: Option<Seq<char>>,
    cores: Option<Seq<char>>,
) -> Option<ConfigError> {
    if portmask is Some && number_value(text_bytes(portmask->0), 16, PORT_MASK_MAX as nat) is None {
        Some(ConfigError::InvalidPortMask)
    } else if services is Some && number_value(text_bytes(services->0), 10, 255) is None {
        Some(ConfigError::InvalidNumServices)
    } else if services is Some && number_value(text_bytes(services->0), 10, 255)->0 > MAX_SERVICES {
        Some(ConfigError::TooManyServices)
    } else if cores is Some && number_value(text_bytes(cores->0), 10, 255) is None {
        Some(ConfigError::InvalidCoreMask)
    } else {
        None
    }
}

/// What the three switches lead to, each of them given or not.
///
/// If the text of a switch is refused, nothing changes and the first
/// refusal is the answer. Otherwise the port mask, the number of services
/// and the core mask are applied, in this order.
pub open spec fn app_args_outcome(
    v: ManagerView,
    max_ports: u16,
    portmask: Option<Seq<char>>,
    services: Option<Seq<char>>,
    cores: Option<Seq<char>>,
) -> (ManagerView, Result<AppArgsReportView, ConfigError>) {
    match first_switch_error(portmask, services, cores) {
        Some(e) => (v, Err(e)),
        None => {
            let with_ports = match portmask {
                Some(t) => portmask_outcome(v, text_bytes(t), max_ports).0,
                None => v,
            };
            let with_services = match services {
                Some(t) => num_services_outcome(with_ports, text_bytes(t)).0,
                None => with_ports,
            };
            let with_cores = match cores {
                Some(t) => nf_cores_outcome(with_services, text_bytes(t)).0,
                None => with_services,
            };
            (
                with_cores,
                Ok(
                    AppArgsReportView {
                        ports: match portmask {
                            Some(t) => Some(portmask_outcome(v, text_bytes(t), max_ports).1->Ok_0),
                            None => None,
                        },
                        cores: match cores {
                            Some(t) => Some(nf_cores_outcome(with_services, text_bytes(t)).1->Ok_0),
                            None => None,
                        },
                    },
                ),
            )
        },
    }
}

/// Applies the three switches of the manager, each of them given or not.
///
/// If the text of a switch is refused, nothing changes and the first
/// refusal is the answer. Otherwise the port mask, the number of services
/// and the core mask are applied, in this order.
pub fn apply_app_args(
    max_ports: u16,
    global_state: &mut GlobalNFState,
    portmask: Option<String>,
    services: Option<String>,
    cores: Option<String>,
) -> (r: Result<AppArgsReport, ConfigError>)
    requires
        old(global_state).wf(),
    ensures
        final(global_state).wf(),
        final(global_state)@ == app_args_outcome(
            old(global_state)@,
            max_ports,
            text_of(portmask),
            text_of(services),
            text_of(cores),
        ).0,
        match app_args_outcome(
            old(global_state)@,
            max_ports,
            text_of(portmask),
            text_of(services),
            text_of(cores),
        ).1 {
            Ok(report) => r is Ok && r->Ok_0@ == report,
            Err(e) => r is Err && r->Err_0 == e,
        },
{
    match &portmask {
        Some(t) => {
            if parse_number(t.as_str(), 16, PORT_MASK_MAX).is_none() {
                return Err(ConfigError::InvalidPortMask);
            }
        },
        None => {},
    }
    match &services {
        Some(t) => {
            match parse_number(t.as_str(), 10, 255) {
                None => {
                    return Err(ConfigError::InvalidNumServices);
                },
                Some(n) => {
                    if n > MAX_SERVICES as u64 {
                        return Err(ConfigError::TooManyServices);
                    }
                },
            }
        },
        None => {},
    }
    match &cores {
        Some(t) => {
            if parse_number(t.as_str(), 10, 255).is_none() {
                return Err(ConfigError::InvalidCoreMask);
            }
        },
        None => {},
    }
    let ports_report = match portmask {
        Some(t) => {
            match parse_portmask(max_ports, t, global_state) {
                Ok(report) => Some(report),
                Err(e) => {
                    return Err(e);
                },
            }
        },
        None => None,
    };
    match services {
        Some(t) => {
            match parse_num_services(t, global_state) {
                Ok(()) => {},
                Err(e) => {
                    return Err(e);
                },
            }
        },
        None => {},
    }
    let cores_report = match cores {
        Some(t) => {
            match parse_nf_cores(t, global_state) {
                Ok(report) => Some(report),
                Err(e) => {
                    return Err(e);
                },
            }
        },
        None => None,
    };
    Ok(AppArgsReport { ports: ports_report, cores: cores_report })
}

/// The characters of a text that may be there or not.
pub open spec fn text_of(text: Option<String>) -> Option<Seq<char>> {
    match text {
        Some(t) => Some(t@),
        None => None,
    }
}

/// `getopts::Options`, the set of options a command line is parsed with.
/// Nothing is known of what is inside but what `declared_options` names.
#[verifier::external_type_specification]
#[verifier::external_body]
pub struct ExOptions(getopts::Options);

/// `getopts::Matches`, a parsed command line. Nothing is known of what is
/// inside but what `matched_values` and `matched_names` name.
#[verifier::external_type_specification]
#[verifier::external_body]
pub struct ExMatches(getopts::Matches);

/// `getopts::Fail`, the reason why a command line does not fit the options.
/// It is carried through and never looked into.
#[verifier::external_type_specification]
#[verifier::external_body]
pub struct ExFail(getopts::Fail);

/// What a set of options holds: the short and the long name of each option
/// that was declared, in the order of the declarations.
pub uninterp spec fn declared_options(options: getopts::Options) -> Seq<(Seq<char>, Seq<char>)>;

/// What a parsed command line holds: for each name of an option that was
/// given on the command line, the argument it was given with.
pub uninterp spec fn matched_values(matches: getopts::Matches) -> Map<Seq<char>, Seq<char>>;

/// The names a parsed command line can be asked about: the short and long
/// names of the options it was parsed with.
pub uninterp spec fn matched_names(matches: getopts::Matches) -> Set<Seq<char>>;

/// What parsing the arguments `args` with the options `declared` gives: the
/// argument of each option that was given, under each of its names; nothing
/// where the arguments do not fit the options.
pub uninterp spec fn parse_outcome(declared: Seq<(Seq<char>, Seq<char>)>, args: Seq<Seq<char>>) -> Option<
    Map<Seq<char>, Seq<char>>,
>;

/// Whether a pair of names can be declared as an option: a short name of
/// one character and a long name of two or more, all of them ASCII.
pub open spec fn valid_switch(names: (Seq<char>, Seq<char>)) -> bool {
    &&& names.0.len() == 1
    &&& names.1.len() >= 2
    &&& vstd::utf8::is_ascii_chars(names.0)
    &&& vstd::utf8::is_ascii_chars(names.1)
}

/// The names of a list of declared options, short and long.
pub open spec fn option_names(declared: Seq<(Seq<char>, Seq<char>)>) -> Set<Seq<char>> {
    Set::new(
        |name: Seq<char>|
            exists|i: int|
                0 <= i < declared.len() && ((#[trigger] declared[i]).0 == name || declared[i].1
                    == name),
    )
}

/// The texts of a list of arguments.
pub open spec fn arg_texts(args: Seq<String>) -> Seq<Seq<char>> {
    args.map_values(|a: String| a@)
}

/// `getopts::Options::new`: a set of options in which nothing is declared.
#[verifier::external_body]
fn options_new() -> (options: getopts::Options)
    ensures
        declared_options(options) == Seq::<(Seq<char>, Seq<char>)>::empty(),
{
    getopts::Options::new()
}

/// `getopts::Options::optopt`, with an empty description and hint: declares
/// an option that may be given once and takes an argument. The outside
/// method panics on a short name of more than one byte and on a long name of
/// exactly one; the precondition leaves both out, and a missing name too.
#[verifier::external_body]
fn options_optopt(options: &mut getopts::Options, short_name: &str, long_name: &str)
    requires
        valid_switch((short_name@, long_name@)),
    ensures
        declared_options(*final(options)) == declared_options(*old(options)).push(
            (short_name@, long_name@),
        ),
{
    options.optopt(short_name, long_name, "", "");
}

/// `getopts::Options::parse`: parses the arguments with the declared
/// options. It fails where the arguments do not fit them (an unknown
/// option, a missing argument, an option given twice); otherwise what comes
/// back holds the arguments of the options that were given and can be asked
/// about each declared name.
#[verifier::external_body]
fn options_parse(options: &getopts::Options, args: &Vec<String>) -> (r: Result<
    getopts::Matches,
    getopts::Fail,
>)
    requires
        forall|i: int|
            0 <= i < declared_options(*options).len() ==> valid_switch(
                #[trigger] declared_options(*options)[i],
            ),
    ensures
        match parse_outcome(declared_options(*options), arg_texts(args@)) {
            Some(values) => r matches Ok(m) && matched_values(m) == values && matched_names(m)
                == option_names(declared_options(*options)),
            None => r is Err,
        },
{
    options.parse(args)
}

/// `getopts::Matches::opt_str`: the argument the option `name` was given
/// with, if it was given. The outside method panics on a name that was not
/// declared, which the precondition leaves out.
#[verifier::external_body]
fn matches_opt_str(matches: &getopts::Matches, name: &str) -> (r: Option<String>)
    requires
        matched_names(*matches).contains(name@),
    ensures
        match r {
            Some(text) => matched_values(*matches).contains_key(name@) && matched_values(
                *matches,
            )[name@] == text@,
            None => !matched_values(*matches).contains_key(name@),
        },
{
    matches.opt_str(name)
}

/// The switches of the manager: `-p` / `--port-mask`, `-r` /
/// `--num-services` and `-n` / `--nf-cores`, each with an argument.
pub open spec fn app_switches() -> Seq<(Seq<char>, Seq<char>)> {
    seq![("p"@, "port-mask"@), ("r"@, "num-services"@), ("n"@, "nf-cores"@)]
}

/// The argument found under `name`, if there is one.
pub open spec fn switch_value(values: Map<Seq<char>, Seq<char>>, name: Seq<char>) -> Option<Seq<char>> {
    if values.contains_key(name) {
        Some(values[name])
    } else {
        None
    }
}

/// Reads the manager's switches from the command line and applies them.
///
/// A command line that does not fit the switches is refused. Otherwise the
/// port mask, the number of services and the core mask are applied as far
/// as they were given; if one of them is refused, nothing changes.
pub fn parse_app_args(max_ports: u16, global_state: &mut GlobalNFState, args: Vec<String>) -> (r: Result<
    AppArgsReport,
    ConfigError,
>)
    requires
        old(global_state).wf(),
    ensures
        final(global_state).wf(),
        match parse_outcome(app_switches(), arg_texts(args@)) {
            None => r is Err && r->Err_0 == ConfigError::Arguments && final(global_state)@ == old(
                global_state,
            )@,
            Some(values) => {
                let out = app_args_outcome(
                    old(global_state)@,
                    max_ports,
                    switch_value(values, "p"@),
                    switch_value(values, "r"@),
                    switch_value(values, "n"@),
                );
                &&& final(global_state)@ == out.0
                &&& match out.1 {
                    Ok(report) => r is Ok && r->Ok_0@ == report,
                    Err(e) => r is Err && r->Err_0 == e,
                }
            },
        },
{
    proof {
        reveal_strlit("p");
        reveal_strlit("port-mask");
        reveal_strlit("r");
        reveal_strlit("num-services");
        reveal_strlit("n");
        reveal_strlit("nf-cores");
    }
    let mut lgopts = options_new();
    options_optopt(&mut lgopts, "p", "port-mask");
    options_optopt(&mut lgopts, "r", "num-services");
    options_optopt(&mut lgopts, "n", "nf-cores");
    proof {
        assert(declared_options(lgopts) =~= app_switches());
    }
    let matches = match options_parse(&lgopts, &args) {
        Ok(matches) => matches,
        Err(_) => {
            return Err(ConfigError::Arguments);
        },
    };
    proof {
        let declared = declared_options(lgopts);
        assert(declared[0].0 == "p"@);
        assert(declared[1].0 == "r"@);
        assert(declared[2].0 == "n"@);
        assert(option_names(declared).contains("p"@));
        assert(option_names(declared).contains("r"@));
        assert(option_names(declared).contains("n"@));
    }
    let portmask = matches_opt_str(&matches, "p");
    let services = matches_opt_str(&matches, "r");
    let cores = matches_opt_str(&matches, "n");
    apply_app_args(max_ports, global_state, portmask, services, cores)
}

} // verus!
