//! Small helpers used throughout the manager.

use super::constants::NF_RUNNING;
use super::structs::{EtherAddr, Mbuf, OnvmNF, OnvmPktMeta};
use bit_field::BitField;
use vstd::prelude::*;
use vstd::string::StringExecFns;

verus! {

/// Whether bit `n` of `flags` is set, bit 0 being the least significant.
pub open spec fn bit_is_set(flags: u8, n: nat) -> bool {
    (flags >> (n as u8)) & 1u8 == 1u8
}

/// `flags` with bit `n` set to `value` and every other bit kept.
pub open spec fn with_bit(flags: u8, n: nat, value: bool) -> u8 {
    if value {
        flags | (1u8 << (n as u8))
    } else {
        flags & !(1u8 << (n as u8))
    }
}

/// `bit_field::BitField::get_bit` on a `u8`: the bit at index `bit`, index 0
/// being the least significant. The outside method panics for an index of 8
/// or more, which the precondition leaves out.
#[verifier::external_body]
fn get_bit_u8(value: u8, bit: usize) -> (r: bool)
    requires
        bit < 8,
    ensures
        r == bit_is_set(value, bit as nat),
{
    value.get_bit(bit)
}

/// `bit_field::BitField::set_bit` on a `u8`: bit `bit` becomes `value`, the
/// other bits stay. The outside method panics for an index of 8 or more,
/// which the precondition leaves out.
#[verifier::external_body]
fn set_bit_u8(target: &mut u8, bit: usize, value: bool)
    requires
        bit < 8,
    ensures
        *final(target) == with_bit(*old(target), bit as nat, value),
{
    target.set_bit(bit, value);
}

/// Reads bit `n` of `flags`.
pub fn onvm_check_bit(flags: &mut u8, n: usize) -> (r: bool)
    requires
        n < 8,
    ensures
        r == bit_is_set(*old(flags), n as nat),
        *final(flags) == *old(flags),
{
    get_bit_u8(*flags, n)
}

/// Sets bit `n` of `flags`.
pub fn onvm_set_bit(flags: &mut u8, n: usize)
    requires
        n < 8,
    ensures
        *final(flags) == with_bit(*old(flags), n as nat, true),
        bit_is_set(*final(flags), n as nat),
{
    set_bit_u8(flags, n, true);
    proof {
        lemma_with_bit(*old(flags), n as nat, true);
    }
}

/// Clears bit `n` of `flags`.
pub fn onvm_clear_bit(flags: &mut u8, n: usize)
    requires
        n < 8,
    ensures
        *final(flags) == with_bit(*old(flags), n as nat, false),
        !bit_is_set(*final(flags), n as nat),
{
    set_bit_u8(flags, n, false);
    proof {
        lemma_with_bit(*old(flags), n as nat, false);
    }
}

/// The text of a decimal digit.
pub open spec fn digit_text(d: int) -> Seq<char> {
    if d == 0 {
        "0"@
    } else if d == 1 {
        "1"@
    } else if d == 2 {
        "2"@
    } else if d == 3 {
        "3"@
    } else if d == 4 {
        "4"@
    } else if d == 5 {
        "5"@
    } else if d == 6 {
        "6"@
    } else if d == 7 {
        "7"@
    } else if d == 8 {
        "8"@
    } else {
        "9"@
    }
}

/// The decimal text of a byte, without leading zeros.
pub open spec fn decimal_text(n: u8) -> Seq<char> {
    (if n >= 100 {
        digit_text(n as int / 100)
    } else {
        Seq::<char>::empty()
    }) + (if n >= 10 {
        digit_text((n as int / 10) % 10)
    } else {
        Seq::<char>::empty()
    }) + digit_text(n as int % 10)
}

/// The text of a decimal digit.
fn digit_str(d: u8) -> (r: &'static str)
    requires
        d < 10,
    ensures
        r@ == digit_text(d as int),
{
    if d == 0 {
        "0"
    } else if d == 1 {
        "1"
    } else if d == 2 {
        "2"
    } else if d == 3 {
        "3"
    } else if d == 4 {
        "4"
    } else if d == 5 {
        "5"
    } else if d == 6 {
        "6"
    } else if d == 7 {
        "7"
    } else if d == 8 {
        "8"
    } else {
        "9"
    }
}

/// A name made of `prefix`, the decimal text of `id`, and `suffix`.
fn numbered_name(prefix: &str, id: u8, suffix: &str) -> (r: String)
    ensures
        r@ == prefix@ + decimal_text(id) + suffix@,
{
    let mut name = String::from_str(prefix);
    if id >= 100 {
        name.append(digit_str(id / 100));
    }
    if id >= 10 {
        name.append(digit_str((id / 10) % 10));
    }
    name.append(digit_str(id % 10));
    name.append(suffix);
    proof {
        assert(name@ =~= prefix@ + decimal_text(id) + suffix@);
    }
    name
}

/// The name of the ring of packets on their way to network function `id`.
pub fn get_rx_queue_name(id: u8) -> (r: String)
    ensures
        r@ == "MProc_Client_"@ + decimal_text(id) + "_RX"@,
{
    numbered_name("MProc_Client_", id, "_RX")
}

/// The name of the ring of packets that network function `id` has sent.
pub fn get_tx_queue_name(id: u8) -> (r: String)
    ensures
        r@ == "MProc_Client_"@ + decimal_text(id) + "_TX"@,
{
    numbered_name("MProc_Client_", id, "_TX")
}

/// The name of the ring of messages from the manager to network function
/// `id`.
pub fn get_msg_queue_name(id: u8) -> (r: String)
    ensures
        r@ == "NF_"@ + decimal_text(id) + "_MSG_QUEUE"@,
{
    numbered_name("NF_", id, "_MSG_QUEUE")
}

/// The note attached to a packet, if there is one.
pub fn onvm_get_pkt_name(pkt: &Mbuf) -> (r: Option<&OnvmPktMeta>)
    ensures
        match pkt.meta {
            Some(meta) => r == Some(&meta),
            None => r is None,
        },
{
    match &pkt.meta {
        Some(meta) => Some(meta),
        None => None,
    }
}

/// The step of its service chain that a packet is at, if the packet has a
/// note.
pub fn onvm_get_pkt_chain_index(pkt: &Mbuf) -> (r: Option<u8>)
    ensures
        match pkt.meta {
            Some(meta) => r == Some(meta.chain_index),
            None => r is None,
        },
{
    if let Some(meta) = onvm_get_pkt_name(pkt) {
        Some(meta.chain_index)
    } else {
        None
    }
}

/// Turns an address into a fake, safe one: the first three bytes become 2,
/// 0 and 0, the last three stay.
pub fn onvm_get_fake_macaddr(mac_addr: &mut EtherAddr)
    ensures
        final(mac_addr).addr_bytes@ == old(mac_addr).addr_bytes@.update(0, 2u8).update(1, 0u8).update(
            2,
            0u8,
        ),
{
    mac_addr.addr_bytes[0] = 2;
    mac_addr.addr_bytes[1] = 0;
    mac_addr.addr_bytes[2] = 0;
}

/// Whether the slot holds a network function that is running.
pub fn onvm_nf_is_valid(nf: &OnvmNF) -> (r: bool)
    ensures
        r == (nf.status == NF_RUNNING),
{
    nf.status == NF_RUNNING
}

/// Writing a bit makes it read back as written and leaves the others alone.
pub proof fn lemma_with_bit(flags: u8, n: nat, value: bool)
    requires
        n < 8,
    ensures
        bit_is_set(with_bit(flags, n, value), n) == value,
        forall|m: nat| m < 8 && m != n ==> bit_is_set(with_bit(flags, n, value), m) == bit_is_set(flags, m),
{
    let k = n as u8;
    assert(k < 8);
    assert(((flags | (1u8 << k)) >> k) & 1u8 == 1u8) by (bit_vector)
        requires
            k < 8,
    ;
    assert(((flags & !(1u8 << k)) >> k) & 1u8 == 0u8) by (bit_vector)
        requires
            k < 8,
    ;
    assert forall|m: nat| m < 8 && m != n implies bit_is_set(with_bit(flags, n, value), m)
        == bit_is_set(flags, m) by {
        let j = m as u8;
        assert(((flags | (1u8 << k)) >> j) & 1u8 == (flags >> j) & 1u8) by (bit_vector)
            requires
                k < 8,
                j < 8,
                j != k,
        ;
        assert(((flags & !(1u8 << k)) >> j) & 1u8 == (flags >> j) & 1u8) by (bit_vector)
            requires
                k < 8,
                j < 8,
                j != k,
        ;
    }
}

} // verus!
