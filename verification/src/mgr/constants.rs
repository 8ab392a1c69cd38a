//! Constants of the manager.

use vstd::prelude::*;

verus! {

/// The number of packet buffers each core keeps to itself.
pub const MBUF_CACHE_SIZE: usize = 512;

/// The room for packet data in a packet buffer.
pub const RX_MBUF_DATA_SIZE: usize = 2048;

/// The number of message objects each core keeps to itself.
pub const NF_MSG_CACHE_SIZE: u8 = 8;

/// The size of a receive ring of a port, unless the device adjusts it.
pub const RTE_MP_RX_DESC_DEFAULT: u16 = 512;

/// The size of a transmit ring of a port, unless the device adjusts it.
pub const RTE_MP_TX_DESC_DEFAULT: u16 = 512;

pub const NO_FLAGS: u8 = 0;

/// The number of threads that receive packets.
pub const ONVM_NUM_RX_THREADS: u8 = 1;

/// The number of auxiliary threads of the manager; one of them is the
/// master thread.
pub const ONVM_NUM_MGR_AUX_THREADS: u8 = 1;

/// The number of threads that wake network functions in shared-core mode.
pub const ONVM_NUM_WAKEUP_THREADS: u8 = 1;

/// The prefetch, host and write-back thresholds of the receive rings.
pub const RX_PTHRESH: usize = 8;

pub const RX_HTHRESH: usize = 8;

pub const RX_WTHRESH: usize = 4;

/// The prefetch, host and write-back thresholds of the transmit rings.
pub const TX_PTHRESH: usize = 36;

pub const TX_HTHRESH: usize = 0;

pub const TX_WTHRESH: usize = 0;

/// The microseconds to wait between two rounds of the check of the links.
pub const CHECK_INTERVAL: u8 = 100;

/// The most rounds the check of the links takes.
pub const MAX_CHECK_TIME: u8 = 90;

/// The ring flag for a single consumer.
pub const RING_F_SC_DEQ: u32 = 0x0002;

} // verus!
