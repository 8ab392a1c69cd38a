//! Constants shared between the manager and the network functions.

use vstd::prelude::*;

verus! {

/// Message kinds exchanged between the manager and the network functions.
pub const MSG_NOOP: u8 = 0;

pub const MSG_STOP: u8 = 1;

pub const MSG_NF_STARTING: u8 = 2;

pub const MSG_NF_STOPPING: u8 = 3;

pub const MSG_NF_READY: u8 = 4;

pub const MSG_SCALE: u8 = 5;

pub const MSG_FROM_NF: u8 = 6;

pub const MSG_REQUEST_LPM_REGION: u8 = 7;

pub const MSG_CHANGE_CORE: u8 = 8;

pub const MSG_REQUEST_FT: u8 = 9;

/// True when network functions pass packets to each other.
pub const ONVM_NF_HANDLE_TX: bool = true;

/// True if the manager tries to reallocate cores when a network function
/// shuts down.
pub const ONVM_NF_SHUTDOWN_CORE_REASSIGNMENT: bool = false;

/// The maximum length of a service chain.
pub const ONVM_MAX_CHAIN_LENGTH: u8 = 4;

/// The number of slots for network functions. Instance id 0 is reserved, so
/// one fewer can run at a time.
pub const MAX_NFS: u8 = 128;

/// The number of distinct services.
pub const MAX_SERVICES: u8 = 32;

/// The most network functions a service can have running.
pub const MAX_NFS_PER_SERVICE: u8 = 32;

/// The number of packet buffers (2^15 - 1).
pub const NUM_MBUFS: u16 = 32767;

/// The size of a network function's packet rings.
pub const NF_QUEUE_RINGSIZE: usize = 16384;

/// The size of a network function's message ring.
pub const NF_MSG_QUEUE_SIZE: u8 = 128;

/// The most packets read from a ring at once.
pub const PACKET_READ_SIZE: usize = 32;

/// Whether network functions share cores unless told otherwise.
pub const ONVM_NF_SHARE_CORES_DEFAULT: bool = false;

/// In shared-core mode, the packets needed to wake a network function.
pub const PKT_WAKEUP_THRESHOLD: u8 = 1;

/// In shared-core mode, the messages needed to wake a network function.
pub const MSG_WAKEUP_THRESHOLD: u8 = 1;

/// The bit of the core options that asks for the core named in the request.
pub const MANUAL_CORE_ASSIGNMENT_BIT: usize = 0;

/// The bit of the core options that allows the core to be shared.
pub const SHARE_CORE_BIT: usize = 1;

pub const ONVM_SIGNAL_TERMINATION: i16 = -999;

/// The maximum length of a network function's tag, in bytes.
pub const TAG_SIZE: usize = 15;

/// The packet limit is given in millions of packets.
pub const PKT_TTL_MULTIPLIER: u32 = 1000000;

/// The time to live is given in seconds.
pub const TIME_TTL_MULTIPLIER: u8 = 1;

pub const NF_TERM_WAIT_TIME: u8 = 1;

pub const NF_TERM_INIT_ITER_TIMES: u8 = 3;

pub const NF_TERM_STOP_ITER_TIMES: u8 = 10;

/// The size of a shared memory segment, in pages.
pub const SHMSZ: u8 = 4;

/// The length of the prefix of a shared memory key.
pub const KEY_PREFIX: u8 = 123;

/// First step of the startup: the manager has not confirmed an id yet.
pub const NF_WAITING_FOR_ID: u8 = 0;

/// The network function has an id and is starting up.
pub const NF_STARTING: u8 = 1;

/// Running normally.
pub const NF_RUNNING: u8 = 2;

/// Not receiving packets now, but may in the future.
pub const NF_PAUSED: u8 = 3;

/// Stopped and shutting down.
pub const NF_STOPPED: u8 = 4;

/// The network function asked for an id that is in use.
pub const NF_ID_CONFLICT: u8 = 5;

/// No id is left for this network function.
pub const NF_NO_IDS: u8 = 6;

/// The service id is beyond the maximum.
pub const NF_SERVICE_MAX: u8 = 7;

/// The service already has its maximum of network functions.
pub const NF_SERVICE_COUNT_MAX: u8 = 8;

/// No core is available, or the named core cannot be used.
pub const NF_NO_CORES: u8 = 9;

/// No core is free to be dedicated.
pub const NF_NO_DEDICATED_CORES: u8 = 10;

/// The core named in the request is out of range.
pub const NF_CORE_OUT_OF_RANGE: u8 = 11;

/// The core named in the request is busy.
pub const NF_CORE_BUSY: u8 = 12;

/// Waiting for a longest-prefix-match request to be fulfilled.
pub const NF_WAITING_FOR_LPM: u8 = 13;

/// Waiting for a flow-table request to be fulfilled.
pub const NF_WAITING_FOR_FT: u8 = 14;

pub const NF_NO_ID: i8 = -1;

pub const NO_FLAGS: u32 = 0;

/// The number of hardware ports the port tables have room for.
pub const RTE_MAX_ETHPORTS: usize = 32;

/// Names of the memory regions shared between the manager and the network
/// functions.
pub const MP_CLIENT_SEM_NAME: &'static str = "MProc_Client_{}_SEM";

pub const PKTMBUF_POOL_NAME: &'static str = "MProc_pktmbuf_pool";

pub const MZ_PORT_INFO: &'static str = "MProc_port_info";

pub const MZ_CORES_STATUS: &'static str = "MProc_cores_info";

pub const MZ_NF_INFO: &'static str = "MProc_nf_init_cfg";

pub const MZ_SERVICES_INFO: &'static str = "MProc_services_info";

pub const MZ_NF_PER_SERVICE_INFO: &'static str = "MProc_nf_per_service_info";

pub const MZ_ONVM_CONFIG: &'static str = "MProc_onvm_config";

pub const MZ_SCP_INFO: &'static str = "MProc_scp_info";

pub const MZ_FTP_INFO: &'static str = "MProc_ftp_info";

pub const _MGR_MSG_QUEUE_NAME: &'static str = "MSG_MSG_QUEUE";

pub const _NF_MEMPOOL_NAME: &'static str = "NF_INFO_MEMPOOL";

pub const _NF_MSG_POOL_NAME: &'static str = "NF_MSG_MEMPOOL";

} // verus!
