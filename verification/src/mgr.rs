//! The manager: its state, its startup and the handling of the network
//! functions' requests.

pub mod constants;
pub mod get_args;
pub mod global;
pub mod init;
pub mod net_funcs;
pub mod ports;
