//! Definitions shared between the manager and the network functions.

pub mod constants;
pub mod funcs_macros;
pub mod pool;
pub mod ring;
pub mod structs;
pub mod threading;
