[package]
name = "onvm_mgr"
version = "0.1.0"
edition = "2021"
publish = false

[dependencies]
bit_field = "=0.10.3"
capsule-ffi = { version = "=0.1.5", features = ["rustdoc"] }
exitfailure = "=0.5.1"
failure = "=0.1.8"
getopts = "=0.2.24"
libc = "=0.2.191"
num_cpus = "=1.17.0"
