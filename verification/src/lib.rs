//! Verified core of a small virtual machine monitor.
pub mod arith;
pub mod boot;
pub mod bytes;
pub mod config;
pub mod expect;
pub mod hv;
pub mod log;
pub mod memory;
pub mod text;
pub mod uart;
pub mod virtio;
