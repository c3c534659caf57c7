//! Hypervisor.framework, without the calls: error codes, create order, register numbers, and
//! what to do with each answer of the kernel.
//!
//! One process has one VM. [`vm::Host`] is the state that the process keeps for it.
pub mod error;
pub mod gic;
pub mod laws;
pub mod map;
pub mod order;
pub mod osver;
pub mod vcpu;
pub mod vm;
