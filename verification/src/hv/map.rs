//! `hv_vm_map` and `hv_vm_unmap` for the process-wide VM.
//!
//! Flags match `usr/include/arm64/hv/hv_kern_types.h`: `HV_MEMORY_READ` is
//! `1 << 0`, `HV_MEMORY_WRITE` is `1 << 1`, and `HV_MEMORY_EXEC` is `1 << 2`.
use vstd::prelude::*;

verus! {

/// `HV_MEMORY_READ`.
pub const HV_MEMORY_READ: u64 = 0x1;

/// `HV_MEMORY_WRITE`.
pub const HV_MEMORY_WRITE: u64 = 0x2;

/// `HV_MEMORY_EXEC`.
pub const HV_MEMORY_EXEC: u64 = 0x4;

/// Read, write, and execute. Guest RAM uses this set.
pub const HV_MEMORY_RWX: u64 = 0x7;

} // verus!
