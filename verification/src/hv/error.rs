//! `hv_return_t` names from the arm64 kernel header.
//!
//! Values are from `usr/include/arm64/hv/hv_kern_types.h` in the macOS 27 SDK.
//! `err_common_hypervisor` is `err_local | err_sub(0xba5)`, and the header
//! comments give the resulting constants (for example `HV_ERROR` is
//! `0xfae94001`). The x86 `hv_error.h` uses `HV_FAULT` for `0xfae94008`; arm64
//! names that code `HV_EXISTS` and adds `HV_ILLEGAL_GUEST_STATE`.
use vstd::prelude::*;

use crate::text::{push_dec, push_hex};

verus! {

broadcast use vstd::group_vstd_default;

/// `HV_SUCCESS`.
pub const HV_SUCCESS: i32 = 0;

/// `HV_ERROR` (`0xfae94001`).
pub const HV_ERROR: i32 = -0x516_bfff;

/// `HV_BUSY` (`0xfae94002`).
pub const HV_BUSY: i32 = -0x516_bffe;

/// `HV_BAD_ARGUMENT` (`0xfae94003`).
pub const HV_BAD_ARGUMENT: i32 = -0x516_bffd;

/// `HV_ILLEGAL_GUEST_STATE` (`0xfae94004`).
pub const HV_ILLEGAL_GUEST_STATE: i32 = -0x516_bffc;

/// `HV_NO_RESOURCES` (`0xfae94005`).
pub const HV_NO_RESOURCES: i32 = -0x516_bffb;

/// `HV_NO_DEVICE` (`0xfae94006`).
pub const HV_NO_DEVICE: i32 = -0x516_bffa;

/// `HV_DENIED` (`0xfae94007`).
pub const HV_DENIED: i32 = -0x516_bff9;

/// `HV_EXISTS` (`0xfae94008`).
pub const HV_EXISTS: i32 = -0x516_bff8;

/// `HV_UNSUPPORTED` (`0xfae9400f`).
pub const HV_UNSUPPORTED: i32 = -0x516_bff1;

/// A failed Hypervisor.framework call, or a second `Vm::create` in this process.
#[derive(Debug, Clone, Copy, PartialEq, Eq)]
pub enum HvError {
    /// `HV_ERROR`.
    Error {
        /// Raw `hv_return_t`.
        code: i32,
    },
    /// `HV_BUSY`.
    Busy {
        /// Raw `hv_return_t`.
        code: i32,
    },
    /// `HV_BAD_ARGUMENT`.
    BadArgument {
        /// Raw `hv_return_t`.
        code: i32,
    },
    /// `HV_ILLEGAL_GUEST_STATE`.
    IllegalGuestState {
        /// Raw `hv_return_t`.
        code: i32,
    },
    /// `HV_NO_RESOURCES`.
    NoResources {
        /// Raw `hv_return_t`.
        code: i32,
    },
    /// `HV_NO_DEVICE`.
    NoDevice {
        /// Raw `hv_return_t`.
        code: i32,
    },
    /// `HV_DENIED`.
    Denied {
        /// Raw `hv_return_t`.
        code: i32,
    },
    /// `HV_EXISTS`.
    Exists {
        /// Raw `hv_return_t`.
        code: i32,
    },
    /// `HV_UNSUPPORTED`.
    Unsupported {
        /// Raw `hv_return_t`.
        code: i32,
    },
    /// A code that is not in the arm64 header enum.
    Unknown {
        /// Raw `hv_return_t`.
        code: i32,
    },
    /// `Vm::create` was called while another `Vm` is still alive.
    AlreadyExists,
    /// A general-purpose register index was outside `0..=30`.
    InvalidGpr {
        /// The rejected `Xn` index.
        index: u8,
    },
    /// In-kernel GICv3 needs macOS 15.0 (`API_AVAILABLE(macos(15.0))` in `hv_gic.h`).
    GicOsUnsupported {
        /// Host `kern.osproductversion` major.
        major: u32,
        /// Host `kern.osproductversion` minor.
        minor: u32,
    },
    /// The GICv3 symbols are missing from Hypervisor.framework.
    GicUnavailable,
    /// `hv_gic_create` ran before `hv_vm_create`.
    GicBeforeVm,
    /// A vCPU already exists, so the GIC window has closed.
    GicAfterVcpu,
    /// This VM already has a GIC.
    GicExists,
    /// `hv_vcpu_create` ran before `hv_gic_create`.
    VcpuBeforeGic,
    /// Distributor or redistributor GPA is not aligned to the framework requirement.
    GicMisaligned {
        /// `distributor` or `redistributor`.
        region: &'static str,
        /// Guest physical address that was rejected.
        base: u64,
        /// Alignment in bytes reported by the framework.
        alignment: usize,
    },
    /// `hv_gic_config_create` or `hv_gic_state_create` returned NULL.
    GicNull {
        /// Which object was null.
        what: &'static str,
    },
    /// `sysctlbyname(kern.osproductversion)` failed or the string was not a version.
    OsVersion,
}

/// The 32 bits of `code`, as a number without sign.
pub open spec fn code_bits(code: i32) -> nat {
    if code < 0 {
        (code + 0x1_0000_0000) as nat
    } else {
        code as nat
    }
}

/// `name`, and the code in parentheses.
pub open spec fn named_code(name: Seq<char>, code: i32) -> Seq<char> {
    name + " (0x"@ + crate::text::hex(code_bits(code)) + ")"@
}

impl HvError {
    /// The error for a code that is not `HV_SUCCESS`.
    pub open spec fn of_code(code: i32) -> HvError {
        if code == HV_ERROR {
            HvError::Error { code }
        } else if code == HV_BUSY {
            HvError::Busy { code }
        } else if code == HV_BAD_ARGUMENT {
            HvError::BadArgument { code }
        } else if code == HV_ILLEGAL_GUEST_STATE {
            HvError::IllegalGuestState { code }
        } else if code == HV_NO_RESOURCES {
            HvError::NoResources { code }
        } else if code == HV_NO_DEVICE {
            HvError::NoDevice { code }
        } else if code == HV_DENIED {
            HvError::Denied { code }
        } else if code == HV_EXISTS {
            HvError::Exists { code }
        } else if code == HV_UNSUPPORTED {
            HvError::Unsupported { code }
        } else {
            HvError::Unknown { code }
        }
    }

    /// Map a non-success `hv_return_t` to its name.
    ///
    /// `HV_SUCCESS` is not an error. Callers check for zero before using this.
    pub fn from_code(code: i32) -> (e: Self)
        ensures
            e == Self::of_code(code),
    {
        match code {
            HV_ERROR => HvError::Error { code },
            HV_BUSY => HvError::Busy { code },
            HV_BAD_ARGUMENT => HvError::BadArgument { code },
            HV_ILLEGAL_GUEST_STATE => HvError::IllegalGuestState { code },
            HV_NO_RESOURCES => HvError::NoResources { code },
            HV_NO_DEVICE => HvError::NoDevice { code },
            HV_DENIED => HvError::Denied { code },
            HV_EXISTS => HvError::Exists { code },
            HV_UNSUPPORTED => HvError::Unsupported { code },
            _ => HvError::Unknown { code },
        }
    }

    /// The raw code of an error that came with one.
    pub open spec fn code(self) -> Option<i32> {
        match self {
            HvError::Error { code } => Some(code),
            HvError::Busy { code } => Some(code),
            HvError::BadArgument { code } => Some(code),
            HvError::IllegalGuestState { code } => Some(code),
            HvError::NoResources { code } => Some(code),
            HvError::NoDevice { code } => Some(code),
            HvError::Denied { code } => Some(code),
            HvError::Exists { code } => Some(code),
            HvError::Unsupported { code } => Some(code),
            HvError::Unknown { code } => Some(code),
            _ => None,
        }
    }

    /// The message for `self`.
    pub open spec fn text(self) -> Seq<char> {
        match self {
            HvError::Error { code } => named_code("HV_ERROR"@, code),
            HvError::Busy { code } => named_code("HV_BUSY"@, code),
            HvError::BadArgument { code } => named_code("HV_BAD_ARGUMENT"@, code),
            HvError::IllegalGuestState { code } => named_code("HV_ILLEGAL_GUEST_STATE"@, code),
            HvError::NoResources { code } => named_code("HV_NO_RESOURCES"@, code),
            HvError::NoDevice { code } => named_code("HV_NO_DEVICE"@, code),
            HvError::Denied { code } => named_code("HV_DENIED"@, code),
            HvError::Exists { code } => named_code("HV_EXISTS"@, code),
            HvError::Unsupported { code } => named_code("HV_UNSUPPORTED"@, code),
            HvError::Unknown { code } => named_code("unknown hv_return_t"@, code),
            HvError::AlreadyExists => "a VM already exists in this process"@,
            HvError::InvalidGpr { index } => "gpr index "@ + crate::text::dec(index as nat)
                + " is outside 0..=30"@,
            HvError::GicOsUnsupported { major, minor } => {
                "in-kernel GICv3 requires macOS 15.0 or newer; host is "@ + crate::text::dec(
                    major as nat,
                ) + "."@ + crate::text::dec(minor as nat)
            },
            HvError::GicUnavailable => {
                "in-kernel GICv3 is not available in this Hypervisor.framework"@
            },
            HvError::GicBeforeVm => "GIC must be created after hv_vm_create"@,
            HvError::GicAfterVcpu => "GIC must be created before any vCPU"@,
            HvError::GicExists => "a GIC already exists for this VM"@,
            HvError::VcpuBeforeGic => "vCPU requires an in-kernel GIC; create the GIC first"@,
            HvError::GicMisaligned { region, base, alignment } => "GIC "@ + region@ + " base 0x"@
                + crate::text::hex(base as nat) + " is not aligned to 0x"@ + crate::text::hex(
                alignment as nat,
            ),
            HvError::GicNull { what } => "Hypervisor.framework returned a null "@ + what@,
            HvError::OsVersion => "could not read the macOS version"@,
        }
    }

    /// What went wrong, in words.
    pub fn message(&self) -> (s: String)
        ensures
            s@ == self.text(),
    {
        let mut s: String = String::new();
        match self {
            HvError::Error { code } => push_named_code(&mut s, "HV_ERROR", *code),
            HvError::Busy { code } => push_named_code(&mut s, "HV_BUSY", *code),
            HvError::BadArgument { code } => push_named_code(&mut s, "HV_BAD_ARGUMENT", *code),
            HvError::IllegalGuestState { code } => push_named_code(
                &mut s,
                "HV_ILLEGAL_GUEST_STATE",
                *code,
            ),
            HvError::NoResources { code } => push_named_code(&mut s, "HV_NO_RESOURCES", *code),
            HvError::NoDevice { code } => push_named_code(&mut s, "HV_NO_DEVICE", *code),
            HvError::Denied { code } => push_named_code(&mut s, "HV_DENIED", *code),
            HvError::Exists { code } => push_named_code(&mut s, "HV_EXISTS", *code),
            HvError::Unsupported { code } => push_named_code(&mut s, "HV_UNSUPPORTED", *code),
            HvError::Unknown { code } => push_named_code(&mut s, "unknown hv_return_t", *code),
            HvError::AlreadyExists => s.append("a VM already exists in this process"),
            HvError::InvalidGpr { index } => {
                s.append("gpr index ");
                push_dec(&mut s, *index as u64);
                s.append(" is outside 0..=30");
            },
            HvError::GicOsUnsupported { major, minor } => {
                s.append("in-kernel GICv3 requires macOS 15.0 or newer; host is ");
                push_dec(&mut s, *major as u64);
                s.append(".");
                push_dec(&mut s, *minor as u64);
            },
            HvError::GicUnavailable => {
                s.append("in-kernel GICv3 is not available in this Hypervisor.framework");
            },
            HvError::GicBeforeVm => s.append("GIC must be created after hv_vm_create"),
            HvError::GicAfterVcpu => s.append("GIC must be created before any vCPU"),
            HvError::GicExists => s.append("a GIC already exists for this VM"),
            HvError::VcpuBeforeGic => {
                s.append("vCPU requires an in-kernel GIC; create the GIC first");
            },
            HvError::GicMisaligned { region, base, alignment } => {
                s.append("GIC ");
                s.append(*region);
                s.append(" base 0x");
                push_hex(&mut s, *base);
                s.append(" is not aligned to 0x");
                push_hex(&mut s, *alignment as u64);
            },
            HvError::GicNull { what } => {
                s.append("Hypervisor.framework returned a null ");
                s.append(*what);
            },
            HvError::OsVersion => s.append("could not read the macOS version"),
        }
        assert(s@ =~= self.text());
        s
    }
}

fn push_named_code(s: &mut String, name: &str, code: i32)
    ensures
        final(s)@ == old(s)@ + named_code(name@, code),
{
    let bits: u64 = if code < 0 {
        (code as i64 + 0x1_0000_0000) as u64
    } else {
        code as u64
    };
    s.append(name);
    s.append(" (0x");
    push_hex(s, bits);
    s.append(")");
    assert(s@ =~= old(s)@ + named_code(name@, code));
}

/// The outcome of a kernel call with return code `code`.
pub open spec fn outcome<T>(code: i32, value: T) -> Result<T, HvError> {
    if code == HV_SUCCESS {
        Ok(value)
    } else {
        Err(HvError::of_code(code))
    }
}

/// `value`, or the error of a kernel call that returned `code`.
pub fn finish<T>(code: i32, value: T) -> (r: Result<T, HvError>)
    ensures
        r == outcome(code, value),
{
    if code != HV_SUCCESS {
        return Err(HvError::from_code(code));
    }
    Ok(value)
}

/// Every code is kept: the error of a failed call names the code it came from.
pub proof fn law_errors_keep_their_code(code: i32)
    ensures
        HvError::of_code(code).code() == Some(code),
{
}

/// Two different codes give two different errors.
pub proof fn law_codes_are_told_apart(a: i32, b: i32)
    requires
        HvError::of_code(a) == HvError::of_code(b),
    ensures
        a == b,
{
    law_errors_keep_their_code(a);
    law_errors_keep_their_code(b);
}

} // verus!
