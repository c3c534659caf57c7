//! vCPU registers and the answers to vCPU calls.
//!
//! Register numbers are from `hv_vcpu_types.h` in the macOS 27 SDK.
//! `HV_REG_X0` is 0, `HV_REG_X30` is 30, `HV_REG_PC` is 31, `HV_REG_CPSR` is 34.
//! `HV_SYS_REG_SP_EL1` is `0xe208`. Exit reasons start at 0: canceled, exception,
//! vtimer, unknown.
use vstd::prelude::*;

use super::error::{HvError, HV_BAD_ARGUMENT, HV_SUCCESS};

verus! {

/// `HV_EXIT_REASON_CANCELED`.
pub const HV_EXIT_REASON_CANCELED: u32 = 0;

/// `HV_EXIT_REASON_EXCEPTION`.
pub const HV_EXIT_REASON_EXCEPTION: u32 = 1;

/// `HV_EXIT_REASON_VTIMER_ACTIVATED`.
pub const HV_EXIT_REASON_VTIMER_ACTIVATED: u32 = 2;

/// `HV_EXIT_REASON_UNKNOWN`.
pub const HV_EXIT_REASON_UNKNOWN: u32 = 3;

/// `HV_REG_PC`.
pub const REG_PC: u32 = 31;

/// `HV_REG_CPSR`.
pub const REG_CPSR: u32 = 34;

/// A general-purpose register, the PC, or CPSR (`hv_reg_t`).
#[derive(Debug, Clone, Copy, PartialEq, Eq, Structural)]
pub enum Reg {
    /// `X0` through `X30`. The index must be `0..=30`.
    X(u8),
    /// `HV_REG_PC`.
    Pc,
    /// `HV_REG_CPSR`.
    Cpsr,
}

impl Reg {
    /// The register number, where there is such a register.
    pub open spec fn number(self) -> Result<u32, HvError> {
        match self {
            Reg::X(index) => if index <= 30 {
                Ok(index as u32)
            } else {
                Err(HvError::InvalidGpr { index })
            },
            Reg::Pc => Ok(REG_PC),
            Reg::Cpsr => Ok(REG_CPSR),
        }
    }

    /// The `hv_reg_t` of the register.
    pub fn code(self) -> (r: Result<u32, HvError>)
        ensures
            r == self.number(),
    {
        match self {
            Reg::X(index) => {
                if index <= 30 {
                    Ok(index as u32)
                } else {
                    Err(HvError::InvalidGpr { index })
                }
            },
            Reg::Pc => Ok(REG_PC),
            Reg::Cpsr => Ok(REG_CPSR),
        }
    }
}

/// System registers used to boot a guest (`hv_sys_reg_t`).
#[derive(Debug, Clone, Copy, PartialEq, Eq, Structural)]
pub enum SysReg {
    /// `HV_SYS_REG_SP_EL1` (`0xe208`).
    SpEl1,
    /// `HV_SYS_REG_SCTLR_EL1` (`0xc080`).
    SctlrEl1,
    /// `HV_SYS_REG_TTBR0_EL1` (`0xc100`).
    Ttbr0El1,
    /// `HV_SYS_REG_TTBR1_EL1` (`0xc101`).
    Ttbr1El1,
    /// `HV_SYS_REG_TCR_EL1` (`0xc102`).
    TcrEl1,
    /// `HV_SYS_REG_MAIR_EL1` (`0xc510`).
    MairEl1,
    /// `HV_SYS_REG_VBAR_EL1` (`0xc600`).
    VbarEl1,
    /// `HV_SYS_REG_ELR_EL1` (`0xc201`).
    ElrEl1,
    /// `HV_SYS_REG_ESR_EL1` (`0xc290`).
    EsrEl1,
    /// `HV_SYS_REG_FAR_EL1` (`0xc300`).
    FarEl1,
    /// `HV_SYS_REG_MPIDR_EL1` (`0xc005`).
    MpidrEl1,
    /// `HV_SYS_REG_CNTV_CTL_EL0` (`0xdf19`).
    CntvCtlEl0,
    /// `HV_SYS_REG_CNTV_CVAL_EL0` (`0xdf1a`).
    CntvCvalEl0,
}

impl SysReg {
    /// The number of the register: op0, op1, CRn, CRm, and op2 in 2, 3, 4, 4, and 3 bits.
    pub open spec fn number(self) -> u16 {
        match self {
            SysReg::SpEl1 => sys_reg(3, 4, 4, 1, 0),
            SysReg::SctlrEl1 => sys_reg(3, 0, 1, 0, 0),
            SysReg::Ttbr0El1 => sys_reg(3, 0, 2, 0, 0),
            SysReg::Ttbr1El1 => sys_reg(3, 0, 2, 0, 1),
            SysReg::TcrEl1 => sys_reg(3, 0, 2, 0, 2),
            SysReg::MairEl1 => sys_reg(3, 0, 10, 2, 0),
            SysReg::VbarEl1 => sys_reg(3, 0, 12, 0, 0),
            SysReg::ElrEl1 => sys_reg(3, 0, 4, 0, 1),
            SysReg::EsrEl1 => sys_reg(3, 0, 5, 2, 0),
            SysReg::FarEl1 => sys_reg(3, 0, 6, 0, 0),
            SysReg::MpidrEl1 => sys_reg(3, 0, 0, 0, 5),
            SysReg::CntvCtlEl0 => sys_reg(3, 3, 14, 3, 1),
            SysReg::CntvCvalEl0 => sys_reg(3, 3, 14, 3, 2),
        }
    }

    /// The `hv_sys_reg_t` of the register.
    pub fn code(self) -> (c: u16)
        ensures
            c == self.number(),
    {
        match self {
            SysReg::SpEl1 => 0xe208,
            SysReg::SctlrEl1 => 0xc080,
            SysReg::Ttbr0El1 => 0xc100,
            SysReg::Ttbr1El1 => 0xc101,
            SysReg::TcrEl1 => 0xc102,
            SysReg::MairEl1 => 0xc510,
            SysReg::VbarEl1 => 0xc600,
            SysReg::ElrEl1 => 0xc201,
            SysReg::EsrEl1 => 0xc290,
            SysReg::FarEl1 => 0xc300,
            SysReg::MpidrEl1 => 0xc005,
            SysReg::CntvCtlEl0 => 0xdf19,
            SysReg::CntvCvalEl0 => 0xdf1a,
        }
    }
}

/// The number of the system register that an `MRS` with these operands reads.
pub open spec fn sys_reg(op0: int, op1: int, crn: int, crm: int, op2: int) -> u16 {
    (op0 * 0x4000 + op1 * 0x800 + crn * 0x80 + crm * 8 + op2) as u16
}

/// What a new vCPU came to.
#[derive(Debug, Clone, Copy)]
pub enum VcpuCreated {
    /// The vCPU is there.
    Ready {
        /// Kernel id.
        id: u64,
    },
    /// There is no vCPU.
    Failed {
        /// Why.
        error: HvError,
    },
    /// The vCPU cannot be used: destroy it, then fail.
    Unusable {
        /// Kernel id.
        id: u64,
        /// Why.
        error: HvError,
    },
}

/// `hv_vcpu_create` returned `code`, an id, and a pointer to exits. A vCPU without that pointer
/// cannot be used.
pub fn vcpu_created(code: i32, id: u64, exit_is_null: bool) -> (r: VcpuCreated)
    ensures
        r == (if code != HV_SUCCESS {
            VcpuCreated::Failed { error: HvError::of_code(code) }
        } else if exit_is_null {
            VcpuCreated::Unusable { id, error: HvError::Unknown { code: 0 } }
        } else {
            VcpuCreated::Ready { id }
        }),
{
    if code != HV_SUCCESS {
        return VcpuCreated::Failed { error: HvError::from_code(code) };
    }
    if exit_is_null {
        return VcpuCreated::Unusable { id, error: HvError::Unknown { code: 0 } };
    }
    VcpuCreated::Ready { id }
}

/// How many vCPUs `hv_vcpus_exit` is to cancel. The kernel counts them in 32 bits.
pub fn exit_count(ids: &[u64]) -> (r: Result<u32, HvError>)
    ensures
        r == (if ids@.len() <= u32::MAX {
            Ok::<u32, HvError>(ids@.len() as u32)
        } else {
            Err(HvError::BadArgument { code: HV_BAD_ARGUMENT })
        }),
{
    if ids.len() as u64 > u32::MAX as u64 {
        return Err(HvError::BadArgument { code: HV_BAD_ARGUMENT });
    }
    Ok(ids.len() as u32)
}

/// No two registers share a number.
pub proof fn law_registers_are_told_apart(a: Reg, b: Reg, c: SysReg, d: SysReg)
    ensures
        a.number() is Ok && a.number() == b.number() ==> a == b,
        c.number() == d.number() ==> c == d,
{
}

} // verus!
