//! Create order: `hv_vm_create`, then the GIC, then vCPUs.
use vstd::prelude::*;

use super::error::HvError;

verus! {

/// How far the process got.
#[derive(Debug, Clone, Copy, PartialEq, Eq, Structural)]
pub enum Phase {
    /// No VM.
    Empty,
    /// A VM without a GIC.
    Vm,
    /// A VM with a GIC and no vCPU.
    Gic,
    /// A VM with a GIC and vCPUs.
    Vcpu,
}

/// Watches the create order.
#[derive(Debug, Clone, Copy, PartialEq, Eq, Structural)]
pub struct Order {
    phase: Phase,
}

impl Order {
    /// How far the process got.
    pub closed spec fn phase(&self) -> Phase {
        self.phase
    }

    /// No VM yet.
    pub fn new() -> (o: Self)
        ensures
            o.phase() == Phase::Empty,
    {
        Order { phase: Phase::Empty }
    }

    /// `hv_vm_create` succeeded.
    pub fn on_vm_created(&mut self)
        ensures
            final(self).phase() == Phase::Vm,
    {
        self.phase = Phase::Vm;
    }

    /// `hv_vm_destroy` succeeded.
    pub fn on_vm_destroyed(&mut self)
        ensures
            final(self).phase() == Phase::Empty,
    {
        self.phase = Phase::Empty;
    }

    /// A GIC is about to be created: once, after the VM and before any vCPU.
    pub fn begin_gic(&mut self) -> (r: Result<(), HvError>)
        ensures
            r == gic_allowed(old(self).phase()),
            r is Ok ==> final(self).phase() == Phase::Gic,
            r is Err ==> *final(self) == *old(self),
    {
        match self.phase {
            Phase::Vm => {
                self.phase = Phase::Gic;
                Ok(())
            },
            Phase::Empty => Err(HvError::GicBeforeVm),
            Phase::Gic => Err(HvError::GicExists),
            Phase::Vcpu => Err(HvError::GicAfterVcpu),
        }
    }

    /// The GIC could not be created after all.
    pub fn rollback_gic(&mut self)
        ensures
            final(self).phase() == rolled_back(old(self).phase()),
    {
        if self.phase == Phase::Gic {
            self.phase = Phase::Vm;
        }
    }

    /// A vCPU is about to be created: after the GIC.
    pub fn begin_vcpu(&mut self) -> (r: Result<(), HvError>)
        ensures
            r == vcpu_allowed(old(self).phase()),
            r is Ok ==> final(self).phase() == Phase::Vcpu,
            r is Err ==> *final(self) == *old(self),
    {
        match self.phase {
            Phase::Gic | Phase::Vcpu => {
                self.phase = Phase::Vcpu;
                Ok(())
            },
            Phase::Empty | Phase::Vm => Err(HvError::VcpuBeforeGic),
        }
    }
}

/// Whether a GIC may be created in `phase`.
pub open spec fn gic_allowed(phase: Phase) -> Result<(), HvError> {
    match phase {
        Phase::Empty => Err(HvError::GicBeforeVm),
        Phase::Vm => Ok(()),
        Phase::Gic => Err(HvError::GicExists),
        Phase::Vcpu => Err(HvError::GicAfterVcpu),
    }
}

/// Whether a vCPU may be created in `phase`.
pub open spec fn vcpu_allowed(phase: Phase) -> Result<(), HvError> {
    match phase {
        Phase::Empty => Err(HvError::VcpuBeforeGic),
        Phase::Vm => Err(HvError::VcpuBeforeGic),
        Phase::Gic => Ok(()),
        Phase::Vcpu => Ok(()),
    }
}

/// The phase after the GIC was taken back.
pub open spec fn rolled_back(phase: Phase) -> Phase {
    if phase == Phase::Gic {
        Phase::Vm
    } else {
        phase
    }
}

/// Between VM creation and destruction exactly one of the two is allowed until the first vCPU,
/// and from then on only more vCPUs are.
pub proof fn law_gic_precedes_vcpus(phase: Phase)
    ensures
        gic_allowed(phase) is Ok ==> vcpu_allowed(phase) is Err,
        vcpu_allowed(phase) is Ok ==> gic_allowed(phase) is Err,
        phase == Phase::Vcpu ==> vcpu_allowed(phase) is Ok,
        phase == Phase::Empty ==> gic_allowed(phase) is Err && vcpu_allowed(phase) is Err,
{
}

/// A GIC that could not be created may be tried again.
pub proof fn law_failed_gic_can_be_retried(phase: Phase)
    requires
        gic_allowed(phase) is Ok,
    ensures
        rolled_back(Phase::Gic) == phase,
        gic_allowed(rolled_back(Phase::Gic)) is Ok,
{
}

} // verus!
