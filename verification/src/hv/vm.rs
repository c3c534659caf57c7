//! One Hypervisor.framework VM per process.
use vstd::prelude::*;

use super::error::{finish, HvError, HV_SUCCESS};
use super::gic::{Gic, Install};
use super::order::{Order, Phase};
use super::osver::{ensure_gic_os, SysctlReply};

verus! {

/// What the process keeps about its one VM.
#[derive(Debug)]
pub struct Host {
    taken: bool,
    order: Order,
    version: Option<(u32, u32)>,
}

impl Host {
    /// A VM is alive, or its destruction failed.
    pub closed spec fn taken(&self) -> bool {
        self.taken
    }

    /// How far the create order got.
    pub closed spec fn phase(&self) -> Phase {
        self.order.phase()
    }

    /// The macOS version to go by in place of the host's.
    pub closed spec fn version(&self) -> Option<(u32, u32)> {
        self.version
    }

    /// No VM yet.
    pub fn new() -> (h: Self)
        ensures
            !h.taken(),
            h.phase() == Phase::Empty,
            h.version() is None,
    {
        Host { taken: false, order: Order::new(), version: None }
    }

    pub(super) fn set_version(&mut self, version: Option<(u32, u32)>)
        ensures
            final(self).version() == version,
            final(self).taken() == old(self).taken(),
            final(self).phase() == old(self).phase(),
    {
        self.version = version;
    }

    pub(super) fn injected_version(&self) -> (v: Option<(u32, u32)>)
        ensures
            v == self.version(),
    {
        self.version
    }

    /// A vCPU is about to be created. Refused until the GIC has been created.
    pub fn begin_vcpu(&mut self) -> (r: Result<(), HvError>)
        ensures
            r == super::order::vcpu_allowed(old(self).phase()),
            final(self).taken() == old(self).taken(),
            final(self).version() == old(self).version(),
            r is Ok ==> final(self).phase() == Phase::Vcpu,
            r is Err ==> final(self).phase() == old(self).phase(),
    {
        self.order.begin_vcpu()
    }
}

/// The right to call `hv_vm_create`, and to do so once.
#[derive(Debug)]
pub struct Reservation {
    _private: (),
}

/// The process-wide Hypervisor.framework VM.
///
/// `hv_vm_create(NULL)` uses the default config (`hv_vm.h`).
#[derive(Debug)]
pub struct Vm {
    _private: (),
}

impl Vm {
    /// Reserve the only VM of this process. On `Ok`, call `hv_vm_create` and hand its code to
    /// [`Vm::created`].
    pub fn create(host: &mut Host) -> (r: Result<Reservation, HvError>)
        ensures
            r is Ok <==> !old(host).taken(),
            r matches Err(e) ==> e == HvError::AlreadyExists,
            final(host).taken(),
            final(host).phase() == old(host).phase(),
            final(host).version() == old(host).version(),
    {
        if host.taken {
            return Err(HvError::AlreadyExists);
        }
        host.taken = true;
        Ok(Reservation { _private: () })
    }

    /// `hv_vm_create` returned `code`. A failure gives the reservation back.
    pub fn created(_reservation: Reservation, host: &mut Host, code: i32) -> (r: Result<
        Vm,
        HvError,
    >)
        ensures
            r is Ok <==> code == HV_SUCCESS,
            r matches Err(e) ==> e == HvError::of_code(code),
            final(host).taken() == (code == HV_SUCCESS),
            final(host).version() == old(host).version(),
            final(host).phase() == (if code == HV_SUCCESS {
                Phase::Vm
            } else {
                old(host).phase()
            }),
    {
        if code != HV_SUCCESS {
            host.taken = false;
            return Err(HvError::from_code(code));
        }
        host.taken = true;
        host.order.on_vm_created();
        Ok(Vm { _private: () })
    }

    /// `hv_vm_destroy` returned `code`. A failure leaves the slot taken, so that a later create
    /// cannot stack a second VM on a destroy that the kernel rejected.
    pub fn destroyed(self, host: &mut Host, code: i32) -> (r: Result<(), HvError>)
        ensures
            r == super::error::outcome(code, ()),
            final(host).version() == old(host).version(),
            final(host).taken() == (code != HV_SUCCESS && old(host).taken()),
            final(host).phase() == (if code == HV_SUCCESS {
                Phase::Empty
            } else {
                old(host).phase()
            }),
    {
        if code == HV_SUCCESS {
            host.taken = false;
            host.order.on_vm_destroyed();
        }
        finish(code, ())
    }

    /// Begin to install the in-kernel GICv3. Call this after [`Vm::create`] and before any vCPU.
    ///
    /// `distributor` and `redistributor` are the guest physical bases, the same as in the device
    /// tree. Run the calls of the returned [`Install`], then hand it to [`Vm::gic_created`].
    pub fn create_gic(
        &self,
        host: &mut Host,
        reply: &SysctlReply,
        distributor: u64,
        redistributor: u64,
    ) -> (r: Result<Install, HvError>)
        ensures
            r == (match super::osver::version_to_use(
                old(host).version(),
                reply.rc,
                reply.bytes@,
            ) {
                None => Err::<Install, HvError>(HvError::OsVersion),
                Some((major, minor)) => match super::osver::gic_supported(major, minor) {
                    Err(e) => Err(e),
                    Ok(_) => match super::order::gic_allowed(old(host).phase()) {
                        Err(e) => Err(e),
                        Ok(_) => Ok(Install::begun(distributor, redistributor)),
                    },
                },
            }),
            final(host).taken() == old(host).taken(),
            final(host).version() == old(host).version(),
            final(host).phase() == (if r is Ok {
                Phase::Gic
            } else {
                old(host).phase()
            }),
    {
        if let Err(e) = ensure_gic_os(host, reply) {
            return Err(e);
        }
        if let Err(e) = host.order.begin_gic() {
            return Err(e);
        }
        Ok(Install::new(distributor, redistributor))
    }

    /// The calls of `install` are done. A failure lets the GIC be tried again.
    pub fn gic_created(&self, host: &mut Host, install: &Install) -> (r: Result<Gic, HvError>)
        requires
            install.finished(),
        ensures
            final(host).taken() == old(host).taken(),
            final(host).version() == old(host).version(),
            r is Ok <==> install.error is None,
            r matches Err(e) ==> Some(e) == install.error,
            r matches Ok(gic) ==> {
                &&& gic.distributor() == install.distributor
                &&& gic.redistributor() == install.redistributor
            },
            final(host).phase() == (if r is Ok {
                old(host).phase()
            } else {
                super::order::rolled_back(old(host).phase())
            }),
    {
        match install.error {
            Some(e) => {
                host.order.rollback_gic();
                Err(e)
            },
            None => Ok(Gic::new(install.distributor, install.redistributor)),
        }
    }
}

} // verus!
