//! In-kernel GICv3. Create it after `hv_vm_create` and before any vCPU.
//!
//! Distributor and redistributor guest addresses come from the caller. The
//! device tree has to use the same ones.
use vstd::prelude::*;

use super::error::{HvError, HV_SUCCESS};

verus! {

broadcast use vstd::group_vstd_default;

/// ICC system registers used to drive the CPU interface (`hv_gic_types.h`).
#[derive(Debug, Clone, Copy, PartialEq, Eq, Structural)]
pub enum IccReg {
    /// `HV_GIC_ICC_REG_PMR_EL1` (`0xc230`).
    PmrEl1,
    /// `HV_GIC_ICC_REG_CTLR_EL1` (`0xc664`).
    CtlrEl1,
    /// `HV_GIC_ICC_REG_SRE_EL1` (`0xc665`).
    SreEl1,
    /// `HV_GIC_ICC_REG_IGRPEN1_EL1` (`0xc667`).
    Igrpen1El1,
}

impl IccReg {
    /// The number of the register.
    pub open spec fn number(self) -> u16 {
        match self {
            IccReg::PmrEl1 => super::vcpu::sys_reg(3, 0, 4, 6, 0),
            IccReg::CtlrEl1 => super::vcpu::sys_reg(3, 0, 12, 12, 4),
            IccReg::SreEl1 => super::vcpu::sys_reg(3, 0, 12, 12, 5),
            IccReg::Igrpen1El1 => super::vcpu::sys_reg(3, 0, 12, 12, 7),
        }
    }

    /// The `hv_gic_icc_reg_t` of the register.
    pub fn code(self) -> (c: u16)
        ensures
            c == self.number(),
    {
        match self {
            IccReg::PmrEl1 => 0xc230,
            IccReg::CtlrEl1 => 0xc664,
            IccReg::SreEl1 => 0xc665,
            IccReg::Igrpen1El1 => 0xc667,
        }
    }
}

/// The process-wide in-kernel GICv3. Drop does not destroy it; the VM does.
#[derive(Debug)]
pub struct Gic {
    distributor: u64,
    redistributor: u64,
}

impl Gic {
    /// Distributor GPA.
    pub closed spec fn distributor(&self) -> u64 {
        self.distributor
    }

    /// Redistributor GPA.
    pub closed spec fn redistributor(&self) -> u64 {
        self.redistributor
    }

    pub(super) fn new(distributor: u64, redistributor: u64) -> (g: Self)
        ensures
            g.distributor() == distributor,
            g.redistributor() == redistributor,
    {
        Gic { distributor, redistributor }
    }

    /// Distributor GPA passed to `hv_gic_config_set_distributor_base`.
    pub fn distributor_base(&self) -> (base: u64)
        ensures
            base == self.distributor(),
    {
        self.distributor
    }

    /// Redistributor GPA passed to `hv_gic_config_set_redistributor_base`.
    pub fn redistributor_base(&self) -> (base: u64)
        ensures
            base == self.redistributor(),
    {
        self.redistributor
    }
}

/// A call into the framework on the way to a GIC.
#[derive(Debug, Clone, Copy, PartialEq, Eq, Structural)]
pub enum GicCall {
    /// `hv_gic_get_distributor_size`.
    DistributorSize,
    /// `hv_gic_get_redistributor_region_size`.
    RedistributorSize,
    /// `hv_gic_get_distributor_base_alignment`.
    DistributorAlignment,
    /// `hv_gic_get_redistributor_base_alignment`.
    RedistributorAlignment,
    /// `hv_gic_config_create`.
    ConfigCreate,
    /// `hv_gic_config_set_distributor_base`.
    SetDistributorBase {
        /// Guest physical address.
        base: u64,
    },
    /// `hv_gic_config_set_redistributor_base`.
    SetRedistributorBase {
        /// Guest physical address.
        base: u64,
    },
    /// `hv_gic_create`.
    Create,
    /// `os_release` of the config.
    Release,
}

/// What the framework answered.
#[derive(Debug, Clone, Copy, PartialEq, Eq, Structural)]
pub enum Reply {
    /// The function is not in the framework.
    Missing,
    /// The function ran.
    Done {
        /// Return code.
        code: i32,
        /// The size that was asked for. For an object, zero means NULL.
        value: usize,
    },
}

impl Reply {
    /// Why the call failed, if it did.
    pub open spec fn failure(self) -> Option<HvError> {
        match self {
            Reply::Missing => Some(HvError::GicUnavailable),
            Reply::Done { code, value } => if code == HV_SUCCESS {
                None
            } else {
                Some(HvError::of_code(code))
            },
        }
    }

    fn check(self) -> (r: Option<HvError>)
        ensures
            r == self.failure(),
    {
        match self {
            Reply::Missing => Some(HvError::GicUnavailable),
            Reply::Done { code, value: _ } => {
                if code == HV_SUCCESS {
                    None
                } else {
                    Some(HvError::from_code(code))
                }
            },
        }
    }

    /// The value that came with the answer.
    pub open spec fn value(self) -> usize {
        match self {
            Reply::Missing => 0,
            Reply::Done { code, value } => value,
        }
    }

    fn brought(self) -> (v: usize)
        ensures
            v == self.value(),
    {
        match self {
            Reply::Missing => 0,
            Reply::Done { code: _, value } => value,
        }
    }
}

/// Creating the GIC, one call at a time.
#[derive(Debug, Clone, Copy)]
pub struct Install {
    /// Distributor GPA.
    pub distributor: u64,
    /// Redistributor GPA.
    pub redistributor: u64,
    /// The call to make next. None when the work is done.
    pub call: Option<GicCall>,
    /// Alignment of the distributor, once it was asked for.
    pub distributor_alignment: usize,
    /// Why there is no GIC.
    pub error: Option<HvError>,
}

/// Whether `base` meets `alignment`. Zero asks for none.
pub open spec fn alignment_of(base: u64, alignment: usize, region: &'static str) -> Option<
    HvError,
> {
    if alignment == 0 || base % alignment as u64 == 0 {
        None
    } else {
        Some(HvError::GicMisaligned { region, base, alignment })
    }
}

fn aligned(base: u64, alignment: usize, region: &'static str) -> (r: Option<HvError>)
    ensures
        r == alignment_of(base, alignment, region),
{
    if alignment == 0 || base % alignment as u64 == 0 {
        return None;
    }
    Some(HvError::GicMisaligned { region, base, alignment })
}

impl Install {
    /// Nothing was called yet.
    pub open spec fn begun(distributor: u64, redistributor: u64) -> Install {
        Install {
            distributor,
            redistributor,
            call: Some(GicCall::DistributorSize),
            distributor_alignment: 0,
            error: None,
        }
    }

    /// There is nothing left to call.
    pub open spec fn finished(self) -> bool {
        self.call is None
    }

    /// Go on with `call`, or stop where there is an error.
    pub open spec fn proceed(self, error: Option<HvError>, call: GicCall) -> Install {
        match error {
            Some(e) => Install { call: None, error: Some(e), ..self },
            None => Install { call: Some(call), ..self },
        }
    }

    /// Go on with `call`, or release the config where there is an error.
    pub open spec fn proceed_or_release(self, error: Option<HvError>, call: GicCall) -> Install {
        match error {
            Some(e) => Install { call: Some(GicCall::Release), error: Some(e), ..self },
            None => Install { call: Some(call), ..self },
        }
    }

    /// After the call under way was answered.
    pub open spec fn after(self, reply: Reply) -> Install {
        match self.call {
            None => self,
            Some(GicCall::DistributorSize) => self.proceed(
                reply.failure(),
                GicCall::RedistributorSize,
            ),
            Some(GicCall::RedistributorSize) => self.proceed(
                reply.failure(),
                GicCall::DistributorAlignment,
            ),
            Some(GicCall::DistributorAlignment) => Install {
                distributor_alignment: reply.value(),
                ..self.proceed(reply.failure(), GicCall::RedistributorAlignment)
            },
            Some(GicCall::RedistributorAlignment) => self.proceed(
                match reply.failure() {
                    Some(e) => Some(e),
                    None => match alignment_of(
                        self.distributor,
                        self.distributor_alignment,
                        "distributor",
                    ) {
                        Some(e) => Some(e),
                        None => alignment_of(self.redistributor, reply.value(), "redistributor"),
                    },
                },
                GicCall::ConfigCreate,
            ),
            Some(GicCall::ConfigCreate) => self.proceed(
                match reply {
                    Reply::Missing => Some(HvError::GicUnavailable),
                    Reply::Done { code, value } => if value == 0 {
                        Some(HvError::GicNull { what: "hv_gic_config_t" })
                    } else {
                        None
                    },
                },
                GicCall::SetDistributorBase { base: self.distributor },
            ),
            Some(GicCall::SetDistributorBase { base }) => self.proceed_or_release(
                reply.failure(),
                GicCall::SetRedistributorBase { base: self.redistributor },
            ),
            Some(GicCall::SetRedistributorBase { base }) => self.proceed_or_release(
                reply.failure(),
                GicCall::Create,
            ),
            Some(GicCall::Create) => self.proceed_or_release(reply.failure(), GicCall::Release),
            Some(GicCall::Release) => Install { call: None, ..self },
        }
    }

    pub(super) fn new(distributor: u64, redistributor: u64) -> (i: Self)
        ensures
            i == Self::begun(distributor, redistributor),
    {
        Install {
            distributor,
            redistributor,
            call: Some(GicCall::DistributorSize),
            distributor_alignment: 0,
            error: None,
        }
    }

    /// The call to make next. None when the work is done.
    pub fn next(&self) -> (c: Option<GicCall>)
        ensures
            c == self.call,
    {
        self.call
    }

    fn go(&mut self, error: Option<HvError>, call: GicCall)
        ensures
            *final(self) == old(self).proceed(error, call),
    {
        match error {
            Some(e) => {
                self.call = None;
                self.error = Some(e);
            },
            None => {
                self.call = Some(call);
            },
        }
    }

    fn go_or_release(&mut self, error: Option<HvError>, call: GicCall)
        ensures
            *final(self) == old(self).proceed_or_release(error, call),
    {
        match error {
            Some(e) => {
                self.call = Some(GicCall::Release);
                self.error = Some(e);
            },
            None => {
                self.call = Some(call);
            },
        }
    }

    /// Take the answer to the call under way.
    pub fn answer(&mut self, reply: Reply)
        ensures
            *final(self) == old(self).after(reply),
    {
        match self.call {
            None => {},
            Some(GicCall::DistributorSize) => self.go(reply.check(), GicCall::RedistributorSize),
            Some(GicCall::RedistributorSize) => {
                self.go(reply.check(), GicCall::DistributorAlignment);
            },
            Some(GicCall::DistributorAlignment) => {
                self.go(reply.check(), GicCall::RedistributorAlignment);
                self.distributor_alignment = reply.brought();
            },
            Some(GicCall::RedistributorAlignment) => {
                let mut error: Option<HvError> = reply.check();
                if error.is_none() {
                    error = aligned(self.distributor, self.distributor_alignment, "distributor");
                }
                if error.is_none() {
                    error = aligned(self.redistributor, reply.brought(), "redistributor");
                }
                self.go(error, GicCall::ConfigCreate);
            },
            Some(GicCall::ConfigCreate) => {
                let error: Option<HvError> = match reply {
                    Reply::Missing => Some(HvError::GicUnavailable),
                    Reply::Done { code: _, value } => {
                        if value == 0 {
                            Some(HvError::GicNull { what: "hv_gic_config_t" })
                        } else {
                            None
                        }
                    },
                };
                self.go(error, GicCall::SetDistributorBase { base: self.distributor });
            },
            Some(GicCall::SetDistributorBase { base: _ }) => {
                self.go_or_release(
                    reply.check(),
                    GicCall::SetRedistributorBase { base: self.redistributor },
                );
            },
            Some(GicCall::SetRedistributorBase { base: _ }) => {
                self.go_or_release(reply.check(), GicCall::Create);
            },
            Some(GicCall::Create) => self.go_or_release(reply.check(), GicCall::Release),
            Some(GicCall::Release) => {
                self.call = None;
            },
        }
    }
}

/// The calls that are made, with their answers, when the framework gives `replies` in turn.
pub open spec fn trace(i: Install, replies: Seq<Reply>) -> Seq<(GicCall, Reply)>
    decreases replies.len(),
{
    if i.finished() || replies.len() == 0 {
        Seq::empty()
    } else {
        seq![(i.call->0, replies[0])] + trace(i.after(replies[0]), replies.skip(1))
    }
}

/// Where the work stands after `replies`.
pub open spec fn ran(i: Install, replies: Seq<Reply>) -> Install
    decreases replies.len(),
{
    if i.finished() || replies.len() == 0 {
        i
    } else {
        ran(i.after(replies[0]), replies.skip(1))
    }
}

/// How many config objects the calls brought into the world.
pub open spec fn opened(t: Seq<(GicCall, Reply)>) -> nat
    decreases t.len(),
{
    if t.len() == 0 {
        0
    } else {
        opened(t.skip(1)) + if t[0].0 == GicCall::ConfigCreate && t[0].1.value() != 0 {
            1nat
        } else {
            0nat
        }
    }
}

/// How many of them the calls released.
pub open spec fn released(t: Seq<(GicCall, Reply)>) -> nat
    decreases t.len(),
{
    if t.len() == 0 {
        0
    } else {
        released(t.skip(1)) + if t[0].0 == GicCall::Release {
            1nat
        } else {
            0nat
        }
    }
}

/// How many calls are left at most.
pub open spec fn calls_left(call: Option<GicCall>) -> nat {
    match call {
        None => 0,
        Some(GicCall::DistributorSize) => 9,
        Some(GicCall::RedistributorSize) => 8,
        Some(GicCall::DistributorAlignment) => 7,
        Some(GicCall::RedistributorAlignment) => 6,
        Some(GicCall::ConfigCreate) => 5,
        Some(GicCall::SetDistributorBase { base }) => 4,
        Some(GicCall::SetRedistributorBase { base }) => 3,
        Some(GicCall::Create) => 2,
        Some(GicCall::Release) => 1,
    }
}

/// The config object is there and was not released.
pub open spec fn holds_config(call: Option<GicCall>) -> bool {
    0 < calls_left(call) <= 4
}

proof fn lemma_trace_balance(i: Install, replies: Seq<Reply>)
    requires
        replies.len() >= calls_left(i.call),
    ensures
        ran(i, replies).finished(),
        trace(i, replies).len() <= calls_left(i.call),
        released(trace(i, replies)) == opened(trace(i, replies)) + if holds_config(i.call) {
            1nat
        } else {
            0nat
        },
    decreases replies.len(),
{
    if !i.finished() {
        let t = trace(i, replies);
        let next = i.after(replies[0]);
        lemma_trace_balance(next, replies.skip(1));
        assert(t.skip(1) =~= trace(next, replies.skip(1)));
    }
}

/// Whatever the framework answers, creating the GIC comes to an end, and a config object that
/// was created is released exactly once.
pub proof fn law_config_is_released_once(
    distributor: u64,
    redistributor: u64,
    replies: Seq<Reply>,
)
    requires
        replies.len() >= 9,
    ensures
        ({
            let i = Install::begun(distributor, redistributor);
            let t = trace(i, replies);
            &&& ran(i, replies).finished()
            &&& t.len() <= 9
            &&& released(t) == opened(t)
        }),
{
    lemma_trace_balance(Install::begun(distributor, redistributor), replies);
}

/// Every call but the release of the config went well.
pub open spec fn all_well(t: Seq<(GicCall, Reply)>) -> bool {
    forall|k: int|
        0 <= k < t.len() ==> {
            ||| (#[trigger] t[k]).0 == GicCall::Release
            ||| t[k].0 == GicCall::ConfigCreate && t[k].1 is Done && t[k].1.value() != 0
            ||| t[k].0 != GicCall::ConfigCreate && t[k].1.failure() is None
        }
}

proof fn lemma_error_stays(i: Install, replies: Seq<Reply>)
    requires
        i.finished() || i.call == Some(GicCall::Release),
    ensures
        ran(i, replies).error == i.error,
    decreases replies.len(),
{
    if !i.finished() && replies.len() > 0 {
        lemma_error_stays(i.after(replies[0]), replies.skip(1));
    }
}

proof fn lemma_success(i: Install, replies: Seq<Reply>)
    requires
        i.error is None,
        replies.len() >= calls_left(i.call),
    ensures
        ran(i, replies).distributor == i.distributor,
        ran(i, replies).redistributor == i.redistributor,
        ran(i, replies).error is None ==> all_well(trace(i, replies)),
        ran(i, replies).error is None && !i.finished() && i.call != Some(GicCall::Release) ==> {
            let t = trace(i, replies);
            &&& t.len() == calls_left(i.call)
            &&& t[t.len() - 2].0 == GicCall::Create
        },
    decreases replies.len(),
{
    if !i.finished() {
        let next = i.after(replies[0]);
        let t = trace(i, replies);
        let rest = trace(next, replies.skip(1));
        assert(t =~= seq![(i.call->0, replies[0])] + rest);
        if next.error is Some {
            lemma_error_stays(next, replies.skip(1));
            lemma_bases_stay(next, replies.skip(1));
        } else {
            lemma_success(next, replies.skip(1));
            if ran(i, replies).error is None {
                assert forall|k: int| 0 <= k < t.len() implies {
                    ||| (#[trigger] t[k]).0 == GicCall::Release
                    ||| t[k].0 == GicCall::ConfigCreate && t[k].1 is Done && t[k].1.value() != 0
                    ||| t[k].0 != GicCall::ConfigCreate && t[k].1.failure() is None
                } by {
                    if k > 0 {
                        assert(t[k] == rest[k - 1]);
                    }
                }
                if next.call == Some(GicCall::Release) {
                    assert(rest.len() == 1) by {
                        reveal_with_fuel(trace, 2);
                    }
                } else if !next.finished() {
                    assert(t[t.len() - 2] == rest[rest.len() - 2]);
                }
            }
        }
    }
}

proof fn lemma_bases_stay(i: Install, replies: Seq<Reply>)
    ensures
        ran(i, replies).distributor == i.distributor,
        ran(i, replies).redistributor == i.redistributor,
    decreases replies.len(),
{
    if !i.finished() && replies.len() > 0 {
        lemma_bases_stay(i.after(replies[0]), replies.skip(1));
    }
}

/// A GIC comes out only when every call went well and `hv_gic_create` was among them, and it has
/// the bases that were asked for.
pub proof fn law_gic_needs_every_call(distributor: u64, redistributor: u64, replies: Seq<Reply>)
    requires
        replies.len() >= 9,
        ran(Install::begun(distributor, redistributor), replies).error is None,
    ensures
        ({
            let i = Install::begun(distributor, redistributor);
            let t = trace(i, replies);
            &&& t.len() == 9
            &&& all_well(t)
            &&& t[7].0 == GicCall::Create
            &&& ran(i, replies).distributor == distributor
            &&& ran(i, replies).redistributor == redistributor
        }),
{
    lemma_success(Install::begun(distributor, redistributor), replies);
}

/// A call into the framework on the way to a copy of the GIC state.
#[derive(Debug, Clone, Copy, PartialEq, Eq, Structural)]
pub enum StateCall {
    /// `hv_gic_state_create`.
    Create,
    /// `hv_gic_state_get_size`.
    GetSize,
    /// `hv_gic_state_get_data` into a buffer of this many bytes.
    GetData {
        /// Bytes of the buffer.
        size: usize,
    },
    /// `os_release` of the state object.
    Release,
}

/// Copying the opaque GIC state, one call at a time. CPU registers are not part of it
/// (`hv_gic_state.h`).
#[derive(Debug, Clone, Copy)]
pub struct Capture {
    /// The call to make next. None when the work is done.
    pub call: Option<StateCall>,
    /// Why there is no copy.
    pub error: Option<HvError>,
}

impl Capture {
    /// After the call under way was answered. From the creation of the object on, every way
    /// leads through its release.
    pub open spec fn after(self, reply: Reply) -> Capture {
        match self.call {
            None => self,
            Some(StateCall::Create) => match reply {
                Reply::Missing => Capture { call: None, error: Some(HvError::GicUnavailable) },
                Reply::Done { code, value } => if value == 0 {
                    Capture { call: None, error: Some(HvError::GicNull { what: "hv_gic_state_t" }) }
                } else {
                    Capture { call: Some(StateCall::GetSize), error: None }
                },
            },
            Some(StateCall::GetSize) => match reply.failure() {
                Some(e) => Capture { call: Some(StateCall::Release), error: Some(e) },
                None => Capture {
                    call: Some(StateCall::GetData { size: reply.value() }),
                    error: None,
                },
            },
            Some(StateCall::GetData { size }) => Capture {
                call: Some(StateCall::Release),
                error: reply.failure(),
            },
            Some(StateCall::Release) => Capture { call: None, ..self },
        }
    }

    /// Nothing was called yet.
    pub fn new() -> (c: Self)
        ensures
            c == (Capture { call: Some(StateCall::Create), error: None }),
    {
        Capture { call: Some(StateCall::Create), error: None }
    }

    /// Take the answer to the call under way.
    pub fn answer(&mut self, reply: Reply)
        ensures
            *final(self) == old(self).after(reply),
    {
        match self.call {
            None => {},
            Some(StateCall::Create) => match reply {
                Reply::Missing => {
                    self.call = None;
                    self.error = Some(HvError::GicUnavailable);
                },
                Reply::Done { code: _, value } => {
                    if value == 0 {
                        self.call = None;
                        self.error = Some(HvError::GicNull { what: "hv_gic_state_t" });
                    } else {
                        self.call = Some(StateCall::GetSize);
                        self.error = None;
                    }
                },
            },
            Some(StateCall::GetSize) => {
                self.error = reply.check();
                self.call = if self.error.is_some() {
                    Some(StateCall::Release)
                } else {
                    Some(StateCall::GetData { size: reply.brought() })
                };
            },
            Some(StateCall::GetData { size: _ }) => {
                self.error = reply.check();
                self.call = Some(StateCall::Release);
            },
            Some(StateCall::Release) => {
                self.call = None;
            },
        }
    }
}

/// From the creation of the state object on, the work ends only by releasing it, and a released
/// object leaves nothing to call.
pub proof fn law_state_is_released(c: Capture, reply: Reply)
    ensures
        c.call matches Some(call) && call != StateCall::Create && call != StateCall::Release
            ==> c.after(reply).call is Some,
        c.call == Some(StateCall::Release) ==> c.after(reply).call is None && c.after(reply).error
            == c.error,
        c.call == Some(StateCall::Create) && c.after(reply).call is None ==> reply.value() == 0
            && c.after(reply).error is Some,
{
}

} // verus!
