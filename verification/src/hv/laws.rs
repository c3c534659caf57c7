//! What holds of the calls around the hypervisor, by the numbers of its headers.
use vstd::prelude::*;

use super::error::HvError;
use super::gic::{Capture, GicCall, IccReg, Install, Reply, StateCall};
use super::order::{Order, Phase};
use super::osver::SysctlReply;
use super::vcpu::{Reg, SysReg, VcpuCreated};
use super::vm::{Host, Reservation, Vm};

verus! {

broadcast use vstd::group_vstd_default;

/// The 32 bits of a return code, read without sign.
pub open spec fn bits(code: i32) -> int {
    if code >= 0 {
        code as int
    } else {
        code + 0x1_0000_0000
    }
}

/// Each return code of the header has its own error, by its 32 bits, and every other code is
/// unknown. The error keeps the code.
pub proof fn law_return_codes_have_their_errors(code: i32, e: HvError)
    requires
        call_ensures(HvError::from_code, (code,), e),
    ensures
        bits(code) == 0xfae9_4001 ==> e == (HvError::Error { code }),
        bits(code) == 0xfae9_4002 ==> e == (HvError::Busy { code }),
        bits(code) == 0xfae9_4003 ==> e == (HvError::BadArgument { code }),
        bits(code) == 0xfae9_4004 ==> e == (HvError::IllegalGuestState { code }),
        bits(code) == 0xfae9_4005 ==> e == (HvError::NoResources { code }),
        bits(code) == 0xfae9_4006 ==> e == (HvError::NoDevice { code }),
        bits(code) == 0xfae9_4007 ==> e == (HvError::Denied { code }),
        bits(code) == 0xfae9_4008 ==> e == (HvError::Exists { code }),
        bits(code) == 0xfae9_400f ==> e == (HvError::Unsupported { code }),
        !(0xfae9_4001 <= bits(code) <= 0xfae9_4008) && bits(code) != 0xfae9_400f ==> e == (
        HvError::Unknown { code }),
{
}

/// A call succeeded exactly when it returned zero; then the value is kept, else the code is.
pub proof fn law_zero_is_success<T>(code: i32, value: T, r: Result<T, HvError>, e: HvError)
    requires
        call_ensures(super::error::finish::<T>, (code, value), r),
        call_ensures(HvError::from_code, (code,), e),
    ensures
        code == 0 ==> r == Ok::<T, HvError>(value),
        code != 0 ==> r == Err::<T, HvError>(e),
{
}

/// What each error says. Codes are in hexadecimal.
pub proof fn law_errors_say_what_is_wrong(e: HvError, s: String)
    requires
        call_ensures(HvError::message, (&e,), s),
    ensures
        match e {
            HvError::Error { code } => says(s@, "HV_ERROR"@, code),
            HvError::Busy { code } => says(s@, "HV_BUSY"@, code),
            HvError::BadArgument { code } => says(s@, "HV_BAD_ARGUMENT"@, code),
            HvError::IllegalGuestState { code } => says(s@, "HV_ILLEGAL_GUEST_STATE"@, code),
            HvError::NoResources { code } => says(s@, "HV_NO_RESOURCES"@, code),
            HvError::NoDevice { code } => says(s@, "HV_NO_DEVICE"@, code),
            HvError::Denied { code } => says(s@, "HV_DENIED"@, code),
            HvError::Exists { code } => says(s@, "HV_EXISTS"@, code),
            HvError::Unsupported { code } => says(s@, "HV_UNSUPPORTED"@, code),
            HvError::Unknown { code } => says(s@, "unknown hv_return_t"@, code),
            HvError::AlreadyExists => s@ == "a VM already exists in this process"@,
            HvError::InvalidGpr { index } => s@ == "gpr index "@ + crate::text::dec(index as nat)
                + " is outside 0..=30"@,
            HvError::GicOsUnsupported { major, minor } => s@
                == "in-kernel GICv3 requires macOS 15.0 or newer; host is "@ + crate::text::dec(
                major as nat,
            ) + "."@ + crate::text::dec(minor as nat),
            HvError::GicUnavailable => s@
                == "in-kernel GICv3 is not available in this Hypervisor.framework"@,
            HvError::GicBeforeVm => s@ == "GIC must be created after hv_vm_create"@,
            HvError::GicAfterVcpu => s@ == "GIC must be created before any vCPU"@,
            HvError::GicExists => s@ == "a GIC already exists for this VM"@,
            HvError::VcpuBeforeGic => s@ == "vCPU requires an in-kernel GIC; create the GIC first"@,
            HvError::GicMisaligned { region, base, alignment } => s@ == "GIC "@ + region@
                + " base 0x"@ + crate::text::hex(base as nat) + " is not aligned to 0x"@
                + crate::text::hex(alignment as nat),
            HvError::GicNull { what } => s@ == "Hypervisor.framework returned a null "@ + what@,
            HvError::OsVersion => s@ == "could not read the macOS version"@,
        },
{
}

/// The text is the name and, in parentheses, the 32 bits of the code in hexadecimal.
pub open spec fn says(s: Seq<char>, name: Seq<char>, code: i32) -> bool {
    s == name + " (0x"@ + crate::text::hex(bits(code) as nat) + ")"@
}

/// The VM comes first, then one GIC, then vCPUs. What comes out of order is refused with its own
/// error, and changes nothing.
pub proof fn law_order_is_vm_gic_vcpus(o: &mut Order, g: Result<(), HvError>, p: &mut Order, c: Result<(), HvError>)
    requires
        call_ensures(Order::begin_gic, (o,), g),
        call_ensures(Order::begin_vcpu, (p,), c),
    ensures
        match old(o).phase() {
            Phase::Vm => g is Ok && final(o).phase() == Phase::Gic,
            Phase::Empty => g == Err::<(), HvError>(HvError::GicBeforeVm) && final(o).phase()
                == Phase::Empty,
            Phase::Gic => g == Err::<(), HvError>(HvError::GicExists) && final(o).phase()
                == Phase::Gic,
            Phase::Vcpu => g == Err::<(), HvError>(HvError::GicAfterVcpu) && final(o).phase()
                == Phase::Vcpu,
        },
        match old(p).phase() {
            Phase::Gic | Phase::Vcpu => c is Ok && final(p).phase() == Phase::Vcpu,
            Phase::Empty | Phase::Vm => c == Err::<(), HvError>(HvError::VcpuBeforeGic) && final(p).phase() == old(p).phase(),
        },
{
}

/// A new process has no VM; creating one, destroying it, and taking a GIC back move the order.
pub proof fn law_order_starts_and_goes_back(n: Order, o: &mut Order, p: &mut Order, q: &mut Order)
    requires
        call_ensures(Order::new, (), n),
        call_ensures(Order::on_vm_created, (o,), ()),
        call_ensures(Order::on_vm_destroyed, (p,), ()),
        call_ensures(Order::rollback_gic, (q,), ()),
    ensures
        n.phase() == Phase::Empty,
        final(o).phase() == Phase::Vm,
        final(p).phase() == Phase::Empty,
        old(q).phase() == Phase::Gic ==> final(q).phase() == Phase::Vm,
        old(q).phase() != Phase::Gic ==> final(q).phase() == old(q).phase(),
{
}

/// One VM per process: while one is reserved or alive, or could not be destroyed, another is
/// refused; a failed creation and a destruction that succeeds let the next one be created.
pub proof fn law_one_vm_per_process(
    h: &mut Host,
    first: Result<Reservation, HvError>,
    i: &mut Host,
    reservation: Reservation,
    code: i32,
    made: Result<Vm, HvError>,
    vm: Vm,
    j: &mut Host,
    gone: Result<(), HvError>,
)
    requires
        call_ensures(Vm::create, (h,), first),
        call_ensures(Vm::created, (reservation, i, code), made),
        call_ensures(Vm::destroyed, (vm, j, code), gone),
    ensures
        old(h).taken() ==> (first matches Err(e) && e == HvError::AlreadyExists),
        !old(h).taken() ==> first is Ok,
        final(h).taken() && final(h).phase() == old(h).phase(),
        code == 0 ==> made is Ok && final(i).taken() && final(i).phase() == Phase::Vm,
        code != 0 ==> made is Err && !final(i).taken() && final(i).phase() == old(i).phase(),
        code == 0 ==> gone is Ok && !final(j).taken() && final(j).phase() == Phase::Empty,
        code != 0 ==> gone is Err && final(j).taken() == old(j).taken() && final(j).phase() == old(j).phase(),
        final(i).version() == old(i).version() && final(j).version() == old(j).version(),
{
}

/// A GIC is begun exactly on macOS 15 or later, with a VM that has none yet and no vCPU. It asks
/// for the bases that were given. The version is the one set for the process, else the host's.
pub proof fn law_gics_begin_on_new_systems(
    vm: &Vm,
    h: &mut Host,
    reply: &SysctlReply,
    distributor: u64,
    redistributor: u64,
    r: Result<Install, HvError>,
)
    requires
        call_ensures(Vm::create_gic, (vm, h, reply, distributor, redistributor), r),
    ensures
        ({
            let version = match old(h).version() {
                Some(v) => Some(v),
                None => if reply.rc == 0 {
                    super::osver::version_in(reply.bytes@)
                } else {
                    None
                },
            };
            &&& version is None ==> r == Err::<Install, HvError>(HvError::OsVersion)
            &&& version matches Some((major, minor)) ==> {
                &&& major < 15 ==> r == Err::<Install, HvError>(
                    HvError::GicOsUnsupported { major, minor },
                )
                &&& major >= 15 && old(h).phase() == Phase::Empty ==> r == Err::<Install, HvError>(
                    HvError::GicBeforeVm,
                )
                &&& major >= 15 && old(h).phase() == Phase::Gic ==> r == Err::<Install, HvError>(
                    HvError::GicExists,
                )
                &&& major >= 15 && old(h).phase() == Phase::Vcpu ==> r == Err::<Install, HvError>(
                    HvError::GicAfterVcpu,
                )
                &&& major >= 15 && old(h).phase() == Phase::Vm ==> {
                    &&& r matches Ok(i)
                    &&& i.distributor == distributor && i.redistributor == redistributor
                    &&& i.call == Some(GicCall::DistributorSize) && i.error is None
                    &&& final(h).phase() == Phase::Gic
                }
            }
            &&& r is Err ==> final(h).phase() == old(h).phase()
        }),
{
}

/// A GIC whose calls went well has the bases that were asked for; one whose calls failed gives the
/// error, and the order goes back so that it can be tried again.
pub proof fn law_gics_end_as_their_calls_did(
    vm: &Vm,
    h: &mut Host,
    install: &Install,
    r: Result<super::gic::Gic, HvError>,
    b: u64,
    c: u64,
)
    requires
        call_ensures(Vm::gic_created, (vm, h, install), r),
        r matches Ok(g) ==> call_ensures(super::gic::Gic::distributor_base, (&g,), b),
        r matches Ok(g) ==> call_ensures(super::gic::Gic::redistributor_base, (&g,), c),
    ensures
        install.error is None ==> r is Ok && b == install.distributor && c == install.redistributor
            && final(h).phase() == old(h).phase(),
        install.error matches Some(e) ==> (r matches Err(f) && f == e),
        install.error is Some && old(h).phase() == Phase::Gic ==> final(h).phase() == Phase::Vm,
{
}

/// The answer is that the call ran and returned zero.
pub open spec fn good(reply: Reply) -> bool {
    reply matches Reply::Done { code, value } && code == 0
}

/// `base` is a multiple of the alignment in the answer, or none was asked for.
pub open spec fn meets(base: u64, reply: Reply) -> bool {
    reply matches Reply::Done { code, value } && (value == 0 || base as int % value as int == 0)
}

/// A framework that does all it is asked, with bases that meet its alignments, is called nine
/// times in this order, and a GIC comes out: sizes, alignments, a config, both bases as they were
/// given, the creation, and the release of the config.
pub proof fn law_good_answers_make_a_gic(distributor: u64, redistributor: u64, replies: Seq<Reply>)
    requires
        replies.len() == 9,
        forall|k: int| 0 <= k < 8 && k != 4 ==> good(#[trigger] replies[k]),
        replies[4] matches Reply::Done { code, value } && value != 0,
        meets(distributor, replies[2]),
        meets(redistributor, replies[3]),
    ensures
        ({
            let i = Install::begun(distributor, redistributor);
            let t = super::gic::trace(i, replies);
            &&& super::gic::ran(i, replies).finished()
            &&& super::gic::ran(i, replies).error is None
            &&& t.len() == 9
            &&& t[0].0 == GicCall::DistributorSize && t[1].0 == GicCall::RedistributorSize
            &&& t[2].0 == GicCall::DistributorAlignment && t[3].0 == GicCall::RedistributorAlignment
            &&& t[4].0 == GicCall::ConfigCreate
            &&& t[5].0 == (GicCall::SetDistributorBase { base: distributor })
            &&& t[6].0 == (GicCall::SetRedistributorBase { base: redistributor })
            &&& t[7].0 == GicCall::Create && t[8].0 == GicCall::Release
        }),
{
    reveal_with_fuel(super::gic::trace, 10);
    reveal_with_fuel(super::gic::ran, 10);
    assert(good(replies[0]) && good(replies[1]) && good(replies[2]) && good(replies[3]));
    assert(good(replies[5]) && good(replies[6]) && good(replies[7]));
}

/// An answer that is not good stops the work with its own error: a function that is missing, a
/// return code, a base that is not aligned, or no config object. Once there is a config, it is
/// released first.
pub proof fn law_bad_answers_stop_the_work(i: Install, reply: Reply, e: HvError)
    requires
        i.error is None,
        reply matches Reply::Done { code, value } ==> call_ensures(HvError::from_code, (code,), e),
    ensures
        ({
            let next = i.after(reply);
            let early = i.call == Some(GicCall::DistributorSize) || i.call == Some(
                GicCall::RedistributorSize,
            ) || i.call == Some(GicCall::DistributorAlignment) || i.call == Some(
                GicCall::RedistributorAlignment,
            );
            let late = i.call is Some && (i.call->0 is SetDistributorBase
                || i.call->0 is SetRedistributorBase || i.call->0 is Create);
            &&& (early || i.call == Some(GicCall::ConfigCreate)) && reply is Missing ==> next.call is None
                && next.error == Some(HvError::GicUnavailable)
            &&& early && reply is Done && !good(reply) ==> next.call is None && next.error == Some(e)
            &&& late && reply is Missing ==> next.call == Some(GicCall::Release) && next.error
                == Some(HvError::GicUnavailable)
            &&& late && reply is Done && !good(reply) ==> next.call == Some(GicCall::Release)
                && next.error == Some(e)
            &&& late && good(reply) ==> next.error is None
            &&& i.call == Some(GicCall::ConfigCreate) && reply is Done && reply->value == 0
                ==> next.call is None && next.error == Some(
                HvError::GicNull { what: "hv_gic_config_t" },
            )
            &&& i.call == Some(GicCall::RedistributorAlignment) && good(reply)
                && i.distributor_alignment != 0 && i.distributor as int
                % i.distributor_alignment as int != 0 ==> next.call is None && next.error == Some(
                HvError::GicMisaligned {
                    region: "distributor",
                    base: i.distributor,
                    alignment: i.distributor_alignment,
                },
            )
            &&& i.call == Some(GicCall::RedistributorAlignment) && good(reply) && (
            i.distributor_alignment == 0 || i.distributor as int % i.distributor_alignment as int
                == 0) && !meets(i.redistributor, reply) ==> next.call is None && next.error == Some(
                HvError::GicMisaligned {
                    region: "redistributor",
                    base: i.redistributor,
                    alignment: reply->value,
                },
            )
            &&& i.call == Some(GicCall::DistributorAlignment) && reply is Done
                ==> next.distributor_alignment == reply->value
            &&& next.distributor == i.distributor && next.redistributor == i.redistributor
        }),
{
}

/// Taking an answer is what the work goes on by: what the next call is, and the error, follow from
/// the call under way and the answer alone.
pub proof fn law_answers_move_the_work(i: &mut Install, reply: Reply, c: &mut Capture, call: Option<GicCall>)
    requires
        call_ensures(Install::answer, (i, reply), ()),
        call_ensures(Install::next, (&*old(i),), call),
        call_ensures(Capture::answer, (c, reply), ()),
    ensures
        *final(i) == old(i).after(reply),
        call == old(i).call,
        *final(c) == old(c).after(reply),
{
}

/// Copying the state: the object is created, its size is asked for, that many bytes are copied, and
/// it is released. What fails gives its error, and an object that is there is released.
pub proof fn law_state_is_copied_by_its_size(c: Capture, n: Capture, reply: Reply, e: HvError)
    requires
        call_ensures(Capture::new, (), n),
        reply matches Reply::Done { code, value } ==> call_ensures(HvError::from_code, (code,), e),
    ensures
        n.call == Some(StateCall::Create) && n.error is None,
        c.call == Some(StateCall::Create) ==> match reply {
            Reply::Missing => c.after(reply).call is None && c.after(reply).error == Some(
                HvError::GicUnavailable,
            ),
            Reply::Done { code, value } => if value == 0 {
                c.after(reply).call is None && c.after(reply).error == Some(
                    HvError::GicNull { what: "hv_gic_state_t" },
                )
            } else {
                c.after(reply).call == Some(StateCall::GetSize) && c.after(reply).error is None
            },
        },
        c.call == Some(StateCall::GetSize) ==> match reply {
            Reply::Missing => c.after(reply).call == Some(StateCall::Release) && c.after(
                reply,
            ).error == Some(HvError::GicUnavailable),
            Reply::Done { code, value } => if code == 0 {
                c.after(reply).call == Some(StateCall::GetData { size: value }) && c.after(
                    reply,
                ).error is None
            } else {
                c.after(reply).call == Some(StateCall::Release) && c.after(reply).error == Some(e)
            },
        },
        c.call is Some && c.call->0 is GetData ==> {
            &&& c.after(reply).call == Some(StateCall::Release)
            &&& good(reply) ==> c.after(reply).error is None
            &&& reply is Missing ==> c.after(reply).error == Some(HvError::GicUnavailable)
            &&& reply is Done && !good(reply) ==> c.after(reply).error == Some(e)
        },
        c.call == Some(StateCall::Release) ==> c.after(reply).call is None && c.after(reply).error
            == c.error,
{
}

/// The registers have the numbers of the headers: X0 to X30 are 0 to 30, the PC is 31, and CPSR is
/// 34. There is no other X register.
pub proof fn law_registers_have_their_numbers(index: u8, x: Result<u32, HvError>, pc: Result<u32, HvError>, cpsr: Result<u32, HvError>)
    requires
        call_ensures(Reg::code, (Reg::X(index),), x),
        call_ensures(Reg::code, (Reg::Pc,), pc),
        call_ensures(Reg::code, (Reg::Cpsr,), cpsr),
    ensures
        index <= 30 ==> x == Ok::<u32, HvError>(index as u32),
        index > 30 ==> x == Err::<u32, HvError>(HvError::InvalidGpr { index }),
        pc == Ok::<u32, HvError>(31),
        cpsr == Ok::<u32, HvError>(34),
{
}

/// The system registers have the numbers of the headers.
pub proof fn law_system_registers_have_their_numbers(r: SysReg, c: u16, i: IccReg, d: u16)
    requires
        call_ensures(SysReg::code, (r,), c),
        call_ensures(IccReg::code, (i,), d),
    ensures
        c == match r {
            SysReg::SpEl1 => 0xe208u16,
            SysReg::SctlrEl1 => 0xc080,
            SysReg::Ttbr0El1 => 0xc100,
            SysReg::Ttbr1El1 => 0xc101,
            SysReg::TcrEl1 => 0xc102,
            SysReg::MairEl1 => 0xc510,
            SysReg::VbarEl1 => 0xc600,
            SysReg::ElrEl1 => 0xc201,
            SysReg::EsrEl1 => 0xc290,
            SysReg::FarEl1 => 0xc300,
            SysReg::MpidrEl1 => 0xc005,
            SysReg::CntvCtlEl0 => 0xdf19,
            SysReg::CntvCvalEl0 => 0xdf1a,
        },
        d == match i {
            IccReg::PmrEl1 => 0xc230u16,
            IccReg::CtlrEl1 => 0xc664,
            IccReg::SreEl1 => 0xc665,
            IccReg::Igrpen1El1 => 0xc667,
        },
{
}

/// A vCPU is ready exactly when its creation returned zero and gave exits; it has the id that it
/// was given. At most 2^32 - 1 vCPUs are canceled at once.
pub proof fn law_vcpus_need_their_exits(
    code: i32,
    id: u64,
    null: bool,
    r: VcpuCreated,
    e: HvError,
    ids: &[u64],
    n: Result<u32, HvError>,
)
    requires
        call_ensures(super::vcpu::vcpu_created, (code, id, null), r),
        call_ensures(HvError::from_code, (code,), e),
        call_ensures(super::vcpu::exit_count, (ids,), n),
    ensures
        code == 0 && !null ==> r == (VcpuCreated::Ready { id }),
        code == 0 && null ==> r == (VcpuCreated::Unusable {
            id,
            error: HvError::Unknown { code: 0 },
        }),
        code != 0 ==> r == (VcpuCreated::Failed { error: e }),
        ids@.len() < 0x1_0000_0000 ==> (n matches Ok(count) && count == ids@.len()),
        ids@.len() >= 0x1_0000_0000 ==> n is Err,
{
}

/// The vCPU of a process needs its GIC, whatever else the process keeps.
pub proof fn law_vcpus_wait_for_the_gic(h: &mut Host, r: Result<(), HvError>, n: Host)
    requires
        call_ensures(Host::begin_vcpu, (h,), r),
        call_ensures(Host::new, (), n),
    ensures
        r is Ok <==> old(h).phase() == Phase::Gic || old(h).phase() == Phase::Vcpu,
        r is Ok ==> final(h).phase() == Phase::Vcpu,
        r matches Err(e) ==> e == HvError::VcpuBeforeGic && final(h).phase() == old(h).phase(),
        final(h).taken() == old(h).taken() && final(h).version() == old(h).version(),
        !n.taken() && n.phase() == Phase::Empty && n.version() is None,
{
}

/// Guest memory is mapped with the flags of the headers.
pub proof fn law_memory_flags_are_those_of_the_headers()
    ensures
        super::map::HV_MEMORY_READ == 1,
        super::map::HV_MEMORY_WRITE == 2,
        super::map::HV_MEMORY_EXEC == 4,
        super::map::HV_MEMORY_RWX == 7,
        super::vcpu::HV_EXIT_REASON_CANCELED == 0,
        super::vcpu::HV_EXIT_REASON_EXCEPTION == 1,
        super::vcpu::HV_EXIT_REASON_VTIMER_ACTIVATED == 2,
        super::vcpu::HV_EXIT_REASON_UNKNOWN == 3,
{
}

/// A macOS version is read from its text: the major version before the first dot, and the minor
/// version behind it, up to the end or to another dot. Without a dot the minor version is zero.
pub proof fn law_versions_are_read(major: u32, minor: u32, rest: Seq<char>)
    ensures
        ({
            let a = crate::text::dec(major as nat);
            let b = crate::text::dec(minor as nat);
            &&& super::osver::version_of(a) == Some((major, 0u32))
            &&& super::osver::version_of(a + seq!['.'] + b) == Some((major, minor))
            &&& super::osver::version_of(a + seq!['.'] + b + seq!['.'] + rest) == Some((major, minor))
        }),
{
    let a = crate::text::dec(major as nat);
    let b = crate::text::dec(minor as nat);
    lemma_digits_have_no_dot(major as nat);
    lemma_digits_have_no_dot(minor as nat);
    crate::text::laws::law_32_bit_numbers_are_read(major as nat, a);
    crate::text::laws::law_32_bit_numbers_are_read(minor as nat, b);
    lemma_first_dot(a, 0, a.len() as int);
    assert(a.take(a.len() as int) =~= a);
    let ab = a + seq!['.'] + b;
    lemma_first_dot(ab, 0, a.len() as int);
    lemma_first_dot(ab, a.len() as int + 1, ab.len() as int);
    assert(ab.take(a.len() as int) =~= a);
    assert(ab.subrange(a.len() as int + 1, ab.len() as int) =~= b);
    let abr = a + seq!['.'] + b + seq!['.'] + rest;
    lemma_first_dot(abr, 0, a.len() as int);
    lemma_first_dot(abr, a.len() as int + 1, ab.len() as int);
    assert(abr.take(a.len() as int) =~= a);
    assert(abr.subrange(a.len() as int + 1, ab.len() as int) =~= b);
}

proof fn lemma_digits_have_no_dot(n: nat)
    ensures
        forall|i: int| 0 <= i < crate::text::dec(n).len() ==> #[trigger] crate::text::dec(n)[i] != '.',
        crate::text::dec(n).len() > 0,
{
    crate::text::laws::law_decimal_spells_the_number(n);
    let d = crate::text::dec(n);
    assert forall|i: int| 0 <= i < d.len() implies #[trigger] d[i] != '.' by {
        assert(0 <= crate::text::laws::digit_value(d[i]) < 10);
    }
}

proof fn lemma_first_dot(s: Seq<char>, from: int, at: int)
    requires
        0 <= from <= at <= s.len(),
        forall|i: int| from <= i < at ==> s[i] != '.',
        at < s.len() ==> s[at] == '.',
    ensures
        super::osver::dot_at(s, from) == at,
    decreases at - from,
{
    if from < at {
        lemma_first_dot(s, from + 1, at);
    }
}

/// The version of the host is the text of its bytes, without the NULs behind it and the white
/// space around it. Bytes that are no text, or a text that is no version, give none. A major
/// version of 15 is enough, whatever the minor one.
pub proof fn law_host_versions_are_trimmed_text(
    text: &str,
    r: Option<(u32, u32)>,
    major: u32,
    minor: u32,
    ok: Result<(), HvError>,
    host: &Host,
    reply: &SysctlReply,
    os: Result<(), HvError>,
)
    requires
        call_ensures(super::osver::parse_version, (text,), r),
        call_ensures(super::osver::ensure_gic_os_version, (major, minor), ok),
        call_ensures(super::osver::ensure_gic_os, (host, reply), os),
    ensures
        r == super::osver::version_of(text@),
        major >= 15 ==> ok is Ok,
        major < 15 ==> ok == Err::<(), HvError>(HvError::GicOsUnsupported { major, minor }),
        host.version() matches Some((a, b)) ==> (os is Ok <==> a >= 15),
        host.version() is None && reply.rc != 0 ==> os == Err::<(), HvError>(HvError::OsVersion),
        host.version() is None && reply.rc == 0 && !vstd::utf8::valid_utf8(reply.bytes@) ==> os
            == Err::<(), HvError>(HvError::OsVersion),
        host.version() is None && reply.rc == 0 && vstd::utf8::valid_utf8(reply.bytes@) ==> {
            let whole = vstd::utf8::decode_utf8(reply.bytes@);
            match super::osver::version_of(
                crate::text::trimmed(crate::text::without_nuls(whole)),
            ) {
                Some((a, b)) => os is Ok <==> a >= 15,
                None => os == Err::<(), HvError>(HvError::OsVersion),
            }
        },
{
}

/// An overridden version is kept, and `None` takes the override away; the VM of the process and its
/// stage stay as they are.
pub proof fn law_version_overrides_are_kept(host: &mut Host, version: Option<(u32, u32)>)
    requires
        call_ensures(super::osver::set_gic_os_version_override, (host, version), ()),
    ensures
        final(host).version() == version,
        final(host).taken() == old(host).taken() && final(host).phase() == old(host).phase(),
{
}

/// The two parts of a version, whatever they are: each must be a number, and there is no version
/// where one is not, as where nothing stands behind the dot.
pub proof fn law_versions_need_both_numbers(x: Seq<char>, y: Seq<char>, rest: Seq<char>)
    requires
        forall|i: int| 0 <= i < x.len() ==> #[trigger] x[i] != '.',
        forall|i: int| 0 <= i < y.len() ==> #[trigger] y[i] != '.',
    ensures
        ({
            let (a, b) = (crate::text::u32_of(x), crate::text::u32_of(y));
            let both = if a is Some && b is Some {
                Some((a->0, b->0))
            } else {
                None
            };
            &&& super::osver::version_of(x) == if a is Some {
                Some((a->0, 0u32))
            } else {
                None
            }
            &&& super::osver::version_of(x + seq!['.'] + y) == both
            &&& super::osver::version_of(x + seq!['.'] + y + seq!['.'] + rest) == both
        }),
{
    let n = x.len() as int;
    lemma_first_dot(x, 0, n);
    assert(x.take(n) =~= x);
    let xy = x + seq!['.'] + y;
    let m = xy.len() as int;
    lemma_first_dot(xy, 0, n);
    lemma_first_dot(xy, n + 1, m);
    assert(xy.take(n) =~= x);
    assert(xy.subrange(n + 1, m) =~= y);
    let xyr = x + seq!['.'] + y + seq!['.'] + rest;
    lemma_first_dot(xyr, 0, n);
    lemma_first_dot(xyr, n + 1, m);
    assert(xyr.take(n) =~= x);
    assert(xyr.subrange(n + 1, m) =~= y);
}

} // verus!
