use ternvale::hv::error::{
    finish, HvError, HV_BAD_ARGUMENT, HV_BUSY, HV_DENIED, HV_ERROR, HV_EXISTS,
    HV_ILLEGAL_GUEST_STATE, HV_NO_DEVICE, HV_NO_RESOURCES, HV_SUCCESS, HV_UNSUPPORTED,
};
use ternvale::hv::gic::{Capture, GicCall, IccReg, Install, Reply, StateCall};
use ternvale::hv::map::{HV_MEMORY_EXEC, HV_MEMORY_READ, HV_MEMORY_RWX, HV_MEMORY_WRITE};
use ternvale::hv::order::Order;
use ternvale::hv::osver::{
    ensure_gic_os, ensure_gic_os_version, parse_version, set_gic_os_version_override, SysctlReply,
    GIC_MIN_MACOS_MAJOR,
};
use ternvale::hv::vcpu::{exit_count, vcpu_created, Reg, SysReg, VcpuCreated};
use ternvale::hv::vm::{Host, Vm};

fn reply(rc: i32, text: &str) -> SysctlReply {
    SysctlReply {
        rc,
        bytes: text.as_bytes().to_vec(),
    }
}

fn done(code: i32, value: usize) -> Reply {
    Reply::Done { code, value }
}

#[test]
fn maps_arm64_hv_return_codes() {
    let cases = [
        (HV_ERROR, "HV_ERROR"),
        (HV_BUSY, "HV_BUSY"),
        (HV_BAD_ARGUMENT, "HV_BAD_ARGUMENT"),
        (HV_ILLEGAL_GUEST_STATE, "HV_ILLEGAL_GUEST_STATE"),
        (HV_NO_RESOURCES, "HV_NO_RESOURCES"),
        (HV_NO_DEVICE, "HV_NO_DEVICE"),
        (HV_DENIED, "HV_DENIED"),
        (HV_EXISTS, "HV_EXISTS"),
        (HV_UNSUPPORTED, "HV_UNSUPPORTED"),
    ];
    for (code, name) in cases {
        let error = HvError::from_code(code);
        assert!(error.message().contains(name), "{error:?}");
    }
    let unknown = HvError::from_code(0x1234);
    assert!(matches!(unknown, HvError::Unknown { code: 0x1234 }));
}

#[test]
fn codes_have_the_values_of_the_header() {
    assert_eq!(HV_SUCCESS, 0);
    assert_eq!(HV_ERROR, 0xfae9_4001_u32 as i32);
    assert_eq!(HV_BUSY, 0xfae9_4002_u32 as i32);
    assert_eq!(HV_BAD_ARGUMENT, 0xfae9_4003_u32 as i32);
    assert_eq!(HV_ILLEGAL_GUEST_STATE, 0xfae9_4004_u32 as i32);
    assert_eq!(HV_NO_RESOURCES, 0xfae9_4005_u32 as i32);
    assert_eq!(HV_NO_DEVICE, 0xfae9_4006_u32 as i32);
    assert_eq!(HV_DENIED, 0xfae9_4007_u32 as i32);
    assert_eq!(HV_EXISTS, 0xfae9_4008_u32 as i32);
    assert_eq!(HV_UNSUPPORTED, 0xfae9_400f_u32 as i32);
    assert_eq!(HvError::from_code(HV_BUSY).message(), "HV_BUSY (0xfae94002)");
    assert_eq!(
        HvError::from_code(0x1f).message(),
        "unknown hv_return_t (0x1f)"
    );
    assert_eq!(finish(HV_SUCCESS, 7), Ok(7));
    assert_eq!(
        finish(HV_DENIED, 7),
        Err(HvError::Denied { code: HV_DENIED })
    );
    assert_eq!(HV_MEMORY_RWX, HV_MEMORY_READ | HV_MEMORY_WRITE | HV_MEMORY_EXEC);
}

#[test]
fn messages_say_what_is_wrong() {
    assert_eq!(
        HvError::AlreadyExists.message(),
        "a VM already exists in this process"
    );
    assert_eq!(
        HvError::InvalidGpr { index: 31 }.message(),
        "gpr index 31 is outside 0..=30"
    );
    assert_eq!(
        HvError::GicMisaligned {
            region: "distributor",
            base: 0x801,
            alignment: 0x1000
        }
        .message(),
        "GIC distributor base 0x801 is not aligned to 0x1000"
    );
    assert_eq!(
        HvError::GicNull { what: "hv_gic_state_t" }.message(),
        "Hypervisor.framework returned a null hv_gic_state_t"
    );
    assert_eq!(
        HvError::OsVersion.message(),
        "could not read the macOS version"
    );
    assert_eq!(
        HvError::GicUnavailable.message(),
        "in-kernel GICv3 is not available in this Hypervisor.framework"
    );
    assert_eq!(
        HvError::VcpuBeforeGic.message(),
        "vCPU requires an in-kernel GIC; create the GIC first"
    );
}

#[test]
fn gic_requires_a_vm_and_precedes_vcpus() {
    let mut order = Order::new();
    assert!(matches!(order.begin_gic(), Err(HvError::GicBeforeVm)));
    assert!(matches!(order.begin_vcpu(), Err(HvError::VcpuBeforeGic)));
    order.on_vm_created();
    assert!(matches!(order.begin_vcpu(), Err(HvError::VcpuBeforeGic)));
    order.begin_gic().expect("gic");
    assert!(matches!(order.begin_gic(), Err(HvError::GicExists)));
    order.begin_vcpu().expect("vcpu");
    assert!(matches!(order.begin_gic(), Err(HvError::GicAfterVcpu)));
    order.on_vm_destroyed();
    assert!(matches!(order.begin_gic(), Err(HvError::GicBeforeVm)));
}

#[test]
fn a_failed_gic_create_can_be_retried() {
    let mut order = Order::new();
    order.on_vm_created();
    order.begin_gic().expect("gic");
    order.rollback_gic();
    order.begin_gic().expect("retry");
}

#[test]
fn macos_15_is_the_documented_minimum() {
    assert_eq!(GIC_MIN_MACOS_MAJOR, 15);
}

#[test]
fn rejects_macos_14_and_accepts_15_and_later() {
    let old = ensure_gic_os_version(14, 6).expect_err("14.6");
    assert!(matches!(
        old,
        HvError::GicOsUnsupported {
            major: 14,
            minor: 6
        }
    ));
    assert!(old.message().contains("15.0"), "{old:?}");
    ensure_gic_os_version(15, 0).expect("15.0");
    ensure_gic_os_version(27, 0).expect("27.0");
}

#[test]
fn an_injected_old_version_is_rejected() {
    let mut host = Host::new();
    let sysctl = reply(0, "27.0");
    set_gic_os_version_override(&mut host, Some((14, 2)));
    let error = ensure_gic_os(&host, &sysctl).expect_err("14.2");
    set_gic_os_version_override(&mut host, None);
    assert!(matches!(
        error,
        HvError::GicOsUnsupported {
            major: 14,
            minor: 2
        }
    ));
    assert!(error.message().contains("15.0"), "{error:?}");
    ensure_gic_os(&host, &sysctl).expect("27.0");
}

#[test]
fn parses_a_product_version() {
    assert_eq!(parse_version("15.6.1"), Some((15, 6)));
    assert_eq!(parse_version("27.0"), Some((27, 0)));
    assert_eq!(parse_version("15"), Some((15, 0)));
    assert_eq!(parse_version(""), None);
}

#[test]
fn odd_versions_are_read_as_numbers_are() {
    assert_eq!(parse_version("+15.+2"), Some((15, 2)));
    assert_eq!(parse_version("15."), None);
    assert_eq!(parse_version("+.1"), None);
    assert_eq!(parse_version("4294967295.0"), Some((4_294_967_295, 0)));
    assert_eq!(parse_version("4294967296.0"), None);
    assert_eq!(parse_version("42949672950000000000000"), None);
    assert_eq!(parse_version("15.1x"), None);
    assert_eq!(parse_version("-15.1"), None);
    assert_eq!(parse_version("0015.7.z"), Some((15, 7)));
}

#[test]
fn the_sysctl_text_is_trimmed() {
    let host = Host::new();
    ensure_gic_os(&host, &reply(0, " 15.1\u{3000}\n\0\0")).expect("15.1");
    assert_eq!(
        ensure_gic_os(&host, &reply(1, "15.1")),
        Err(HvError::OsVersion)
    );
    assert_eq!(
        ensure_gic_os(&host, &reply(0, "fifteen")),
        Err(HvError::OsVersion)
    );
    let not_text = SysctlReply {
        rc: 0,
        bytes: vec![b'1', b'5', 0xff],
    };
    assert_eq!(ensure_gic_os(&host, &not_text), Err(HvError::OsVersion));
    assert_eq!(
        ensure_gic_os(&host, &reply(0, "14.9\0")),
        Err(HvError::GicOsUnsupported {
            major: 14,
            minor: 9
        })
    );
}

/// Answers every call of `install` with `answer`, and lists the calls.
fn run(install: &mut Install, mut answer: impl FnMut(GicCall) -> Reply) -> Vec<GicCall> {
    let mut calls = Vec::new();
    while let Some(call) = install.next() {
        calls.push(call);
        install.answer(answer(call));
    }
    calls
}

const DIST: u64 = 0x0800_0000;
const REDIST: u64 = 0x080a_0000;

fn well(call: GicCall) -> Reply {
    match call {
        GicCall::DistributorAlignment => done(0, 0x1_0000),
        GicCall::RedistributorAlignment => done(0, 0x2_0000),
        GicCall::ConfigCreate => done(0, 1),
        _ => done(0, 0),
    }
}

fn host_with_vm() -> (Host, Vm) {
    let mut host = Host::new();
    let slot = Vm::create(&mut host).expect("slot");
    let vm = Vm::created(slot, &mut host, HV_SUCCESS).expect("vm");
    (host, vm)
}

#[test]
fn injected_old_macos_rejects_gic_create() {
    let (mut host, vm) = host_with_vm();
    set_gic_os_version_override(&mut host, Some((14, 0)));
    let error = vm
        .create_gic(&mut host, &reply(0, "27.0"), DIST, REDIST)
        .expect_err("macos 14");
    assert!(
        matches!(
            error,
            HvError::GicOsUnsupported {
                major: 14,
                minor: 0
            }
        ),
        "{error:?}"
    );
    assert!(error.message().contains("15.0"), "{error:?}");
}

#[test]
fn creates_gic_before_one_vcpu_and_rejects_bad_order() {
    let (mut host, vm) = host_with_vm();
    let sysctl = reply(0, "15.0");
    let early = host.begin_vcpu().expect_err("vcpu before gic");
    assert!(matches!(early, HvError::VcpuBeforeGic), "{early:?}");

    let mut install = vm.create_gic(&mut host, &sysctl, DIST, REDIST).expect("gic");
    let calls = run(&mut install, well);
    assert_eq!(
        calls,
        vec![
            GicCall::DistributorSize,
            GicCall::RedistributorSize,
            GicCall::DistributorAlignment,
            GicCall::RedistributorAlignment,
            GicCall::ConfigCreate,
            GicCall::SetDistributorBase { base: DIST },
            GicCall::SetRedistributorBase { base: REDIST },
            GicCall::Create,
            GicCall::Release,
        ]
    );
    let gic = vm.gic_created(&mut host, &install).expect("gic");
    assert_eq!(gic.distributor_base(), DIST);
    assert_eq!(gic.redistributor_base(), REDIST);
    let again = vm
        .create_gic(&mut host, &sysctl, DIST, REDIST)
        .expect_err("second gic");
    assert!(matches!(again, HvError::GicExists), "{again:?}");

    host.begin_vcpu().expect("vcpu");
    let late = vm
        .create_gic(&mut host, &sysctl, DIST, REDIST)
        .expect_err("gic after vcpu");
    assert!(matches!(late, HvError::GicAfterVcpu), "{late:?}");
}

#[test]
fn a_config_is_released_whatever_fails_after_it() {
    let cases = [
        GicCall::SetDistributorBase { base: DIST },
        GicCall::SetRedistributorBase { base: REDIST },
        GicCall::Create,
    ];
    for failing in cases {
        let (mut host, vm) = host_with_vm();
        let sysctl = reply(0, "15.0");
        let mut install = vm.create_gic(&mut host, &sysctl, DIST, REDIST).expect("begin");
        let calls = run(&mut install, |call| {
            if call == failing {
                done(HV_BUSY, 0)
            } else {
                well(call)
            }
        });
        assert_eq!(calls.last(), Some(&GicCall::Release));
        assert_eq!(calls.iter().filter(|c| **c == GicCall::Release).count(), 1);
        assert!(matches!(
            vm.gic_created(&mut host, &install),
            Err(HvError::Busy { code: HV_BUSY })
        ));
        vm.create_gic(&mut host, &sysctl, DIST, REDIST).expect("retry");
    }
}

#[test]
fn a_gic_without_a_config_releases_nothing() {
    let (mut host, vm) = host_with_vm();
    let sysctl = reply(0, "15.0");
    let mut null = vm.create_gic(&mut host, &sysctl, DIST, REDIST).expect("begin");
    let calls = run(&mut null, |call| match call {
        GicCall::ConfigCreate => done(0, 0),
        _ => well(call),
    });
    assert!(!calls.contains(&GicCall::Release));
    assert!(matches!(
        vm.gic_created(&mut host, &null),
        Err(HvError::GicNull { what: "hv_gic_config_t" })
    ));
    let mut missing = vm.create_gic(&mut host, &sysctl, DIST, REDIST).expect("begin");
    let calls = run(&mut missing, |_| Reply::Missing);
    assert_eq!(calls, vec![GicCall::DistributorSize]);
    assert!(matches!(
        vm.gic_created(&mut host, &missing),
        Err(HvError::GicUnavailable)
    ));
    let mut crooked = vm
        .create_gic(&mut host, &sysctl, DIST, REDIST + 0x1_0000)
        .expect("begin");
    run(&mut crooked, well);
    assert!(matches!(
        vm.gic_created(&mut host, &crooked),
        Err(HvError::GicMisaligned {
            region: "redistributor",
            base: 0x080b_0000,
            alignment: 0x2_0000
        })
    ));
}

#[test]
fn only_one_vm_per_process() {
    let mut host = Host::new();
    let slot = Vm::create(&mut host).expect("first");
    let first = Vm::created(slot, &mut host, HV_SUCCESS).expect("hv_vm_create");
    let second = Vm::create(&mut host).expect_err("second");
    assert!(second.message().contains("already exists"), "{second:?}");
    first.destroyed(&mut host, HV_SUCCESS).expect("hv_vm_destroy");
    let slot = Vm::create(&mut host).expect("again");
    assert_eq!(
        Vm::created(slot, &mut host, HV_NO_RESOURCES).expect_err("failed"),
        HvError::NoResources {
            code: HV_NO_RESOURCES
        }
    );
    let slot = Vm::create(&mut host).expect("after a failure");
    let stuck = Vm::created(slot, &mut host, HV_SUCCESS).expect("vm");
    stuck
        .destroyed(&mut host, HV_BUSY)
        .expect_err("destroy failed");
    assert_eq!(
        Vm::create(&mut host).expect_err("slot remains taken"),
        HvError::AlreadyExists
    );
}

#[test]
fn registers_have_the_numbers_of_the_header() {
    assert_eq!(Reg::X(0).code(), Ok(0));
    assert_eq!(Reg::X(30).code(), Ok(30));
    assert_eq!(Reg::X(31).code(), Err(HvError::InvalidGpr { index: 31 }));
    assert_eq!(Reg::Pc.code(), Ok(31));
    assert_eq!(Reg::Cpsr.code(), Ok(34));
    assert_eq!(SysReg::SpEl1.code(), 0xe208);
    assert_eq!(SysReg::CntvCvalEl0.code(), 0xdf1a);
    assert_eq!(SysReg::MpidrEl1.code(), 0xc005);
    assert_eq!(IccReg::PmrEl1.code(), 0xc230);
    assert_eq!(IccReg::Igrpen1El1.code(), 0xc667);
    assert_eq!(exit_count(&[1, 2, 3]), Ok(3));
}

#[test]
fn a_vcpu_without_exits_is_destroyed() {
    assert!(matches!(
        vcpu_created(HV_SUCCESS, 4, false),
        VcpuCreated::Ready { id: 4 }
    ));
    assert!(matches!(
        vcpu_created(HV_SUCCESS, 4, true),
        VcpuCreated::Unusable {
            id: 4,
            error: HvError::Unknown { code: 0 }
        }
    ));
    assert!(matches!(
        vcpu_created(HV_ERROR, 4, true),
        VcpuCreated::Failed {
            error: HvError::Error { .. }
        }
    ));
}

#[test]
fn a_state_copy_releases_its_object() {
    let mut capture = Capture::new();
    assert_eq!(capture.call, Some(StateCall::Create));
    capture.answer(done(0, 1));
    assert_eq!(capture.call, Some(StateCall::GetSize));
    capture.answer(done(0, 96));
    assert_eq!(capture.call, Some(StateCall::GetData { size: 96 }));
    capture.answer(done(HV_DENIED, 0));
    assert_eq!(capture.call, Some(StateCall::Release));
    capture.answer(done(0, 0));
    assert_eq!(capture.call, None);
    assert_eq!(capture.error, Some(HvError::Denied { code: HV_DENIED }));
    let mut null = Capture::new();
    null.answer(done(0, 0));
    assert_eq!(null.call, None);
    assert_eq!(
        null.error,
        Some(HvError::GicNull {
            what: "hv_gic_state_t"
        })
    );
}
