use ternvale::config::error::{ConfigError, TernvaleError};
use ternvale::config::vm::{DirProbe, Disk, FileProbe, Nic, Probes, VmConfig};

fn config() -> VmConfig {
    VmConfig {
        name: "linux".to_string(),
        cpus: 1,
        ram_mib: 256,
        kernel: "/boot/Image".to_string(),
        initrd: Some("/boot/initramfs.cpio".to_string()),
        cmdline: String::new(),
        disks: vec![
            Disk {
                path: "/a.img".to_string(),
                read_only: false,
            },
            Disk {
                path: "/b.img".to_string(),
                read_only: true,
            },
        ],
        nics: vec![Nic {
            backend: "vmnet".to_string(),
        }],
        serial_log: "/tmp/serial.log".to_string(),
        firmware: Some("/fw.fd".to_string()),
    }
}

fn file(path: &str, is_file: bool) -> FileProbe {
    FileProbe {
        path: path.to_string(),
        is_file,
    }
}

fn dir(path: &str, is_dir: bool) -> DirProbe {
    DirProbe {
        path: path.to_string(),
        is_dir,
    }
}

/// What a disk that has everything says about `config`.
fn probes_of(config: &VmConfig) -> Probes {
    Probes {
        kernel: file(&config.kernel, true),
        initrd: config.initrd.as_ref().map(|p| file(p, true)),
        disks: config.disks.iter().map(|d| file(&d.path, true)).collect(),
        firmware: config.firmware.as_ref().map(|p| file(p, true)),
        serial_log: dir(&config.serial_log, false),
        serial_log_dir: Some(dir("/tmp", true)),
    }
}

fn probes() -> Probes {
    probes_of(&config())
}

#[test]
fn a_good_config_passes() {
    assert_eq!(config().check(&probes()), Ok(()));
    let mut bare = config();
    bare.initrd = None;
    bare.firmware = None;
    bare.disks.clear();
    bare.nics.clear();
    let mut facts = probes_of(&bare);
    facts.serial_log_dir = None;
    assert_eq!(bare.check(&facts), Ok(()));
}

#[test]
fn ranges_are_checked_first() {
    let mut nothing = probes();
    nothing.kernel.is_file = false;
    nothing.initrd = Some(file("/boot/initramfs.cpio", false));
    nothing.disks[0].is_file = false;
    nothing.firmware = Some(file("/fw.fd", false));
    nothing.serial_log.is_dir = true;
    for name in ["", "a/b", "a b", "é", ".."] {
        let mut c = config();
        c.name = name.to_string();
        assert_eq!(c.check(&nothing), Err(ConfigError::InvalidName), "{name}");
        assert_eq!(c.validate(), Err(ConfigError::InvalidName));
    }
    for cpus in [0, 17, u32::MAX] {
        let mut c = config();
        c.cpus = cpus;
        assert_eq!(c.check(&nothing), Err(ConfigError::InvalidCpus { cpus }));
    }
    for ram_mib in [0, 8, 17] {
        let mut c = config();
        c.ram_mib = ram_mib;
        assert_eq!(c.check(&nothing), Err(ConfigError::InvalidRam { ram_mib }));
    }
    let mut c = config();
    c.cpus = 16;
    c.ram_mib = 16;
    c.name = "VM-9_x".to_string();
    assert_eq!(c.check(&probes()), Ok(()));
}

fn missing(field: &str, path: &str) -> Result<(), ConfigError> {
    Err(ConfigError::MissingFile {
        field: field.to_string(),
        path: path.to_string(),
    })
}

#[test]
fn missing_files_are_named() {
    let c = config();
    let mut f = probes();
    f.firmware = Some(file("/fw.fd", false));
    assert_eq!(c.check(&f), missing("firmware", "/fw.fd"));
    f.disks[1].is_file = false;
    assert_eq!(c.check(&f), missing("disks[1].path", "/b.img"));
    f.initrd = Some(file("/boot/initramfs.cpio", false));
    assert_eq!(c.check(&f), missing("initrd", "/boot/initramfs.cpio"));
    f.kernel.is_file = false;
    assert_eq!(c.check(&f), missing("kernel", "/boot/Image"));
}

#[test]
fn nics_and_serial_log_are_checked() {
    let mut c = config();
    c.nics.push(Nic {
        backend: String::new(),
    });
    assert_eq!(
        c.check(&probes()),
        Err(ConfigError::EmptyNicBackend { index: 1 })
    );
    let c = config();
    let bad = Err(ConfigError::SerialLogDir {
        path: "/tmp/serial.log".to_string(),
    });
    let mut f = probes();
    f.serial_log.is_dir = true;
    assert_eq!(c.check(&f), bad);
    let mut f = probes();
    f.serial_log_dir = Some(dir("/tmp", false));
    assert_eq!(c.check(&f), bad);
    let mut c = config();
    c.serial_log = "serial.log".to_string();
    let mut f = probes_of(&c);
    f.serial_log_dir = Some(dir("", false));
    assert_eq!(c.check(&f), Ok(()));
    let mut c = config();
    c.serial_log = String::new();
    assert_eq!(
        c.check(&probes_of(&c)),
        Err(ConfigError::SerialLogDir {
            path: String::new()
        })
    );
}

#[test]
fn the_disk_decides_about_files() {
    let mut c = config();
    c.kernel = "/".to_string();
    assert_eq!(c.validate(), missing("kernel", "/"));
    c.kernel = "/proc/self/status".to_string();
    c.initrd = None;
    c.disks.clear();
    c.firmware = None;
    c.serial_log = "/".to_string();
    assert_eq!(
        c.validate(),
        Err(ConfigError::SerialLogDir {
            path: "/".to_string()
        })
    );
    for serial_log in [
        "/no-such-directory/serial.log",
        "/proc/no-such-directory/serial.log",
        "/proc/self/status/serial.log",
        "no-such-directory/serial.log",
    ] {
        c.serial_log = serial_log.to_string();
        assert_eq!(
            c.validate(),
            Err(ConfigError::SerialLogDir {
                path: serial_log.to_string()
            })
        );
    }
    c.serial_log = "serial.log".to_string();
    assert_eq!(c.validate(), Ok(()));
    c.serial_log = "/proc/serial.log".to_string();
    assert_eq!(c.validate(), Ok(()));
}

#[test]
fn config_errors_have_messages() {
    assert_eq!(
        ConfigError::InvalidCpus { cpus: 20 }.message(),
        "cpus must be from 1 to 16, got 20"
    );
    assert_eq!(
        ConfigError::InvalidRam { ram_mib: 17 }.message(),
        "ram_mib must be a positive multiple of 16, got 17"
    );
    assert_eq!(
        ConfigError::EmptyNicBackend { index: 3 }.message(),
        "nics[3].backend is empty"
    );
    assert_eq!(
        ConfigError::InvalidName.message(),
        "name must be a non-empty ASCII identifier (letters, digits, '-' or '_')"
    );
    let parse = ConfigError::Parse {
        source: "unknown field".to_string(),
    };
    assert_eq!(parse.message(), "parse VM config: unknown field");
    let wrapped: TernvaleError = parse.into();
    assert_eq!(wrapped.message(), "parse VM config: unknown field");
    assert_eq!(
        TernvaleError::subsystem("hv", "busy".to_string()).message(),
        "hv: busy"
    );
    let read = ConfigError::Read {
        path: "/vm.toml".to_string(),
        source: "denied".to_string(),
    };
    assert_eq!(read.message(), "read VM config /vm.toml: denied");
    let serialize = ConfigError::Serialize {
        source: "odd".to_string(),
    };
    assert_eq!(serialize.message(), "serialize VM config: odd");
    let file = ConfigError::MissingFile {
        field: "kernel".to_string(),
        path: "/k".to_string(),
    };
    assert_eq!(file.message(), "kernel is not an existing file: /k");
    let serial = ConfigError::SerialLogDir {
        path: "/s".to_string(),
    };
    assert_eq!(
        serial.message(),
        "serial_log parent is not an existing directory: /s"
    );
}
