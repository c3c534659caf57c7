//! The VM config document.
use vstd::prelude::*;

use super::error::ConfigError;
use crate::text::chars_of;

verus! {

broadcast use vstd::group_vstd_default;

/// RAM comes in steps of this many MiB.
pub const RAM_QUANTUM_MIB: u64 = 16;

/// The fewest vCPUs of a VM.
pub const MIN_CPUS: u32 = 1;

/// The most vCPUs of a VM.
pub const MAX_CPUS: u32 = 16;

/// One virtual disk. `path` must be an existing file.
#[derive(Debug, Clone, PartialEq, Eq)]
pub struct Disk {
    /// Host path of the disk image.
    pub path: String,
    /// When true, the guest sees a read-only disk.
    pub read_only: bool,
}

/// One virtual NIC. Only `backend` is defined until the net device lands.
#[derive(Debug, Clone, PartialEq, Eq)]
pub struct Nic {
    /// Host backend name. Interpretation is left to the net device.
    pub backend: String,
}

/// VM description.
///
/// A value built in code should be passed through [`VmConfig::validate`] before use.
#[derive(Debug, Clone, PartialEq, Eq)]
pub struct VmConfig {
    /// Guest name. Also used in the host log file name.
    pub name: String,
    /// vCPU count, from 1 through 16.
    pub cpus: u32,
    /// Guest RAM in MiB. Must be a positive multiple of 16.
    pub ram_mib: u64,
    /// Linux kernel (or other boot image) on the host.
    pub kernel: String,
    /// Optional initrd. Omitted when the guest boots from the kernel alone.
    pub initrd: Option<String>,
    /// Kernel command line. May be empty.
    pub cmdline: String,
    /// Disk images, in guest attachment order.
    pub disks: Vec<Disk>,
    /// NICs, in guest attachment order.
    pub nics: Vec<Nic>,
    /// Host file that will receive guest serial output. Created later; it need not exist yet.
    pub serial_log: String,
    /// Optional firmware image, such as UEFI.
    pub firmware: Option<String>,
}

/// Whether a path is a file.
#[derive(Debug, Clone, PartialEq, Eq)]
pub struct FileProbe {
    /// The path that was looked at.
    pub path: String,
    /// It is a regular file.
    pub is_file: bool,
}

/// Whether a path is a directory.
#[derive(Debug, Clone, PartialEq, Eq)]
pub struct DirProbe {
    /// The path that was looked at.
    pub path: String,
    /// It is a directory.
    pub is_dir: bool,
}

/// What the host's disk says about the paths of a config.
#[derive(Debug, Clone, PartialEq, Eq)]
pub struct Probes {
    /// The kernel.
    pub kernel: FileProbe,
    /// The initrd, where there is one.
    pub initrd: Option<FileProbe>,
    /// The disk images, in order.
    pub disks: Vec<FileProbe>,
    /// The firmware, where there is one.
    pub firmware: Option<FileProbe>,
    /// The serial log itself.
    pub serial_log: DirProbe,
    /// The directory of the serial log, where its path names one.
    pub serial_log_dir: Option<DirProbe>,
}

/// A character of a name: an ASCII letter or digit, a hyphen, or an underscore.
pub open spec fn name_char(c: char) -> bool {
    ||| 'a' <= c <= 'z'
    ||| 'A' <= c <= 'Z'
    ||| '0' <= c <= '9'
    ||| c == '-'
    ||| c == '_'
}

/// `name` can stand in a file name: it has a character, and only those of a name.
pub open spec fn is_name(name: Seq<char>) -> bool {
    name.len() > 0 && forall|i: int| 0 <= i < name.len() ==> name_char(#[trigger] name[i])
}

/// Whether `name` can stand in a file name.
pub fn name_ok(name: &str) -> (b: bool)
    ensures
        b == is_name(name@),
{
    let s = chars_of(name);
    if s.len() == 0 {
        return false;
    }
    let mut i: usize = 0;
    while i < s.len()
        invariant
            i <= s@.len(),
            s@ == name@,
            forall|j: int| 0 <= j < i ==> name_char(#[trigger] s@[j]),
        decreases s@.len() - i,
    {
        let c: char = s[i];
        let letter: bool = ('a' <= c && c <= 'z') || ('A' <= c && c <= 'Z');
        let digit: bool = '0' <= c && c <= '9';
        if !(letter || digit || c == '-' || c == '_') {
            return false;
        }
        i = i + 1;
    }
    true
}

/// The first of `disks` from `from` on that is no file.
pub open spec fn first_missing(disks: Seq<FileProbe>, from: int) -> Option<int>
    decreases disks.len() - from,
{
    if from >= disks.len() {
        None
    } else if !disks[from].is_file {
        Some(from)
    } else {
        first_missing(disks, from + 1)
    }
}

/// The first NIC from `from` on without a backend.
pub open spec fn first_without_backend(nics: Seq<Nic>, from: int) -> Option<int>
    decreases nics.len() - from,
{
    if from >= nics.len() {
        None
    } else if nics[from].backend@.len() == 0 {
        Some(from)
    } else {
        first_without_backend(nics, from + 1)
    }
}

/// The name of the path field of disk `i`.
pub open spec fn disk_field(i: int) -> Seq<char> {
    "disks["@ + crate::text::dec(i as nat) + "].path"@
}

/// The serial log can be created: it has a path, which is no directory, and the path names no
/// directory for it or one that exists.
pub open spec fn serial_log_ok(path: Seq<char>, f: Probes) -> bool {
    &&& path.len() > 0
    &&& !f.serial_log.is_dir
    &&& f.serial_log_dir matches Some(d) ==> d.path@.len() == 0 || d.is_dir
}

/// What `std::path::Path::parent` gives for `path`: the path without its last component, where there
/// is one to take away.
pub uninterp spec fn parent_of(path: Seq<char>) -> Option<Seq<char>>;

/// The probe is about the path, where there is one.
pub open spec fn is_about(probe: Option<FileProbe>, path: Option<String>) -> bool {
    match (probe, path) {
        (Some(probe), Some(path)) => probe.path@ == path@,
        (None, None) => true,
        _ => false,
    }
}

impl VmConfig {
    /// What is wrong with the numbers and the name, if something is.
    pub open spec fn shape_problem(self) -> Option<super::error::ConfigErrorView> {
        if !is_name(self.name@) {
            Some(super::error::ConfigErrorView::InvalidName)
        } else if !(MIN_CPUS <= self.cpus <= MAX_CPUS) {
            Some(super::error::ConfigErrorView::InvalidCpus { cpus: self.cpus })
        } else if self.ram_mib == 0 || self.ram_mib % RAM_QUANTUM_MIB != 0 {
            Some(super::error::ConfigErrorView::InvalidRam { ram_mib: self.ram_mib })
        } else {
            None
        }
    }

    /// The first problem of the config, given what the disk says: name, vCPUs, RAM, kernel,
    /// initrd, disks, NICs, serial log, firmware.
    pub open spec fn problem(self, f: Probes) -> Option<super::error::ConfigErrorView> {
        if self.shape_problem() is Some {
            self.shape_problem()
        } else if !f.kernel.is_file {
            Some(
                super::error::ConfigErrorView::MissingFile {
                    field: "kernel"@,
                    path: self.kernel@,
                },
            )
        } else if self.initrd is Some && !f.initrd->0.is_file {
            Some(
                super::error::ConfigErrorView::MissingFile {
                    field: "initrd"@,
                    path: self.initrd->0@,
                },
            )
        } else if first_missing(f.disks@, 0) is Some {
            let i = first_missing(f.disks@, 0)->0;
            Some(
                super::error::ConfigErrorView::MissingFile {
                    field: disk_field(i),
                    path: self.disks@[i].path@,
                },
            )
        } else if first_without_backend(self.nics@, 0) is Some {
            Some(
                super::error::ConfigErrorView::EmptyNicBackend {
                    index: first_without_backend(self.nics@, 0)->0 as nat,
                },
            )
        } else if !serial_log_ok(self.serial_log@, f) {
            Some(super::error::ConfigErrorView::SerialLogDir { path: self.serial_log@ })
        } else if self.firmware is Some && !f.firmware->0.is_file {
            Some(
                super::error::ConfigErrorView::MissingFile {
                    field: "firmware"@,
                    path: self.firmware->0@,
                },
            )
        } else {
            None
        }
    }

    /// There is a probe for each file of this config, and one for its serial log.
    pub open spec fn covered_by(self, f: Probes) -> bool {
        &&& f.kernel.path@ == self.kernel@
        &&& is_about(f.initrd, self.initrd)
        &&& f.disks@.len() == self.disks@.len()
        &&& forall|i: int|
            0 <= i < f.disks@.len() ==> (#[trigger] f.disks@[i]).path@ == self.disks@[i].path@
        &&& is_about(f.firmware, self.firmware)
        &&& f.serial_log.path@ == self.serial_log@
    }

    /// The probes are about the paths of this config: its files, its serial log, and the directory
    /// of the serial log.
    pub open spec fn probed_by(self, f: Probes) -> bool {
        &&& self.covered_by(f)
        &&& match (parent_of(self.serial_log@), f.serial_log_dir) {
            (Some(dir), Some(probe)) => probe.path@ == dir,
            (None, None) => true,
            _ => false,
        }
    }

    /// Check ranges and that input files exist.
    ///
    /// What the disk says decides about the files: for some answers of the disk, this is what
    /// [`VmConfig::check`] says of them.
    pub fn validate(&self) -> (r: Result<(), ConfigError>)
        ensures
            exists|f: Probes|
                #![trigger self.problem(f)]
                {
                    &&& self.probed_by(f)
                    &&& r is Ok <==> self.problem(f) is None
                    &&& r matches Err(e) ==> self.problem(f) == Some(e@)
                },
            self.shape_problem() is Some ==> (r matches Err(e) && Some(e@)
                == self.shape_problem()),
    {
        let probes = self.probe();
        let r = self.check(&probes);
        assert(self.probed_by(probes));
        assert(r is Ok <==> self.problem(probes) is None);
        r
    }

    /// Ask the disk about every path of the config.
    fn probe(&self) -> (f: Probes)
        ensures
            self.probed_by(f),
    {
        let mut disks: Vec<FileProbe> = Vec::new();
        let mut i: usize = 0;
        while i < self.disks.len()
            invariant
                i <= self.disks@.len(),
                disks@.len() == i,
                forall|k: int|
                    0 <= k < i ==> (#[trigger] disks@[k]).path@ == self.disks@[k].path@,
            decreases self.disks@.len() - i,
        {
            disks.push(is_file(self.disks[i].path.as_str()));
            i = i + 1;
        }
        let serial_log_dir: Option<DirProbe> = match parent(self.serial_log.as_str()) {
            Some(dir) => Some(is_dir(dir.as_str())),
            None => None,
        };
        Probes {
            kernel: is_file(self.kernel.as_str()),
            initrd: match &self.initrd {
                Some(path) => Some(is_file(path.as_str())),
                None => None,
            },
            disks,
            firmware: match &self.firmware {
                Some(path) => Some(is_file(path.as_str())),
                None => None,
            },
            serial_log: is_dir(self.serial_log.as_str()),
            serial_log_dir,
        }
    }

    /// Check the config against what the disk said.
    pub fn check(&self, probes: &Probes) -> (r: Result<(), ConfigError>)
        requires
            self.covered_by(*probes),
        ensures
            r is Ok <==> self.problem(*probes) is None,
            r matches Err(e) ==> self.problem(*probes) == Some(e@),
    {
        if !name_ok(self.name.as_str()) {
            return Err(ConfigError::InvalidName);
        }
        if self.cpus < MIN_CPUS || self.cpus > MAX_CPUS {
            return Err(ConfigError::InvalidCpus { cpus: self.cpus });
        }
        if self.ram_mib == 0 || self.ram_mib % RAM_QUANTUM_MIB != 0 {
            return Err(ConfigError::InvalidRam { ram_mib: self.ram_mib });
        }
        if !probes.kernel.is_file {
            return Err(missing("kernel", self.kernel.as_str()));
        }
        if let (Some(initrd), Some(probe)) = (&self.initrd, &probes.initrd) {
            if !probe.is_file {
                return Err(missing("initrd", initrd.as_str()));
            }
        }
        let mut i: usize = 0;
        while i < self.disks.len()
            invariant
                i <= self.disks@.len(),
                self.covered_by(*probes),
                first_missing(probes.disks@, 0) == first_missing(probes.disks@, i as int),
                self.shape_problem() is None,
                probes.kernel.is_file,
                self.initrd is Some ==> probes.initrd->0.is_file,
            decreases self.disks@.len() - i,
        {
            if !probes.disks[i].is_file {
                let mut field: String = String::new();
                field.append("disks[");
                crate::text::push_dec(&mut field, i as u64);
                field.append("].path");
                assert(field@ =~= disk_field(i as int));
                return Err(missing(field.as_str(), self.disks[i].path.as_str()));
            }
            i = i + 1;
        }
        let mut n: usize = 0;
        while n < self.nics.len()
            invariant
                n <= self.nics@.len(),
                first_without_backend(self.nics@, 0) == first_without_backend(
                    self.nics@,
                    n as int,
                ),
                first_missing(probes.disks@, 0) is None,
                self.shape_problem() is None,
                probes.kernel.is_file,
                self.initrd is Some ==> probes.initrd->0.is_file,
            decreases self.nics@.len() - n,
        {
            if self.nics[n].backend.as_str().is_empty() {
                return Err(ConfigError::EmptyNicBackend { index: n });
            }
            n = n + 1;
        }
        if !serial_ok(self.serial_log.as_str(), probes) {
            return Err(ConfigError::SerialLogDir { path: self.serial_log.clone() });
        }
        if let (Some(firmware), Some(probe)) = (&self.firmware, &probes.firmware) {
            if !probe.is_file {
                return Err(missing("firmware", firmware.as_str()));
            }
        }
        Ok(())
    }
}

fn serial_ok(path: &str, probes: &Probes) -> (b: bool)
    ensures
        b == serial_log_ok(path@, *probes),
{
    if path.is_empty() || probes.serial_log.is_dir {
        return false;
    }
    match &probes.serial_log_dir {
        Some(dir) => dir.path.as_str().is_empty() || dir.is_dir,
        None => true,
    }
}

fn missing(field: &str, path: &str) -> (e: ConfigError)
    ensures
        e@ == (super::error::ConfigErrorView::MissingFile { field: field@, path: path@ }),
{
    ConfigError::MissingFile { field: field.to_owned(), path: path.to_owned() }
}

/// `std::path::Path::is_file` on `path`: whether it is a regular file right now. The disk decides
/// the answer; claimed is only which path it is about.
#[verifier::external_body]
fn is_file(path: &str) -> (p: FileProbe)
    ensures
        p.path@ == path@,
{
    FileProbe { path: path.to_owned(), is_file: std::path::Path::new(path).is_file() }
}

/// `std::path::Path::is_dir` on `path`: whether it is a directory right now. The disk decides the
/// answer; claimed is only which path it is about.
#[verifier::external_body]
fn is_dir(path: &str) -> (p: DirProbe)
    ensures
        p.path@ == path@,
{
    DirProbe { path: path.to_owned(), is_dir: std::path::Path::new(path).is_dir() }
}

/// `std::path::Path::parent` of `path`. It reads nothing but the path; claimed is that the answer is
/// what [`parent_of`] names.
#[verifier::external_body]
fn parent(path: &str) -> (dir: Option<String>)
    ensures
        dir is Some == parent_of(path@) is Some,
        dir matches Some(dir) ==> parent_of(path@) == Some(dir@),
{
    std::path::Path::new(path).parent().map(|dir| dir.to_string_lossy().into_owned())
}

/// A config that passes has a usable name, 1 to 16 vCPUs, and a positive multiple of 16 MiB of
/// RAM; every NIC has a backend, and every file it names was there.
pub proof fn law_valid_configs_are_in_range(c: VmConfig, f: Probes)
    requires
        c.covered_by(f),
        c.problem(f) is None,
    ensures
        is_name(c.name@),
        1 <= c.cpus <= 16,
        c.ram_mib >= 16 && c.ram_mib % 16 == 0,
        f.kernel.is_file,
        c.initrd is Some ==> f.initrd->0.is_file,
        c.firmware is Some ==> f.firmware->0.is_file,
        forall|i: int| 0 <= i < c.disks@.len() ==> (#[trigger] f.disks@[i]).is_file,
        forall|i: int| 0 <= i < c.nics@.len() ==> (#[trigger] c.nics@[i]).backend@.len() > 0,
        serial_log_ok(c.serial_log@, f),
{
    lemma_none_missing(f.disks@, 0);
    lemma_all_backends(c.nics@, 0);
}

proof fn lemma_none_missing(disks: Seq<FileProbe>, from: int)
    requires
        0 <= from,
        first_missing(disks, from) is None,
    ensures
        forall|i: int| from <= i < disks.len() ==> (#[trigger] disks[i]).is_file,
    decreases disks.len() - from,
{
    if from < disks.len() {
        lemma_none_missing(disks, from + 1);
    }
}

proof fn lemma_all_backends(nics: Seq<Nic>, from: int)
    requires
        0 <= from,
        first_without_backend(nics, from) is None,
    ensures
        forall|i: int| from <= i < nics.len() ==> (#[trigger] nics[i]).backend@.len() > 0,
    decreases nics.len() - from,
{
    if from < nics.len() {
        lemma_all_backends(nics, from + 1);
    }
}

/// A config passes exactly when its name is one or more ASCII letters, digits, hyphens, or
/// underscores, it has 1 to 16 vCPUs and a positive multiple of 16 MiB of RAM, every file that it
/// names is there, every NIC has a backend, and its serial log has a path that is no directory in
/// a directory that is there, or that names none.
pub proof fn law_configs_pass_when_everything_is_there(c: VmConfig, f: Probes)
    requires
        c.covered_by(f),
    ensures
        c.problem(f) is None <==> {
            &&& usable_name(c.name@)
            &&& 1 <= c.cpus <= 16
            &&& exists|n: int| 1 <= n && c.ram_mib == #[trigger] (16 * n)
            &&& f.kernel.is_file
            &&& c.initrd is Some ==> f.initrd->0.is_file
            &&& c.firmware is Some ==> f.firmware->0.is_file
            &&& forall|i: int| 0 <= i < c.disks@.len() ==> (#[trigger] f.disks@[i]).is_file
            &&& forall|i: int| 0 <= i < c.nics@.len() ==> (#[trigger] c.nics@[i]).backend@.len() > 0
            &&& c.serial_log@.len() > 0
            &&& !f.serial_log.is_dir
            &&& f.serial_log_dir is None || f.serial_log_dir->0.path@.len() == 0
                || f.serial_log_dir->0.is_dir
        },
{
    law_names_are_letters_digits_hyphens_underscores(c.name@);
    lemma_first_missing(f.disks@, 0);
    lemma_first_without_backend(c.nics@, 0);
    if c.ram_mib > 0 && c.ram_mib % 16 == 0 {
        assert(c.ram_mib == 16 * (c.ram_mib as int / 16));
    }
}

/// One or more characters, each an ASCII letter, digit, hyphen, or underscore, by its number.
pub open spec fn usable_name(name: Seq<char>) -> bool {
    name.len() > 0 && forall|i: int|
        0 <= i < name.len() ==> {
            let c = #[trigger] name[i] as int;
            48 <= c <= 57 || 65 <= c <= 90 || 97 <= c <= 122 || c == 45 || c == 95
        }
}

/// A name can stand in a file name exactly when it is made of ASCII letters, digits, hyphens, and
/// underscores, and is not empty.
pub proof fn law_names_are_letters_digits_hyphens_underscores(name: Seq<char>)
    ensures
        is_name(name) <==> usable_name(name),
{
    if is_name(name) {
        assert forall|i: int| 0 <= i < name.len() implies {
            let c = #[trigger] name[i] as int;
            48 <= c <= 57 || 65 <= c <= 90 || 97 <= c <= 122 || c == 45 || c == 95
        } by {
            assert(name_char(name[i]));
        }
    }
    if usable_name(name) {
        assert forall|i: int| 0 <= i < name.len() implies name_char(#[trigger] name[i]) by {
            let c = name[i] as int;
            assert(48 <= c <= 57 || 65 <= c <= 90 || 97 <= c <= 122 || c == 45 || c == 95);
        }
    }
}

/// Each error says what is wrong, and comes only where that is wrong and nothing before it is: the
/// checks come in the order name, vCPUs, RAM, kernel, initrd, disks, NICs, serial log, firmware.
pub proof fn law_errors_name_the_first_problem(c: VmConfig, f: Probes)
    requires
        c.covered_by(f),
    ensures
        ({
            let name = usable_name(c.name@);
            let cpus = name && 1 <= c.cpus <= 16;
            let ram = cpus && c.ram_mib >= 16 && c.ram_mib % 16 == 0;
            let kernel = ram && f.kernel.is_file;
            let initrd = kernel && (c.initrd is None || f.initrd->0.is_file);
            let disks = initrd && forall|i: int|
                0 <= i < c.disks@.len() ==> (#[trigger] f.disks@[i]).is_file;
            let nics = disks && forall|i: int|
                0 <= i < c.nics@.len() ==> (#[trigger] c.nics@[i]).backend@.len() > 0;
            let serial = nics && c.serial_log@.len() > 0 && !f.serial_log.is_dir && (
            f.serial_log_dir is None || f.serial_log_dir->0.path@.len() == 0
                || f.serial_log_dir->0.is_dir);
            let p = c.problem(f);
            &&& !name <==> p == Some(super::error::ConfigErrorView::InvalidName)
            &&& name && !cpus <==> p == Some(
                super::error::ConfigErrorView::InvalidCpus { cpus: c.cpus },
            )
            &&& p matches Some(super::error::ConfigErrorView::InvalidCpus { cpus: n }) ==> n
                == c.cpus && !cpus
            &&& cpus && !ram <==> p == Some(
                super::error::ConfigErrorView::InvalidRam { ram_mib: c.ram_mib },
            )
            &&& p matches Some(super::error::ConfigErrorView::InvalidRam { ram_mib: n }) ==> n
                == c.ram_mib && !ram
            &&& ram && !kernel ==> p == Some(
                super::error::ConfigErrorView::MissingFile { field: "kernel"@, path: c.kernel@ },
            )
            &&& kernel && !initrd ==> p == Some(
                super::error::ConfigErrorView::MissingFile { field: "initrd"@, path: c.initrd->0@ },
            )
            &&& initrd && !disks ==> exists|i: int|
                0 <= i < c.disks@.len() && !(#[trigger] f.disks@[i]).is_file && (forall|j: int|
                    0 <= j < i ==> (#[trigger] f.disks@[j]).is_file) && p == Some(
                    super::error::ConfigErrorView::MissingFile {
                        field: "disks["@ + crate::text::dec(i as nat) + "].path"@,
                        path: c.disks@[i].path@,
                    },
                )
            &&& disks && !nics ==> exists|i: int|
                0 <= i < c.nics@.len() && (#[trigger] c.nics@[i]).backend@.len() == 0 && (forall|
                    j: int,
                |
                    0 <= j < i ==> (#[trigger] c.nics@[j]).backend@.len() > 0) && p == Some(
                    super::error::ConfigErrorView::EmptyNicBackend { index: i as nat },
                )
            &&& nics && !serial <==> p == Some(
                super::error::ConfigErrorView::SerialLogDir { path: c.serial_log@ },
            )
            &&& serial && c.firmware is Some && !f.firmware->0.is_file ==> p == Some(
                super::error::ConfigErrorView::MissingFile {
                    field: "firmware"@,
                    path: c.firmware->0@,
                },
            )
        }),
{
    law_names_are_letters_digits_hyphens_underscores(c.name@);
    lemma_first_missing(f.disks@, 0);
    lemma_first_without_backend(c.nics@, 0);
}

proof fn lemma_first_missing(disks: Seq<FileProbe>, from: int)
    requires
        0 <= from,
    ensures
        match first_missing(disks, from) {
            Some(i) => {
                &&& from <= i < disks.len() && !disks[i].is_file
                &&& forall|j: int| from <= j < i ==> (#[trigger] disks[j]).is_file
            },
            None => forall|j: int| from <= j < disks.len() ==> (#[trigger] disks[j]).is_file,
        },
    decreases disks.len() - from,
{
    if from < disks.len() && disks[from].is_file {
        lemma_first_missing(disks, from + 1);
    }
}

proof fn lemma_first_without_backend(nics: Seq<Nic>, from: int)
    requires
        0 <= from,
    ensures
        match first_without_backend(nics, from) {
            Some(i) => {
                &&& from <= i < nics.len() && nics[i].backend@.len() == 0
                &&& forall|j: int| from <= j < i ==> (#[trigger] nics[j]).backend@.len() > 0
            },
            None => forall|j: int| from <= j < nics.len() ==> (#[trigger] nics[j]).backend@.len() > 0,
        },
    decreases nics.len() - from,
{
    if from < nics.len() && nics[from].backend@.len() > 0 {
        lemma_first_without_backend(nics, from + 1);
    }
}

} // verus!
