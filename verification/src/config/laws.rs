//! What the calls on a VM config answer, and what its errors say.
use vstd::prelude::*;

use super::error::{ConfigError, TernvaleError};
use super::vm::{name_ok, usable_name, Probes, VmConfig};

verus! {

broadcast use vstd::group_vstd_default;

/// Whether the files that the config names, and the place of its serial log, were found.
pub open spec fn all_found(c: VmConfig, f: Probes) -> bool {
    &&& f.kernel.is_file
    &&& c.initrd is Some ==> f.initrd->0.is_file
    &&& c.firmware is Some ==> f.firmware->0.is_file
    &&& forall|i: int| 0 <= i < c.disks@.len() ==> (#[trigger] f.disks@[i]).is_file
    &&& c.serial_log@.len() > 0
    &&& !f.serial_log.is_dir
    &&& f.serial_log_dir is None || f.serial_log_dir->0.path@.len() == 0
        || f.serial_log_dir->0.is_dir
}

/// Whether the name, the numbers, and the NICs of the config are ones that a VM can have.
pub open spec fn well_shaped(c: VmConfig) -> bool {
    &&& usable_name(c.name@)
    &&& 1 <= c.cpus <= 16
    &&& c.ram_mib >= 16 && c.ram_mib % 16 == 0
    &&& forall|i: int| 0 <= i < c.nics@.len() ==> (#[trigger] c.nics@[i]).backend@.len() > 0
}

/// A check passes exactly when the config is well shaped and all was found. An error carries the
/// value that it is about.
pub proof fn law_checks_pass_good_configs(
    c: VmConfig,
    f: Probes,
    r: Result<(), ConfigError>,
    name: &str,
    ok: bool,
)
    requires
        c.covered_by(f),
        call_ensures(VmConfig::check, (&c, &f), r),
        call_ensures(name_ok, (name,), ok),
    ensures
        r is Ok <==> well_shaped(c) && all_found(c, f),
        r matches Err(e) ==> c.problem(f) == Some(e@),
        !usable_name(c.name@) <==> (r matches Err(e) && e is InvalidName),
        usable_name(c.name@) && !(1 <= c.cpus <= 16) <==> (r matches Err(ConfigError::InvalidCpus {
            cpus,
        }) && cpus == c.cpus),
        usable_name(c.name@) && 1 <= c.cpus <= 16 && !(c.ram_mib >= 16 && c.ram_mib % 16 == 0)
            <==> (r matches Err(ConfigError::InvalidRam { ram_mib }) && ram_mib == c.ram_mib),
        ok <==> usable_name(name@),
{
    super::vm::law_configs_pass_when_everything_is_there(c, f);
    super::vm::law_errors_name_the_first_problem(c, f);
    super::vm::law_names_are_letters_digits_hyphens_underscores(name@);
    if c.ram_mib >= 16 && c.ram_mib % 16 == 0 {
        assert(c.ram_mib == 16 * (c.ram_mib as int / 16));
    }
}

/// The disk was asked about the paths of the config: its files, its serial log, and the directory of
/// that.
pub open spec fn about(c: VmConfig, f: Probes) -> bool {
    &&& f.kernel.path@ == c.kernel@
    &&& c.initrd is Some ==> f.initrd is Some && f.initrd->0.path@ == c.initrd->0@
    &&& c.firmware is Some ==> f.firmware is Some && f.firmware->0.path@ == c.firmware->0@
    &&& f.disks@.len() == c.disks@.len()
    &&& forall|i: int|
        0 <= i < c.disks@.len() ==> (#[trigger] f.disks@[i]).path@ == c.disks@[i].path@
    &&& f.serial_log.path@ == c.serial_log@
    &&& f.serial_log_dir is Some <==> super::vm::parent_of(c.serial_log@) is Some
    &&& f.serial_log_dir is Some ==> Some(f.serial_log_dir->0.path@) == super::vm::parent_of(
        c.serial_log@,
    )
}

/// A validated config passes exactly when it is well shaped and all was found when the disk was
/// asked about its own paths. A name or a number that no VM can have fails whatever the disk says.
pub proof fn law_validation_asks_about_the_own_paths(c: VmConfig, r: Result<(), ConfigError>)
    requires
        call_ensures(VmConfig::validate, (&c,), r),
    ensures
        r is Ok ==> well_shaped(c) && c.serial_log@.len() > 0,
        exists|f: Probes| #[trigger] about(c, f) && (r is Ok <==> well_shaped(c) && all_found(c, f)),
        !usable_name(c.name@) <==> (r matches Err(e) && e is InvalidName),
        usable_name(c.name@) && !(1 <= c.cpus <= 16) <==> (r matches Err(ConfigError::InvalidCpus {
            cpus,
        }) && cpus == c.cpus),
        usable_name(c.name@) && 1 <= c.cpus <= 16 && !(c.ram_mib >= 16 && c.ram_mib % 16 == 0)
            <==> (r matches Err(ConfigError::InvalidRam { ram_mib }) && ram_mib == c.ram_mib),
{
    let f = choose|f: Probes|
        #![trigger c.problem(f)]
        {
            &&& c.probed_by(f)
            &&& r is Ok <==> c.problem(f) is None
            &&& r matches Err(e) ==> c.problem(f) == Some(e@)
        };
    super::vm::law_configs_pass_when_everything_is_there(c, f);
    super::vm::law_errors_name_the_first_problem(c, f);
    if c.ram_mib >= 16 && c.ram_mib % 16 == 0 {
        assert(c.ram_mib == 16 * (c.ram_mib as int / 16));
    }
    assert(about(c, f));
}

/// What each config error says.
pub proof fn law_config_errors_say_what_is_wrong(e: ConfigError, s: String)
    requires
        call_ensures(ConfigError::message, (&e,), s),
    ensures
        match e {
            ConfigError::Parse { source } => s@ == "parse VM config: "@ + source@,
            ConfigError::Serialize { source } => s@ == "serialize VM config: "@ + source@,
            ConfigError::Read { path, source } => s@ == "read VM config "@ + path@ + ": "@
                + source@,
            ConfigError::InvalidName => s@
                == "name must be a non-empty ASCII identifier (letters, digits, '-' or '_')"@,
            ConfigError::InvalidCpus { cpus } => s@ == "cpus must be from 1 to 16, got "@
                + crate::text::dec(cpus as nat),
            ConfigError::InvalidRam { ram_mib } => s@
                == "ram_mib must be a positive multiple of 16, got "@ + crate::text::dec(
                ram_mib as nat,
            ),
            ConfigError::MissingFile { field, path } => s@ == field@
                + " is not an existing file: "@ + path@,
            ConfigError::SerialLogDir { path } => s@
                == "serial_log parent is not an existing directory: "@ + path@,
            ConfigError::EmptyNicBackend { index } => s@ == "nics["@ + crate::text::dec(
                index as nat,
            ) + "].backend is empty"@,
        },
{
}

/// An error of another part is its name, a colon, and its message; a config error says what it
/// says by itself.
pub proof fn law_shared_errors_name_their_part(
    e: ConfigError,
    alone: String,
    shared: TernvaleError,
    s: String,
    subsystem: &'static str,
    message: String,
    labeled: TernvaleError,
    t: String,
)
    requires
        call_ensures(ConfigError::message, (&e,), alone),
        call_ensures(TernvaleError::from, (e,), shared),
        call_ensures(TernvaleError::message, (&shared,), s),
        call_ensures(TernvaleError::subsystem, (subsystem, message), labeled),
        call_ensures(TernvaleError::message, (&labeled,), t),
    ensures
        s@ == alone@,
        t@ == subsystem@ + ": "@ + message@,
{
}

} // verus!
