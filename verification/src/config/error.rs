//! Config failures and the shared error of all subsystems.
use vstd::prelude::*;

use crate::text::push_dec;

verus! {

broadcast use vstd::group_vstd_default;

/// A VM config document failed to parse or failed validation.
#[derive(Debug, Clone, PartialEq, Eq)]
pub enum ConfigError {
    /// TOML text was not a `VmConfig`.
    Parse {
        /// Parser error. Unknown fields are reported here and name the field.
        source: String,
    },
    /// A `VmConfig` could not be written as TOML.
    Serialize {
        /// Serializer error.
        source: String,
    },
    /// The config file could not be read.
    Read {
        /// Path of the config file.
        path: String,
        /// IO error.
        source: String,
    },
    /// `name` is empty or not safe to embed in a log file name.
    InvalidName,
    /// `cpus` was outside `1..=16`.
    InvalidCpus {
        /// The rejected value.
        cpus: u32,
    },
    /// `ram_mib` was zero or not a multiple of 16.
    InvalidRam {
        /// The rejected value, in MiB.
        ram_mib: u64,
    },
    /// An input file named by the config is missing.
    MissingFile {
        /// Config field, such as `kernel` or `disks[0].path`.
        field: String,
        /// Path that was not a regular file.
        path: String,
    },
    /// `serial_log` cannot be created because its parent directory is missing,
    /// or the path points at a directory.
    SerialLogDir {
        /// The `serial_log` path from the config.
        path: String,
    },
    /// A NIC entry has an empty backend name.
    EmptyNicBackend {
        /// Index into `nics`.
        index: usize,
    },
}

/// What a [`ConfigError`] says.
pub enum ConfigErrorView {
    Parse { source: Seq<char> },
    Serialize { source: Seq<char> },
    Read { path: Seq<char>, source: Seq<char> },
    InvalidName,
    InvalidCpus { cpus: u32 },
    InvalidRam { ram_mib: u64 },
    MissingFile { field: Seq<char>, path: Seq<char> },
    SerialLogDir { path: Seq<char> },
    EmptyNicBackend { index: nat },
}

impl View for ConfigError {
    type V = ConfigErrorView;

    open spec fn view(&self) -> ConfigErrorView {
        match self {
            ConfigError::Parse { source } => ConfigErrorView::Parse { source: source@ },
            ConfigError::Serialize { source } => ConfigErrorView::Serialize { source: source@ },
            ConfigError::Read { path, source } => ConfigErrorView::Read {
                path: path@,
                source: source@,
            },
            ConfigError::InvalidName => ConfigErrorView::InvalidName,
            ConfigError::InvalidCpus { cpus } => ConfigErrorView::InvalidCpus { cpus: *cpus },
            ConfigError::InvalidRam { ram_mib } => ConfigErrorView::InvalidRam {
                ram_mib: *ram_mib,
            },
            ConfigError::MissingFile { field, path } => ConfigErrorView::MissingFile {
                field: field@,
                path: path@,
            },
            ConfigError::SerialLogDir { path } => ConfigErrorView::SerialLogDir { path: path@ },
            ConfigError::EmptyNicBackend { index } => ConfigErrorView::EmptyNicBackend {
                index: *index as nat,
            },
        }
    }
}

impl ConfigErrorView {
    /// The message for `self`.
    pub open spec fn text(self) -> Seq<char> {
        match self {
            ConfigErrorView::Parse { source } => "parse VM config: "@ + source,
            ConfigErrorView::Serialize { source } => "serialize VM config: "@ + source,
            ConfigErrorView::Read { path, source } => "read VM config "@ + path + ": "@ + source,
            ConfigErrorView::InvalidName => {
                "name must be a non-empty ASCII identifier (letters, digits, '-' or '_')"@
            },
            ConfigErrorView::InvalidCpus { cpus } => "cpus must be from 1 to 16, got "@
                + crate::text::dec(cpus as nat),
            ConfigErrorView::InvalidRam { ram_mib } => {
                "ram_mib must be a positive multiple of 16, got "@ + crate::text::dec(
                    ram_mib as nat,
                )
            },
            ConfigErrorView::MissingFile { field, path } => field
                + " is not an existing file: "@ + path,
            ConfigErrorView::SerialLogDir { path } => {
                "serial_log parent is not an existing directory: "@ + path
            },
            ConfigErrorView::EmptyNicBackend { index } => "nics["@ + crate::text::dec(index)
                + "].backend is empty"@,
        }
    }
}

impl ConfigError {
    /// What went wrong, in words.
    pub fn message(&self) -> (s: String)
        ensures
            s@ == self@.text(),
    {
        let mut s: String = String::new();
        match self {
            ConfigError::Parse { source } => {
                s.append("parse VM config: ");
                s.append(source.as_str());
            },
            ConfigError::Serialize { source } => {
                s.append("serialize VM config: ");
                s.append(source.as_str());
            },
            ConfigError::Read { path, source } => {
                s.append("read VM config ");
                s.append(path.as_str());
                s.append(": ");
                s.append(source.as_str());
            },
            ConfigError::InvalidName => {
                s.append("name must be a non-empty ASCII identifier (letters, digits, '-' or '_')");
            },
            ConfigError::InvalidCpus { cpus } => {
                s.append("cpus must be from 1 to 16, got ");
                push_dec(&mut s, *cpus as u64);
            },
            ConfigError::InvalidRam { ram_mib } => {
                s.append("ram_mib must be a positive multiple of 16, got ");
                push_dec(&mut s, *ram_mib);
            },
            ConfigError::MissingFile { field, path } => {
                s.append(field.as_str());
                s.append(" is not an existing file: ");
                s.append(path.as_str());
            },
            ConfigError::SerialLogDir { path } => {
                s.append("serial_log parent is not an existing directory: ");
                s.append(path.as_str());
            },
            ConfigError::EmptyNicBackend { index } => {
                s.append("nics[");
                push_dec(&mut s, *index as u64);
                s.append("].backend is empty");
            },
        }
        assert(s@ =~= self@.text());
        s
    }
}

/// Error type that every part can return without knowing the others.
///
/// Subsystems map their own errors into [`TernvaleError::Subsystem`].
/// Config failures use [`TernvaleError::Config`].
#[derive(Debug, Clone, PartialEq, Eq)]
pub enum TernvaleError {
    /// VM config parse or validation failed.
    Config(ConfigError),
    /// A failure from another part, labeled with that part's subsystem.
    Subsystem {
        /// Short subsystem name, such as `hv` or `vmm`.
        subsystem: &'static str,
        /// Already-rendered cause. The source owns the typed error.
        message: String,
    },
}

impl TernvaleError {
    /// Wrap a message from another part.
    pub fn subsystem(subsystem: &'static str, message: String) -> (e: Self)
        ensures
            e == (TernvaleError::Subsystem { subsystem, message }),
    {
        TernvaleError::Subsystem { subsystem, message }
    }

    /// The message for `self`.
    pub open spec fn text(self) -> Seq<char> {
        match self {
            TernvaleError::Config(e) => e@.text(),
            TernvaleError::Subsystem { subsystem, message } => subsystem@ + ": "@ + message@,
        }
    }

    /// What went wrong, in words.
    pub fn message(&self) -> (s: String)
        ensures
            s@ == self.text(),
    {
        match self {
            TernvaleError::Config(e) => e.message(),
            TernvaleError::Subsystem { subsystem, message } => {
                let mut s: String = String::new();
                s.append(*subsystem);
                s.append(": ");
                s.append(message.as_str());
                assert(s@ =~= self.text());
                s
            },
        }
    }
}

impl From<ConfigError> for TernvaleError {
    fn from(e: ConfigError) -> (r: Self) {
        TernvaleError::Config(e)
    }
}

impl vstd::std_specs::convert::FromSpecImpl<ConfigError> for TernvaleError {
    open spec fn obeys_from_spec() -> bool {
        true
    }

    open spec fn from_spec(e: ConfigError) -> Self {
        TernvaleError::Config(e)
    }
}

} // verus!
