//! Errors from installing the logger.
use vstd::prelude::*;

verus! {

broadcast use vstd::group_vstd_default;

/// Failure while building or installing the global logger.
#[derive(Debug, Clone, PartialEq, Eq)]
pub enum LogError {
    /// `vm_name` would escape the log directory or produce an ambiguous file name.
    InvalidVmName,
    /// `LogConfig::level` was empty. The fallback directive must be non-empty.
    EmptyLevel,
    /// `HOME` is unset, so the default log directory cannot be built.
    HomeMissing,
    /// `HOME` was present but not Unicode.
    HomeNotUnicode,
    /// `TERNVALE_LOG` was present but not Unicode.
    EnvNotUnicode,
    /// `TERNVALE_LOG` or `LogConfig::level` was not a valid `EnvFilter` directive.
    InvalidFilter {
        /// The directive that failed to parse.
        directive: String,
        /// What the filter parser said.
        source: String,
    },
    /// The log directory could not be created.
    CreateLogDir {
        /// Directory we tried to create.
        path: String,
        /// IO error.
        source: String,
    },
}

impl LogError {
    /// The message for `self`.
    pub open spec fn text(self) -> Seq<char> {
        match self {
            LogError::InvalidVmName => "vm name is empty or contains a path separator"@,
            LogError::EmptyLevel => "log level directive is empty"@,
            LogError::HomeMissing => "HOME is not set; cannot resolve ~/Library/Logs/Ternvale"@,
            LogError::HomeNotUnicode => "HOME is not valid unicode"@,
            LogError::EnvNotUnicode => "TERNVALE_LOG is not valid unicode"@,
            LogError::InvalidFilter { directive, source } => "invalid log filter directive "@
                + directive@ + ": "@ + source@,
            LogError::CreateLogDir { path, source } => "create log directory "@ + path@ + ": "@
                + source@,
        }
    }

    /// What went wrong, in words.
    pub fn message(&self) -> (s: String)
        ensures
            s@ == self.text(),
    {
        let mut s: String = String::new();
        match self {
            LogError::InvalidVmName => s.append("vm name is empty or contains a path separator"),
            LogError::EmptyLevel => s.append("log level directive is empty"),
            LogError::HomeMissing => {
                s.append("HOME is not set; cannot resolve ~/Library/Logs/Ternvale");
            },
            LogError::HomeNotUnicode => s.append("HOME is not valid unicode"),
            LogError::EnvNotUnicode => s.append("TERNVALE_LOG is not valid unicode"),
            LogError::InvalidFilter { directive, source } => {
                s.append("invalid log filter directive ");
                s.append(directive.as_str());
                s.append(": ");
                s.append(source.as_str());
            },
            LogError::CreateLogDir { path, source } => {
                s.append("create log directory ");
                s.append(path.as_str());
                s.append(": ");
                s.append(source.as_str());
            },
        }
        assert(s@ =~= self.text());
        s
    }
}

} // verus!
