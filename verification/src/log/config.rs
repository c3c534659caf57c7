//! Logger configuration.
use vstd::prelude::*;

use super::error::LogError;
use crate::config::vm::name_ok;
use crate::text::chars_of;

verus! {

broadcast use vstd::group_vstd_default;

/// Settings for the logger.
///
/// `level` is the `EnvFilter` directive used when `TERNVALE_LOG` is unset.
/// The default directive is `info`.
#[derive(Debug, Clone, PartialEq, Eq)]
pub struct LogConfig {
    /// VM name embedded in the log file name.
    pub vm_name: String,
    /// Fallback `EnvFilter` directive when `TERNVALE_LOG` is unset.
    pub level: String,
    /// Directory that receives `ternvale-<vm>-<timestamp>.log`.
    pub log_dir: String,
    /// Write the file layer as JSON. Stderr stays human-readable.
    pub json: bool,
}

/// The value of an environment variable.
#[derive(Debug, Clone, PartialEq, Eq)]
pub enum EnvValue {
    /// The variable is not set.
    Missing,
    /// The value is not Unicode.
    NotUnicode,
    /// The value.
    Text(String),
}

/// `name` inside directory `dir`. A separator is added where `dir` does not end in one.
pub open spec fn path_in(dir: Seq<char>, name: Seq<char>) -> Seq<char> {
    if dir.len() == 0 || dir.last() == '/' {
        dir + name
    } else {
        dir + "/"@ + name
    }
}

/// `name`, a relative path, inside directory `dir`.
pub fn join_path(dir: &str, name: &str) -> (path: String)
    ensures
        path@ == path_in(dir@, name@),
{
    let chars = chars_of(dir);
    let n: usize = chars.len();
    let mut path: String = String::new();
    path.append(dir);
    if n > 0 && chars[n - 1] != '/' {
        path.append("/");
    }
    path.append(name);
    assert(path@ =~= path_in(dir@, name@));
    path
}

impl LogConfig {
    /// Config with level `info`, JSON off, and `log_dir` chosen by the caller.
    pub fn new(vm_name: &str, log_dir: &str) -> (c: Self)
        ensures
            c.vm_name@ == vm_name@,
            c.level@ == "info"@,
            c.log_dir@ == log_dir@,
            !c.json,
    {
        LogConfig {
            vm_name: vm_name.to_owned(),
            level: "info".to_owned(),
            log_dir: log_dir.to_owned(),
            json: false,
        }
    }

    /// `~/Library/Logs/Ternvale`, the default directory. `home` is the value of `HOME`.
    pub fn default_log_dir(home: &EnvValue) -> (r: Result<String, LogError>)
        ensures
            match home {
                EnvValue::Text(dir) => r matches Ok(path) && path@ == path_in(
                    dir@,
                    "Library/Logs/Ternvale"@,
                ),
                EnvValue::Missing => r == Err::<String, LogError>(LogError::HomeMissing),
                EnvValue::NotUnicode => r == Err::<String, LogError>(LogError::HomeNotUnicode),
            },
    {
        match home {
            EnvValue::Text(dir) => Ok(join_path(dir.as_str(), "Library/Logs/Ternvale")),
            EnvValue::Missing => Err(LogError::HomeMissing),
            EnvValue::NotUnicode => Err(LogError::HomeNotUnicode),
        }
    }
}

/// Accept names of ASCII letters, digits, hyphens, and underscores.
pub fn validate_vm_name(vm_name: &str) -> (r: Result<(), LogError>)
    ensures
        r == (if crate::config::vm::is_name(vm_name@) {
            Ok::<(), LogError>(())
        } else {
            Err(LogError::InvalidVmName)
        }),
{
    if name_ok(vm_name) {
        Ok(())
    } else {
        Err(LogError::InvalidVmName)
    }
}

/// The filter directive to use. `env` is the value of `TERNVALE_LOG`.
pub fn filter_directive(level: &str, env: &EnvValue) -> (r: Result<String, LogError>)
    ensures
        level@.len() == 0 ==> r == Err::<String, LogError>(LogError::EmptyLevel),
        level@.len() > 0 ==> match env {
            EnvValue::Text(value) => r matches Ok(d) && d@ == value@,
            EnvValue::Missing => r matches Ok(d) && d@ == level@,
            EnvValue::NotUnicode => r == Err::<String, LogError>(LogError::EnvNotUnicode),
        },
{
    if level.is_empty() {
        return Err(LogError::EmptyLevel);
    }
    match env {
        EnvValue::Text(value) => Ok(value.clone()),
        EnvValue::Missing => Ok(level.to_owned()),
        EnvValue::NotUnicode => Err(LogError::EnvNotUnicode),
    }
}

/// The log file name of a VM at the time `stamp`.
pub open spec fn file_name(vm_name: Seq<char>, stamp: Seq<char>) -> Seq<char> {
    "ternvale-"@ + vm_name + "-"@ + stamp + ".log"@
}

/// The log file name of a VM at the time `stamp`.
pub fn stamped_file_name(vm_name: &str, stamp: &str) -> (s: String)
    ensures
        s@ == file_name(vm_name@, stamp@),
{
    let mut s: String = String::new();
    s.append("ternvale-");
    s.append(vm_name);
    s.append("-");
    s.append(stamp);
    s.append(".log");
    assert(s@ =~= file_name(vm_name@, stamp@));
    s
}

/// A decimal digit.
pub open spec fn is_digit(c: char) -> bool {
    '0' <= c <= '9'
}

/// A time: year, month, and day, a hyphen, then hour, minute, and second. Each takes two digits,
/// but the year takes four or more and can have a sign.
pub open spec fn is_stamp(s: Seq<char>) -> bool {
    &&& s.len() >= 15
    &&& s[s.len() - 7] == '-'
    &&& is_digit(s[0]) || s[0] == '+' || s[0] == '-'
    &&& forall|i: int| 0 < i < s.len() && i != s.len() - 7 ==> is_digit(#[trigger] s[i])
}

/// The log file name of a VM now.
pub fn log_file_name(vm_name: &str) -> (s: String)
    ensures
        exists|stamp: Seq<char>| is_stamp(stamp) && s@ == #[trigger] file_name(vm_name@, stamp),
{
    let stamp = local_stamp();
    stamped_file_name(vm_name, stamp.as_str())
}

/// `chrono::Local::now`, formatted as year, month, day, a hyphen, hour, minute, and second. The
/// clock and the time zone decide which; claimed is only that form. The call panics where the clock
/// stands before 1970, which no argument can rule out.
#[verifier::external_body]
fn local_stamp() -> (s: String)
    ensures
        is_stamp(s@),
{
    chrono::Local::now().format("%Y%m%d-%H%M%S").to_string()
}

/// What is known before the log directory is made: the name is good, and which directive is used.
pub fn prepare(config: &LogConfig, env: &EnvValue) -> (r: Result<String, LogError>)
    ensures
        !crate::config::vm::is_name(config.vm_name@) ==> r == Err::<String, LogError>(
            LogError::InvalidVmName,
        ),
        crate::config::vm::is_name(config.vm_name@) && config.level@.len() == 0 ==> r == Err::<
            String,
            LogError,
        >(LogError::EmptyLevel),
        crate::config::vm::is_name(config.vm_name@) && config.level@.len() > 0 ==> match env {
            EnvValue::Text(value) => r matches Ok(d) && d@ == value@,
            EnvValue::Missing => r matches Ok(d) && d@ == config.level@,
            EnvValue::NotUnicode => r == Err::<String, LogError>(LogError::EnvNotUnicode),
        },
{
    if let Err(e) = validate_vm_name(config.vm_name.as_str()) {
        return Err(e);
    }
    filter_directive(config.level.as_str(), env)
}

/// The path of a log file stays inside the log directory: with a name that is accepted, the file
/// name has no separator.
pub proof fn law_log_file_stays_in_its_directory(vm_name: Seq<char>, stamp: Seq<char>, i: int)
    requires
        crate::config::vm::is_name(vm_name),
        is_stamp(stamp),
        0 <= i < file_name(vm_name, stamp).len(),
    ensures
        file_name(vm_name, stamp)[i] != '/',
{
    reveal_strlit("ternvale-");
    reveal_strlit("-");
    reveal_strlit(".log");
    let name = file_name(vm_name, stamp);
    let a = "ternvale-"@.len() as int;
    let b = a + vm_name.len();
    let c = b + 1;
    let d = c + stamp.len();
    if i < a {
        assert(name[i] == "ternvale-"@[i]);
    } else if i < b {
        assert(name[i] == vm_name[i - a]);
        assert(crate::config::vm::name_char(vm_name[i - a]));
    } else if i < c {
        assert(name[i] == "-"@[i - b]);
    } else if i < d {
        assert(name[i] == stamp[i - c]);
    } else {
        assert(name[i] == ".log"@[i - d]);
    }
}

} // verus!
