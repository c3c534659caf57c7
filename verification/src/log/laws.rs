//! What holds of log names, directives, and records.
use vstd::prelude::*;

use super::config::{EnvValue, LogConfig};
use super::error::LogError;
use super::hv::{HvRecord, Level};

verus! {

broadcast use vstd::group_vstd_default;

/// A log file is named after its VM and its time: `ternvale-`, the VM, a hyphen, the time, and
/// `.log`. The name of the VM and the time can be read off it.
pub proof fn law_file_names_hold_vm_and_time(vm: &str, stamp: &str, s: String)
    requires
        call_ensures(super::config::stamped_file_name, (vm, stamp), s),
    ensures
        s@.len() == 9 + vm@.len() + 1 + stamp@.len() + 4,
        s@.take(9) == "ternvale-"@,
        s@.subrange(9, 9 + vm@.len() as int) == vm@,
        s@[9 + vm@.len() as int] == '-',
        s@.subrange(10 + vm@.len() as int, 10 + vm@.len() as int + stamp@.len()) == stamp@,
        s@.skip(10 + vm@.len() as int + stamp@.len()) == ".log"@,
{
    reveal_strlit("ternvale-");
    reveal_strlit("-");
    reveal_strlit(".log");
    let n = vm@.len() as int;
    let k = stamp@.len() as int;
    assert(s@.take(9) =~= "ternvale-"@);
    assert(s@.subrange(9, 9 + n) =~= vm@);
    assert(s@.subrange(10 + n, 10 + n + k) =~= stamp@);
    assert(s@.skip(10 + n + k) =~= ".log"@);
}

/// The name of a log file now has a time in it of eight digits or more, the first of which may be a
/// sign, a hyphen, and six digits.
pub proof fn law_file_names_of_now_have_a_time(vm: &str, s: String)
    requires
        call_ensures(super::config::log_file_name, (vm,), s),
    ensures
        s@.len() >= 9 + vm@.len() + 1 + 15 + 4,
        s@.take(9) == "ternvale-"@,
        s@.subrange(9, 9 + vm@.len() as int) == vm@,
        s@[9 + vm@.len() as int] == '-',
        s@.skip(s@.len() - 4) == ".log"@,
        s@[s@.len() - 11] == '-',
        forall|i: int|
            10 + vm@.len() < i < s@.len() - 4 && i != s@.len() - 11 ==> '0' <= #[trigger] s@[i] <= '9',
        ({
            let first = s@[10 + vm@.len() as int];
            '0' <= first <= '9' || first == '+' || first == '-'
        }),
{
    reveal_strlit("ternvale-");
    reveal_strlit("-");
    reveal_strlit(".log");
    let stamp = choose|stamp: Seq<char>|
        super::config::is_stamp(stamp) && s@ == #[trigger] super::config::file_name(vm@, stamp);
    let n = vm@.len() as int;
    let k = stamp.len() as int;
    assert(s@.take(9) =~= "ternvale-"@);
    assert(s@.subrange(9, 9 + n) =~= vm@);
    assert(s@.skip(s@.len() - 4) =~= ".log"@);
    assert(s@[s@.len() - 11] == stamp[k - 7]);
    assert(s@[10 + n] == stamp[0]);
    assert forall|i: int| 10 + n < i < s@.len() - 4 && i != s@.len() - 11 implies '0'
        <= #[trigger] s@[i] <= '9' by {
        assert(s@[i] == stamp[i - 10 - n]);
        assert(super::config::is_digit(stamp[i - 10 - n]));
    }
}

/// A path in a directory is the directory and the name, with one slash between them where the
/// directory does not end in one or is empty.
pub proof fn law_paths_have_one_slash(dir: &str, name: &str, path: String)
    requires
        call_ensures(super::config::join_path, (dir, name), path),
    ensures
        ({
            let n = dir@.len() as int;
            let bare = n == 0 || dir@[n - 1] == '/';
            &&& path@.take(n) == dir@
            &&& bare ==> path@.skip(n) == name@
            &&& !bare ==> path@.len() == n + 1 + name@.len() && path@[n] == '/' && path@.skip(n + 1)
                == name@
        }),
{
    reveal_strlit("/");
    let n = dir@.len() as int;
    assert(path@.take(n) =~= dir@);
    if n == 0 || dir@[n - 1] == '/' {
        assert(path@.skip(n) =~= name@);
    } else {
        assert(path@.skip(n + 1) =~= name@);
    }
}

/// The settings of a new logger are those given, level `info`, and no JSON. The default directory
/// is under the home directory, and there is none without one that is text.
pub proof fn law_loggers_start_at_info(
    vm: &str,
    dir: &str,
    c: LogConfig,
    home: &EnvValue,
    r: Result<String, LogError>,
)
    requires
        call_ensures(LogConfig::new, (vm, dir), c),
        call_ensures(LogConfig::default_log_dir, (home,), r),
    ensures
        c.vm_name@ == vm@ && c.log_dir@ == dir@ && c.level@ == "info"@ && !c.json,
        home is Missing ==> r == Err::<String, LogError>(LogError::HomeMissing),
        home is NotUnicode ==> r == Err::<String, LogError>(LogError::HomeNotUnicode),
        home matches EnvValue::Text(h) ==> (r matches Ok(p) && p@.take(h@.len() as int) == h@
            && p@.skip(p@.len() - 21) == "Library/Logs/Ternvale"@),
{
    reveal_strlit("Library/Logs/Ternvale");
    reveal_strlit("/");
    match home {
        EnvValue::Text(h) => {
            let p = r->Ok_0;
            assert(p@.take(h@.len() as int) =~= h@);
            assert(p@.skip(p@.len() - 21) =~= "Library/Logs/Ternvale"@);
        },
        _ => {},
    }
}

/// Which directive is used: the environment's, else the level, which may not be empty. A name that
/// cannot stand in a file name is refused before that.
pub proof fn law_the_environment_decides_the_directive(
    config: &LogConfig,
    level: &str,
    vm: &str,
    env: &EnvValue,
    p: Result<String, LogError>,
    d: Result<String, LogError>,
    v: Result<(), LogError>,
)
    requires
        level@ == config.level@,
        vm@ == config.vm_name@,
        call_ensures(super::config::prepare, (config, env), p),
        call_ensures(super::config::filter_directive, (level, env), d),
        call_ensures(super::config::validate_vm_name, (vm,), v),
    ensures
        v is Ok <==> crate::config::vm::usable_name(config.vm_name@),
        v matches Err(e) ==> e == LogError::InvalidVmName,
        config.level@.len() == 0 ==> d == Err::<String, LogError>(LogError::EmptyLevel),
        config.level@.len() > 0 && env is NotUnicode ==> d == Err::<String, LogError>(
            LogError::EnvNotUnicode,
        ),
        config.level@.len() > 0 && env is Missing ==> (d matches Ok(s) && s@ == config.level@),
        config.level@.len() > 0 ==> (env matches EnvValue::Text(t) ==> (d matches Ok(s) && s@
            == t@)),
        !crate::config::vm::usable_name(config.vm_name@) ==> p == Err::<String, LogError>(
            LogError::InvalidVmName,
        ),
        crate::config::vm::usable_name(config.vm_name@) ==> (p is Ok <==> d is Ok),
        crate::config::vm::usable_name(config.vm_name@) && p is Ok ==> p->Ok_0@ == d->Ok_0@,
        crate::config::vm::usable_name(config.vm_name@) && p is Err ==> p->Err_0 == d->Err_0,
{
    crate::config::vm::law_names_are_letters_digits_hyphens_underscores(config.vm_name@);
}

/// A filter is kept with its directive, and a refusal with the directive and its reason.
pub proof fn law_filters_keep_their_directive(
    directive: &str,
    parsed: Result<super::filter::Filter, String>,
    r: Result<super::filter::Filter, LogError>,
    b: Result<super::filter::Filter, LogError>,
    f: &super::filter::Filter,
    text: &str,
)
    requires
        call_ensures(super::subscriber::finish, (directive, parsed), r),
        call_ensures(super::subscriber::build, (directive,), b),
        call_ensures(super::filter::Filter::text, (f,), text),
    ensures
        parsed matches Ok(g) ==> (r matches Ok(h) && h == g),
        parsed matches Err(why) ==> (r matches Err(LogError::InvalidFilter { directive: d, source })
            && d@ == directive@ && source@ == why@),
        b matches Ok(g) ==> g.directive() == directive@,
        b matches Err(e) ==> (e matches LogError::InvalidFilter { directive: d, source } && d@
            == directive@),
        directive@.len() == 0 ==> b is Ok,
        text@ == f.directive(),
{
}

/// A call into the hypervisor leaves a record of its name, its arguments, and its code, and a
/// second one at ERROR when the code is not zero. The code is handed on.
pub proof fn law_calls_are_recorded(
    log: &mut Vec<HvRecord>,
    name: &str,
    args: &str,
    code: i32,
    r: i32,
    i: int,
)
    requires
        call_ensures(super::hv::log_hv_result, (log, name, args, code), r),
    ensures
        ({
            let n = old(log)@.len() as int;
            let after = final(log)@;
            &&& r == code
            &&& after.len() == n + if code == 0 {
                1int
            } else {
                2int
            }
            &&& 0 <= i < n ==> after[i].level == old(log)@[i].level && after[i].name@ == old(log)@[i].name@ && after[i].args@ == old(log)@[i].args@ && after[i].result_code == old(log)@[i].result_code
            &&& after[n].level == Level::Trace && after[n].name@ == name@ && after[n].args@ == args@
            &&& after[n].result_code == code && after[n].message@ == "hv call completed"@
            &&& code != 0 ==> {
                &&& after[n + 1].level == Level::Error && after[n + 1].name@ == name@
                &&& after[n + 1].args@ == args@ && after[n + 1].result_code == code
                &&& after[n + 1].message@ == "hv call failed"@
            }
        }),
{
    let n = old(log)@.len() as int;
    let was = super::hv::records(old(log)@);
    let now = super::hv::records(final(log)@);
    assert(now.len() == final(log)@.len());
    assert(now[n] == final(log)@[n]@);
    if code != 0 {
        assert(now[n + 1] == final(log)@[n + 1]@);
    }
    if 0 <= i < n {
        assert(now[i] == was[i]);
        assert(now[i] == final(log)@[i]@);
        assert(was[i] == old(log)@[i]@);
    }
}

/// A panic is described by its text, or by a stand-in, and by file, line, and column.
pub proof fn law_panics_are_described(
    payload: Option<&str>,
    s: String,
    at: Option<(&str, u32, u32)>,
    t: String,
)
    requires
        call_ensures(super::panic_text::panic_message, (payload,), s),
        call_ensures(super::panic_text::panic_location, (at,), t),
    ensures
        payload matches Some(text) ==> s@ == text@,
        payload is None ==> s@ == "non-string panic payload"@,
        at is None ==> t@ == "unknown"@,
        at matches Some((file, line, column)) ==> t@ == file@ + ":"@ + crate::text::dec(
            line as nat,
        ) + ":"@ + crate::text::dec(column as nat),
{
}

/// What each error says.
pub proof fn law_log_errors_say_what_is_wrong(e: LogError, s: String)
    requires
        call_ensures(LogError::message, (&e,), s),
    ensures
        match e {
            LogError::InvalidVmName => s@ == "vm name is empty or contains a path separator"@,
            LogError::EmptyLevel => s@ == "log level directive is empty"@,
            LogError::HomeMissing => s@
                == "HOME is not set; cannot resolve ~/Library/Logs/Ternvale"@,
            LogError::HomeNotUnicode => s@ == "HOME is not valid unicode"@,
            LogError::EnvNotUnicode => s@ == "TERNVALE_LOG is not valid unicode"@,
            LogError::InvalidFilter { directive, source } => s@ == "invalid log filter directive "@
                + directive@ + ": "@ + source@,
            LogError::CreateLogDir { path, source } => s@ == "create log directory "@ + path@
                + ": "@ + source@,
        },
{
}

} // verus!
