//! Records of hypervisor calls, on the target `ternvale::hv`.
use vstd::prelude::*;

verus! {

broadcast use vstd::group_vstd_default;

/// How important a record is.
#[derive(Debug, Clone, Copy, PartialEq, Eq, Structural)]
pub enum Level {
    /// For tracing every call.
    Trace,
    /// For calls that failed.
    Error,
}

/// One line about a call.
#[derive(Debug, Clone, PartialEq, Eq)]
pub struct HvRecord {
    /// How important it is.
    pub level: Level,
    /// Name of the framework function.
    pub name: String,
    /// Its arguments.
    pub args: String,
    /// Its return code.
    pub result_code: i32,
    /// What happened.
    pub message: &'static str,
}

/// What an [`HvRecord`] says.
pub struct RecordView {
    pub level: Level,
    pub name: Seq<char>,
    pub args: Seq<char>,
    pub result_code: i32,
    pub message: Seq<char>,
}

impl View for HvRecord {
    type V = RecordView;

    open spec fn view(&self) -> RecordView {
        RecordView {
            level: self.level,
            name: self.name@,
            args: self.args@,
            result_code: self.result_code,
            message: self.message@,
        }
    }
}

/// What each record says.
pub open spec fn records(log: Seq<HvRecord>) -> Seq<RecordView> {
    Seq::new(log.len(), |i: int| log[i]@)
}

/// The records of a call: one at TRACE always, and one at ERROR when the code is not zero.
pub open spec fn records_of(name: Seq<char>, args: Seq<char>, code: i32) -> Seq<RecordView> {
    let done = RecordView {
        level: Level::Trace,
        name,
        args,
        result_code: code,
        message: "hv call completed"@,
    };
    let failed = RecordView {
        level: Level::Error,
        name,
        args,
        result_code: code,
        message: "hv call failed"@,
    };
    if code == 0 {
        seq![done]
    } else {
        seq![done, failed]
    }
}

/// Log one Hypervisor.framework call.
///
/// Always records TRACE with `name`, `args`, and the code. A non-zero code
/// is also recorded at ERROR. Returns `code`.
pub fn log_hv_result(log: &mut Vec<HvRecord>, name: &str, args: &str, code: i32) -> (r: i32)
    ensures
        r == code,
        records(final(log)@) == records(old(log)@) + records_of(name@, args@, code),
{
    log.push(
        HvRecord {
            level: Level::Trace,
            name: name.to_owned(),
            args: args.to_owned(),
            result_code: code,
            message: "hv call completed",
        },
    );
    if code != 0 {
        log.push(
            HvRecord {
                level: Level::Error,
                name: name.to_owned(),
                args: args.to_owned(),
                result_code: code,
                message: "hv call failed",
            },
        );
    }
    assert(records(log@) =~= records(old(log)@) + records_of(name@, args@, code));
    code
}

/// A call leaves a record at ERROR exactly when its code is not zero.
pub proof fn law_only_failures_are_errors(name: Seq<char>, args: Seq<char>, code: i32, i: int)
    requires
        0 <= i < records_of(name, args, code).len(),
    ensures
        code == 0 ==> records_of(name, args, code)[i].level == Level::Trace,
        code != 0 ==> records_of(name, args, code).last().level == Level::Error,
        records_of(name, args, code)[i].result_code == code,
{
}

} // verus!
