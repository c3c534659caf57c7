//! Expect-style steps over a growing guest serial transcript.
//!
//! A [`Step::Expect`] matches only text that arrived after the previous step, so a
//! banner that already contains a later pattern does not satisfy that step.
use vstd::prelude::*;

use crate::text::chars_of;

verus! {

broadcast use vstd::group_vstd_default;

/// A span of time.
#[derive(Debug, Clone, Copy, PartialEq, Eq, Structural)]
pub struct Duration {
    /// Length in nanoseconds.
    pub nanos: u128,
}

/// A reading of a clock that never goes back.
#[derive(Debug, Clone, Copy, PartialEq, Eq, Structural)]
pub struct Instant {
    /// Nanoseconds since the clock started.
    pub nanos: u128,
}

impl Duration {
    /// `ms` milliseconds.
    pub fn from_millis(ms: u64) -> (d: Self)
        ensures
            d.nanos == ms * 1_000_000,
    {
        Duration { nanos: ms as u128 * 1_000_000 }
    }

    /// `secs` seconds.
    pub fn from_secs(secs: u64) -> (d: Self)
        ensures
            d.nanos == secs * 1_000_000_000,
    {
        Duration { nanos: secs as u128 * 1_000_000_000 }
    }
}

impl Instant {
    /// Nanoseconds from `earlier` to `self`. None when `earlier` is later.
    pub open spec fn since(self, earlier: Instant) -> int {
        if self.nanos >= earlier.nanos {
            self.nanos - earlier.nanos
        } else {
            0
        }
    }

    /// Time from `earlier` to `self`, or none when `earlier` is later.
    pub fn saturating_duration_since(&self, earlier: Instant) -> (d: Duration)
        ensures
            d.nanos == self.since(earlier),
    {
        if self.nanos >= earlier.nanos {
            Duration { nanos: self.nanos - earlier.nanos }
        } else {
            Duration { nanos: 0 }
        }
    }
}

/// One harness action.
#[derive(Debug, Clone, PartialEq, Eq)]
pub enum Step {
    /// Wait until `pattern` appears in serial text produced after this step starts.
    Expect {
        /// Substring required in the new serial text.
        pattern: String,
        /// How long to wait before this step fails.
        timeout: Duration,
    },
    /// Bytes to write to the guest once the previous step has settled.
    Send {
        /// Host-to-guest bytes. Callers keep each write within the PL011 FIFO.
        data: Vec<u8>,
    },
}

/// What the runner should do on this poll.
#[derive(Debug, PartialEq, Eq)]
pub enum Progress {
    /// The current expect has not matched yet.
    Pending,
    /// Write these bytes, then poll again.
    Send(Vec<u8>),
    /// Every step completed.
    Done,
    /// The current expect exceeded its timeout.
    TimedOut {
        /// Index of the step that timed out.
        step: usize,
        /// Last lines of the serial transcript.
        last_lines: String,
    },
}

/// What a [`Progress`] says.
pub enum ProgressView {
    Pending,
    Send(Seq<u8>),
    Done,
    TimedOut { step: nat, last_lines: Seq<char> },
}

impl View for Progress {
    type V = ProgressView;

    open spec fn view(&self) -> ProgressView {
        match self {
            Progress::Pending => ProgressView::Pending,
            Progress::Send(data) => ProgressView::Send(data@),
            Progress::Done => ProgressView::Done,
            Progress::TimedOut { step, last_lines } => ProgressView::TimedOut {
                step: *step as nat,
                last_lines: last_lines@,
            },
        }
    }
}

/// Cursor over [`Step`] values.
#[derive(Debug)]
pub struct Session {
    steps: Vec<Step>,
    index: usize,
    step_at: Instant,
    mark: usize,
}

/// Where a session is: the step, when it started, and how many bytes of transcript there were
/// then.
pub struct SessionView {
    pub steps: Seq<Step>,
    pub index: nat,
    pub step_at: Instant,
    pub mark: usize,
}

/// `pattern` occurs in `text`.
pub open spec fn occurs(text: Seq<char>, pattern: Seq<char>) -> bool {
    exists|i: int| occurs_at(text, pattern, i)
}

/// `pattern` occurs in `text` at position `i`.
pub open spec fn occurs_at(text: Seq<char>, pattern: Seq<char>, i: int) -> bool {
    0 <= i && i + pattern.len() <= text.len() && text.subrange(i, i + pattern.len()) == pattern
}

/// The length of `text` in bytes.
pub open spec fn byte_len(text: Seq<char>) -> usize {
    vstd::utf8::encode_utf8(text).len() as usize
}

/// The text of `serial` from byte `mark` on. Empty when no character starts there.
pub open spec fn text_from(serial: Seq<char>, mark: usize) -> Seq<char> {
    let bytes = vstd::utf8::encode_utf8(serial);
    if vstd::utf8::is_char_boundary(bytes, mark as int) {
        vstd::utf8::decode_utf8(bytes.subrange(mark as int, bytes.len() as int))
    } else {
        Seq::empty()
    }
}

/// How many lines a timeout reports.
pub const TAIL_LINES: usize = 20;

impl SessionView {
    /// The next step starts now, with `serial` already there.
    pub open spec fn advanced(self, serial: Seq<char>, now: Instant) -> SessionView {
        SessionView {
            index: self.index + 1,
            step_at: now,
            mark: byte_len(serial),
            ..self
        }
    }

    /// The session and the answer after a poll. Expects that match are passed; the first step
    /// that is not decides.
    pub open spec fn polled(self, serial: Seq<char>, now: Instant) -> (SessionView, ProgressView)
        decreases self.steps.len() - self.index,
    {
        if self.index >= self.steps.len() {
            (self, ProgressView::Done)
        } else {
            match self.steps[self.index as int] {
                Step::Send { data } => (self.advanced(serial, now), ProgressView::Send(data@)),
                Step::Expect { pattern, timeout } => if occurs(
                    text_from(serial, self.mark),
                    pattern@,
                ) {
                    self.advanced(serial, now).polled(serial, now)
                } else if now.since(self.step_at) >= timeout.nanos {
                    (
                        self,
                        ProgressView::TimedOut {
                            step: self.index,
                            last_lines: tail(serial, TAIL_LINES as nat),
                        },
                    )
                } else {
                    (self, ProgressView::Pending)
                },
            }
        }
    }
}

impl View for Session {
    type V = SessionView;

    closed spec fn view(&self) -> SessionView {
        SessionView {
            steps: self.steps@,
            index: self.index as nat,
            step_at: self.step_at,
            mark: self.mark,
        }
    }
}

impl Session {
    /// Start at the first step. `now` is the clock for the first timeout.
    pub fn new(steps: Vec<Step>, now: Instant) -> (s: Self)
        ensures
            s@ == (SessionView { steps: steps@, index: 0, step_at: now, mark: 0 }),
    {
        Session { steps, index: 0, step_at: now, mark: 0 }
    }

    /// Advance using `serial` as the transcript so far.
    pub fn poll(&mut self, serial: &str, now: Instant) -> (p: Progress)
        ensures
            (final(self)@, p@) == old(self)@.polled(serial@, now),
        decreases old(self)@.steps.len() - old(self)@.index,
    {
        if self.index >= self.steps.len() {
            return Progress::Done;
        }
        let (matched, timeout): (bool, Duration) = match &self.steps[self.index] {
            Step::Send { data } => {
                let data = vstd::slice::slice_to_vec(data.as_slice());
                self.advance(serial, now);
                return Progress::Send(data);
            },
            Step::Expect { pattern, timeout } => {
                let fresh = fresh_chars(serial, self.mark);
                let wanted = chars_of(pattern.as_str());
                (contains(&fresh, &wanted), *timeout)
            },
        };
        if matched {
            self.advance(serial, now);
            self.poll(serial, now)
        } else if now.saturating_duration_since(self.step_at).nanos >= timeout.nanos {
            Progress::TimedOut { step: self.index, last_lines: last_lines(serial, TAIL_LINES) }
        } else {
            Progress::Pending
        }
    }

    fn advance(&mut self, serial: &str, now: Instant)
        requires
            old(self)@.index < old(self)@.steps.len(),
        ensures
            final(self)@ == old(self)@.advanced(serial@, now),
    {
        let count: usize = self.steps.len();
        assert(self.index < count);
        self.index = self.index + 1;
        self.step_at = now;
        self.mark = serial.len();
    }

    /// True when the next action is a [`Step::Send`].
    pub fn waiting_to_send(&self) -> (b: bool)
        ensures
            b == (self@.index < self@.steps.len() && self@.steps[self@.index as int] is Send),
    {
        if self.index >= self.steps.len() {
            return false;
        }
        match &self.steps[self.index] {
            Step::Send { .. } => true,
            Step::Expect { .. } => false,
        }
    }
}

/// The characters of `serial` from byte `mark` on.
fn fresh_chars(serial: &str, mark: usize) -> (out: Vec<char>)
    ensures
        out@ == text_from(serial@, mark),
{
    if !serial.is_char_boundary(mark) {
        return Vec::new();
    }
    let (_, fresh) = serial.split_at(mark);
    proof {
        vstd::utf8::encode_utf8_decode_utf8(fresh@);
    }
    chars_of(fresh)
}

/// Whether `pattern` occurs in `text`.
fn contains(text: &Vec<char>, pattern: &Vec<char>) -> (b: bool)
    ensures
        b == occurs(text@, pattern@),
{
    let count: usize = text.len();
    if pattern.len() > count {
        return false;
    }
    let last: usize = count - pattern.len();
    let mut i: usize = 0;
    while i <= last
        invariant
            count == text@.len(),
            last == count - pattern@.len(),
            i <= last + 1,
            forall|j: int| 0 <= j < i ==> !occurs_at(text@, pattern@, j),
        decreases last + 1 - i,
    {
        let mut k: usize = 0;
        while k < pattern.len() && text[i + k] == pattern[k]
            invariant
                count == text@.len(),
                i <= last == count - pattern@.len(),
                k <= pattern@.len(),
                forall|j: int| 0 <= j < k ==> text@[i + j] == pattern@[j],
            decreases pattern@.len() - k,
        {
            k = k + 1;
        }
        if k == pattern.len() {
            assert(text@.subrange(i as int, i + pattern@.len()) =~= pattern@);
            assert(occurs_at(text@, pattern@, i as int));
            return true;
        }
        proof {
            if occurs_at(text@, pattern@, i as int) {
                assert(text@.subrange(i as int, i + pattern@.len())[k as int] == pattern@[k as int]);
            }
        }
        if i == last {
            return false;
        }
        i = i + 1;
    }
    false
}

/// Where the first newline at or after `from` is, or the end.
pub open spec fn line_end(s: Seq<char>, from: int) -> int
    decreases s.len() - from,
{
    if from >= s.len() || s[from] == '\n' {
        from
    } else {
        line_end(s, from + 1)
    }
}

/// A line without the carriage return of its line ending.
pub open spec fn without_cr(line: Seq<char>) -> Seq<char> {
    if line.len() > 0 && line.last() == '\r' {
        line.drop_last()
    } else {
        line
    }
}

/// The lines of `s` from position `from` on. A line ends at a newline, with or without a
/// carriage return before it; text after the last newline is a line too.
pub open spec fn lines_from(s: Seq<char>, from: int) -> Seq<Seq<char>>
    decreases s.len() - from,
{
    if from < 0 || from >= s.len() {
        Seq::empty()
    } else {
        let end = line_end(s, from);
        proof {
            lemma_line_end(s, from);
        }
        if end >= s.len() {
            seq![s.subrange(from, s.len() as int)]
        } else {
            seq![without_cr(s.subrange(from, end))] + lines_from(s, end + 1)
        }
    }
}

/// A line ends at a newline or at the end of the text.
pub proof fn lemma_line_end(s: Seq<char>, from: int)
    requires
        0 <= from <= s.len(),
    ensures
        from <= line_end(s, from) <= s.len(),
        line_end(s, from) < s.len() ==> s[line_end(s, from)] == '\n',
        forall|i: int| from <= i < line_end(s, from) ==> s[i] != '\n',
    decreases s.len() - from,
{
    if from < s.len() && s[from] != '\n' {
        lemma_line_end(s, from + 1);
    }
}

/// The lines with a newline between each two.
pub open spec fn joined(lines: Seq<Seq<char>>) -> Seq<char>
    decreases lines.len(),
{
    if lines.len() == 0 {
        Seq::empty()
    } else if lines.len() == 1 {
        lines[0]
    } else {
        joined(lines.drop_last()) + seq!['\n'] + lines.last()
    }
}

/// The last `n` lines of `serial`, joined.
pub open spec fn tail(serial: Seq<char>, n: nat) -> Seq<char> {
    let lines = lines_from(serial, 0);
    joined(
        lines.skip(
            if lines.len() > n {
                lines.len() - n
            } else {
                0
            },
        ),
    )
}

/// The line of each `(from, to)`.
spec fn spans(s: Seq<char>, at: Seq<(usize, usize)>) -> Seq<Seq<char>> {
    Seq::new(at.len(), |i: int| s.subrange(at[i].0 as int, at[i].1 as int))
}

/// Where each line of `s` begins and ends.
fn split_lines(s: &Vec<char>) -> (at: Vec<(usize, usize)>)
    ensures
        spans(s@, at@) == lines_from(s@, 0),
        forall|i: int| 0 <= i < at@.len() ==> (#[trigger] at@[i]).0 <= at@[i].1 <= s@.len(),
{
    let mut at: Vec<(usize, usize)> = Vec::new();
    let mut from: usize = 0;
    proof {
        assert(spans(s@, at@) + lines_from(s@, 0) =~= lines_from(s@, 0));
    }
    while from < s.len()
        invariant
            from <= s@.len(),
            spans(s@, at@) + lines_from(s@, from as int) == lines_from(s@, 0),
            forall|i: int| 0 <= i < at@.len() ==> (#[trigger] at@[i]).0 <= at@[i].1 <= s@.len(),
        decreases s@.len() - from,
    {
        let ghost before = at@;
        let mut end: usize = from;
        proof {
            lemma_line_end(s@, from as int);
        }
        while end < s.len() && s[end] != '\n'
            invariant
                from <= end <= line_end(s@, from as int) <= s@.len(),
                line_end(s@, end as int) == line_end(s@, from as int),
                line_end(s@, from as int) < s@.len() ==> s@[line_end(s@, from as int)] == '\n',
            decreases s@.len() - end,
        {
            end = end + 1;
        }
        if end >= s.len() {
            at.push((from, end));
            proof {
                assert(spans(s@, at@) =~= spans(s@, before) + lines_from(s@, from as int));
                assert(spans(s@, at@) + lines_from(s@, end as int) =~= spans(s@, at@));
            }
            from = end;
        } else {
            let stop: usize = if end > from && s[end - 1] == '\r' {
                end - 1
            } else {
                end
            };
            at.push((from, stop));
            proof {
                let line = s@.subrange(from as int, end as int);
                assert(without_cr(line) =~= s@.subrange(from as int, stop as int));
                assert(spans(s@, at@) + lines_from(s@, end + 1) =~= spans(s@, before) + (seq![
                    without_cr(line),
                ] + lines_from(s@, end + 1)));
            }
            from = end + 1;
        }
    }
    proof {
        assert(spans(s@, at@) + Seq::<Seq<char>>::empty() =~= spans(s@, at@));
    }
    at
}

/// Last `n` lines, keeping a short tail when the transcript is long.
pub fn last_lines(serial: &str, n: usize) -> (out: String)
    ensures
        out@ == tail(serial@, n as nat),
{
    let s = chars_of(serial);
    let at = split_lines(&s);
    let start: usize = if at.len() > n {
        at.len() - n
    } else {
        0
    };
    let mut out: String = String::new();
    let mut i: usize = start;
    let ghost lines = lines_from(serial@, 0);
    proof {
        assert(lines.subrange(start as int, start as int) =~= Seq::<Seq<char>>::empty());
    }
    while i < at.len()
        invariant
            s@ == serial@,
            start <= i <= at@.len(),
            lines == spans(s@, at@),
            forall|k: int| 0 <= k < at@.len() ==> (#[trigger] at@[k]).0 <= at@[k].1 <= s@.len(),
            out@ == joined(lines.subrange(start as int, i as int)),
        decreases at@.len() - i,
    {
        let (from, to): (usize, usize) = at[i];
        let ghost before = lines.subrange(start as int, i as int);
        let ghost after = lines.subrange(start as int, i + 1);
        let line = crate::text::string_of(&s, from, to);
        if i > start {
            out.push('\n');
        }
        let ghost mid = out@;
        out.append(line.as_str());
        proof {
            assert(after.drop_last() =~= before);
            assert(after.last() == line@);
            if i > start {
                assert(mid =~= joined(before) + seq!['\n']);
                assert(out@ =~= joined(after));
            } else {
                assert(out@ =~= after[0]);
            }
        }
        i = i + 1;
    }
    proof {
        assert(lines.subrange(start as int, lines.len() as int) =~= lines.skip(start as int));
    }
    out
}

proof fn lemma_encode_concat(a: Seq<char>, b: Seq<char>)
    ensures
        vstd::utf8::encode_utf8(a + b) == vstd::utf8::encode_utf8(a) + vstd::utf8::encode_utf8(b),
    decreases a.len(),
{
    if a.len() == 0 {
        assert(a + b =~= b);
        assert(vstd::utf8::encode_utf8(a) + vstd::utf8::encode_utf8(b)
            =~= vstd::utf8::encode_utf8(b));
    } else {
        lemma_encode_concat(a.drop_first(), b);
        assert((a + b).drop_first() =~= a.drop_first() + b);
        assert(vstd::utf8::encode_utf8(a + b) =~= vstd::utf8::encode_utf8(a)
            + vstd::utf8::encode_utf8(b));
    }
}

proof fn lemma_boundary(a: Seq<char>, b: Seq<char>)
    ensures
        vstd::utf8::is_char_boundary(
            vstd::utf8::encode_utf8(a + b),
            vstd::utf8::encode_utf8(a).len() as int,
        ),
    decreases a.len(),
{
    vstd::utf8::encode_utf8_valid_utf8(a + b);
    if a.len() > 0 {
        let whole = a + b;
        let bytes = vstd::utf8::encode_utf8(whole);
        vstd::utf8::encode_utf8_first_scalar(whole);
        assert(whole[0] == a[0]);
        assert(whole.drop_first() =~= a.drop_first() + b);
        lemma_boundary(a.drop_first(), b);
        lemma_encode_concat(a, b);
        assert(vstd::utf8::pop_first_scalar(bytes) =~= vstd::utf8::encode_utf8(
            whole.drop_first(),
        ));
    }
}

/// A step sees exactly the text that arrived after it started: when the transcript has grown
/// from `before` by `more`, that is `more`.
pub proof fn law_steps_see_only_new_text(
    s: SessionView,
    before: Seq<char>,
    more: Seq<char>,
    now: Instant,
)
    requires
        vstd::utf8::encode_utf8(before).len() <= usize::MAX,
    ensures
        text_from(before + more, s.advanced(before, now).mark) == more,
{
    let a = vstd::utf8::encode_utf8(before);
    let b = vstd::utf8::encode_utf8(more);
    lemma_encode_concat(before, more);
    lemma_boundary(before, more);
    assert((a + b).subrange(a.len() as int, (a + b).len() as int) =~= b);
    vstd::utf8::encode_utf8_decode_utf8(more);
}

/// A session never goes back, and never past its last step. It times out at the step that it is
/// at, and only then reports a tail.
pub proof fn law_sessions_go_forward(s: SessionView, serial: Seq<char>, now: Instant)
    requires
        s.index <= s.steps.len(),
    ensures
        ({
            let (after, progress) = s.polled(serial, now);
            &&& after.steps == s.steps
            &&& s.index <= after.index <= s.steps.len()
            &&& progress is Done ==> after.index == s.steps.len()
            &&& progress is Send ==> after.index > 0 && s.steps[after.index - 1] is Send
            &&& progress is Pending ==> after.index < s.steps.len()
                && s.steps[after.index as int] is Expect
            &&& progress matches ProgressView::TimedOut { step, last_lines } ==> step
                == after.index && last_lines == tail(serial, TAIL_LINES as nat)
        }),
    decreases s.steps.len() - s.index,
{
    if s.index < s.steps.len() {
        match s.steps[s.index as int] {
            Step::Send { data } => {},
            Step::Expect { pattern, timeout } => {
                if occurs(text_from(serial, s.mark), pattern@) {
                    law_sessions_go_forward(s.advanced(serial, now), serial, now);
                }
            },
        }
    }
}

/// Sends come in the order of the steps, none left out: what a poll has written is the first send
/// from the current step on, and the session goes on behind it. Only expects are passed on the
/// way, and a poll that has nothing written passes no send.
pub proof fn law_sends_come_in_order(s: SessionView, serial: Seq<char>, now: Instant)
    requires
        s.index <= s.steps.len(),
    ensures
        ({
            let (after, progress) = s.polled(serial, now);
            let end = if progress is Send {
                after.index - 1
            } else {
                after.index as int
            };
            &&& s.index <= end <= after.index <= s.steps.len()
            &&& forall|i: int| s.index <= i < end ==> #[trigger] s.steps[i] is Expect
            &&& progress matches ProgressView::Send(data) ==> s.steps[end] is Send && data
                == s.steps[end]->data@
        }),
    decreases s.steps.len() - s.index,
{
    if s.index < s.steps.len() {
        match s.steps[s.index as int] {
            Step::Send { data } => {},
            Step::Expect { pattern, timeout } => {
                if occurs(text_from(serial, s.mark), pattern@) {
                    law_sends_come_in_order(s.advanced(serial, now), serial, now);
                }
            },
        }
    }
}

/// A session that is done stays done.
pub proof fn law_done_is_final(s: SessionView, serial: Seq<char>, now: Instant)
    requires
        s.index >= s.steps.len(),
    ensures
        s.polled(serial, now) == (s, ProgressView::Done),
{
}

/// `pattern` is found in `text`: each of its characters, one after the other, from some position
/// on.
pub open spec fn found(text: Seq<char>, pattern: Seq<char>) -> bool {
    exists|i: int|
        0 <= i <= text.len() - pattern.len() && #[trigger] same_from(text, i, pattern)
}

/// The characters of `text` from position `i` on are those of `pattern`.
pub open spec fn same_from(text: Seq<char>, i: int, pattern: Seq<char>) -> bool {
    forall|k: int| 0 <= k < pattern.len() ==> text[i + k] == #[trigger] pattern[k]
}

/// A pattern occurs where it is found.
pub proof fn law_patterns_occur_where_they_are_found(text: Seq<char>, pattern: Seq<char>)
    ensures
        occurs(text, pattern) <==> found(text, pattern),
{
    if occurs(text, pattern) {
        let i = choose|i: int| occurs_at(text, pattern, i);
        let part = text.subrange(i, i + pattern.len());
        assert forall|k: int| 0 <= k < pattern.len() implies text[i + k] == #[trigger] pattern[k] by {
            assert(part[k] == pattern[k]);
        }
        assert(same_from(text, i, pattern));
    }
    if found(text, pattern) {
        let i = choose|i: int|
            0 <= i <= text.len() - pattern.len() && #[trigger] same_from(text, i, pattern);
        assert(text.subrange(i, i + pattern.len()) =~= pattern);
        assert(occurs_at(text, pattern, i));
    }
}

/// A poll by the step that the session is at. With no step left it is done. A send hands out its
/// bytes and the session goes on. An expect looks at the text that came since the step began:
/// while its pattern is not there, it waits until its time is up and then reports the last twenty
/// lines; once it is there, the next step decides, which has seen no text yet.
pub proof fn law_polls_follow_the_step(
    s: &mut Session,
    serial: &str,
    now: Instant,
    p: Progress,
    before: Seq<char>,
    more: Seq<char>,
    lines: String,
)
    requires
        call_ensures(Session::poll, (s, serial, now), p),
        call_ensures(last_lines, (serial, 20), lines),
        serial@ == before + more,
        vstd::utf8::encode_utf8(serial@).len() <= usize::MAX,
        old(s)@.mark == vstd::utf8::encode_utf8(before).len(),
    ensures
        ({
            let v = old(s)@;
            let n = v.steps.len();
            let i = v.index as int;
            let waited = if now.nanos >= v.step_at.nanos {
                now.nanos - v.step_at.nanos
            } else {
                0
            };
            let end = vstd::utf8::encode_utf8(serial@).len();
            &&& final(s)@.steps == v.steps
            &&& i >= n ==> p == Progress::Done && final(s)@ == v
            &&& i < n ==> match v.steps[i] {
                Step::Send { data } => {
                    &&& p matches Progress::Send(d)
                    &&& d@ == data@
                    &&& final(s)@.index == i + 1
                    &&& final(s)@.step_at == now && final(s)@.mark == end
                },
                Step::Expect { pattern, timeout } => {
                    &&& !found(more, pattern@) && waited < timeout.nanos ==> p == Progress::Pending
                        && final(s)@ == v
                    &&& !found(more, pattern@) && waited >= timeout.nanos ==> {
                        &&& p matches Progress::TimedOut { step, last_lines: l }
                        &&& step == i && l@ == lines@
                        &&& final(s)@ == v
                    }
                    &&& found(more, pattern@) && i + 1 == n ==> p == Progress::Done && final(s)@.index == n
                    &&& found(more, pattern@) && i + 1 < n ==> match v.steps[i + 1] {
                        Step::Send { data } => {
                            &&& p matches Progress::Send(d)
                            &&& d@ == data@
                            &&& final(s)@.index == i + 2
                        },
                        Step::Expect { pattern: next, timeout: time } => next@.len() > 0 ==> {
                            &&& final(s)@.index == i + 1
                            &&& final(s)@.step_at == now && final(s)@.mark == end
                            &&& time.nanos > 0 ==> p == Progress::Pending
                            &&& time.nanos == 0 ==> {
                                &&& p matches Progress::TimedOut { step, last_lines: l }
                                &&& step == i + 1 && l@ == lines@
                            }
                        },
                    }
                },
            }
        }),
{
    let v = old(s)@;
    let n = v.steps.len();
    let i = v.index as int;
    reveal_with_fuel(SessionView::polled, 3);
    if i <= n {
        law_sessions_go_forward(v, serial@, now);
    }
    lemma_encode_concat(before, more);
    let b = SessionView { steps: v.steps, index: 0, step_at: now, mark: 0 };
    law_steps_see_only_new_text(b, before, more, now);
    assert(b.advanced(before, now).mark == v.mark);
    assert(text_from(serial@, v.mark) == more);
    law_steps_see_only_new_text(b, serial@, Seq::empty(), now);
    assert(serial@ + Seq::<char>::empty() =~= serial@);
    if i < n {
        match v.steps[i] {
            Step::Send { data } => {},
            Step::Expect { pattern, timeout } => {
                law_patterns_occur_where_they_are_found(more, pattern@);
                if i + 1 < n {
                    match v.steps[i + 1] {
                        Step::Send { data } => {},
                        Step::Expect { pattern: next, timeout: time } => {
                            law_patterns_occur_where_they_are_found(Seq::empty(), next@);
                        },
                    }
                }
            },
        }
    }
}

/// A session begins at its first step, with its clock at `now` and no text seen. It waits to send
/// exactly when the step that it is at is a send.
pub proof fn law_sessions_begin_at_the_first_step(
    steps: Vec<Step>,
    now: Instant,
    n: Session,
    s: &Session,
    b: bool,
)
    requires
        call_ensures(Session::new, (steps, now), n),
        call_ensures(Session::waiting_to_send, (s,), b),
    ensures
        n@.steps == steps@ && n@.index == 0 && n@.step_at == now && n@.mark == 0,
        b <==> s@.index < s@.steps.len() && s@.steps[s@.index as int] is Send,
{
}

/// Spans of time are counted in nanoseconds, and a clock that seems to go back gives none.
pub proof fn law_time_is_counted_in_nanoseconds(
    ms: u64,
    d: Duration,
    e: Duration,
    a: Instant,
    b: Instant,
    w: Duration,
)
    requires
        call_ensures(Duration::from_millis, (ms,), d),
        call_ensures(Duration::from_secs, (ms,), e),
        call_ensures(Instant::saturating_duration_since, (&a, b), w),
    ensures
        d.nanos == 1_000_000 * ms,
        e.nanos == 1_000_000_000 * ms,
        a.nanos >= b.nanos ==> w.nanos == a.nanos - b.nanos,
        a.nanos < b.nanos ==> w.nanos == 0,
{
}

/// A line of text: no newline and no carriage return in it.
pub open spec fn plain(line: Seq<char>) -> bool {
    forall|i: int| 0 <= i < line.len() ==> #[trigger] line[i] != '\n' && line[i] != '\r'
}

/// The lines one after the other, each but the last with a newline behind it.
pub open spec fn as_text(lines: Seq<Seq<char>>) -> Seq<char>
    decreases lines.len(),
{
    if lines.len() == 0 {
        Seq::empty()
    } else if lines.len() == 1 {
        lines[0]
    } else {
        lines[0] + seq!['\n'] + as_text(lines.skip(1))
    }
}

/// The last `n` lines of a text are just that: of lines that end in newlines, those before the
/// last `n` are left out, and the others are kept as they are.
pub proof fn law_the_last_lines_are_kept(serial: &str, n: usize, out: String, lines: Seq<Seq<char>>)
    requires
        call_ensures(last_lines, (serial, n), out),
        lines.len() > 0,
        forall|i: int| 0 <= i < lines.len() ==> plain(#[trigger] lines[i]),
        lines.last().len() > 0,
        serial@ == as_text(lines),
    ensures
        lines.len() <= n ==> out@ == serial@,
        lines.len() > n ==> out@ == as_text(lines.skip(lines.len() - n)),
{
    assert(serial@.skip(0) =~= serial@);
    lemma_lines_of_text(lines, serial@, 0);
    lemma_joined_is_text(lines);
    let kept = if lines.len() > n {
        lines.len() - n
    } else {
        0
    };
    lemma_joined_is_text(lines.skip(kept));
    assert(lines.skip(0) =~= lines);
}

proof fn lemma_joined_is_text(lines: Seq<Seq<char>>)
    ensures
        joined(lines) == as_text(lines),
    decreases lines.len(),
{
    reveal_with_fuel(joined, 2);
    reveal_with_fuel(as_text, 2);
    if lines.len() == 2 {
        assert(lines.drop_last() =~= seq![lines[0]]);
        assert(lines.skip(1) =~= seq![lines[1]]);
        assert(joined(lines) =~= as_text(lines));
    } else if lines.len() > 2 {
        lemma_joined_is_text(lines.drop_last());
        lemma_joined_is_text(lines.skip(1));
        lemma_joined_is_text(lines.skip(1).drop_last());
        assert(lines.drop_last().skip(1) =~= lines.skip(1).drop_last());
        let mid = as_text(lines.skip(1).drop_last());
        let nl = seq!['\n'];
        assert(as_text(lines.drop_last()) == lines[0] + nl + mid);
        assert(lines.skip(1).last() == lines.last());
        assert(as_text(lines.skip(1)) == mid + nl + lines.last());
        assert(lines[0] + nl + mid + nl + lines.last() =~= lines[0] + nl + (mid + nl
            + lines.last()));
    }
}

proof fn lemma_lines_of_text(lines: Seq<Seq<char>>, s: Seq<char>, from: int)
    requires
        lines.len() > 0,
        forall|i: int| 0 <= i < lines.len() ==> plain(#[trigger] lines[i]),
        lines.last().len() > 0,
        0 <= from <= s.len(),
        s.skip(from) == as_text(lines),
    ensures
        lines_from(s, from) == lines,
    decreases lines.len(),
{
    let first = lines[0];
    let end = from + first.len();
    let rest = s.skip(from);
    if lines.len() > 1 {
        assert(rest == first + seq!['\n'] + as_text(lines.skip(1)));
    } else {
        assert(rest == first);
    }
    assert forall|i: int| from <= i < end implies s[i] != '\n' by {
        assert(plain(lines[0]));
        assert(s[i] == rest[i - from]);
        assert(rest[i - from] == first[i - from]);
        assert(first[i - from] != '\n');
    }
    if lines.len() == 1 {
        assert(end == s.len());
        lemma_line_ends_at(s, from, end);
        assert(s.subrange(from, s.len() as int) =~= first);
        assert(lines_from(s, from) =~= lines);
    } else {
        assert(rest[first.len() as int] == '\n');
        assert(s[end] == '\n');
        lemma_line_ends_at(s, from, end);
        assert(s.subrange(from, end) =~= first);
        assert(without_cr(first) == first) by {
            if first.len() > 0 {
                assert(plain(lines[0]));
                assert(first[first.len() - 1] != '\r');
            }
        }
        let tail = lines.skip(1);
        assert(rest.skip(first.len() as int + 1) =~= as_text(tail));
        assert(s.skip(end + 1) =~= rest.skip(first.len() as int + 1));
        assert forall|i: int| 0 <= i < tail.len() implies plain(#[trigger] tail[i]) by {
            assert(plain(lines[i + 1]));
        }
        lemma_lines_of_text(tail, s, end + 1);
        assert(lines_from(s, from) =~= lines);
    }
}

proof fn lemma_line_ends_at(s: Seq<char>, from: int, end: int)
    requires
        0 <= from <= end <= s.len(),
        forall|i: int| from <= i < end ==> s[i] != '\n',
        end < s.len() ==> s[end] == '\n',
    ensures
        line_end(s, from) == end,
    decreases end - from,
{
    if from < end {
        lemma_line_ends_at(s, from + 1, end);
    }
}

/// A carriage return in front of a newline is not part of the line, and one anywhere else is.
pub proof fn law_carriage_returns_end_lines_with_their_newline(line: Seq<char>, more: Seq<char>)
    requires
        plain(line),
    ensures
        lines_from(line + seq!['\r', '\n'] + more, 0).len() > 0,
        lines_from(line + seq!['\r', '\n'] + more, 0)[0] == line,
        line.len() > 0 ==> lines_from(line + seq!['\r'], 0) == seq![line + seq!['\r']],
{
    let s = line + seq!['\r', '\n'] + more;
    let n = line.len() as int;
    assert forall|i: int| 0 <= i < n + 1 implies s[i] != '\n' by {
        if i < n {
            assert(s[i] == line[i]);
        }
    }
    lemma_line_ends_at(s, 0, n + 1);
    let first = s.subrange(0, n + 1);
    assert(first.drop_last() =~= line);
    let t = line + seq!['\r'];
    assert forall|i: int| 0 <= i < t.len() implies t[i] != '\n' by {
        if i < n {
            assert(t[i] == line[i]);
        }
    }
    lemma_line_ends_at(t, 0, t.len() as int);
    assert(t.subrange(0, t.len() as int) =~= t);
    assert(lines_from(t, 0) =~= seq![t]);
}

} // verus!
