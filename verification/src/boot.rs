//! Feeding a booting guest: answers to its terminal queries, and the steps of a session.
use vstd::prelude::*;

use crate::expect::{Duration, Instant, Progress, ProgressView, Session, SessionView};
use crate::text::chars_of;

verus! {

broadcast use vstd::group_vstd_default;

/// The guest's console is left alone for this long after each write.
pub const SETTLE_MILLIS: u64 = 200;

/// A terminal query for the cursor position, `ESC [ 6 n`, is at position `i`.
pub open spec fn query_at(text: Seq<char>, i: int) -> bool {
    &&& 0 <= i && i + 4 <= text.len()
    &&& text[i] == '\u{1b}' && text[i + 1] == '[' && text[i + 2] == '6' && text[i + 3] == 'n'
}

/// How many cursor queries begin before position `end`.
pub open spec fn queries_before(text: Seq<char>, end: int) -> nat
    decreases end,
{
    if end <= 0 {
        0
    } else {
        queries_before(text, end - 1) + if query_at(text, end - 1) {
            1nat
        } else {
            0nat
        }
    }
}

/// How many cursor queries `text` holds.
pub open spec fn queries_in(text: Seq<char>) -> nat {
    queries_before(text, text.len() as int)
}

/// How many cursor queries `text` holds.
fn count_queries(text: &str) -> (n: usize)
    ensures
        n == queries_in(text@),
{
    let s = chars_of(text);
    let count: usize = s.len();
    let mut n: usize = 0;
    let mut i: usize = 0;
    while i < count
        invariant
            count == s@.len(),
            i <= count,
            n <= i,
            n == queries_before(s@, i as int),
        decreases count - i,
    {
        if count - i >= 4 && s[i] == '\u{1b}' && s[i + 1] == '[' && s[i + 2] == '6' && s[i + 3]
            == 'n' {
            n = n + 1;
        }
        i = i + 1;
    }
    n
}

/// What to do next.
#[derive(Debug, PartialEq, Eq)]
pub enum Feed {
    /// The run was cancelled.
    Stop,
    /// Answer a cursor query, then wait.
    Reply,
    /// Look again in a while.
    Wait,
    /// Write these bytes to the guest.
    Write(Vec<u8>),
    /// Every step completed.
    Done,
    /// A step timed out: cancel the run.
    TimedOut {
        /// Index of the step.
        step: usize,
        /// Last lines of the serial transcript.
        last_lines: String,
    },
}

/// What a [`Feed`] says.
pub enum FeedView {
    Stop,
    Reply,
    Wait,
    Write(Seq<u8>),
    Done,
    TimedOut { step: nat, last_lines: Seq<char> },
}

impl View for Feed {
    type V = FeedView;

    open spec fn view(&self) -> FeedView {
        match self {
            Feed::Stop => FeedView::Stop,
            Feed::Reply => FeedView::Reply,
            Feed::Wait => FeedView::Wait,
            Feed::Write(data) => FeedView::Write(data@),
            Feed::Done => FeedView::Done,
            Feed::TimedOut { step, last_lines } => FeedView::TimedOut {
                step: *step as nat,
                last_lines: last_lines@,
            },
        }
    }
}

/// What the answer of a session means for the guest's console.
pub open spec fn feed_of(p: ProgressView) -> FeedView {
    match p {
        ProgressView::Pending => FeedView::Wait,
        ProgressView::Send(data) => FeedView::Write(data),
        ProgressView::Done => FeedView::Done,
        ProgressView::TimedOut { step, last_lines } => FeedView::TimedOut { step, last_lines },
    }
}

/// Runs a session against a guest that also asks for the cursor position.
#[derive(Debug)]
pub struct Feeder {
    session: Session,
    replies: usize,
    last_write: Option<Instant>,
}

/// Where a [`Feeder`] is: its session, how many queries were answered, and the last write.
pub struct FeederView {
    pub session: SessionView,
    pub replies: nat,
    pub last_write: Option<Instant>,
}

impl View for Feeder {
    type V = FeederView;

    closed spec fn view(&self) -> FeederView {
        FeederView {
            session: self.session@,
            replies: self.replies as nat,
            last_write: self.last_write,
        }
    }
}

impl FeederView {
    /// The last write is long enough ago.
    pub open spec fn settled(self, now: Instant) -> bool {
        match self.last_write {
            Some(at) => now.since(at) >= SETTLE_MILLIS * 1_000_000,
            None => true,
        }
    }

    /// After a look at the transcript. Queries come first; nothing is sent before the console
    /// has settled.
    pub open spec fn fed(self, serial: Seq<char>, now: Instant, cancelled: bool) -> (
        FeederView,
        FeedView,
    ) {
        let s = self.session;
        if cancelled {
            (self, FeedView::Stop)
        } else if self.replies < queries_in(serial) && self.settled(now) {
            (FeederView { replies: self.replies + 1, ..self }, FeedView::Reply)
        } else if s.index < s.steps.len() && s.steps[s.index as int] is Send && !self.settled(
            now,
        ) {
            (self, FeedView::Wait)
        } else {
            let (session, progress) = s.polled(serial, now);
            (FeederView { session, ..self }, feed_of(progress))
        }
    }
}

impl Feeder {
    /// Nothing was written yet.
    pub fn new(session: Session) -> (f: Self)
        ensures
            f@ == (FeederView { session: session@, replies: 0, last_write: None }),
    {
        Feeder { session, replies: 0, last_write: None }
    }

    /// Bytes were written to the guest.
    pub fn wrote(&mut self, now: Instant)
        ensures
            final(self)@ == (FeederView { last_write: Some(now), ..old(self)@ }),
    {
        self.last_write = Some(now);
    }

    fn has_settled(&self, now: Instant) -> (b: bool)
        ensures
            b == self@.settled(now),
    {
        match self.last_write {
            Some(at) => now.saturating_duration_since(at).nanos >= Duration::from_millis(
                SETTLE_MILLIS,
            ).nanos,
            None => true,
        }
    }

    /// Decide what to do with the transcript so far.
    pub fn feed(&mut self, serial: &str, now: Instant, cancelled: bool) -> (f: Feed)
        ensures
            (final(self)@, f@) == old(self)@.fed(serial@, now, cancelled),
    {
        if cancelled {
            return Feed::Stop;
        }
        let queries: usize = count_queries(serial);
        let settled: bool = self.has_settled(now);
        if self.replies < queries && settled {
            self.replies = self.replies + 1;
            return Feed::Reply;
        }
        if self.session.waiting_to_send() && !settled {
            return Feed::Wait;
        }
        match self.session.poll(serial, now) {
            Progress::Pending => Feed::Wait,
            Progress::Send(data) => Feed::Write(data),
            Progress::Done => Feed::Done,
            Progress::TimedOut { step, last_lines } => Feed::TimedOut { step, last_lines },
        }
    }
}

/// No query is answered twice, and none before the guest asked it.
pub proof fn law_queries_are_answered_once(
    f: FeederView,
    serial: Seq<char>,
    now: Instant,
    cancelled: bool,
)
    requires
        f.replies <= queries_in(serial),
    ensures
        ({
            let (after, feed) = f.fed(serial, now, cancelled);
            &&& after.replies == f.replies + if feed is Reply {
                1nat
            } else {
                0nat
            }
            &&& after.replies <= queries_in(serial)
        }),
{
}

/// What the guest asked stays asked as the transcript grows.
pub proof fn law_queries_only_grow(before: Seq<char>, more: Seq<char>)
    ensures
        queries_in(before) <= queries_in(before + more),
{
    lemma_queries_grow(before, before + more, before.len() as int);
    lemma_queries_monotone(before + more, before.len() as int, (before + more).len() as int);
}

proof fn lemma_queries_grow(text: Seq<char>, longer: Seq<char>, end: int)
    requires
        end <= text.len() <= longer.len(),
        forall|i: int| 0 <= i < text.len() ==> text[i] == longer[i],
    ensures
        queries_before(text, end) <= queries_before(longer, end),
    decreases end,
{
    if end > 0 {
        lemma_queries_grow(text, longer, end - 1);
    }
}

proof fn lemma_queries_monotone(text: Seq<char>, a: int, b: int)
    requires
        a <= b,
    ensures
        queries_before(text, a) <= queries_before(text, b),
    decreases b - a,
{
    if a < b {
        lemma_queries_monotone(text, a, b - 1);
    }
}

/// Within the settling time after a write no query is answered and no send step starts. Bytes are
/// written only where an expect was due and matched, and a send follows it.
pub proof fn law_console_settles_between_writes(f: FeederView, serial: Seq<char>, now: Instant)
    requires
        !f.settled(now),
    ensures
        !(f.fed(serial, now, false).1 is Reply),
        f.session.index < f.session.steps.len() && f.session.steps[f.session.index as int] is Send
            ==> f.fed(serial, now, false) == (f, FeedView::Wait),
        f.fed(serial, now, false).1 is Write ==> f.session.index < f.session.steps.len()
            && f.session.steps[f.session.index as int] is Expect,
{
}

/// Queries are counted as they come in: a character is the end of one exactly when it is an `n`
/// behind escape, bracket, and six; an empty text has none.
pub proof fn law_queries_end_in_their_last_character(text: Seq<char>, c: char)
    ensures
        queries_in(Seq::empty()) == 0,
        queries_in(text.push(c)) == queries_in(text) + if c == 'n' && text.len() >= 3
            && text[text.len() - 3] as int == 27 && text[text.len() - 2] == '[' && text[text.len()
            - 1] == '6' {
            1int
        } else {
            0int
        },
{
    let longer = text.push(c);
    let n = text.len() as int;
    if n >= 3 {
        lemma_same_queries(text, longer, n - 3);
        lemma_late_queries(text, longer, n);
    } else {
        reveal_with_fuel(queries_before, 5);
    }
}

proof fn lemma_same_queries(text: Seq<char>, longer: Seq<char>, end: int)
    requires
        longer.len() == text.len() + 1,
        forall|i: int| 0 <= i < text.len() ==> text[i] == longer[i],
        0 <= end <= text.len() - 3,
    ensures
        queries_before(text, end) == queries_before(longer, end),
    decreases end,
{
    if end > 0 {
        lemma_same_queries(text, longer, end - 1);
    }
}

proof fn lemma_late_queries(text: Seq<char>, longer: Seq<char>, n: int)
    requires
        n == text.len() >= 3,
        longer.len() == n + 1,
    ensures
        queries_before(text, n) == queries_before(text, n - 3),
        queries_before(longer, n + 1) == queries_before(longer, n - 3) + if query_at(longer, n - 3) {
            1int
        } else {
            0int
        },
{
    reveal_with_fuel(queries_before, 5);
}

/// What a look at the transcript comes to: a cancelled run stops; a query that was not answered is
/// answered first, but not within 200 milliseconds of a write; a send waits as long; else the
/// session decides, and its bytes are written as they are.
pub proof fn law_feeding_answers_queries_then_runs_the_session(
    f: &mut Feeder,
    serial: &str,
    now: Instant,
    cancelled: bool,
    feed: Feed,
    s: &mut Session,
    p: Progress,
)
    requires
        call_ensures(Feeder::feed, (f, serial, now, cancelled), feed),
        call_ensures(Session::poll, (s, serial, now), p),
        old(s)@ == old(f)@.session,
    ensures
        ({
            let b = old(f)@;
            let calm = b.last_write is None || now.nanos >= b.last_write->0.nanos + 200_000_000;
            let asked = b.replies < queries_in(serial@);
            let sends = b.session.index < b.session.steps.len()
                && b.session.steps[b.session.index as int] is Send;
            &&& cancelled ==> feed == Feed::Stop && final(f)@ == b
            &&& !cancelled && asked && calm ==> feed == Feed::Reply && final(f)@.replies
                == b.replies + 1 && final(f)@.session == b.session
            &&& !cancelled && !(asked && calm) && sends && !calm ==> feed == Feed::Wait && final(f)@
                == b
            &&& !cancelled && !(asked && calm) && !(sends && !calm) ==> {
                &&& final(f)@.session == final(s)@ && final(f)@.replies == b.replies
                &&& p is Pending ==> feed == Feed::Wait
                &&& p matches Progress::Send(d) ==> (feed matches Feed::Write(e) && e@ == d@)
                &&& p is Done ==> feed == Feed::Done
                &&& p matches Progress::TimedOut { step: a, last_lines: l } ==> (
                feed matches Feed::TimedOut { step: c, last_lines: k } && c == a && k@ == l@)
            }
            &&& final(f)@.last_write == b.last_write
        }),
{
}

/// A new feeder wrote nothing and answered nothing; a write is remembered with its time.
pub proof fn law_writes_are_remembered(session: Session, n: Feeder, f: &mut Feeder, now: Instant)
    requires
        call_ensures(Feeder::new, (session,), n),
        call_ensures(Feeder::wrote, (f, now), ()),
    ensures
        n@.session == session@ && n@.replies == 0 && n@.last_write is None,
        final(f)@.last_write == Some(now),
        final(f)@.session == old(f)@.session && final(f)@.replies == old(f)@.replies,
{
}

} // verus!
