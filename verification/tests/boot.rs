use ternvale::boot::{Feed, Feeder};
use ternvale::expect::{Duration, Instant, Session, Step};

fn at(ms: u64) -> Instant {
    Instant {
        nanos: Duration::from_millis(ms).nanos,
    }
}

fn feeder() -> Feeder {
    Feeder::new(Session::new(
        vec![
            Step::Expect {
                pattern: "# ".to_string(),
                timeout: Duration::from_secs(1),
            },
            Step::Send {
                data: b"echo OK\n".to_vec(),
            },
            Step::Expect {
                pattern: "\nOK".to_string(),
                timeout: Duration::from_secs(1),
            },
        ],
        at(0),
    ))
}

#[test]
fn queries_come_before_steps() {
    let mut f = feeder();
    assert_eq!(f.feed("\u{1b}[6n# ", at(10), false), Feed::Reply);
    f.wrote(at(20));
    assert_eq!(
        f.feed("\u{1b}[6n\u{1b}[6n", at(219), false),
        Feed::Wait,
        "the console has not settled"
    );
    assert_eq!(f.feed("\u{1b}[6n\u{1b}[6n", at(220), false), Feed::Reply);
    f.wrote(at(230));
    assert_eq!(f.feed("\u{1b}[6n\u{1b}[6n", at(500), false), Feed::Wait);
}

#[test]
fn a_session_is_fed_to_the_end() {
    let mut f = feeder();
    assert_eq!(f.feed("", at(10), false), Feed::Wait);
    assert_eq!(
        f.feed("boot\n# ", at(20), false),
        Feed::Write(b"echo OK\n".to_vec())
    );
    f.wrote(at(20));
    assert_eq!(f.feed("boot\n# echo OK", at(30), false), Feed::Wait);
    assert_eq!(f.feed("boot\n# echo OK\nOK", at(40), false), Feed::Done);
}

#[test]
fn sends_wait_for_the_console_to_settle() {
    let mut f = Feeder::new(Session::new(
        vec![
            Step::Send {
                data: b"a".to_vec(),
            },
            Step::Send {
                data: b"b".to_vec(),
            },
        ],
        at(0),
    ));
    assert_eq!(f.feed("", at(0), false), Feed::Write(b"a".to_vec()));
    f.wrote(at(0));
    assert_eq!(f.feed("", at(199), false), Feed::Wait);
    assert_eq!(f.feed("", at(200), false), Feed::Write(b"b".to_vec()));
}

#[test]
fn a_run_ends_when_cancelled_or_late() {
    let mut f = feeder();
    assert_eq!(f.feed("# ", at(10), true), Feed::Stop);
    assert_eq!(
        f.feed("one\ntwo", at(1000), false),
        Feed::TimedOut {
            step: 0,
            last_lines: "one\ntwo".to_string()
        }
    );
}
