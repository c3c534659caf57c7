use ternvale::expect::{last_lines, Duration, Instant, Progress, Session, Step};

fn expect(pattern: &str, ms: u64) -> Step {
    Step::Expect {
        pattern: pattern.to_string(),
        timeout: Duration::from_millis(ms),
    }
}

fn at(start: Instant, ms: u64) -> Instant {
    Instant {
        nanos: start.nanos + Duration::from_millis(ms).nanos,
    }
}

#[test]
fn banner_match_does_not_satisfy_a_later_expect() {
    let start = Instant { nanos: 7 };
    let mut session = Session::new(
        vec![
            expect("Linux version", 1000),
            Step::Send {
                data: b"uname -a\n".to_vec(),
            },
            expect("aarch64", 1000),
        ],
        start,
    );
    let early = "Linux version 6.6 (build-aarch64)\n";
    assert!(matches!(
        session.poll(early, start),
        Progress::Send(data) if data == b"uname -a\n".to_vec()
    ));
    assert!(matches!(session.poll(early, start), Progress::Pending));
    let later = format!("{early}Linux build-aarch64 6.6 aarch64 GNU/Linux\n");
    assert_eq!(session.poll(&later, start), Progress::Done);
}

#[test]
fn timeout_reports_the_step_and_the_last_lines() {
    let start = Instant { nanos: 7 };
    let mut session = Session::new(vec![expect("Linux version", 10)], start);
    let serial = "random\nearlycon\n";
    let later = at(start, 11);
    match session.poll(serial, later) {
        Progress::TimedOut { step, last_lines } => {
            assert_eq!(step, 0);
            assert!(last_lines.contains("earlycon"));
        }
        other => panic!("expected timeout, got {other:?}"),
    }
}

#[test]
fn last_lines_keeps_the_tail() {
    let serial = (0..30)
        .map(|n| n.to_string())
        .collect::<Vec<_>>()
        .join("\n");
    let tail = last_lines(&serial, 20);
    assert!(tail.starts_with("10\n"));
    assert!(tail.ends_with("29"));
}

#[test]
fn an_expect_sees_only_text_after_the_previous_expect() {
    let start = Instant { nanos: 0 };
    let mut session = Session::new(vec![expect("login", 1000), expect("# ", 1000)], start);
    let early = "# é login";
    assert_eq!(session.poll(early, start), Progress::Pending);
    assert_eq!(session.poll(&format!("{early}: ok\n"), start), Progress::Pending);
    assert_eq!(session.poll(&format!("{early}: ok\n# "), start), Progress::Done);
    assert_eq!(session.poll("", at(start, 5000)), Progress::Done);
}

#[test]
fn the_clock_of_a_step_starts_with_the_step() {
    let start = Instant { nanos: 0 };
    let mut session = Session::new(vec![expect("a", 10), expect("b", 10)], start);
    assert_eq!(session.poll("", at(start, 9)), Progress::Pending);
    assert_eq!(session.poll("a", at(start, 9)), Progress::Pending);
    assert_eq!(session.poll("a", at(start, 18)), Progress::Pending);
    assert_eq!(
        session.poll("a", at(start, 19)),
        Progress::TimedOut {
            step: 1,
            last_lines: "a".to_string()
        }
    );
    // A clock that went back has not run at all.
    assert_eq!(
        start.saturating_duration_since(at(start, 3)),
        Duration::from_millis(0)
    );
    assert_eq!(Duration::from_secs(2), Duration::from_millis(2000));
}

#[test]
fn sends_are_announced_and_repeated_sends_follow_each_other() {
    let start = Instant { nanos: 0 };
    let mut session = Session::new(
        vec![
            Step::Send { data: vec![1] },
            Step::Send { data: vec![2, 3] },
        ],
        start,
    );
    assert!(session.waiting_to_send());
    assert_eq!(session.poll("", start), Progress::Send(vec![1]));
    assert!(session.waiting_to_send());
    assert_eq!(session.poll("", start), Progress::Send(vec![2, 3]));
    assert!(!session.waiting_to_send());
    assert_eq!(session.poll("", start), Progress::Done);
}

#[test]
fn lines_end_with_or_without_a_carriage_return() {
    assert_eq!(last_lines("a\r\nb\n", 5), "a\nb");
    assert_eq!(last_lines("a\nb\r", 5), "a\nb\r");
    assert_eq!(last_lines("a\n\nb", 2), "\nb");
    assert_eq!(last_lines("", 3), "");
    assert_eq!(last_lines("a\nb", 0), "");
}
