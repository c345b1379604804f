use ocd::{
    input_exhausted, reconcile, Action, ChildExit, Event, InteractionLine, InteractionLineKind,
    InteractionTest, Protocol, RunnerError, Step, Verdict,
};

fn line(idx: usize, content: &str, kind: InteractionLineKind) -> InteractionLine {
    InteractionLine { line_idx: idx, content: content.to_string(), kind }
}

fn script(lines: Vec<InteractionLine>) -> InteractionTest {
    InteractionTest {
        name: "number".to_string(),
        file_path: "tests/number.txt".to_string(),
        command_arguments: vec![],
        lines,
    }
}

fn echo_script() -> InteractionTest {
    script(vec![
        line(0, "5", InteractionLineKind::Input),
        line(1, "Enter a number:", InteractionLineKind::OutputLiteral),
        line(2, "You entered 5", InteractionLineKind::OutputLiteral),
    ])
}

fn received(s: &str) -> Event {
    Event::Received(Some(s.to_string()))
}

/// Feeds the events one by one; returns the final step, or the protocol if
/// the events ran out first.
fn drive(test: InteractionTest, events: Vec<Event>) -> Result<Step, Protocol> {
    let mut p = match Protocol::start(test) {
        Ok(p) => p,
        Err(_) => panic!("script should be valid"),
    };
    for e in events {
        match p.advance(e) {
            Step::Continue(next) => p = next,
            done => return Ok(done),
        }
    }
    Err(p)
}

fn expect_fail(step: Result<Step, Protocol>) -> (usize, String, String, Vec<String>) {
    match step {
        Ok(Step::Failed(RunnerError::Fail { line, expected, found, prev_output, .. })) => {
            (line, expected, found, prev_output)
        }
        _ => panic!("expected a failure"),
    }
}

#[test]
fn echo_program_passes() {
    let events = vec![
        Event::Written(true),
        received("Enter a number:"),
        received("You entered 5"),
        Event::Received(None),
    ];
    match drive(echo_script(), events) {
        Ok(Step::Passed(_)) => {}
        _ => panic!("expected a pass"),
    }
}

#[test]
fn wrong_echo_fails_at_its_line() {
    let events = vec![Event::Written(true), received("Enter a number:"), received("You entered five")];
    let (line, expected, found, history) = expect_fail(drive(echo_script(), events));
    assert_eq!(line, 2);
    assert_eq!(expected, "You entered 5");
    assert_eq!(found, "You entered five");
    assert_eq!(history, vec!["> 5".to_string(), "Enter a number:".to_string()]);
}

#[test]
fn hanging_program_times_out() {
    let events = vec![Event::Written(true), received("Enter a number:"), Event::Received(None)];
    let (line, expected, found, _) = expect_fail(drive(echo_script(), events));
    assert_eq!(line, 2);
    assert_eq!(expected, "You entered 5");
    assert_eq!(found, "<timeout>");
}

#[test]
fn trailing_output_fails_with_eof_expected() {
    let events = vec![
        Event::Written(true),
        received("Enter a number:"),
        received("You entered 5"),
        received("Bye"),
    ];
    let (line, expected, found, history) = expect_fail(drive(echo_script(), events));
    assert_eq!(line, 0);
    assert_eq!(expected, "<EOF>");
    assert_eq!(found, "Bye");
    assert_eq!(history.len(), 3);
}

fn closed_verdict() -> Verdict {
    let test = script(vec![
        line(0, "Name?", InteractionLineKind::OutputLiteral),
        line(1, "Bob", InteractionLineKind::Input),
    ]);
    match drive(test, vec![received("Name?"), Event::Written(false)]) {
        Ok(Step::InputClosed(p)) => Verdict::InputClosed(p),
        _ => panic!("expected the input to be closed"),
    }
}

#[test]
fn failed_write_is_an_error_whatever_the_exit() {
    let exits = [
        (ChildExit::Success, 0),
        (ChildExit::Failure(2), 2),
        (ChildExit::Signaled(9), 137),
    ];
    for (exit, code) in exits {
        match reconcile(closed_verdict(), exit, TRACE.to_string()) {
            Err(RunnerError::Error { line, error_message, error_code, prev_output, .. }) => {
                assert_eq!(line, 1);
                assert_eq!(error_message, TRACE);
                assert_eq!(error_code, code);
                assert_eq!(prev_output, vec!["Name?".to_string()]);
            }
            _ => panic!("expected an error"),
        }
    }
}

#[test]
fn signal_after_mismatch_becomes_error() {
    match reconcile(failing_verdict(), ChildExit::Signaled(11), String::new()) {
        Err(RunnerError::Error { line, error_code, .. }) => {
            assert_eq!(line, 1);
            assert_eq!(error_code, 139);
        }
        _ => panic!("expected an error"),
    }
}

#[test]
fn pending_actions_follow_the_script() {
    let p = Protocol::start(echo_script()).ok().unwrap();
    match p.pending() {
        Action::Send(s) => assert_eq!(s, "5\n"),
        _ => panic!("expected input"),
    }
    let p = match p.advance(Event::Written(true)) {
        Step::Continue(p) => p,
        _ => panic!("expected to continue"),
    };
    assert!(matches!(p.pending(), Action::Receive));
    let p = match p.advance(received("Enter a number:")) {
        Step::Continue(p) => p,
        _ => panic!("expected to continue"),
    };
    let p = match p.advance(received("You entered 5")) {
        Step::Continue(p) => p,
        _ => panic!("expected to continue"),
    };
    assert!(matches!(p.pending(), Action::ReceiveTrailing));
}

#[test]
fn unexpected_event_leaves_state_unchanged() {
    let p = Protocol::start(echo_script()).ok().unwrap();
    let p = match p.advance(Event::Received(None)) {
        Step::Continue(p) => p,
        _ => panic!("expected to continue"),
    };
    assert!(matches!(p.pending(), Action::Send(_)));
}

#[test]
fn regex_line_searches_the_output() {
    let test = script(vec![line(3, "entered [0-9]+", InteractionLineKind::OutputRegex)]);
    match drive(test.clone(), vec![received("You entered 42"), Event::Received(None)]) {
        Ok(Step::Passed(_)) => {}
        _ => panic!("expected a pass"),
    }
    let (line, expected, found, _) = expect_fail(drive(test, vec![received("You entered x")]));
    assert_eq!(line, 3);
    assert_eq!(expected, "entered [0-9]+");
    assert_eq!(found, "You entered x");
}

#[test]
fn malformed_pattern_is_refused() {
    let test = script(vec![line(4, "([a-z", InteractionLineKind::OutputRegex)]);
    match Protocol::start(test) {
        Err(e) => assert_eq!(e.0, "invalid pattern '([a-z'"),
        Ok(_) => panic!("pattern should be refused"),
    }
}

#[test]
fn empty_script_passes_on_silence() {
    match drive(script(vec![]), vec![Event::Received(None)]) {
        Ok(Step::Passed(_)) => {}
        _ => panic!("expected a pass"),
    }
}

fn failing_verdict() -> Verdict {
    match drive(echo_script(), vec![Event::Written(true), received("oops")]) {
        Ok(Step::Failed(e)) => Verdict::Failed(e),
        _ => panic!("expected a failure"),
    }
}

fn passing_verdict() -> Verdict {
    let events = vec![
        Event::Written(true),
        received("Enter a number:"),
        received("You entered 5"),
        Event::Received(None),
    ];
    match drive(echo_script(), events) {
        Ok(Step::Passed(p)) => Verdict::Passed(p),
        _ => panic!("expected a pass"),
    }
}

const TRACE: &str = "Exception in thread \"main\" java.util.NoSuchElementException\n\tat java.base/java.util.Scanner.throwFor(Scanner.java:937)";

#[test]
fn crash_after_mismatch_becomes_error() {
    let r = reconcile(failing_verdict(), ChildExit::Failure(1), "boom".to_string());
    match r {
        Err(RunnerError::Error { line, error_message, error_code, prev_output, .. }) => {
            assert_eq!(line, 1);
            assert_eq!(error_message, "boom");
            assert_eq!(error_code, 1);
            assert_eq!(prev_output, vec!["> 5".to_string()]);
        }
        _ => panic!("expected an error"),
    }
}

#[test]
fn exhausted_input_keeps_the_verdict() {
    let r = reconcile(failing_verdict(), ChildExit::Failure(1), TRACE.to_string());
    assert!(matches!(r, Err(RunnerError::Fail { line: 1, .. })));
    let r = reconcile(passing_verdict(), ChildExit::Failure(1), TRACE.to_string());
    assert!(r.is_ok());
}

#[test]
fn clean_exit_keeps_the_verdict() {
    assert!(reconcile(passing_verdict(), ChildExit::Success, String::new()).is_ok());
    let r = reconcile(failing_verdict(), ChildExit::Success, String::new());
    assert!(matches!(r, Err(RunnerError::Fail { line: 1, .. })));
}

#[test]
fn crash_after_pass_is_an_error() {
    let r = reconcile(passing_verdict(), ChildExit::Failure(3), "segfault".to_string());
    match r {
        Err(RunnerError::Error { line, error_message, error_code, prev_output, .. }) => {
            assert_eq!(line, 0);
            assert_eq!(error_message, "segfault");
            assert_eq!(error_code, 3);
            assert_eq!(prev_output.len(), 3);
        }
        _ => panic!("expected an error"),
    }
}

#[test]
fn benign_signature_needs_both_names() {
    assert!(input_exhausted(TRACE));
    assert!(!input_exhausted("java.util.NoSuchElementException"));
    assert!(!input_exhausted("java.util.Scanner"));
    assert!(!input_exhausted(""));
}
