use ocd::scheduler::{
    collect_failures, create_progress_bar, finished_line, result_icon, store_report, to_icon,
    update_is_done, waiting_line,
};
use ocd::{
    run_interactions, InteractionResult, InteractionTest, Run, RunnerConfig, RunnerError, Schedule,
};
use std::time::Duration;

fn interaction(name: &str) -> InteractionTest {
    InteractionTest {
        name: name.to_string(),
        file_path: format!("scripts/{}.txt", name),
        command_arguments: vec![],
        lines: vec![],
    }
}

fn config() -> RunnerConfig {
    RunnerConfig { command: "java".to_string(), arguments: vec![], timeout: Duration::from_millis(10) }
}

fn outcome(t: &InteractionTest) -> InteractionResult {
    if t.name.starts_with("bad") {
        Err(RunnerError::Fail {
            interaction: t.clone(),
            line: 1,
            expected: "a".to_string(),
            found: "b".to_string(),
            prev_output: vec![],
        })
    } else if t.name.starts_with("crash") {
        Err(RunnerError::Error {
            interaction: t.clone(),
            line: 2,
            error_message: "trace".to_string(),
            error_code: 1,
            prev_output: vec![],
        })
    } else {
        Ok(())
    }
}

/// What a driver saw while running a `Run`: the order in which
/// interactions finished, the largest number in flight, and the text shown.
struct Trace {
    finished: Vec<String>,
    max_in_flight: u64,
    shown: String,
    failures: Vec<RunnerError>,
}

/// Drives a run; started interactions finish last-started-first.
fn drive(mut run: Run) -> Trace {
    let mut trace = Trace { finished: vec![], max_in_flight: 0, shown: String::new(), failures: vec![] };
    let mut in_flight: Vec<(usize, InteractionTest)> = vec![];
    trace.shown.push_str(&run.opening_text());
    while !run.is_done() {
        while let Some(i) = run.next_start() {
            trace.shown.push_str(&run.start_text(i));
            in_flight.push((i, run.interaction(i).clone()));
        }
        trace.max_in_flight = trace.max_in_flight.max(run.running());
        let (i, t) = in_flight.pop().unwrap();
        trace.finished.push(t.name.clone());
        assert!(run.report(i, outcome(&t)));
        trace.shown.push_str(&run.report_text(i));
    }
    trace.shown.push_str(&run.closing_text());
    trace.failures = run.into_failures();
    trace
}

fn names() -> Vec<InteractionTest> {
    vec![interaction("ok1"), interaction("bad1"), interaction("ok2"), interaction("crash1"), interaction("bad2")]
}

fn failure_names(fails: &[RunnerError]) -> Vec<String> {
    fails
        .iter()
        .map(|f| match f {
            RunnerError::Fail { interaction, .. } => interaction.name.clone(),
            RunnerError::Error { interaction, .. } => interaction.name.clone(),
        })
        .collect()
}

#[test]
fn sequential_run_keeps_input_order() {
    let t = drive(run_interactions(names(), config(), 0));
    assert_eq!(failure_names(&t.failures), vec!["bad1", "crash1", "bad2"]);
    assert_eq!(t.finished, vec!["ok1", "bad1", "ok2", "crash1", "bad2"]);
    assert_eq!(t.max_in_flight, 1);
    assert_eq!(t.shown, "⬜ ok1\r✅\n⬜ bad1\r🟥\n⬜ ok2\r✅\n⬜ crash1\r💀\n⬜ bad2\r🟥\n");
}

#[test]
fn parallel_run_reports_in_input_order() {
    for limit in 1..=6u64 {
        let t = drive(run_interactions(names(), config(), limit));
        assert_eq!(failure_names(&t.failures), vec!["bad1", "crash1", "bad2"]);
        assert!(t.max_in_flight <= limit);
        assert!(t.shown.ends_with("\r✅🟥✅💀🟥\n"));
    }
}

#[test]
fn parallel_run_finishes_out_of_order() {
    let t = drive(run_interactions(names(), config(), 3));
    assert_eq!(t.finished, vec!["ok2", "crash1", "bad2", "bad1", "ok1"]);
    assert_eq!(t.max_in_flight, 3);
    assert!(t.shown.starts_with("⬜⬜⬜⬜⬜\r⬜⬜✅⬜⬜\r⬜⬜✅💀⬜"));
}

#[test]
fn failure_count_matches_failing_interactions() {
    let all: Vec<InteractionTest> = (0..7).map(|i| interaction(if i % 3 == 0 { "bad" } else { "ok" })).collect();
    assert_eq!(drive(run_interactions(all.clone(), config(), 2)).failures.len(), 3);
    assert_eq!(drive(run_interactions(all, config(), 0)).failures.len(), 3);
}

#[test]
fn no_interactions_no_failures() {
    for limit in [0u64, 4] {
        let mut run = run_interactions(vec![], config(), limit);
        assert!(run.is_done());
        assert_eq!(run.next_start(), None);
        assert!(run.into_failures().is_empty());
    }
}

#[test]
fn run_hands_out_each_interaction_once() {
    let mut run = run_interactions(names(), config(), 2);
    assert_eq!(run.next_start(), Some(0));
    assert_eq!(run.next_start(), Some(1));
    assert_eq!(run.next_start(), None);
    assert_eq!(run.interaction(1).name, "bad1");
    assert_eq!(run.config().command, "java");
    assert!(!run.report(3, Ok(())));
    assert!(run.report(0, Ok(())));
    assert!(!run.report(0, Ok(())));
    assert_eq!(run.next_start(), Some(2));
}

#[test]
fn icons_per_slot() {
    let fail = outcome(&interaction("bad"));
    let crash = outcome(&interaction("crash"));
    assert_eq!(to_icon(&None), "⬜");
    assert_eq!(to_icon(&Some(Ok(()))), "✅");
    assert_eq!(result_icon(&fail), "🟥");
    assert_eq!(result_icon(&crash), "💀");
}

#[test]
fn progress_bar_and_completion() {
    let mut slots: Vec<Option<InteractionResult>> = vec![None, None, None];
    assert_eq!(create_progress_bar(&slots), "⬜⬜⬜");
    assert!(!update_is_done(&slots));
    assert!(store_report(&mut slots, 1, outcome(&interaction("bad"))));
    assert!(!store_report(&mut slots, 1, Ok(())));
    assert!(!store_report(&mut slots, 7, Ok(())));
    assert!(store_report(&mut slots, 0, Ok(())));
    assert!(store_report(&mut slots, 2, Ok(())));
    assert_eq!(create_progress_bar(&slots), "✅🟥✅");
    assert!(update_is_done(&slots));
    assert!(update_is_done(&vec![]));
    let fails = collect_failures(slots);
    assert_eq!(failure_names(&fails), vec!["bad"]);
}

#[test]
fn schedule_bounds_work_in_flight() {
    let mut s = Schedule::new(3, 2);
    assert_eq!(s.next_start(), Some(0));
    assert_eq!(s.next_start(), Some(1));
    assert_eq!(s.next_start(), None);
    assert_eq!(s.running(), 2);
    assert!(!s.report(2, Ok(())));
    assert!(s.report(1, outcome(&interaction("bad"))));
    assert!(!s.report(1, Ok(())));
    assert_eq!(s.running(), 1);
    assert_eq!(s.progress_bar(), "⬜🟥⬜");
    assert_eq!(s.next_start(), Some(2));
    assert_eq!(s.next_start(), None);
    assert!(s.report(2, Ok(())));
    assert!(!s.is_done());
    assert!(s.report(0, outcome(&interaction("crash"))));
    assert!(s.is_done());
    assert_eq!(s.running(), 0);
    assert_eq!(failure_names(&s.into_failures()), vec!["crash", "bad"]);
}

#[test]
fn schedule_with_zero_limit_starts_nothing() {
    let mut s = Schedule::new(2, 0);
    assert_eq!(s.next_start(), None);
    let mut empty = Schedule::new(0, 3);
    assert_eq!(empty.next_start(), None);
    assert!(empty.is_done());
}

#[test]
fn progress_text_lines() {
    assert_eq!(waiting_line("echo"), "⬜ echo");
    assert_eq!(finished_line(&Some(Ok(()))), "\r✅\n");
    assert_eq!(finished_line(&Some(outcome(&interaction("crash")))), "\r💀\n");
}

