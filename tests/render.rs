use ocd::render::{style, style_bold, style_error, style_fail, style_green, style_red};
use ocd::{InteractionTest, RunnerError};

fn interaction() -> InteractionTest {
    InteractionTest {
        name: "greeting".to_string(),
        file_path: "scripts/greeting.txt".to_string(),
        command_arguments: vec![],
        lines: vec![],
    }
}

#[test]
fn styles_wrap_in_escape_codes() {
    assert_eq!(style("x", "7"), "\x1b[7mx\x1b[0m");
    assert_eq!(style_fail("Failed"), "\x1b[1;91mFailed\x1b[0m");
    assert_eq!(style_error("Error"), "\x1b[1;30;41mError\x1b[0m");
    assert_eq!(style_bold("b"), "\x1b[1mb\x1b[0m");
    assert_eq!(style_green("g"), "\x1b[32mg\x1b[0m");
    assert_eq!(style_red("r"), "\x1b[91mr\x1b[0m");
}

#[test]
fn fail_renders_expected_and_found() {
    let e = RunnerError::Fail {
        interaction: interaction(),
        line: 12,
        expected: "Hello".to_string(),
        found: "Hallo".to_string(),
        prev_output: vec!["> Bob".to_string(), "Name?".to_string()],
    };
    let want = "\x1b[1;91mFailed\x1b[0m scripts/greeting.txt:12\n\
                \x1b[1mgreeting\x1b[0m in line \x1b[1m12\x1b[0m\n\
                expected: 'Hello'\n\
                found:    'Hallo'\n\
                \x1b[1mPrevious output:\n\x1b[0m\
                \x1b[32m<start>\n> Bob\nName?\n\x1b[0m\
                \x1b[91mHallo\x1b[0m";
    assert_eq!(e.to_string(), want);
}

#[test]
fn error_renders_message_and_code() {
    let e = RunnerError::Error {
        interaction: interaction(),
        line: 3,
        error_message: "trace".to_string(),
        error_code: -2,
        prev_output: vec![],
    };
    let want = "\x1b[1;30;41mError\x1b[0m in scripts/greeting.txt:3\n\
                \x1b[1mgreeting\x1b[0m in line \x1b[1m3\x1b[0m with error code \x1b[1m-2\x1b[0m\n\
                trace\n\
                \x1b[1mPrevious output:\n\x1b[0m\
                \x1b[32m<start>\n\n\x1b[0m\
                \x1b[91mtrace\x1b[0m";
    assert_eq!(e.to_string(), want);
}

#[test]
fn long_history_shows_last_ten_lines() {
    let history: Vec<String> = (0..12).map(|i| format!("l{}", i)).collect();
    let e = RunnerError::Fail {
        interaction: interaction(),
        line: 0,
        expected: "<EOF>".to_string(),
        found: "x".to_string(),
        prev_output: history,
    };
    let text = e.to_string();
    assert!(text.contains("\x1b[32m[...]\nl2\nl3\nl4\nl5\nl6\nl7\nl8\nl9\nl10\nl11\n\x1b[0m"));
    assert!(!text.contains("l1\n"));
}

#[test]
fn ten_lines_of_history_are_shown_whole() {
    let history: Vec<String> = (0..10).map(|i| format!("l{}", i)).collect();
    let e = RunnerError::Fail {
        interaction: interaction(),
        line: 0,
        expected: "<EOF>".to_string(),
        found: "x".to_string(),
        prev_output: history,
    };
    assert!(e.to_string().contains("\x1b[32m<start>\nl0\nl1\nl2\nl3\nl4\nl5\nl6\nl7\nl8\nl9\n\x1b[0m"));
}

#[test]
fn extreme_numbers_render_in_decimal() {
    let e = RunnerError::Error {
        interaction: interaction(),
        line: usize::MAX,
        error_message: String::new(),
        error_code: i32::MIN,
        prev_output: vec![],
    };
    let text = e.to_string();
    assert!(text.contains(&format!(":{}\n", usize::MAX)));
    assert!(text.contains("with error code \x1b[1m-2147483648\x1b[0m"));
}
