use ocd::config::{file_pattern, is_interaction_file};
use ocd::{OcdConfig, OcdInteractionConfig, OcdRunnerConfig};
use std::time::Duration;

#[test]
fn runner_defaults() {
    let r = OcdRunnerConfig::default();
    assert_eq!(r.thread_count_or_default(), 0);
    assert_eq!(r.timeout_or_default(), 1000);
    let r = OcdRunnerConfig { thread_count: Some(4), timeout: Some(250) };
    assert_eq!(r.thread_count_or_default(), 4);
    assert_eq!(r.timeout_or_default(), 250);
}

#[test]
fn runner_config_launches_java() {
    let c = OcdConfig {
        class_path: "out".to_string(),
        main_class: "com.example.Main".to_string(),
        interaction: OcdInteractionConfig { path: "interactions".to_string(), pattern: None },
        runner: OcdRunnerConfig { thread_count: None, timeout: Some(300) },
    };
    let r = c.runner_config("/home/u/out".to_string());
    assert_eq!(r.command, "java");
    assert_eq!(r.arguments, vec!["-classpath", "/home/u/out", "com.example.Main"]);
    assert_eq!(r.timeout, Duration::from_millis(300));
}

#[test]
fn file_patterns_default_to_text_files() {
    let i = OcdInteractionConfig { path: "x".to_string(), pattern: None };
    assert_eq!(i.file_patterns(), vec![".*\\.txt".to_string()]);
    let i = OcdInteractionConfig { path: "x".to_string(), pattern: Some("t_.*".to_string()) };
    assert_eq!(i.file_patterns(), vec!["t_.*".to_string()]);
}

#[test]
fn file_pattern_anchors_alternatives() {
    assert_eq!(file_pattern(&vec!["a".to_string(), "b.*".to_string()]), "^(a|b.*)$");
    assert_eq!(file_pattern(&vec![".*\\.txt".to_string()]), "^(.*\\.txt)$");
}

#[test]
fn interaction_files_match_whole_names() {
    let p = vec![".*\\.txt".to_string()];
    assert_eq!(is_interaction_file(&p, "echo.txt"), Some(true));
    assert_eq!(is_interaction_file(&p, "echo.txt.bak"), Some(false));
    assert_eq!(is_interaction_file(&vec!["(".to_string()], "echo.txt"), None);
}
