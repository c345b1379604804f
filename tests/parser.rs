use ocd::{parse, InteractionLineKind};

#[test]
fn parses_every_kind_of_line() {
    let text = "## Number echo \n# a comment\n$$ --verbose \n> 5\n<lEnter a number:\n<rYou entered \\d+\nplain line\n";
    let t = parse(&"scripts/echo.txt".to_string(), text).ok().unwrap();
    assert_eq!(t.name, "Number echo");
    assert_eq!(t.file_path, "scripts/echo.txt");
    assert_eq!(t.command_arguments, vec!["--verbose".to_string()]);
    assert_eq!(t.lines.len(), 4);
    assert_eq!(t.lines[0].line_idx, 3);
    assert_eq!(t.lines[0].content, "5");
    assert_eq!(t.lines[0].kind, InteractionLineKind::Input);
    assert_eq!(t.lines[1].content, "Enter a number:");
    assert_eq!(t.lines[1].kind, InteractionLineKind::OutputLiteral);
    assert_eq!(t.lines[2].content, "You entered \\d+");
    assert_eq!(t.lines[2].kind, InteractionLineKind::OutputRegex);
    assert_eq!(t.lines[3].line_idx, 6);
    assert_eq!(t.lines[3].content, "plain line");
    assert_eq!(t.lines[3].kind, InteractionLineKind::OutputLiteral);
}

#[test]
fn carriage_returns_end_lines() {
    let t = parse(&"a.txt".to_string(), "> 1\r\nok\r\n").ok().unwrap();
    assert_eq!(t.lines.len(), 2);
    assert_eq!(t.lines[0].content, "1");
    assert_eq!(t.lines[1].content, "ok");
}

#[test]
fn empty_line_expects_empty_output() {
    let t = parse(&"a.txt".to_string(), "a\n\nb").ok().unwrap();
    assert_eq!(t.lines.len(), 3);
    assert_eq!(t.lines[1].content, "");
    assert_eq!(t.lines[2].line_idx, 2);
}

#[test]
fn empty_text_is_an_empty_script() {
    let t = parse(&"a.txt".to_string(), "").ok().unwrap();
    assert!(t.lines.is_empty());
    assert_eq!(t.name, "");
}

#[test]
fn invalid_markers_are_refused() {
    for bad in ["$x", ">x", "<x", "<", ">", "$"] {
        let text = format!("ok\n{}\nlater", bad);
        match parse(&"a.txt".to_string(), &text) {
            Err(e) => assert_eq!(e.0, format!("invalid line '{}'", bad)),
            Ok(_) => panic!("line should be refused: {}", bad),
        }
    }
}

#[test]
fn last_name_wins() {
    let t = parse(&"a.txt".to_string(), "## first\n##second\n").ok().unwrap();
    assert_eq!(t.name, "second");
}
