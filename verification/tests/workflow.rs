use toolshed::workflow::{parse_steps, shell_split, substitute_prev};

#[test]
fn shell_split_simple() {
    assert_eq!(shell_split("echo say hello"), vec!["echo", "say", "hello"]);
}

#[test]
fn shell_split_quoted() {
    assert_eq!(
        shell_split(r#"echo say "hello world""#),
        vec!["echo", "say", "hello world"]
    );
}

#[test]
fn shell_split_empty() {
    assert!(shell_split("").is_empty());
}

#[test]
fn shell_split_extra_spaces() {
    assert_eq!(
        shell_split("  echo   say   hello  "),
        vec!["echo", "say", "hello"]
    );
}

#[test]
fn parse_steps_basic() {
    let body = "echo say hello\necho say world\n";
    let steps = parse_steps(body, "test").unwrap();
    assert_eq!(steps.len(), 2);
    assert_eq!(steps[0].tool, "echo");
    assert_eq!(steps[0].command, "say");
    assert_eq!(steps[0].args, vec!["hello"]);
    assert_eq!(steps[1].args, vec!["world"]);
}

#[test]
fn parse_steps_comments_and_blanks() {
    let body = "# comment\n\necho say hello\n\n# another\necho say bye\n";
    let steps = parse_steps(body, "test").unwrap();
    assert_eq!(steps.len(), 2);
}

#[test]
fn parse_steps_continue_on_error() {
    let body = "echo say hello ?\necho say world\n";
    let steps = parse_steps(body, "test").unwrap();
    assert!(steps[0].continue_on_error);
    assert!(!steps[1].continue_on_error);
}

#[test]
fn parse_steps_line_numbers() {
    let body = "# comment\necho say hello\n\necho say world\n";
    let steps = parse_steps(body, "test").unwrap();
    assert_eq!(steps[0].line_number, 2);
    assert_eq!(steps[1].line_number, 4);
}

#[test]
fn parse_steps_too_few_tokens() {
    let body = "echo\n";
    let err = parse_steps(body, "test").unwrap_err();
    assert!(err.message().contains("at least a tool and command"));
}

#[test]
fn parse_steps_prev_in_args() {
    let body = "echo say ${prev}\n";
    let steps = parse_steps(body, "test").unwrap();
    assert_eq!(steps[0].args, vec!["${prev}"]);
}

#[test]
fn substitute_prev_works() {
    assert_eq!(
        substitute_prev("hello ${prev} world", "foo"),
        "hello foo world"
    );
    assert_eq!(substitute_prev("no var", "foo"), "no var");
}

#[test]
fn shell_split_unclosed_quote_keeps_rest() {
    assert_eq!(shell_split("a \"b c"), vec!["a", "b c"]);
}

#[test]
fn parse_steps_error_names_the_line() {
    let err = parse_steps("# c\necho\n", "wf").unwrap_err();
    assert!(err.message().contains("line 2"));
}

#[test]
fn only_spaces_separate_tokens() {
    assert_eq!(shell_split("a\tb c"), vec!["a\tb", "c"]);
    assert_eq!(shell_split(r#"say "a  b"c"#), vec!["say", "a  bc"]);
}
