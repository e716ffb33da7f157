use toolshed::output::truncate;

#[test]
fn no_truncation_needed() {
    let input = "hello world";
    assert_eq!(truncate(input, 100), "hello world");
}

#[test]
fn truncates_long_output() {
    let input = "a".repeat(1000);
    let result = truncate(&input, 100);
    assert!(result.contains("[output truncated:"));
    assert!(result.contains("1000 chars total"));
}

#[test]
fn prefers_newline_boundary() {
    let mut input = String::new();
    for _ in 0..85 {
        input.push('a');
    }
    input.push('\n');
    for _ in 0..200 {
        input.push('b');
    }
    let result = truncate(&input, 100);
    assert!(result.starts_with(&"a".repeat(85)));
}

#[test]
fn handles_unicode() {
    let input = "a]c".repeat(200);
    let result = truncate(&input, 100);
    assert!(result.contains("[output truncated:"));
}

#[test]
fn empty_output() {
    assert_eq!(truncate("", 100), "");
}

#[test]
fn binary_detection() {
    let mut input = String::new();
    for i in 0..100u8 {
        input.push(i as char);
    }
    let result = truncate(&input, 50);
    assert!(result.contains("[binary output detected:"));
}

#[test]
fn exact_truncation_text() {
    let input = "a".repeat(300);
    let result = truncate(&input, 100);
    let expected = format!("{}\n[output truncated: 300 chars total, showing first 100. Rerun with --full for complete output]", "a".repeat(100));
    assert_eq!(result, expected);
}

#[test]
fn binary_notice_counts_bytes() {
    let input: String = (0u8..10).map(|b| b as char).collect();
    assert_eq!(truncate(&input, 50), "[binary output detected: 10 bytes]");
}

#[test]
fn long_output_is_cut_after_a_late_newline() {
    let mut text = "x".repeat(90);
    text.push('\n');
    text.push_str(&"y".repeat(50));
    let out = toolshed::output::truncate(&text, 100);
    assert!(out.starts_with(&format!("{}\n\n[output truncated: 141 chars total, showing first 91.", "x".repeat(90))));
}
