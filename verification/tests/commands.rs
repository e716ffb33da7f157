use toolshed::audit::AuditFileInfo;
use toolshed::cli::AuditAction;
use toolshed::commands::{audit_action_metadata, audit_list_lines, files_for_session, tool_call_data, tool_result_data};
use toolshed::config::{audit_dir, tools_dir, toolshed_dir, toolshed_dir_from};
use toolshed::error::ToolshedError;
use toolshed::json::json_string;

#[test]
fn tool_call_is_recorded_with_its_words() {
    let v = tool_call_data("echo", "say", &vec!["hi".to_string(), "--loud".to_string()], "native", "demo");
    assert_eq!(
        json_string(&v),
        r#"{"tool":"echo","command":"say","args":["hi","--loud"],"toolType":"native","category":"demo"}"#
    );
}

#[test]
fn tool_result_records_length_or_error() {
    let ok = tool_result_data("echo", "say", 12, &Ok("héllo".to_string()));
    assert_eq!(json_string(&ok), r#"{"tool":"echo","command":"say","durationMs":12,"outputLen":6}"#);
    let err = tool_result_data("echo", "say", 3, &Err(ToolshedError::ToolNotFound { name: "echo".to_string() }));
    assert!(json_string(&err).contains(r#""error":"tool not found: echo""#));
}

#[test]
fn audit_actions_name_their_event() {
    let (event, data) = audit_action_metadata(&AuditAction::List { limit: 5 });
    assert_eq!(event, "audit_list");
    assert_eq!(json_string(&data), r#"{"action":"list","limit":5}"#);
}

fn file(session: &str, date: &str) -> AuditFileInfo {
    AuditFileInfo {
        path: format!("/a/{session}-{date}.jsonl"),
        session_id: session.to_string(),
        date: date.to_string(),
        size_bytes: 100,
        entry_count: 2,
    }
}

#[test]
fn audit_list_shows_files_up_to_the_limit() {
    assert_eq!(audit_list_lines(&vec![], 5), vec!["No audit files found.".to_string()]);
    let files = vec![file("abc", "2026-01-02"), file("def", "2026-01-01")];
    assert_eq!(audit_list_lines(&files, 1), vec!["abc  2026-01-02  2 entries  100 bytes".to_string()]);
}

#[test]
fn session_filter_matches_part_of_the_id() {
    let files = vec![file("abc-1", "2026-01-02"), file("def-2", "2026-01-01")];
    let kept = files_for_session(files, Some("def"));
    assert_eq!(kept.len(), 1);
    assert_eq!(kept[0].session_id, "def-2");
}

#[test]
fn toolshed_dir_prefers_the_environment() {
    assert_eq!(toolshed_dir_from(Some("/srv/ts".to_string()), Some("/home/u".to_string())), "/srv/ts");
    assert_eq!(toolshed_dir_from(None, Some("/home/u".to_string())), "/home/u/.toolshed");
    assert_eq!(toolshed_dir_from(None, None), "/tmp/.toolshed");
    assert_eq!(toolshed_dir(Some("/srv/ts".to_string())), "/srv/ts");
    assert_eq!(tools_dir("/srv/ts"), "/srv/ts/tools");
    assert_eq!(audit_dir("/srv/ts"), "/srv/ts/audit");
}
