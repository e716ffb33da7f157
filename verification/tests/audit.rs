use toolshed::audit::{
    audit_file_name, compute_entry_hash, entry_line, is_sensitive_key, query_entries, redact_value,
    sort_newest_first, verify_entries, verify_file, AuditEntry, AuditFileInfo, AuditLogger, QueryOptions,
};
use toolshed::json::{canonicalize, json_string, JsonValue};

fn text(s: &str) -> JsonValue {
    JsonValue::String(s.to_string())
}

fn object(members: Vec<(&str, JsonValue)>) -> JsonValue {
    JsonValue::Object(members.into_iter().map(|(k, v)| (k.to_string(), v)).collect())
}

fn number(n: u64) -> JsonValue {
    JsonValue::Number(n.to_string())
}

fn get<'a>(v: &'a JsonValue, key: &str) -> &'a JsonValue {
    toolshed::json::field(v, key).unwrap()
}

fn record_two(logger: &mut AuditLogger) -> Vec<AuditEntry> {
    let e1 = logger.record_at(
        "tool",
        "tool_call",
        "user",
        &object(vec![("tool", text("rc")), ("command", text("search"))]),
        None,
        "2025-01-01T00:00:00.000Z",
    );
    let e2 = logger.record_at(
        "tool",
        "tool_result",
        "user",
        &object(vec![("tool", text("rc")), ("durationMs", number(100))]),
        Some("success".into()),
        "2025-01-01T00:00:01.000Z",
    );
    vec![e1, e2]
}

#[test]
fn sensitive_key_detection() {
    assert!(is_sensitive_key("password"));
    assert!(is_sensitive_key("api_key"));
    assert!(is_sensitive_key("apiKey"));
    assert!(is_sensitive_key("Authorization"));
    assert!(is_sensitive_key("access_token"));
    assert!(is_sensitive_key("bearer"));
    assert!(is_sensitive_key("cookie"));
    assert!(is_sensitive_key("clientSecret"));
    assert!(is_sensitive_key("PRIVATE_KEY"));

    assert!(is_sensitive_key("apikey"));
    assert!(is_sensitive_key("clientsecret"));
    assert!(is_sensitive_key("accesskey"));

    assert!(!is_sensitive_key("username"));
    assert!(!is_sensitive_key("tool"));
    assert!(!is_sensitive_key("command"));
    assert!(!is_sensitive_key("query"));
    assert!(!is_sensitive_key("name"));
}

#[test]
fn sensitive_keys_go_by_whole_words() {
    assert!(!is_sensitive_key("monkey"));
    assert!(is_sensitive_key("X-Api-Key"));
    assert!(!is_sensitive_key(""));
    assert!(is_sensitive_key("set-cookie"));
    assert!(!is_sensitive_key("tokenizer"));
    assert!(is_sensitive_key("userToken"));
}

#[test]
fn redaction() {
    let data = object(vec![
        ("tool", text("rc")),
        ("apiKey", text("test-key-12345")),
        ("nested", object(vec![("password", text("hunter2")), ("name", text("test"))])),
        (
            "list",
            JsonValue::Array(vec![object(vec![("token", text("abc"))]), object(vec![("safe", text("ok"))])]),
        ),
    ]);
    let redacted = redact_value(&data);
    assert_eq!(*get(&redacted, "tool"), text("rc"));
    assert_eq!(*get(&redacted, "apiKey"), text("[REDACTED]"));
    assert_eq!(*get(get(&redacted, "nested"), "password"), text("[REDACTED]"));
    assert_eq!(*get(get(&redacted, "nested"), "name"), text("test"));
    let JsonValue::Array(list) = get(&redacted, "list") else { panic!("list") };
    assert_eq!(*get(&list[0], "token"), text("[REDACTED]"));
    assert_eq!(*get(&list[1], "safe"), text("ok"));
}

#[test]
fn hash_consistency() {
    let mut logger = AuditLogger::starting("test-session", "/tmp/audit", "2025-01-01");
    let entries = record_two(&mut logger);
    let (e1, e2) = (&entries[0], &entries[1]);
    assert_eq!(e1.seq, 1);
    assert_eq!(e2.seq, 2);
    assert!(e1.prev_hash.is_empty());
    assert_eq!(e2.prev_hash, e1.hash);
    assert_eq!(compute_entry_hash(e1), e1.hash);
    assert_eq!(compute_entry_hash(e2), e2.hash);
    assert_eq!(e1.hash.len(), 64);
}

#[test]
fn canonicalize_preserves_sorted_keys() {
    let value = object(vec![("z", number(1)), ("a", object(vec![("y", number(2)), ("b", number(3))]))]);
    let json = json_string(&canonicalize(&value));
    assert!(json.contains("\"a\""));
    assert!(json.contains("\"z\""));
    assert_eq!(json, r#"{"a":{"b":3,"y":2},"z":1}"#);
}

#[test]
fn logger_write_and_verify() {
    let mut logger = AuditLogger::starting("verify-test", "/tmp/audit", "2025-01-01");
    let entries = record_two(&mut logger);
    assert_eq!(logger.file_path(), "/tmp/audit/verify-test-2025-01-01.jsonl");
    let result = verify_entries(&entries);
    assert!(result.valid);
    assert_eq!(result.total_entries, 2);
    assert!(result.error_message.is_none());
}

#[test]
fn tamper_detection() {
    let mut logger = AuditLogger::starting("tamper-test", "/tmp/audit", "2025-01-01");
    let mut entries = record_two(&mut logger);
    entries[0].event = "tool_hack".to_string();
    let result = verify_file(Ok(entries));
    assert!(!result.valid);
    assert_eq!(
        result.error_message.as_deref(),
        Some("Entry seq=1: hash mismatch (entry was tampered with)")
    );
}

#[test]
fn broken_link_is_reported() {
    let mut logger = AuditLogger::starting("link-test", "/tmp/audit", "2025-01-01");
    let mut entries = record_two(&mut logger);
    entries[1].prev_hash = "0".repeat(64);
    let result = verify_entries(&entries);
    assert!(!result.valid);
    assert_eq!(result.error_message.as_deref(), Some("Entry seq=2: prevHash mismatch"));
}

#[test]
fn unreadable_file_is_reported() {
    let result = verify_file(Err("no such file".into()));
    assert!(!result.valid);
    assert_eq!(result.total_entries, 0);
    assert_eq!(result.error_message.as_deref(), Some("cannot read file: no such file"));
}

#[test]
fn empty_trail_is_valid() {
    let result = verify_entries(&Vec::new());
    assert!(result.valid);
    assert_eq!(result.total_entries, 0);
}

#[test]
fn entry_line_fields_in_order() {
    let mut logger = AuditLogger::starting("s", "/a", "2025-01-01");
    let e = logger.record_at("tool", "tool_call", "user", &object(vec![("b", number(1)), ("a", number(2))]), None, "T");
    let line = entry_line(&e);
    let prefix = r#"{"seq":1,"ts":"T","sessionId":"s","category":"tool","event":"tool_call","actor":"user","data":{"a":2,"b":1},"prevHash":"","hash":""#;
    assert!(line.starts_with(prefix));
}

#[test]
fn query_filters() {
    let mut logger = AuditLogger::starting("query-test", "/tmp/audit", "2025-01-01");
    let mut entries = Vec::new();
    entries.push(logger.record_at("tool", "tool_call", "user", &object(vec![("tool", text("rc"))]), None, "2025-01-01T00:00:00.000Z"));
    entries.push(logger.record_at("tool", "tool_result", "user", &object(vec![("tool", text("rc"))]), Some("success".into()), "2025-01-01T00:00:01.000Z"));
    entries.push(logger.record_at("tool", "tool_call", "user", &object(vec![("tool", text("github"))]), None, "2025-01-01T00:00:02.000Z"));
    entries.push(logger.record_at("tool", "tool_result", "user", &object(vec![("tool", text("github"))]), Some("error".into()), "2025-01-01T00:00:03.000Z"));
    let again = |entries: &Vec<AuditEntry>| -> Vec<AuditEntry> {
        entries
            .iter()
            .map(|e| AuditEntry {
                seq: e.seq,
                ts: e.ts.clone(),
                session_id: e.session_id.clone(),
                category: e.category.clone(),
                event: e.event.clone(),
                actor: e.actor.clone(),
                data: toolshed::json::clone_json(&e.data),
                outcome: e.outcome.clone(),
                prev_hash: e.prev_hash.clone(),
                hash: e.hash.clone(),
            })
            .collect()
    };
    let opts = |event: Option<&str>, outcome: Option<&str>, search: Option<&str>, limit: usize| QueryOptions {
        event: event.map(String::from),
        outcome: outcome.map(String::from),
        since: None,
        search: search.map(String::from),
        limit,
    };

    let results = query_entries(again(&entries), &opts(Some("tool_result"), None, None, 50));
    assert_eq!(results.len(), 2);

    let results = query_entries(again(&entries), &opts(None, Some("error"), None, 50));
    assert_eq!(results.len(), 1);

    let results = query_entries(again(&entries), &opts(None, None, Some("github"), 50));
    assert_eq!(results.len(), 2);

    let results = query_entries(again(&entries), &opts(None, None, None, 2));
    assert_eq!(results.len(), 2);
    assert_eq!(results[0].seq, 4);

    let since = QueryOptions { event: None, outcome: None, since: Some("2025-01-01T00:00:02Z".into()), search: None, limit: 50 };
    let results = query_entries(again(&entries), &since);
    assert_eq!(results.len(), 2);
}

#[test]
fn audit_file_names() {
    assert_eq!(
        audit_file_name("abc-def-2025-03-04.jsonl"),
        Some(("abc-def".to_string(), "2025-03-04".to_string()))
    );
    assert_eq!(audit_file_name("notes.txt"), None);
}

#[test]
fn files_sorted_newest_first() {
    let f = |s: &str, d: &str| AuditFileInfo { path: format!("/x/{s}"), session_id: s.into(), date: d.into(), size_bytes: 0, entry_count: 0 };
    let sorted = sort_newest_first(vec![f("a", "2025-01-01"), f("b", "2025-02-01"), f("c", "2025-01-01")]);
    let order: Vec<&str> = sorted.iter().map(|x| x.session_id.as_str()).collect();
    assert_eq!(order, vec!["b", "a", "c"]);
}

#[test]
fn entry_lines_skip_blank_lines() {
    let lines = toolshed::audit::entry_lines("a\n\n  b  \r\n\n");
    assert_eq!(lines, vec!["a".to_string(), "b".to_string()]);
}

#[test]
fn entry_read_back_from_its_line() {
    let mut logger = AuditLogger::starting("s1", "/tmp/audit-read", "2026-01-02");
    let entries = record_two(&mut logger);
    let line = toolshed::audit::entry_line(&entries[0]);
    assert!(line.starts_with("{\"seq\":1,"));
    let v = JsonValue::Object(vec![
        ("seq".to_string(), number(1)),
        ("ts".to_string(), text(&entries[0].ts)),
        ("sessionId".to_string(), text("s1")),
        ("category".to_string(), text(&entries[0].category)),
        ("event".to_string(), text(&entries[0].event)),
        ("actor".to_string(), text(&entries[0].actor)),
        ("prevHash".to_string(), text(&entries[0].prev_hash)),
        ("hash".to_string(), text(&entries[0].hash)),
    ]);
    let e = AuditEntry::from_json(&v).unwrap();
    assert_eq!(e.seq, 1);
    assert_eq!(e.session_id, "s1");
    assert_eq!(e.data, JsonValue::Null);
    assert!(e.outcome.is_none());
    assert_eq!(e.hash, entries[0].hash);
}

#[test]
fn entry_from_non_object_is_refused() {
    assert_eq!(AuditEntry::from_json(&text("x")).unwrap_err(), "expected object");
    let e = AuditEntry::from_json(&object(vec![("seq", text("1")), ("outcome", text("ok"))])).unwrap();
    assert_eq!(e.seq, 0);
    assert_eq!(e.ts, "");
    assert_eq!(e.outcome.as_deref(), Some("ok"));
}

#[test]
fn sensitive_values_are_hidden_at_depth() {
    let v = object(vec![
        ("user", text("ann")),
        ("nested", object(vec![("apiKey", text("k")), ("list", JsonValue::Array(vec![object(vec![("password", text("p"))])]))])),
    ]);
    let r = toolshed::audit::redact_value(&v);
    assert_eq!(
        json_string(&r),
        r#"{"user":"ann","nested":{"apiKey":"[REDACTED]","list":[{"password":"[REDACTED]"}]}}"#
    );
}
