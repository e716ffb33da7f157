use toolshed::daemon::state::{DaemonState, ToolStatus};
use toolshed::error::ToolshedError;
use toolshed::json::{json_string, JsonValue};
use toolshed::manifest::{ArgDef, ArgType, CommandDef};
use toolshed::namemap::NameMap;
use toolshed::registry::Registry;
use toolshed::server::{
    build_native_schema, finish_call, handle_rpc, json_to_cli_args, reply_to_json, sanitize_schema,
    RpcReply, RpcStep,
};

fn get<'a>(v: &'a JsonValue, key: &str) -> &'a JsonValue {
    match v {
        JsonValue::Object(m) => &m.iter().find(|(k, _)| k == key).unwrap().1,
        _ => panic!("not an object"),
    }
}

fn text(s: &str) -> JsonValue {
    JsonValue::String(s.to_string())
}

fn arg(arg_type: ArgType, required: bool, positional: bool, default: Option<JsonValue>, description: Option<&str>) -> ArgDef {
    ArgDef { arg_type, required, positional, default, description: description.map(|d| d.to_string()) }
}

#[test]
fn test_build_native_schema() {
    let mut args = NameMap::new();
    args.insert("query".to_string(), arg(ArgType::String, true, true, None, Some("Search query")));
    args.insert(
        "limit".to_string(),
        arg(ArgType::Int, false, false, Some(JsonValue::Number("10".to_string())), Some("Max results")),
    );
    let cmd = CommandDef { description: "test".to_string(), args };

    let schema = build_native_schema(&cmd);
    let props = get(&schema, "properties");
    assert_eq!(get(get(props, "query"), "type"), &text("string"));
    assert_eq!(get(get(props, "limit"), "type"), &text("integer"));
    assert_eq!(get(get(props, "limit"), "default"), &JsonValue::Number("10".to_string()));

    match get(&schema, "required") {
        JsonValue::Array(required) => {
            assert!(required.contains(&text("query")));
            assert!(!required.contains(&text("limit")));
        },
        _ => panic!("required is not an array"),
    }
}

#[test]
fn test_json_to_cli_args() {
    let mut args = NameMap::new();
    args.insert("file".to_string(), arg(ArgType::String, true, true, None, None));
    args.insert("verbose".to_string(), arg(ArgType::Bool, false, false, None, None));
    let cmd = CommandDef { description: "test".to_string(), args };

    let arguments = JsonValue::Object(vec![
        ("file".to_string(), text("test.txt")),
        ("verbose".to_string(), JsonValue::Bool(true)),
    ]);

    let cli_args = json_to_cli_args(&cmd, &arguments);
    assert_eq!(cli_args[0], "test.txt");
    assert!(cli_args.contains(&"--verbose".to_string()));
    assert!(cli_args.contains(&"true".to_string()));
}

fn reply_text(r: &RpcReply) -> String {
    json_string(&reply_to_json(r))
}

#[test]
fn test_outgoing_jsonrpc_result() {
    let r = RpcReply {
        id: Some(JsonValue::Number("1".to_string())),
        result: Some(JsonValue::Object(vec![("ok".to_string(), JsonValue::Bool(true))])),
        error: None,
    };
    let json = reply_text(&r);
    assert!(json.contains("\"result\""));
    assert!(!json.contains("\"error\""));
}

#[test]
fn test_outgoing_jsonrpc_error() {
    let r = RpcReply {
        id: Some(JsonValue::Number("1".to_string())),
        result: None,
        error: Some((-32601, "not found".to_string())),
    };
    let json = reply_text(&r);
    assert!(json.contains("\"error\""));
    assert!(!json.contains("\"result\""));
}

#[test]
fn test_down_tool_error_message() {
    let r = RpcReply {
        id: Some(JsonValue::Number("1".to_string())),
        result: None,
        error: Some((-32003, "Tool 'sourcegraph' is down: connection refused".to_string())),
    };
    let json = reply_text(&r);
    assert!(json.contains("-32003"));
    assert!(json.contains("sourcegraph"));
    assert!(json.contains("connection refused"));
}

#[test]
fn test_recovering_tool_error_message() {
    let r = RpcReply {
        id: Some(JsonValue::Number("1".to_string())),
        result: None,
        error: Some((-32003, "Tool 'vault' is temporarily unavailable (recovering, attempt 2)".to_string())),
    };
    let json = reply_text(&r);
    assert!(json.contains("recovering"));
    assert!(json.contains("attempt 2"));
}

#[test]
fn test_health_response_serialization() {
    let tool = JsonValue::Object(vec![
        ("status".to_string(), text("up")),
        ("last_check".to_string(), text("2026-03-18T14:30:00Z")),
        ("recoveries".to_string(), JsonValue::Number("0".to_string())),
    ]);
    let resp = JsonValue::Object(vec![
        ("status".to_string(), text("healthy")),
        ("uptime_secs".to_string(), JsonValue::Number("84720".to_string())),
        ("tools".to_string(), JsonValue::Object(vec![("code-search".to_string(), tool)])),
        (
            "auth".to_string(),
            JsonValue::Object(vec![
                ("next_refresh".to_string(), text("2026-03-18T15:18:00Z")),
                ("vault_reachable".to_string(), JsonValue::Bool(true)),
            ]),
        ),
    ]);
    let json_str = json_string(&resp);
    assert!(json_str.contains("healthy"));
    assert!(json_str.contains("code-search"));
}

#[test]
fn reply_text_is_exact() {
    let r = RpcReply {
        id: Some(JsonValue::Number("7".to_string())),
        result: Some(JsonValue::Object(vec![
            ("b".to_string(), JsonValue::Null),
            ("a".to_string(), JsonValue::Bool(false)),
        ])),
        error: None,
    };
    assert_eq!(reply_text(&r), r#"{"jsonrpc":"2.0","id":7,"result":{"a":false,"b":null}}"#);
}

#[test]
fn failed_call_is_an_error_result() {
    let r = finish_call(
        Some(JsonValue::Number("3".to_string())),
        Err(ToolshedError::ToolNotFound { name: "nope".to_string() }),
    );
    let json = reply_text(&r);
    assert!(json.contains("\"isError\":true"));
    assert!(json.contains("nope"));
    let ok = reply_text(&finish_call(None, Ok("fine".to_string())));
    assert!(ok.contains("\"isError\":false"));
    assert!(ok.contains("fine"));
}

#[test]
fn unknown_method_is_refused() {
    let reg = Registry::new();
    let daemon: DaemonState<String> = DaemonState::new();
    let step = handle_rpc("bogus", Some(JsonValue::Number("1".to_string())), None, &vec![], &reg, &daemon, 0);
    match step {
        RpcStep::Reply(r) => {
            let (code, message) = r.error.unwrap();
            assert_eq!(code, -32601);
            assert_eq!(message, "method not found: bogus");
        },
        _ => panic!("expected a reply"),
    }
}

#[test]
fn initialize_names_the_server() {
    let reg = Registry::new();
    let daemon: DaemonState<String> = DaemonState::new();
    match handle_rpc("initialize", None, None, &vec![], &reg, &daemon, 0) {
        RpcStep::Reply(r) => {
            let json = reply_text(&r);
            assert!(json.contains("\"serverInfo\":{\"name\":\"toolshed\""));
        },
        _ => panic!("expected a reply"),
    }
}

#[test]
fn health_reports_recovering_tools() {
    let reg = Registry::new();
    let mut daemon: DaemonState<String> = DaemonState::new();
    let mut t = ToolStatus::new_up();
    t.mark_recovering(1);
    daemon.tool_status.insert("code-search".to_string(), t);
    match handle_rpc("daemon/health", None, None, &vec![], &reg, &daemon, 5) {
        RpcStep::Reply(r) => {
            let json = reply_text(&r);
            assert!(json.contains("\"status\":\"recovering\""));
            assert!(json.contains("\"uptime_secs\":5"));
        },
        _ => panic!("expected a reply"),
    }
}

#[test]
fn schema_any_of_is_resolved() {
    let schema = JsonValue::Object(vec![(
        "anyOf".to_string(),
        JsonValue::Array(vec![
            JsonValue::Object(vec![("type".to_string(), text("string"))]),
            JsonValue::Object(vec![("type".to_string(), text("null"))]),
        ]),
    )]);
    let s = json_string(&sanitize_schema(&schema));
    assert!(!s.contains("anyOf"));
    assert!(s.contains("string"));
}
