use toolshed::json::{json_string, JsonValue};
use toolshed::mcp::{
    arguments_object,
    call_output, convert_tool_def, list_page, mcp_arg_pairs, notification_to_json, request_to_json,
    stdio_reply, ContentItem, InitializeParams, JsonRpcNotification, JsonRpcRequest, JsonRpcResponse,
    McpToolDef, McpToolInfo, ParamInfo, ToolCallResult, ToolsListResult,
};
use toolshed::error::ToolshedError;

fn to_json(v: &serde_json::Value) -> JsonValue {
    match v {
        serde_json::Value::Null => JsonValue::Null,
        serde_json::Value::Bool(b) => JsonValue::Bool(*b),
        serde_json::Value::Number(n) => JsonValue::Number(n.to_string()),
        serde_json::Value::String(s) => JsonValue::String(s.clone()),
        serde_json::Value::Array(a) => JsonValue::Array(a.iter().map(to_json).collect()),
        serde_json::Value::Object(m) => {
            JsonValue::Object(m.iter().map(|(k, v)| (k.clone(), to_json(v))).collect())
        }
    }
}

fn parse(text: &str) -> JsonValue {
    to_json(&serde_json::from_str::<serde_json::Value>(text).unwrap())
}

#[test]
fn roundtrip_request() {
    let req = JsonRpcRequest::new(1, "initialize", None);
    let text = json_string(&request_to_json(&req));
    let back: serde_json::Value = serde_json::from_str(&text).unwrap();
    assert_eq!(back["id"], 1);
    assert_eq!(back["method"], "initialize");
    assert_eq!(text, r#"{"jsonrpc":"2.0","id":1,"method":"initialize"}"#);
}

#[test]
fn roundtrip_response_with_result() {
    let json = r#"{"jsonrpc":"2.0","id":1,"result":{"protocolVersion":"2024-11-05"}}"#;
    let resp = JsonRpcResponse::from_json(&parse(json)).unwrap();
    assert_eq!(resp.id, Some(1));
    assert!(resp.result.is_some());
    assert!(resp.error.is_none());
}

#[test]
fn roundtrip_response_with_error() {
    let json = r#"{"jsonrpc":"2.0","id":2,"error":{"code":-32601,"message":"Method not found"}}"#;
    let resp = JsonRpcResponse::from_json(&parse(json)).unwrap();
    assert!(resp.error.is_some());
    assert_eq!(resp.error.unwrap().code, -32601);
}

#[test]
fn roundtrip_tool_call_result() {
    let json = r#"{"content":[{"type":"text","text":"hello"}],"isError":false}"#;
    let result = ToolCallResult::from_json(&parse(json)).unwrap();
    assert_eq!(result.content.len(), 1);
    assert_eq!(result.content[0].as_text(), Some("hello"));
    assert!(!result.is_error);
}

#[test]
fn parse_tools_list() {
    let json = r#"{"tools":[{"name":"search","description":"Search issues","inputSchema":{"type":"object","properties":{"query":{"type":"string"}},"required":["query"]}}]}"#;
    let result = ToolsListResult::from_json(&parse(json)).unwrap();
    assert_eq!(result.tools.len(), 1);
    assert_eq!(result.tools[0].name, "search");
}

#[test]
fn notification_no_id() {
    let notif = JsonRpcNotification::new("initialized", None);
    let text = json_string(&notification_to_json(&notif));
    assert!(!text.contains("\"id\""));
}

#[test]
fn initialize_params_name_the_client() {
    let p = InitializeParams::default_params();
    assert_eq!(p.protocol_version, "2024-11-05");
    assert_eq!(p.client_info.name, "toolshed");
    let text = json_string(&toolshed::mcp::initialize_to_json(&p));
    assert_eq!(
        text,
        r#"{"capabilities":{},"clientInfo":{"name":"toolshed","version":"0.1.0"},"protocolVersion":"2024-11-05"}"#
    );
}

#[test]
fn call_output_joins_text_items() {
    let v = parse(r#"{"content":[{"type":"text","text":"a"},{"type":"image","data":"x","mimeType":"image/png"},{"type":"text","text":"b"}]}"#);
    assert_eq!(call_output(&v, "srv").unwrap(), "a\nb");
}

#[test]
fn call_output_reports_tool_error() {
    let v = parse(r#"{"content":[{"type":"text","text":"boom"}],"isError":true}"#);
    let err = call_output(&v, "srv").unwrap_err();
    assert!(matches!(err, ToolshedError::McpRpcError { code: -1, ref message, .. } if message == "boom"));
}

#[test]
fn call_output_rejects_unknown_content() {
    let v = parse(r#"{"content":[{"type":"video"}]}"#);
    let err = call_output(&v, "srv").unwrap_err();
    assert!(err.message().contains("unknown variant `video`"));
}

#[test]
fn stdio_reply_skips_other_ids() {
    let other = parse(r#"{"jsonrpc":"2.0","id":7,"result":{}}"#);
    assert!(stdio_reply(&other, 1, "srv").is_none());
    let notification = parse(r#"{"jsonrpc":"2.0","method":"log"}"#);
    assert!(stdio_reply(&notification, 1, "srv").is_none());
    let mine = parse(r#"{"jsonrpc":"2.0","id":1}"#);
    let err = stdio_reply(&mine, 1, "srv").unwrap().unwrap_err();
    assert!(err.message().contains("response has no result"));
}

#[test]
fn list_page_drops_empty_cursor() {
    let v = parse(r#"{"tools":[],"nextCursor":""}"#);
    let (tools, next) = list_page(&v, "srv").unwrap();
    assert!(tools.is_empty());
    assert!(next.is_none());
    let v = parse(r#"{"tools":[{"name":"a"}],"nextCursor":"p2"}"#);
    let (tools, next) = list_page(&v, "srv").unwrap();
    assert_eq!(tools.len(), 1);
    assert_eq!(next.as_deref(), Some("p2"));
}

#[test]
fn convert_tool_def_reads_schema() {
    let def = McpToolDef {
        name: "search".into(),
        description: Some("Search".into()),
        input_schema: Some(parse(
            r#"{"type":"object","properties":{"limit":{"type":"number"},"query":{"type":"string","description":"what"}},"required":["query"]}"#,
        )),
    };
    let info = convert_tool_def(&def);
    assert_eq!(info.name, "search");
    assert_eq!(info.params.len(), 2);
    assert_eq!(info.params[1].name, "query");
    assert!(info.params[1].required);
    assert_eq!(info.params[1].description.as_deref(), Some("what"));
    assert_eq!(info.format_params(), "limit?: number, query: string");
}

#[test]
fn format_params_marks_optional() {
    let info = McpToolInfo {
        name: "t".into(),
        description: None,
        params: vec![
            ParamInfo { name: "a".into(), param_type: "string".into(), required: true, description: None },
            ParamInfo { name: "b".into(), param_type: "any".into(), required: false, description: None },
        ],
    };
    assert_eq!(info.format_params(), "a: string, b?: any");
}

#[test]
fn mcp_args_pair_flags_with_values() {
    let args: Vec<String> = vec!["pos".into(), "--q".into(), "x".into(), "--flag".into()];
    let pairs = mcp_arg_pairs(&args);
    assert_eq!(pairs, vec![("q".to_string(), Some("x".to_string())), ("flag".to_string(), None)]);
}

#[test]
fn content_as_text_only_for_text() {
    assert_eq!(ContentItem::Text { text: "t".into() }.as_text(), Some("t"));
    assert_eq!(ContentItem::Image { data: "d".into(), mime_type: "m".into() }.as_text(), None);
}

#[test]
fn later_argument_replaces_earlier() {
    let pairs = vec![
        ("b".to_string(), JsonValue::Number("1".to_string())),
        ("a".to_string(), JsonValue::Bool(true)),
        ("b".to_string(), JsonValue::String("two".to_string())),
    ];
    assert_eq!(
        toolshed::json::json_string(&arguments_object(&pairs)),
        r#"{"a":true,"b":"two"}"#
    );
}

#[test]
fn content_that_is_no_array_is_named_as_a_decoder_names_it() {
    for text in [r#""x\ty""#, "5", "-3", "1.5", "1e3", "true", "null", "{}"] {
        let serde_reason = serde_json::from_value::<Vec<serde_json::Value>>(
            serde_json::from_str::<serde_json::Value>(text).unwrap(),
        )
        .unwrap_err()
        .to_string();
        let result = parse(&format!(r#"{{"content":{text}}}"#));
        let err = call_output(&result, "srv").unwrap_err();
        assert_eq!(err.message(), format!("MCP bad response for 'srv': bad tools/call response: {serde_reason}"));
        let list = parse(&format!(r#"{{"tools":{text}}}"#));
        assert_eq!(ToolsListResult::from_json(&list).unwrap_err(), serde_reason);
    }
}

#[test]
fn number_written_in_any_form_is_named_as_serde_names_it() {
    for text in ["1e20", "5.0e0", "-0", "12", "1E2"] {
        let serde_reason = serde_json::from_value::<Vec<serde_json::Value>>(
            serde_json::from_str::<serde_json::Value>(text).unwrap(),
        )
        .unwrap_err()
        .to_string();
        let list = JsonValue::Object(vec![("tools".to_string(), JsonValue::Number(text.to_string()))]);
        assert_eq!(ToolsListResult::from_json(&list).unwrap_err(), serde_reason);
    }
}
