use toolshed::config::{DEFAULT_IDLE_TIMEOUT, DEFAULT_MAX_OUTPUT};
use toolshed::json::JsonValue;
use toolshed::manifest::{
    ArgDef, ArgType, CommandDef, ManifestSource, McpConfig, McpTransport, ToolManifest, ToolType,
};
use toolshed::namemap::NameMap;

fn command(description: &str, args: Vec<(&str, ArgDef)>) -> CommandDef {
    let mut m = NameMap::new();
    for (k, a) in args {
        m.insert(k.to_string(), a);
    }
    CommandDef { description: description.to_string(), args: m }
}

fn native(name: &str, description: &str, commands: Vec<(&str, CommandDef)>) -> ToolManifest {
    let mut m = NameMap::new();
    for (k, c) in commands {
        m.insert(k.to_string(), c);
    }
    ToolManifest {
        name: name.to_string(),
        description: description.to_string(),
        category: "testing".to_string(),
        tool_type: ToolType::Native,
        max_output: DEFAULT_MAX_OUTPUT,
        health: None,
        tier: None,
        commands: m,
        mcp: None,
    }
}

fn valid_native() -> ToolManifest {
    let query = ArgDef {
        arg_type: ArgType::String,
        required: true,
        positional: true,
        default: None,
        description: Some("The query".to_string()),
    };
    native("test-tool", "A test tool", vec![("run", command("Run something", vec![("query", query)]))])
}

fn mcp_config(transport: McpTransport, command: Option<&str>, args: Vec<&str>, url: Option<&str>) -> McpConfig {
    McpConfig {
        transport,
        command: command.map(|c| c.to_string()),
        args: args.into_iter().map(|a| a.to_string()).collect(),
        url: url.map(|u| u.to_string()),
        env: NameMap::new(),
        headers: NameMap::new(),
        idle_timeout: DEFAULT_IDLE_TIMEOUT,
    }
}

fn mcp(name: &str, description: &str, config: Option<McpConfig>) -> ToolManifest {
    ToolManifest {
        name: name.to_string(),
        description: description.to_string(),
        category: "testing".to_string(),
        tool_type: ToolType::Mcp,
        max_output: DEFAULT_MAX_OUTPUT,
        health: None,
        tier: None,
        commands: NameMap::new(),
        mcp: config,
    }
}

fn valid_mcp_stdio() -> ToolManifest {
    let mut c = mcp_config(McpTransport::Stdio, Some("node"), vec!["server.js"], None);
    c.env.insert("API_KEY".to_string(), "${MY_KEY}".to_string());
    mcp("mcp-test", "An MCP test tool", Some(c))
}

fn valid_mcp_http() -> ToolManifest {
    let c = mcp_config(McpTransport::Http, None, vec![], Some("https://example.com/mcp"));
    mcp("mcp-http", "An MCP HTTP tool", Some(c))
}

fn one_command(name: &str, description: &str) -> ToolManifest {
    native(name, description, vec![("x", command("x", vec![]))])
}

#[test]
fn parse_valid_native() {
    let m = valid_native();
    m.validate("test-tool").unwrap();
    assert!(matches!(m.tool_type, ToolType::Native));
    assert_eq!(m.max_output, DEFAULT_MAX_OUTPUT);
    assert_eq!(m.commands.len(), 1);
    let cmd = m.commands.get("run").unwrap();
    assert!(cmd.args.get("query").unwrap().required);
    assert!(cmd.args.get("query").unwrap().positional);
}

#[test]
fn parse_valid_mcp_stdio() {
    let m = valid_mcp_stdio();
    m.validate("mcp-test").unwrap();
    assert!(matches!(m.tool_type, ToolType::Mcp));
    let mcp = m.mcp.unwrap();
    assert_eq!(mcp.command.unwrap(), "node");
    assert_eq!(mcp.args, vec!["server.js"]);
}

#[test]
fn parse_valid_mcp_http() {
    let m = valid_mcp_http();
    m.validate("mcp-http").unwrap();
    let mcp = m.mcp.unwrap();
    assert_eq!(mcp.url.unwrap(), "https://example.com/mcp");
}

#[test]
fn name_mismatch() {
    let err = valid_native().validate("wrong-name").unwrap_err();
    assert!(err.message().contains("does not match directory"));
}

#[test]
fn invalid_name_chars() {
    let m = one_command("Bad Tool!", "bad");
    let err = m.validate("Bad Tool!").unwrap_err();
    assert!(err.message().contains("[a-z0-9_-]"));
}

#[test]
fn empty_description() {
    let err = one_command("x", "").validate("x").unwrap_err();
    assert!(err.message().contains("empty"));
}

#[test]
fn native_no_commands() {
    let err = native("x", "desc", vec![]).validate("x").unwrap_err();
    assert!(err.message().contains("at least one command"));
}

#[test]
fn mcp_missing_config() {
    let err = mcp("x", "desc", None).validate("x").unwrap_err();
    assert!(err.message().contains("require 'mcp' config"));
}

#[test]
fn mcp_stdio_missing_command() {
    let c = mcp_config(McpTransport::Stdio, None, vec![], None);
    let err = mcp("x", "desc", Some(c)).validate("x").unwrap_err();
    assert!(err.message().contains("requires 'command'"));
}

#[test]
fn mcp_http_missing_url() {
    let c = mcp_config(McpTransport::Http, None, vec![], None);
    let err = mcp("x", "desc", Some(c)).validate("x").unwrap_err();
    assert!(err.message().contains("requires 'url'"));
}

#[test]
fn max_output_too_small() {
    let mut m = one_command("x", "desc");
    m.max_output = 100;
    let err = m.validate("x").unwrap_err();
    assert!(err.message().contains(">= 256"));
}

#[test]
fn unreadable_manifest_is_reported() {
    let err = ToolManifest::load_and_validate(ManifestSource::Unreadable("denied".to_string()), "x")
        .unwrap_err();
    assert_eq!(err.message(), "bad manifest for tool 'x': cannot read tool.json: denied");
}

#[test]
fn invalid_json_manifest_is_reported() {
    let err = ToolManifest::load_and_validate(ManifestSource::InvalidJson("eof".to_string()), "x")
        .unwrap_err();
    assert!(err.message().ends_with("invalid JSON: eof"));
}

#[test]
fn valid_manifest_is_returned() {
    let m = ToolManifest::load_and_validate(ManifestSource::Parsed(valid_native()), "test-tool").unwrap();
    assert_eq!(m.name, "test-tool");
}

#[test]
fn long_name_is_refused() {
    let name = "a".repeat(65);
    let err = one_command(&name, "desc").validate(&name).unwrap_err();
    assert!(err.message().contains("[a-z0-9_-]"));
    assert!(toolshed::manifest::is_valid_name(&"a".repeat(64)));
}

#[test]
fn default_value_is_kept() {
    let arg = ArgDef {
        arg_type: ArgType::Int,
        required: false,
        positional: false,
        default: Some(JsonValue::Number("3".to_string())),
        description: None,
    };
    let m = native("t", "d", vec![("c", command("c", vec![("n", arg)]))]);
    m.validate("t").unwrap();
}
