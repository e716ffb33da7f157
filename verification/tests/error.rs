use toolshed::error::ToolshedError;

#[test]
fn display_no_toolshed_dir() {
    let e = ToolshedError::NoToolshedDir { path: "/tmp/ts".into() };
    assert_eq!(e.message(), "no toolshed directory at /tmp/ts");
}

#[test]
fn display_tool_not_found() {
    let e = ToolshedError::ToolNotFound { name: "grep".into() };
    assert_eq!(e.message(), "tool not found: grep");
}

#[test]
fn display_bad_manifest() {
    let e = ToolshedError::BadManifest { tool: "foo".into(), reason: "missing name".into() };
    assert_eq!(e.message(), "bad manifest for tool 'foo': missing name");
}

#[test]
fn display_missing_arg() {
    let e = ToolshedError::MissingArg { tool: "echo".into(), command: "say".into(), arg: "text".into() };
    assert_eq!(e.message(), "missing required argument 'text' for echo/say");
}

#[test]
fn display_tool_failed() {
    let e = ToolshedError::ToolFailed { tool: "lint".into(), code: 1, stderr: "bad code".into() };
    assert_eq!(e.message(), "tool 'lint' failed with exit code 1: bad code");
}

#[test]
fn display_mcp_rpc_error() {
    let e = ToolshedError::McpRpcError { tool: "search".into(), code: -32600, message: "invalid".into() };
    assert_eq!(e.message(), "MCP RPC error for 'search': [-32600] invalid");
}

#[test]
fn display_workflow_step_failed() {
    let e = ToolshedError::WorkflowStepFailed {
        workflow: "ci".into(),
        step: 2,
        tool: "lint".into(),
        command: "run".into(),
        reason: "failed".into(),
    };
    assert_eq!(e.message(), "workflow 'ci' step 2 (lint run) failed: failed");
}

#[test]
fn display_io_error() {
    let e = ToolshedError::Io("gone".into());
    assert_eq!(e.message(), "I/O error: gone");
}

#[test]
fn display_mcp_crashed() {
    let e = ToolshedError::McpCrashed { tool: "srv".into() };
    assert_eq!(e.message(), "MCP server crashed for 'srv'");
}

#[test]
fn from_io_error() {
    let io_err = std::io::Error::other("disk full");
    let e = ToolshedError::Io(io_err.to_string());
    assert!(matches!(e, ToolshedError::Io(_)));
    assert_eq!(e.message(), "I/O error: disk full");
}

#[test]
fn from_json_error() {
    let Err(json_err) = serde_json::from_str::<serde_json::Value>("{{bad") else {
        unreachable!();
    };
    let msg = format!("JSON error: {json_err}");
    let e = ToolshedError::Json(json_err.to_string());
    assert!(matches!(e, ToolshedError::Json(_)));
    assert_eq!(e.message(), msg);
}

#[test]
fn exit_code_not_found_variants() {
    assert_eq!(ToolshedError::ToolNotFound { name: "x".into() }.exit_code(), 1);
    assert_eq!(ToolshedError::CategoryNotFound { name: "x".into() }.exit_code(), 1);
    assert_eq!(ToolshedError::SkillNotFound { name: "x".into() }.exit_code(), 1);
    assert_eq!(ToolshedError::WorkflowNotFound { name: "x".into() }.exit_code(), 1);
}

#[test]
fn exit_code_tool_failed_uses_code() {
    let e = ToolshedError::ToolFailed { tool: "x".into(), code: 42, stderr: String::new() };
    assert_eq!(e.exit_code(), 42);
}

#[test]
fn exit_code_bad_manifest() {
    let e = ToolshedError::BadManifest { tool: "x".into(), reason: "y".into() };
    assert_eq!(e.exit_code(), 3);
}

#[test]
fn exit_code_timeout() {
    let e = ToolshedError::ToolTimeout { tool: "x".into(), timeout_secs: 30 };
    assert_eq!(e.exit_code(), 4);
}

#[test]
fn exit_code_vault() {
    assert_eq!(ToolshedError::VaultError { reason: "x".into() }.exit_code(), 6);
    assert_eq!(ToolshedError::VaultAuthFailed { reason: "x".into() }.exit_code(), 6);
}

#[test]
fn exit_code_io_is_wildcard() {
    let e = ToolshedError::Io("x".into());
    assert_eq!(e.exit_code(), 99);
}

#[test]
fn error_trait_source_io() {
    let e = ToolshedError::Io("x".into());
    assert!(e.has_source());
}

#[test]
fn error_trait_source_none_for_plain_variants() {
    let e = ToolshedError::ToolNotFound { name: "x".into() };
    assert!(!e.has_source());
}

#[test]
fn display_env_var_not_set() {
    let e = ToolshedError::EnvVarNotSet { var: "HOME".into() };
    assert!(e.message().contains("HOME"));
}
