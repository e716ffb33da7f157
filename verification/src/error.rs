//! The errors of the library, each with the exit code the command line
//! reports for it.

use vstd::prelude::*;
use crate::text::{append_chars, decimal, decimal_signed, from_chars, i64_decimal, push_str, to_chars, u64_decimal};

verus! {

/// Everything that can go wrong, with the names and reasons that the
/// messages show.
#[derive(Debug, Clone, PartialEq, Eq)]
pub enum ToolshedError {
    NoToolshedDir { path: String },
    ToolNotFound { name: String },
    CategoryNotFound { name: String },
    BadManifest { tool: String, reason: String },
    MissingRunScript { tool: String },
    MissingMcpConfig { tool: String },
    CommandNotFound { tool: String, command: String },
    MissingArg { tool: String, command: String, arg: String },
    ToolFailed { tool: String, code: i32, stderr: String },
    ToolTimeout { tool: String, timeout_secs: u64 },
    McpSpawnFailed { tool: String, reason: String },
    McpRpcError { tool: String, code: i64, message: String },
    McpBadResponse { tool: String, reason: String },
    McpCrashed { tool: String },
    McpHttpError { tool: String, reason: String },
    SkillNotFound { name: String },
    AgentNotFound { name: String },
    BadSkill { skill: String, reason: String },
    BadAgent { agent: String, reason: String },
    RuleNotFound { name: String },
    BadRule { rule: String, reason: String },
    WorkflowNotFound { name: String },
    BadWorkflow { workflow: String, reason: String },
    WorkflowStepFailed {
        workflow: String,
        step: usize,
        tool: String,
        command: String,
        reason: String,
    },
    WorkflowTimeout { workflow: String, timeout_secs: u64 },
    AuditChainBroken { message: String },
    EnvVarNotSet { var: String },
    VaultError { reason: String },
    VaultAuthFailed { reason: String },
    RecoveryExhausted { tool: String, reason: String },
    HealthProbeFailed { tool: String, reason: String },
    /// An I/O failure, with the message of the underlying error.
    Io(String),
    /// A JSON failure, with the message of the underlying error.
    Json(String),
    /// An HTTP failure, with the message of the underlying error.
    Http(String),
}

/// The message of an error, as the command line prints it.
pub open spec fn error_message(e: ToolshedError) -> Seq<char> {
    match e {
        ToolshedError::NoToolshedDir { path } => "no toolshed directory at "@ + path@,
        ToolshedError::ToolNotFound { name } => "tool not found: "@ + name@,
        ToolshedError::CategoryNotFound { name } => "category not found: "@ + name@,
        ToolshedError::BadManifest { tool, reason } => "bad manifest for tool '"@ + tool@ + "': "@ + reason@,
        ToolshedError::MissingRunScript { tool } => "missing 'run' script for tool '"@ + tool@ + "'"@,
        ToolshedError::MissingMcpConfig { tool } => "missing mcp config for tool '"@ + tool@ + "'"@,
        ToolshedError::CommandNotFound { tool, command } => "command not found: "@ + tool@ + "/"@ + command@,
        ToolshedError::MissingArg { tool, command, arg } => "missing required argument '"@ + arg@ + "' for "@ + tool@ + "/"@ + command@,
        ToolshedError::ToolFailed { tool, code, stderr } => "tool '"@ + tool@ + "' failed with exit code "@ + decimal_signed(code as int) + ": "@ + stderr@,
        ToolshedError::ToolTimeout { tool, timeout_secs } => "tool '"@ + tool@ + "' timed out after "@ + decimal(timeout_secs as nat) + "s"@,
        ToolshedError::McpSpawnFailed { tool, reason } => "failed to spawn MCP server for '"@ + tool@ + "': "@ + reason@,
        ToolshedError::McpRpcError { tool, code, message } => "MCP RPC error for '"@ + tool@ + "': ["@ + decimal_signed(code as int) + "] "@ + message@,
        ToolshedError::McpBadResponse { tool, reason } => "MCP bad response for '"@ + tool@ + "': "@ + reason@,
        ToolshedError::McpCrashed { tool } => "MCP server crashed for '"@ + tool@ + "'"@,
        ToolshedError::McpHttpError { tool, reason } => "MCP HTTP error for '"@ + tool@ + "': "@ + reason@,
        ToolshedError::SkillNotFound { name } => "skill not found: "@ + name@,
        ToolshedError::AgentNotFound { name } => "agent not found: "@ + name@,
        ToolshedError::BadSkill { skill, reason } => "bad skill '"@ + skill@ + "': "@ + reason@,
        ToolshedError::BadAgent { agent, reason } => "bad agent '"@ + agent@ + "': "@ + reason@,
        ToolshedError::RuleNotFound { name } => "rule not found: "@ + name@,
        ToolshedError::BadRule { rule, reason } => "bad rule '"@ + rule@ + "': "@ + reason@,
        ToolshedError::WorkflowNotFound { name } => "workflow not found: "@ + name@,
        ToolshedError::BadWorkflow { workflow, reason } => "bad workflow '"@ + workflow@ + "': "@ + reason@,
        ToolshedError::WorkflowStepFailed { workflow, step, tool, command, reason } => "workflow '"@ + workflow@ + "' step "@ + decimal(step as nat) + " ("@ + tool@ + " "@ + command@ + ") failed: "@ + reason@,
        ToolshedError::WorkflowTimeout { workflow, timeout_secs } => "workflow '"@ + workflow@ + "' timed out after "@ + decimal(timeout_secs as nat) + "s"@,
        ToolshedError::AuditChainBroken { message } => "audit chain broken: "@ + message@,
        ToolshedError::EnvVarNotSet { var } => "environment variable not set: "@ + var@,
        ToolshedError::VaultError { reason } => "vault request failed: "@ + reason@,
        ToolshedError::VaultAuthFailed { reason } => "vault auth failed: "@ + reason@,
        ToolshedError::RecoveryExhausted { tool, reason } => "tool recovery exhausted for '"@ + tool@ + "': "@ + reason@,
        ToolshedError::HealthProbeFailed { tool, reason } => "daemon health probe failed for '"@ + tool@ + "': "@ + reason@,
        ToolshedError::Io(err) => "I/O error: "@ + err@,
        ToolshedError::Json(err) => "JSON error: "@ + err@,
        ToolshedError::Http(err) => "HTTP error: "@ + err@,
    }
}

/// The exit code the command line ends with for an error.
pub open spec fn exit_code_of(e: ToolshedError) -> i32 {
    match e {
        ToolshedError::ToolNotFound { .. } | ToolshedError::CategoryNotFound { .. }
        | ToolshedError::CommandNotFound { .. } | ToolshedError::MissingArg { .. }
        | ToolshedError::SkillNotFound { .. } | ToolshedError::AgentNotFound { .. }
        | ToolshedError::RuleNotFound { .. } | ToolshedError::WorkflowNotFound { .. } => 1,
        ToolshedError::ToolFailed { code, .. } => if code != 0 {
            code
        } else {
            2
        },
        ToolshedError::McpRpcError { .. } | ToolshedError::McpCrashed { .. }
        | ToolshedError::McpHttpError { .. } | ToolshedError::WorkflowStepFailed { .. }
        | ToolshedError::HealthProbeFailed { .. } => 2,
        ToolshedError::BadManifest { .. } | ToolshedError::MissingRunScript { .. }
        | ToolshedError::MissingMcpConfig { .. } | ToolshedError::NoToolshedDir { .. }
        | ToolshedError::BadSkill { .. } | ToolshedError::BadAgent { .. }
        | ToolshedError::BadRule { .. } | ToolshedError::BadWorkflow { .. } => 3,
        ToolshedError::ToolTimeout { .. } | ToolshedError::WorkflowTimeout { .. } => 4,
        ToolshedError::AuditChainBroken { .. } | ToolshedError::EnvVarNotSet { .. } => 5,
        ToolshedError::VaultError { .. } | ToolshedError::VaultAuthFailed { .. } => 6,
        ToolshedError::RecoveryExhausted { .. } => 7,
        _ => 99,
    }
}

impl ToolshedError {
    /// The message of this error.
    pub fn message(&self) -> (r: String)
        ensures
            r@ == error_message(*self),
    {
        let o = match self {
            ToolshedError::NoToolshedDir { path } => {
                let mut o = to_chars("no toolshed directory at ");
                push_str(&mut o, path.as_str());
                o
            },
            ToolshedError::ToolNotFound { name } => {
                let mut o = to_chars("tool not found: ");
                push_str(&mut o, name.as_str());
                o
            },
            ToolshedError::CategoryNotFound { name } => {
                let mut o = to_chars("category not found: ");
                push_str(&mut o, name.as_str());
                o
            },
            ToolshedError::BadManifest { tool, reason } => {
                let mut o = to_chars("bad manifest for tool '");
                push_str(&mut o, tool.as_str());
                push_str(&mut o, "': ");
                push_str(&mut o, reason.as_str());
                o
            },
            ToolshedError::MissingRunScript { tool } => {
                let mut o = to_chars("missing 'run' script for tool '");
                push_str(&mut o, tool.as_str());
                push_str(&mut o, "'");
                o
            },
            ToolshedError::MissingMcpConfig { tool } => {
                let mut o = to_chars("missing mcp config for tool '");
                push_str(&mut o, tool.as_str());
                push_str(&mut o, "'");
                o
            },
            ToolshedError::CommandNotFound { tool, command } => {
                let mut o = to_chars("command not found: ");
                push_str(&mut o, tool.as_str());
                push_str(&mut o, "/");
                push_str(&mut o, command.as_str());
                o
            },
            ToolshedError::MissingArg { tool, command, arg } => {
                let mut o = to_chars("missing required argument '");
                push_str(&mut o, arg.as_str());
                push_str(&mut o, "' for ");
                push_str(&mut o, tool.as_str());
                push_str(&mut o, "/");
                push_str(&mut o, command.as_str());
                o
            },
            ToolshedError::ToolFailed { tool, code, stderr } => {
                let mut o = to_chars("tool '");
                push_str(&mut o, tool.as_str());
                push_str(&mut o, "' failed with exit code ");
                append_chars(&mut o, &i64_decimal(*code as i64));
                push_str(&mut o, ": ");
                push_str(&mut o, stderr.as_str());
                o
            },
            ToolshedError::ToolTimeout { tool, timeout_secs } => {
                let mut o = to_chars("tool '");
                push_str(&mut o, tool.as_str());
                push_str(&mut o, "' timed out after ");
                append_chars(&mut o, &u64_decimal(*timeout_secs as u64));
                push_str(&mut o, "s");
                o
            },
            ToolshedError::McpSpawnFailed { tool, reason } => {
                let mut o = to_chars("failed to spawn MCP server for '");
                push_str(&mut o, tool.as_str());
                push_str(&mut o, "': ");
                push_str(&mut o, reason.as_str());
                o
            },
            ToolshedError::McpRpcError { tool, code, message } => {
                let mut o = to_chars("MCP RPC error for '");
                push_str(&mut o, tool.as_str());
                push_str(&mut o, "': [");
                append_chars(&mut o, &i64_decimal(*code as i64));
                push_str(&mut o, "] ");
                push_str(&mut o, message.as_str());
                o
            },
            ToolshedError::McpBadResponse { tool, reason } => {
                let mut o = to_chars("MCP bad response for '");
                push_str(&mut o, tool.as_str());
                push_str(&mut o, "': ");
                push_str(&mut o, reason.as_str());
                o
            },
            ToolshedError::McpCrashed { tool } => {
                let mut o = to_chars("MCP server crashed for '");
                push_str(&mut o, tool.as_str());
                push_str(&mut o, "'");
                o
            },
            ToolshedError::McpHttpError { tool, reason } => {
                let mut o = to_chars("MCP HTTP error for '");
                push_str(&mut o, tool.as_str());
                push_str(&mut o, "': ");
                push_str(&mut o, reason.as_str());
                o
            },
            ToolshedError::SkillNotFound { name } => {
                let mut o = to_chars("skill not found: ");
                push_str(&mut o, name.as_str());
                o
            },
            ToolshedError::AgentNotFound { name } => {
                let mut o = to_chars("agent not found: ");
                push_str(&mut o, name.as_str());
                o
            },
            ToolshedError::BadSkill { skill, reason } => {
                let mut o = to_chars("bad skill '");
                push_str(&mut o, skill.as_str());
                push_str(&mut o, "': ");
                push_str(&mut o, reason.as_str());
                o
            },
            ToolshedError::BadAgent { agent, reason } => {
                let mut o = to_chars("bad agent '");
                push_str(&mut o, agent.as_str());
                push_str(&mut o, "': ");
                push_str(&mut o, reason.as_str());
                o
            },
            ToolshedError::RuleNotFound { name } => {
                let mut o = to_chars("rule not found: ");
                push_str(&mut o, name.as_str());
                o
            },
            ToolshedError::BadRule { rule, reason } => {
                let mut o = to_chars("bad rule '");
                push_str(&mut o, rule.as_str());
                push_str(&mut o, "': ");
                push_str(&mut o, reason.as_str());
                o
            },
            ToolshedError::WorkflowNotFound { name } => {
                let mut o = to_chars("workflow not found: ");
                push_str(&mut o, name.as_str());
                o
            },
            ToolshedError::BadWorkflow { workflow, reason } => {
                let mut o = to_chars("bad workflow '");
                push_str(&mut o, workflow.as_str());
                push_str(&mut o, "': ");
                push_str(&mut o, reason.as_str());
                o
            },
            ToolshedError::WorkflowStepFailed { workflow, step, tool, command, reason } => {
                let mut o = to_chars("workflow '");
                push_str(&mut o, workflow.as_str());
                push_str(&mut o, "' step ");
                append_chars(&mut o, &u64_decimal(*step as u64));
                push_str(&mut o, " (");
                push_str(&mut o, tool.as_str());
                push_str(&mut o, " ");
                push_str(&mut o, command.as_str());
                push_str(&mut o, ") failed: ");
                push_str(&mut o, reason.as_str());
                o
            },
            ToolshedError::WorkflowTimeout { workflow, timeout_secs } => {
                let mut o = to_chars("workflow '");
                push_str(&mut o, workflow.as_str());
                push_str(&mut o, "' timed out after ");
                append_chars(&mut o, &u64_decimal(*timeout_secs as u64));
                push_str(&mut o, "s");
                o
            },
            ToolshedError::AuditChainBroken { message } => {
                let mut o = to_chars("audit chain broken: ");
                push_str(&mut o, message.as_str());
                o
            },
            ToolshedError::EnvVarNotSet { var } => {
                let mut o = to_chars("environment variable not set: ");
                push_str(&mut o, var.as_str());
                o
            },
            ToolshedError::VaultError { reason } => {
                let mut o = to_chars("vault request failed: ");
                push_str(&mut o, reason.as_str());
                o
            },
            ToolshedError::VaultAuthFailed { reason } => {
                let mut o = to_chars("vault auth failed: ");
                push_str(&mut o, reason.as_str());
                o
            },
            ToolshedError::RecoveryExhausted { tool, reason } => {
                let mut o = to_chars("tool recovery exhausted for '");
                push_str(&mut o, tool.as_str());
                push_str(&mut o, "': ");
                push_str(&mut o, reason.as_str());
                o
            },
            ToolshedError::HealthProbeFailed { tool, reason } => {
                let mut o = to_chars("daemon health probe failed for '");
                push_str(&mut o, tool.as_str());
                push_str(&mut o, "': ");
                push_str(&mut o, reason.as_str());
                o
            },
            ToolshedError::Io(err) => {
                let mut o = to_chars("I/O error: ");
                push_str(&mut o, err.as_str());
                o
            },
            ToolshedError::Json(err) => {
                let mut o = to_chars("JSON error: ");
                push_str(&mut o, err.as_str());
                o
            },
            ToolshedError::Http(err) => {
                let mut o = to_chars("HTTP error: ");
                push_str(&mut o, err.as_str());
                o
            },
        };
        from_chars(&o)
    }

    /// The exit code the command line ends with for this error.
    pub fn exit_code(&self) -> (r: i32)
        ensures
            r == exit_code_of(*self),
    {
        match self {
            ToolshedError::ToolNotFound { .. } | ToolshedError::CategoryNotFound { .. }
            | ToolshedError::CommandNotFound { .. } | ToolshedError::MissingArg { .. }
            | ToolshedError::SkillNotFound { .. } | ToolshedError::AgentNotFound { .. }
            | ToolshedError::RuleNotFound { .. } | ToolshedError::WorkflowNotFound { .. } => 1,
            ToolshedError::ToolFailed { code, .. } => if *code != 0 {
                *code
            } else {
                2
            },
            ToolshedError::McpRpcError { .. } | ToolshedError::McpCrashed { .. }
            | ToolshedError::McpHttpError { .. } | ToolshedError::WorkflowStepFailed { .. }
            | ToolshedError::HealthProbeFailed { .. } => 2,
            ToolshedError::BadManifest { .. } | ToolshedError::MissingRunScript { .. }
            | ToolshedError::MissingMcpConfig { .. } | ToolshedError::NoToolshedDir { .. }
            | ToolshedError::BadSkill { .. } | ToolshedError::BadAgent { .. }
            | ToolshedError::BadRule { .. } | ToolshedError::BadWorkflow { .. } => 3,
            ToolshedError::ToolTimeout { .. } | ToolshedError::WorkflowTimeout { .. } => 4,
            ToolshedError::AuditChainBroken { .. } | ToolshedError::EnvVarNotSet { .. } => 5,
            ToolshedError::VaultError { .. } | ToolshedError::VaultAuthFailed { .. } => 6,
            ToolshedError::RecoveryExhausted { .. } => 7,
            _ => 99,
        }
    }

    /// Whether the error wraps an underlying error (I/O, JSON or HTTP).
    pub fn has_source(&self) -> (r: bool)
        ensures
            r == (self is Io || self is Json || self is Http),
    {
        match self {
            ToolshedError::Io(_) | ToolshedError::Json(_) | ToolshedError::Http(_) => true,
            _ => false,
        }
    }
}

} // verus!
