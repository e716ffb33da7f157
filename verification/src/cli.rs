//! The commands of the command line, as plain data.

use vstd::prelude::*;

verus! {

/// A parsed command line: whether the audit commands record themselves,
/// and the command.
#[derive(Debug)]
pub struct Cli {
    pub own_audit_trail: bool,
    pub command: Command,
}

/// A command of the command line.
#[derive(Debug)]
pub enum Command {
    List { category: Option<String>, health: bool },
    Help { tool: String, command: Option<String> },
    Run { tool: String, command: String, full: bool, timeout: Option<u64>, args: Vec<String> },
    Status,
    Stop { tool: Option<String> },
    Validate { tool: Option<String> },
    AgentPrompt { format: String },
    Skill { action: SkillAction },
    Agent { action: AgentAction },
    Rule { action: RuleAction },
    Workflow { action: WorkflowAction },
    Serve { port: u16, category: Option<String> },
    Audit { action: AuditAction },
}

/// What to do with skills.
#[derive(Debug)]
pub enum SkillAction {
    List,
    Show { name: String },
    Validate { name: Option<String> },
}

/// What to do with agents.
#[derive(Debug)]
pub enum AgentAction {
    List,
    Show { name: String },
    Validate { name: Option<String> },
}

/// What to do with rules.
#[derive(Debug)]
pub enum RuleAction {
    List,
    Show { name: String },
    Validate { name: Option<String> },
}

/// What to do with workflows.
#[derive(Debug)]
pub enum WorkflowAction {
    List,
    Show { name: String },
    Validate { name: Option<String> },
    Run { name: String, full: bool, timeout: Option<u64>, verbose: bool },
}

/// What to do with the audit trail.
#[derive(Debug)]
pub enum AuditAction {
    List { limit: usize },
    Verify { session: Option<String> },
    Query {
        session: Option<String>,
        event: Option<String>,
        outcome: Option<String>,
        since: Option<String>,
        search: Option<String>,
        limit: usize,
    },
}

} // verus!
