//! Tool manifests (`tool.json`): what a tool is called, how it runs, and the
//! rules a manifest must meet to be loaded.

use vstd::prelude::*;
use crate::error::ToolshedError;
use crate::json::JsonValue;
use crate::namemap::NameMap;
use crate::text::{
    decimal, from_chars, push_str, to_chars, u64_decimal, utf8_len, utf8_longer_than, append_chars,
};

verus! {

/// How a tool runs: a `run` script, or an MCP server.
#[derive(Debug, Clone, Copy, PartialEq, Eq, Structural)]
pub enum ToolType {
    Native,
    Mcp,
}

/// The type of a command argument.
#[derive(Debug, Clone, Copy, PartialEq, Eq, Structural)]
pub enum ArgType {
    String,
    Int,
    Float,
    Bool,
}

/// How an MCP server is reached.
#[derive(Debug, Clone, Copy, PartialEq, Eq, Structural)]
pub enum McpTransport {
    Stdio,
    Http,
}

/// How often the daemon probes a tool: every cycle, or every tenth.
#[derive(Debug, Clone, Copy, PartialEq, Eq, Structural)]
pub enum HealthTier {
    Hot,
    Cold,
}

/// The name a tool type is written with.
pub open spec fn tool_type_name(t: ToolType) -> Seq<char> {
    match t {
        ToolType::Native => "native"@,
        ToolType::Mcp => "mcp"@,
    }
}

/// The name an argument type is written with.
pub open spec fn arg_type_name(t: ArgType) -> Seq<char> {
    match t {
        ArgType::String => "string"@,
        ArgType::Int => "int"@,
        ArgType::Float => "float"@,
        ArgType::Bool => "bool"@,
    }
}

/// The name a transport is written with.
pub open spec fn transport_name(t: McpTransport) -> Seq<char> {
    match t {
        McpTransport::Stdio => "stdio"@,
        McpTransport::Http => "http"@,
    }
}

impl ToolType {
    /// The name this tool type is written with.
    pub fn name(&self) -> (r: String)
        ensures
            r@ == tool_type_name(*self),
    {
        match self {
            ToolType::Native => from_chars(&to_chars("native")),
            ToolType::Mcp => from_chars(&to_chars("mcp")),
        }
    }
}

impl ArgType {
    /// The name this argument type is written with.
    pub fn name(&self) -> (r: String)
        ensures
            r@ == arg_type_name(*self),
    {
        match self {
            ArgType::String => from_chars(&to_chars("string")),
            ArgType::Int => from_chars(&to_chars("int")),
            ArgType::Float => from_chars(&to_chars("float")),
            ArgType::Bool => from_chars(&to_chars("bool")),
        }
    }
}

impl McpTransport {
    /// The name this transport is written with.
    pub fn name(&self) -> (r: String)
        ensures
            r@ == transport_name(*self),
    {
        match self {
            McpTransport::Stdio => from_chars(&to_chars("stdio")),
            McpTransport::Http => from_chars(&to_chars("http")),
        }
    }
}

/// An argument of a native command.
#[derive(Debug)]
pub struct ArgDef {
    pub arg_type: ArgType,
    pub required: bool,
    pub positional: bool,
    pub default: Option<JsonValue>,
    pub description: Option<String>,
}

/// A command of a native tool.
#[derive(Debug)]
pub struct CommandDef {
    pub description: String,
    pub args: NameMap<ArgDef>,
}

/// How to reach an MCP server.
#[derive(Debug)]
pub struct McpConfig {
    pub transport: McpTransport,
    pub command: Option<String>,
    pub args: Vec<String>,
    pub url: Option<String>,
    pub env: NameMap<String>,
    pub headers: NameMap<String>,
    pub idle_timeout: u64,
}

/// A tool manifest.
#[derive(Debug)]
pub struct ToolManifest {
    pub name: String,
    pub description: String,
    pub category: String,
    pub tool_type: ToolType,
    pub max_output: usize,
    pub health: Option<String>,
    pub tier: Option<HealthTier>,
    pub commands: NameMap<CommandDef>,
    pub mcp: Option<McpConfig>,
}

/// A valid tool name: 1 to 64 characters, each a lowercase ASCII letter,
/// a digit, `_` or `-`.
pub open spec fn valid_name(s: Seq<char>) -> bool {
    0 < s.len() <= 64 && forall|i: int|
        0 <= i < s.len() ==> {
            let c = #[trigger] s[i];
            ('a' <= c && c <= 'z') || ('0' <= c && c <= '9') || c == '_' || c == '-'
        }
}

/// A valid category: 1 to 32 characters, each a lowercase ASCII letter, a
/// digit or `-`.
pub open spec fn valid_category(s: Seq<char>) -> bool {
    0 < s.len() <= 32 && forall|i: int|
        0 <= i < s.len() ==> {
            let c = #[trigger] s[i];
            ('a' <= c && c <= 'z') || ('0' <= c && c <= '9') || c == '-'
        }
}

/// Whether `s` is a valid tool, skill, agent, rule or workflow name.
pub fn is_valid_name(s: &str) -> (r: bool)
    ensures
        r == valid_name(s@),
{
    let v = to_chars(s);
    if v.len() == 0 || v.len() > 64 {
        return false;
    }
    let n = v.len();
    for i in 0..n
        invariant
            n == v@.len(),
            v@ == s@,
            forall|j: int|
                0 <= j < i ==> {
                    let c = #[trigger] v@[j];
                    ('a' <= c && c <= 'z') || ('0' <= c && c <= '9') || c == '_' || c == '-'
                },
    {
        let c = v[i];
        if !(('a' <= c && c <= 'z') || ('0' <= c && c <= '9') || c == '_' || c == '-') {
            return false;
        }
    }
    true
}

/// Whether `s` is a valid category.
pub fn is_valid_category(s: &str) -> (r: bool)
    ensures
        r == valid_category(s@),
{
    let v = to_chars(s);
    if v.len() == 0 || v.len() > 32 {
        return false;
    }
    let n = v.len();
    for i in 0..n
        invariant
            n == v@.len(),
            v@ == s@,
            forall|j: int|
                0 <= j < i ==> {
                    let c = #[trigger] v@[j];
                    ('a' <= c && c <= 'z') || ('0' <= c && c <= '9') || c == '-'
                },
    {
        let c = v[i];
        if !(('a' <= c && c <= 'z') || ('0' <= c && c <= '9') || c == '-') {
            return false;
        }
    }
    true
}

/// The first rule a manifest breaks, as the reason its error gives, or
/// `None` when it is valid for the directory `dir`.
pub open spec fn manifest_problem(m: ToolManifest, dir: Seq<char>) -> Option<Seq<char>> {
    if m.name@ != dir {
        Some("name '"@ + m.name@ + "' does not match directory '"@ + dir + "'"@)
    } else if !valid_name(m.name@) {
        Some("name must be 1-64 chars, [a-z0-9_-] only, got '"@ + m.name@ + "'"@)
    } else if m.description@.len() == 0 {
        Some("description cannot be empty"@)
    } else if utf8_len(m.description@) > 200 {
        Some("description exceeds 200 chars"@)
    } else if !valid_category(m.category@) {
        Some("category must be 1-32 chars, [a-z0-9-] only, got '"@ + m.category@ + "'"@)
    } else if m.max_output < 256 {
        Some("max_output must be >= 256, got "@ + decimal(m.max_output as nat))
    } else {
        match m.tool_type {
            ToolType::Native => if m.commands.spec_len() == 0 {
                Some("native tools must have at least one command"@)
            } else if m.mcp is Some {
                Some("native tools must not have 'mcp' config"@)
            } else {
                None
            },
            ToolType::Mcp => match m.mcp {
                None => Some("MCP tools require 'mcp' config"@),
                Some(c) => match c.transport {
                    McpTransport::Stdio => if c.command is None {
                        Some("MCP stdio transport requires 'command'"@)
                    } else {
                        None
                    },
                    McpTransport::Http => if c.url is None {
                        Some("MCP http transport requires 'url'"@)
                    } else {
                        None
                    },
                },
            },
        }
    }
}

/// What reading and decoding a `tool.json` gave.
pub enum ManifestSource {
    /// The file could not be read; the message of the failure.
    Unreadable(String),
    /// The file is not a manifest in JSON; the message of the decoder.
    InvalidJson(String),
    /// The decoded manifest.
    Parsed(ToolManifest),
}

fn bad_manifest(dir_name: &str, reason: Vec<char>) -> (r: ToolshedError)
    ensures
        r matches ToolshedError::BadManifest { tool, reason: rr } && tool@ == dir_name@ && rr@
            == reason@,
{
    ToolshedError::BadManifest { tool: from_chars(&to_chars(dir_name)), reason: from_chars(&reason) }
}

impl ToolManifest {
    /// Checks the manifest against the rules, for the directory `dir_name`.
    pub fn validate(&self, dir_name: &str) -> (r: Result<(), ToolshedError>)
        ensures
            match manifest_problem(*self, dir_name@) {
                None => r is Ok,
                Some(reason) => r matches Err(ToolshedError::BadManifest { tool, reason: rr })
                    && tool@ == dir_name@ && rr@ == reason,
            },
    {
        let name = to_chars(self.name.as_str());
        if !crate::namemap::str_eq(self.name.as_str(), dir_name) {
            let mut o = to_chars("name '");
            append_chars(&mut o, &name);
            push_str(&mut o, "' does not match directory '");
            push_str(&mut o, dir_name);
            push_str(&mut o, "'");
            return Err(bad_manifest(dir_name, o));
        }
        if !is_valid_name(self.name.as_str()) {
            let mut o = to_chars("name must be 1-64 chars, [a-z0-9_-] only, got '");
            append_chars(&mut o, &name);
            push_str(&mut o, "'");
            return Err(bad_manifest(dir_name, o));
        }
        let desc = to_chars(self.description.as_str());
        if desc.len() == 0 {
            return Err(bad_manifest(dir_name, to_chars("description cannot be empty")));
        }
        if utf8_longer_than(&desc, 200) {
            return Err(bad_manifest(dir_name, to_chars("description exceeds 200 chars")));
        }
        if !is_valid_category(self.category.as_str()) {
            let mut o = to_chars("category must be 1-32 chars, [a-z0-9-] only, got '");
            push_str(&mut o, self.category.as_str());
            push_str(&mut o, "'");
            return Err(bad_manifest(dir_name, o));
        }
        if self.max_output < 256 {
            let mut o = to_chars("max_output must be >= 256, got ");
            append_chars(&mut o, &u64_decimal(self.max_output as u64));
            return Err(bad_manifest(dir_name, o));
        }
        match self.tool_type {
            ToolType::Native => {
                if self.commands.len() == 0 {
                    return Err(
                        bad_manifest(dir_name, to_chars("native tools must have at least one command")),
                    );
                }
                if self.mcp.is_some() {
                    return Err(
                        bad_manifest(dir_name, to_chars("native tools must not have 'mcp' config")),
                    );
                }
            },
            ToolType::Mcp => {
                match &self.mcp {
                    None => {
                        return Err(bad_manifest(dir_name, to_chars("MCP tools require 'mcp' config")));
                    },
                    Some(c) => match c.transport {
                        McpTransport::Stdio => {
                            if c.command.is_none() {
                                return Err(
                                    bad_manifest(
                                        dir_name,
                                        to_chars("MCP stdio transport requires 'command'"),
                                    ),
                                );
                            }
                        },
                        McpTransport::Http => {
                            if c.url.is_none() {
                                return Err(
                                    bad_manifest(dir_name, to_chars("MCP http transport requires 'url'")),
                                );
                            }
                        },
                    },
                }
            },
        }
        Ok(())
    }

    /// The manifest that reading `tool.json` in the directory `dir_name`
    /// gave, once it has met the rules.
    pub fn load_and_validate(source: ManifestSource, dir_name: &str) -> (r: Result<
        ToolManifest,
        ToolshedError,
    >)
        ensures
            match source {
                ManifestSource::Unreadable(e) => r matches Err(
                    ToolshedError::BadManifest { tool, reason },
                ) && tool@ == dir_name@ && reason@ == "cannot read tool.json: "@ + e@,
                ManifestSource::InvalidJson(e) => r matches Err(
                    ToolshedError::BadManifest { tool, reason },
                ) && tool@ == dir_name@ && reason@ == "invalid JSON: "@ + e@,
                ManifestSource::Parsed(m) => match manifest_problem(m, dir_name@) {
                    None => r == Ok::<ToolManifest, ToolshedError>(m),
                    Some(reason) => r matches Err(ToolshedError::BadManifest { tool, reason: rr })
                        && tool@ == dir_name@ && rr@ == reason,
                },
            },
    {
        match source {
            ManifestSource::Unreadable(e) => {
                let mut o = to_chars("cannot read tool.json: ");
                push_str(&mut o, e.as_str());
                Err(bad_manifest(dir_name, o))
            },
            ManifestSource::InvalidJson(e) => {
                let mut o = to_chars("invalid JSON: ");
                push_str(&mut o, e.as_str());
                Err(bad_manifest(dir_name, o))
            },
            ManifestSource::Parsed(m) => {
                match m.validate(dir_name) {
                    Ok(()) => Ok(m),
                    Err(e) => Err(e),
                }
            },
        }
    }
}

} // verus!
