//! A registry and executor for command-line tools and MCP servers: the
//! manifest rules, the text formats it reads, the audit hash chain and the
//! decisions of its daemon, stated and proved with Verus.

pub mod agent;
pub mod audit;
pub mod cli;
pub mod commands;
pub mod clock;
pub mod config;
pub mod daemon;
pub mod doc;
pub mod env;
pub mod error;
pub mod frontmatter;
pub mod health;
pub mod json;
pub mod manifest;
pub mod mcp;
pub mod namemap;
pub mod output;
pub mod prompt;
pub mod registry;
pub mod report;
pub mod rule;
pub mod server;
pub mod runner;
pub mod skill;
pub mod text;
pub mod workflow;
