//! The daemon that keeps MCP servers and native tools healthy while the
//! server runs: tool states, health probes, recovery and Vault secrets.

pub mod auth;
pub mod health;
pub mod recovery;
pub mod state;
