//! The layout of the toolshed directory and the defaults the library uses.

use vstd::prelude::*;
use crate::text::{from_chars, push_str, to_chars};

verus! {

/// The output budget of a tool that does not set one.
pub const DEFAULT_MAX_OUTPUT: usize = 4096;

/// How long a cached MCP tool list stays fresh.
pub const INTROSPECT_CACHE_TTL_SECS: u64 = 3600;

/// How long a health command may run.
pub const HEALTH_CHECK_TIMEOUT_SECS: u64 = 15;

/// How long a tool command may run when no timeout is given.
pub const DEFAULT_TOOL_TIMEOUT_SECS: u64 = 120;

/// How long an MCP server may stay idle when its config sets no limit.
pub const DEFAULT_IDLE_TIMEOUT: u64 = 300;

/// The interval of the daemon's health loop.
pub const HEALTH_INTERVAL_SECS: u64 = 30;

/// How many times the daemon tries to bring a tool back.
pub const MAX_RECOVERY_ATTEMPTS: u8 = 3;

/// The pause before each recovery attempt.
pub const RECOVERY_BACKOFF: [u64; 3] = [0, 2, 12];

/// The default lease of a Vault secret.
pub const AUTH_DEFAULT_TTL_SECS: u64 = 3600;

/// How many times a secret refresh is tried.
pub const AUTH_RETRY_ATTEMPTS: u8 = 3;

/// How many health cycles a recovered tool is left alone.
pub const GRACE_PERIOD_CYCLES: u64 = 1;

/// Cold-tier tools are probed every this many cycles.
pub const COLD_TIER_CYCLE_MULTIPLIER: u64 = 10;

/// The timeout of a workflow that does not set one.
pub const DEFAULT_WORKFLOW_TIMEOUT_SECS: u64 = 600;

/// `name` appended to the directory `base`, as `Path::join` does for a
/// relative name: with a separator unless `base` is empty or ends in one.
pub open spec fn path_join(base: Seq<char>, name: Seq<char>) -> Seq<char> {
    if base.len() == 0 || base.last() == '/' {
        base + name
    } else {
        base.push('/') + name
    }
}

/// `name` appended to the directory `base`.
pub fn join_path(base: &str, name: &str) -> (r: String)
    ensures
        r@ == path_join(base@, name@),
{
    let mut v = to_chars(base);
    let n = v.len();
    if !(n == 0 || v[n - 1] == '/') {
        v.push('/');
    }
    push_str(&mut v, name);
    from_chars(&v)
}

/// Where the tool manifests live under the toolshed directory `root`.
pub fn tools_dir(root: &str) -> (r: String)
    ensures
        r@ == path_join(root@, "tools"@),
{
    join_path(root, "tools")
}

/// Where cached MCP tool lists live.
pub fn cache_dir(root: &str) -> (r: String)
    ensures
        r@ == path_join(root@, "cache"@),
{
    join_path(root, "cache")
}

/// Where the audit files live.
pub fn audit_dir(root: &str) -> (r: String)
    ensures
        r@ == path_join(root@, "audit"@),
{
    join_path(root, "audit")
}

/// Where the skills live.
pub fn skills_dir(root: &str) -> (r: String)
    ensures
        r@ == path_join(root@, "skills"@),
{
    join_path(root, "skills")
}

/// Where the agents live.
pub fn agents_dir(root: &str) -> (r: String)
    ensures
        r@ == path_join(root@, "agents"@),
{
    join_path(root, "agents")
}

/// Where the rules live.
pub fn rules_dir(root: &str) -> (r: String)
    ensures
        r@ == path_join(root@, "rules"@),
{
    join_path(root, "rules")
}

/// Where the workflows live.
pub fn workflows_dir(root: &str) -> (r: String)
    ensures
        r@ == path_join(root@, "workflows"@),
{
    join_path(root, "workflows")
}


/// Whether a cached MCP tool list written `age_secs` seconds ago may still
/// be used: for an hour.
pub fn cache_fresh(age_secs: u64) -> (r: bool)
    ensures
        r == (age_secs <= INTROSPECT_CACHE_TTL_SECS),
{
    age_secs <= INTROSPECT_CACHE_TTL_SECS
}

/// What `dirs::home_dir` gives: the user's home directory, when it can be
/// found. Nothing is claimed of it: it depends on the machine.
#[verifier::external_body]
fn home_dir() -> (r: Option<String>) {
    dirs::home_dir().map(|p| p.to_string_lossy().to_string())
}

/// The tool shed's directory: the one the environment names, else
/// `.toolshed` in the home directory, else in `/tmp`.
pub open spec fn toolshed_dir_for(env_dir: Option<Seq<char>>, home: Option<Seq<char>>) -> Seq<char> {
    match env_dir {
        Some(d) => d,
        None => path_join(
            match home {
                Some(h) => h,
                None => "/tmp"@,
            },
            ".toolshed"@,
        ),
    }
}

/// The tool shed's directory, given the value of `TOOLSHED_DIR` when it is
/// set and the home directory when one was found.
pub fn toolshed_dir_from(env_dir: Option<String>, home: Option<String>) -> (r: String)
    ensures
        r@ == toolshed_dir_for(crate::audit::opt_chars(env_dir), crate::audit::opt_chars(home)),
{
    match env_dir {
        Some(d) => d,
        None => {
            let base = match home {
                Some(h) => h,
                None => "/tmp".to_owned(),
            };
            join_path(base.as_str(), ".toolshed")
        },
    }
}

/// The tool shed's directory, given the value of `TOOLSHED_DIR` when it is
/// set; without it, `.toolshed` in the home directory that the system
/// reports, or in `/tmp` when it reports none.
pub fn toolshed_dir(env_dir: Option<String>) -> (r: String)
    ensures
        exists|home: Option<Seq<char>>| r@ == toolshed_dir_for(crate::audit::opt_chars(env_dir), home),
{
    let home = home_dir();
    let ghost e = crate::audit::opt_chars(env_dir);
    let r = toolshed_dir_from(env_dir, home);
    assert(r@ == toolshed_dir_for(e, crate::audit::opt_chars(home)));
    r
}

} // verus!
