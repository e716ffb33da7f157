use std::time::{Duration, Instant};
use toolshed::config::RECOVERY_BACKOFF;
use toolshed::daemon::auth::parse_vault_env_script;
use toolshed::daemon::health::{probe_outcome, should_probe_tier, ProbeResult};
use toolshed::daemon::recovery::{Recovery, RecoveryStep};
use toolshed::error::ToolshedError;
use toolshed::daemon::state::{truncate_error, DaemonState, SecretEntry, Status, ToolStatus};
use toolshed::manifest::HealthTier;

#[test]
fn parse_vault_env_script_extracts_defs() {
    let script = r#"v=$(vault_get gitlab token); [ -n "$v" ] && export GITLAB_TOKEN="$v"
v=$(vault_get sourcegraph token); [ -n "$v" ] && export SRC_ACCESS_TOKEN="$v"
v=$(vault_get huly/credentials HULY_EMAIL); [ -n "$v" ] && export HULY_EMAIL="$v"
"#;
    let defs = parse_vault_env_script(script);
    assert_eq!(defs.len(), 3);

    assert_eq!(defs[0].path, "gitlab");
    assert_eq!(defs[0].key, "token");
    assert_eq!(defs[0].env_var, "GITLAB_TOKEN");

    assert_eq!(defs[2].path, "huly/credentials");
    assert_eq!(defs[2].key, "HULY_EMAIL");
    assert_eq!(defs[2].env_var, "HULY_EMAIL");
}

#[test]
fn probe_result_construction() {
    let pr = ProbeResult { tool_name: "test-tool".to_string(), healthy: true, error: None };
    assert!(pr.healthy);
    assert!(pr.error.is_none());
}

#[test]
fn should_probe_hot_every_cycle() {
    assert!(should_probe_tier(Some(HealthTier::Hot), 0));
    assert!(should_probe_tier(Some(HealthTier::Hot), 1));
    assert!(should_probe_tier(Some(HealthTier::Hot), 9));
    assert!(should_probe_tier(Some(HealthTier::Hot), 10));
}

#[test]
fn should_probe_cold_only_on_multiplier() {
    assert!(should_probe_tier(Some(HealthTier::Cold), 0));
    assert!(!should_probe_tier(Some(HealthTier::Cold), 1));
    assert!(!should_probe_tier(Some(HealthTier::Cold), 9));
    assert!(should_probe_tier(Some(HealthTier::Cold), 10));
    assert!(!should_probe_tier(Some(HealthTier::Cold), 11));
    assert!(should_probe_tier(Some(HealthTier::Cold), 20));
}

#[test]
fn should_probe_no_tier_every_cycle() {
    assert!(should_probe_tier(None, 0));
    assert!(should_probe_tier(None, 5));
}

#[test]
fn recovery_backoff_values() {
    assert_eq!(RECOVERY_BACKOFF[0], 0);
    assert_eq!(RECOVERY_BACKOFF[1], 2);
    assert_eq!(RECOVERY_BACKOFF[2], 12);
}

#[test]
fn tool_status_transitions() {
    let mut ts = ToolStatus::new_up();
    assert_eq!(ts.status, Status::Up);
    assert_eq!(ts.consecutive_failures, 0);
    assert_eq!(ts.recoveries, 0);

    ts.mark_down("connection refused");
    assert_eq!(ts.status, Status::Down);
    assert_eq!(ts.consecutive_failures, 1);
    assert_eq!(ts.last_error.as_deref(), Some("connection refused"));

    ts.mark_recovering(1);
    assert_eq!(ts.status, Status::Recovering);
    assert_eq!(ts.recovering_attempt, Some(1));

    ts.mark_up_after_recovery(30_000);
    assert_eq!(ts.status, Status::Up);
    assert_eq!(ts.consecutive_failures, 0);
    assert_eq!(ts.recoveries, 1);
    assert!(ts.last_error.is_none());
    assert!(ts.recovering_attempt.is_none());
    assert!(ts.in_grace_period());
}

#[test]
fn consecutive_failures_accumulate() {
    let mut ts = ToolStatus::new_up();
    ts.mark_down("err1");
    ts.mark_down("err2");
    ts.mark_down("err3");
    assert_eq!(ts.consecutive_failures, 3);

    ts.mark_up_after_recovery(0);
    assert_eq!(ts.consecutive_failures, 0);
}

#[test]
fn error_truncation() {
    let long = "x".repeat(500);
    let truncated = truncate_error(&long);
    assert_eq!(truncated.len(), 259);
    assert!(truncated.ends_with("..."));

    let short = "short error";
    assert_eq!(truncate_error(short), short);
}

#[test]
fn daemon_state_get_secret() {
    let mut state: DaemonState<String> = DaemonState::new();
    let now = Instant::now();
    state.secrets.insert(
        "gitlab".to_string(),
        SecretEntry {
            path: "vault/gitlab".to_string(),
            key: "token".to_string(),
            env_var: "GITLAB_TOKEN".to_string(),
            value: "abc123".to_string(),
            lease_ttl: Duration::from_secs(3600),
            refreshed_at: now,
            next_refresh_at: now + Duration::from_secs(2880),
        },
    );

    let found = state.get_secret("GITLAB_TOKEN");
    assert!(found.is_some());
    assert_eq!(found.map(|s| s.path.as_str()), Some("vault/gitlab"));

    let not_found = state.get_secret("NONEXISTENT");
    assert!(not_found.is_none());
}

#[test]
fn daemon_state_uptime() {
    let state: DaemonState<String> = DaemonState::new();
    assert!(state.uptime_secs() < 2);
}

#[test]
fn multiple_recovery_cycles() {
    let mut ts = ToolStatus::new_up();

    ts.mark_down("err1");
    ts.mark_recovering(1);
    ts.mark_up_after_recovery(0);
    assert_eq!(ts.recoveries, 1);

    ts.mark_down("err2");
    ts.mark_recovering(1);
    ts.mark_up_after_recovery(0);
    assert_eq!(ts.recoveries, 2);
    assert_eq!(ts.consecutive_failures, 0);
}

#[test]
fn recovery_stops_after_three_attempts() {
    let mut r = Recovery::new("srv");
    let mut delays = Vec::new();
    while let Some(plan) = r.next_attempt(true) {
        delays.push(plan.delay_secs);
        r.attempt_failed(Some("down".to_string()));
    }
    assert_eq!(delays, vec![0, 2, 12]);
    assert!(matches!(r.exhausted(), toolshed::error::ToolshedError::RecoveryExhausted { .. }));
}

#[test]
fn mark_down_keeps_errors_short() {
    let mut ts = ToolStatus::new_up();
    ts.mark_down(&"e".repeat(1000));
    assert_eq!(ts.last_error.unwrap().len(), 259);
}

#[test]
fn recovery_not_restarted_while_under_way() {
    let mut d: DaemonState<String> = DaemonState::new();
    let mut t = ToolStatus::new_up();
    t.mark_recovering(1);
    d.tool_status.insert("a".to_string(), t);
    d.tool_status.insert("b".to_string(), ToolStatus::new_up());
    assert!(!d.should_start_recovery("a"));
    assert!(d.should_start_recovery("b"));
    assert!(d.should_start_recovery("unknown"));
}

#[test]
fn expired_grace_is_cleared_for_up_tools_only() {
    let mut d: DaemonState<String> = DaemonState::new();
    let mut up = ToolStatus::new_up();
    up.mark_up_after_recovery(0);
    let mut down = ToolStatus::new_up();
    down.mark_up_after_recovery(0);
    down.mark_down("boom");
    let mut later = ToolStatus::new_up();
    later.mark_up_after_recovery(3_600_000);
    d.tool_status.insert("up".to_string(), up);
    d.tool_status.insert("down".to_string(), down);
    d.tool_status.insert("later".to_string(), later);
    d.clear_expired_grace();
    assert!(d.tool_status.get("up").unwrap().grace_until.is_none());
    assert!(d.tool_status.get("down").unwrap().grace_until.is_some());
    assert!(d.tool_status.get("later").unwrap().grace_until.is_some());
    assert_eq!(d.tool_status.get("down").unwrap().status, Status::Down);
    assert_eq!(d.tool_status.len(), 3);
}

#[test]
fn failed_probes_are_handed_to_recovery() {
    let mut d: DaemonState<String> = DaemonState::new();
    d.tool_status.insert("a".to_string(), ToolStatus::new_up());
    d.tool_status.insert("b".to_string(), ToolStatus::new_up());
    d.tool_status.insert("c".to_string(), ToolStatus::new_up());
    let results = vec![
        ProbeResult { tool_name: "a".to_string(), healthy: false, error: Some("refused".to_string()) },
        ProbeResult { tool_name: "b".to_string(), healthy: true, error: None },
        ProbeResult { tool_name: "c".to_string(), healthy: false, error: Some("gone".to_string()) },
    ];
    let targets = d.apply_probe_results(&vec!["c".to_string()], &results);
    assert_eq!(targets, vec!["a".to_string()]);
    let a = d.tool_status.get("a").unwrap();
    assert_eq!(a.status, Status::Down);
    assert_eq!(a.last_error.as_deref(), Some("refused"));
    assert_eq!(d.tool_status.get("c").unwrap().status, Status::Up);
    assert_eq!(d.tool_status.get("b").unwrap().status, Status::Up);
}

#[test]
fn probe_tool_without_health_is_unhealthy() {
    let tool = toolshed::registry::Tool {
        dir: "/tmp/fake".to_string(),
        manifest: toolshed::manifest::ToolManifest {
            name: "no-health-tool".to_string(),
            description: "Test".to_string(),
            category: "test".to_string(),
            tool_type: toolshed::manifest::ToolType::Mcp,
            max_output: 4096,
            health: None,
            tier: None,
            commands: toolshed::namemap::NameMap::new(),
            mcp: None,
        },
        run_path: None,
    };
    let result = probe_outcome(&tool, None);
    assert!(!result.healthy);
    assert!(result.error.is_some());
    let checked = probe_outcome(&tool, Some(Ok(())));
    assert!(!checked.healthy);
    assert_eq!(checked.error.as_deref(), Some("no health command configured"));
}

#[test]
fn grace_period_ends_at_its_deadline() {
    let mut ts = ToolStatus::new_up();
    assert_eq!(ts.last_check, 0);
    assert!(!ts.in_grace_period_at(0));
    ts.mark_down("boom");
    ts.mark_up_after_recovery_at(1_000, 30_000);
    assert_eq!(ts.grace_until, Some(31_000));
    assert_eq!(ts.last_check, 1_000);
    assert!(ts.in_grace_period_at(30_999));
    assert!(!ts.in_grace_period_at(31_000));
    ts.mark_up_after_recovery_at(u64::MAX - 1, 5);
    assert_eq!(ts.grace_until, Some(u64::MAX));
    let mut now = ToolStatus::new_up();
    now.mark_up_after_recovery(30_000);
    assert_eq!(now.grace_until, Some(now.last_check + 30_000));
    assert!(now.in_grace_period());
}

#[test]
fn vault_lines_without_a_definition_add_nothing() {
    let script = "# comment\nv=$(vault_get onlypath); export X=\"$v\"\nv=$(vault_get a b; export Y=\"$v\"\nv=$(vault_get a b c) no export here\n  v=$(vault_get p k extra) && export Z=\"$v\"\n";
    let defs = parse_vault_env_script(script);
    assert_eq!(defs.len(), 1);
    assert_eq!((defs[0].path.as_str(), defs[0].key.as_str(), defs[0].env_var.as_str()), ("p", "k", "Z"));
}

#[test]
fn marks_at_a_reading_set_the_last_check() {
    let mut ts = ToolStatus::new_up();
    ts.mark_down_at(500, "boom");
    assert_eq!(ts.last_check, 500);
    assert_eq!(ts.status, Status::Down);
    assert_eq!(ts.consecutive_failures, 1);
    assert_eq!(ts.last_error.as_deref(), Some("boom"));
    ts.mark_recovering_at(700, 2);
    assert_eq!(ts.last_check, 700);
    assert_eq!(ts.recovering_attempt, Some(2));
    ts.mark_failed_to_load_at(900, "bad manifest");
    assert_eq!(ts.last_check, 900);
    assert_eq!(ts.status, Status::FailedToLoad);
    ts.consecutive_failures = u16::MAX;
    ts.mark_down_at(1_000, "again");
    assert_eq!(ts.consecutive_failures, u16::MAX);
}

#[test]
fn marks_by_the_clock_never_move_the_last_check_back() {
    let mut ts = ToolStatus::new_up();
    ts.mark_down_at(u64::MAX - 5, "boom");
    ts.mark_down("again");
    assert!(ts.last_check >= u64::MAX - 5);
    ts.mark_recovering(1);
    assert!(ts.last_check >= u64::MAX - 5);
    ts.mark_up_after_recovery(10);
    assert_eq!(ts.grace_until, Some(u64::MAX));
    assert_eq!(ts.status, Status::Up);
}

#[test]
fn probes_after_attempts_decide_the_recovery() {
    let mut r = Recovery::new("srv");
    assert!(matches!(r.after_probe(false, Some("e1".to_string())), RecoveryStep::Retry));
    assert!(matches!(r.after_probe(true, None), RecoveryStep::Recovered));
    assert_eq!(r.attempts, 1);
    assert_eq!(r.errors, vec!["attempt 1: e1".to_string()]);
    assert!(matches!(r.after_probe(false, Some("e2".to_string())), RecoveryStep::Retry));
    match r.after_probe(false, Some("e3".to_string())) {
        RecoveryStep::Exhausted(ToolshedError::RecoveryExhausted { tool, reason }) => {
            assert_eq!(tool, "srv");
            assert_eq!(reason, "attempt 1: e1; attempt 2: e2; attempt 3: e3");
        }
        other => panic!("unexpected step {:?}", other),
    }
    let mut u = Recovery::new("x");
    assert!(matches!(u.after_probe(false, None), RecoveryStep::Retry));
    assert_eq!(u.errors, vec!["attempt 1: unknown error".to_string()]);
}

#[test]
fn attempts_mark_the_tool_and_the_end_brings_it_up() {
    let mut d: DaemonState<String> = DaemonState::new();
    let mut t = ToolStatus::new_up();
    t.mark_down("boom");
    d.tool_status.insert("a".to_string(), t);
    d.begin_attempt("a", 2);
    let a = d.tool_status.get("a").unwrap();
    assert_eq!(a.status, Status::Recovering);
    assert_eq!(a.recovering_attempt, Some(2));
    assert_eq!(a.last_error.as_deref(), Some("boom"));
    d.end_recovery("a", 60_000);
    let a = d.tool_status.get("a").unwrap();
    assert_eq!(a.status, Status::Up);
    assert_eq!(a.recoveries, 1);
    assert_eq!(a.consecutive_failures, 0);
    assert!(a.last_error.is_none());
    assert!(a.recovering_attempt.is_none());
    assert_eq!(a.grace_until, Some(a.last_check + 60_000));
    d.begin_attempt("unknown", 1);
    d.end_recovery("unknown", 1);
    assert_eq!(d.tool_status.len(), 1);
}

#[test]
fn discovery_cache_is_fresh_for_an_hour() {
    assert!(toolshed::config::cache_fresh(0));
    assert!(toolshed::config::cache_fresh(3600));
    assert!(!toolshed::config::cache_fresh(3601));
}
