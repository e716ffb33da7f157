use toolshed::manifest::{CommandDef, ToolManifest, ToolType};
use toolshed::health::resolve_health_cmd;
use toolshed::namemap::NameMap;
use toolshed::registry::Tool;

fn tool(tool_type: ToolType, commands: &[&str], run_path: Option<&str>) -> Tool {
    let mut m = NameMap::new();
    for c in commands {
        m.insert(c.to_string(), CommandDef { description: "d".to_string(), args: NameMap::new() });
    }
    Tool {
        dir: "/tools/jj".to_string(),
        manifest: ToolManifest {
            name: "jj".to_string(),
            description: "d".to_string(),
            category: "vcs".to_string(),
            tool_type,
            max_output: 4096,
            health: Some("jj version".to_string()),
            tier: None,
            commands: m,
            mcp: None,
        },
        run_path: run_path.map(|p| p.to_string()),
    }
}

#[test]
fn bare_tool_name_runs_the_script() {
    let t = tool(ToolType::Native, &["log"], Some("/tools/jj/run"));
    assert_eq!(resolve_health_cmd("jj", &t), "/tools/jj/run");
}

#[test]
fn known_command_runs_the_script() {
    let t = tool(ToolType::Native, &["log"], Some("/tools/jj/run"));
    assert_eq!(resolve_health_cmd("jj log --limit 1", &t), "/tools/jj/run log --limit 1");
}

#[test]
fn other_binary_is_left_alone() {
    let t = tool(ToolType::Native, &["log"], Some("/tools/jj/run"));
    assert_eq!(resolve_health_cmd("jj version", &t), "jj version");
    assert_eq!(resolve_health_cmd("jjx log", &t), "jjx log");
    assert_eq!(resolve_health_cmd("curl -s localhost", &t), "curl -s localhost");
}

#[test]
fn mcp_and_scriptless_tools_are_left_alone() {
    let m = tool(ToolType::Mcp, &["log"], Some("/tools/jj/run"));
    assert_eq!(resolve_health_cmd("jj log", &m), "jj log");
    let n = tool(ToolType::Native, &["log"], None);
    assert_eq!(resolve_health_cmd("jj log", &n), "jj log");
    let empty = tool(ToolType::Native, &[], Some("/tools/jj/run"));
    assert_eq!(resolve_health_cmd("jj", &empty), "jj");
}
