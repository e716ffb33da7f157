use toolshed::config::DEFAULT_MAX_OUTPUT;
use toolshed::json::JsonValue;
use toolshed::manifest::{ArgDef, ArgType, CommandDef, ManifestSource, ToolManifest, ToolType};
use toolshed::namemap::NameMap;
use toolshed::registry::{Registry, ToolDir};
use toolshed::report::{category_lines, category_tool_lines, health_lines, native_help_lines, validation_report};

fn manifest(name: &str, category: &str, health: bool) -> ToolManifest {
    let mut args = NameMap::new();
    args.insert(
        "query".to_string(),
        ArgDef { arg_type: ArgType::String, required: true, positional: true, default: None, description: Some("What to find".to_string()) },
    );
    args.insert(
        "limit".to_string(),
        ArgDef {
            arg_type: ArgType::Int,
            required: false,
            positional: false,
            default: Some(JsonValue::Number("10".to_string())),
            description: Some("Max results".to_string()),
        },
    );
    let mut commands = NameMap::new();
    commands.insert("search".to_string(), CommandDef { description: "Search the code".to_string(), args });
    ToolManifest {
        name: name.to_string(),
        description: format!("The {name} tool"),
        category: category.to_string(),
        tool_type: ToolType::Native,
        max_output: DEFAULT_MAX_OUTPUT,
        health: if health { Some(format!("{name} search x")) } else { None },
        tier: None,
        commands,
        mcp: None,
    }
}

fn registry() -> Registry {
    let mut reg = Registry::new();
    for (name, cat) in [("grep", "code"), ("find", "code"), ("mail", "comms")] {
        reg.add_dir(ToolDir {
            dir: format!("/tools/{name}"),
            dir_name: name.to_string(),
            manifest: Some(ManifestSource::Parsed(manifest(name, cat, true))),
            has_run: true,
            run_executable: Some(true),
        });
    }
    reg.add_dir(ToolDir {
        dir: "/tools/broken".to_string(),
        dir_name: "broken".to_string(),
        manifest: None,
        has_run: false,
        run_executable: None,
    });
    reg
}

#[test]
fn categories_are_counted() {
    let lines = category_lines(&registry());
    assert_eq!(lines, vec![format!("{:<20} 2 tools", "code"), format!("{:<20} 1 tool", "comms")]);
}

#[test]
fn category_tools_are_listed() {
    let reg = registry();
    let lines = category_tool_lines(&reg, "code").unwrap();
    assert_eq!(lines.len(), 2);
    assert!(lines.contains(&format!("{:<12} The grep tool", "grep")));
    let err = category_tool_lines(&reg, "nope").unwrap_err();
    assert_eq!(err.message(), "category not found: nope");
}

#[test]
fn health_counts_per_category() {
    let reg = registry();
    let mut results = NameMap::new();
    results.insert("grep".to_string(), Some(true));
    results.insert("find".to_string(), Some(false));
    results.insert("mail".to_string(), None);
    let lines = health_lines(&reg, &results);
    assert_eq!(
        lines,
        vec![
            format!("{:<20} 2 tools  (1 up, 1 down)", "code"),
            format!("{:<20} 1 tool  (health not configured)", "comms"),
        ]
    );
}

#[test]
fn native_help_shows_arguments() {
    let lines = native_help_lines(&manifest("grep", "code", true), Some(false));
    assert_eq!(lines[0], "grep — The grep tool");
    assert_eq!(lines[3], "Status: DOWN");
    assert!(lines.contains(&"  search <query> [limit]".to_string()));
    assert!(lines.contains(&format!("    {:<12} string, required — What to find", "query")));
    assert!(lines.contains(&format!("    {:<12} int, default=10 — Max results", "limit")));
    assert_eq!(lines.last().unwrap(), "Usage: toolshed run grep <command> [args]");
}

#[test]
fn validation_reports_refused_tools() {
    let reg = registry();
    let (lines, bad) = validation_report(&reg.tools, &reg.errors, None).unwrap();
    assert!(bad);
    assert!(lines.contains(&"grep  ok".to_string()));
    assert!(lines.contains(&"broken  ERROR: missing tool.json".to_string()));
    let (one, bad_one) = validation_report(&reg.tools, &reg.errors, Some("mail")).unwrap();
    assert_eq!(one, vec!["mail  ok".to_string()]);
    assert!(!bad_one);
    assert!(validation_report(&reg.tools, &reg.errors, Some("ghost")).is_none());
}
