use toolshed::config::DEFAULT_MAX_OUTPUT;
use toolshed::doc::DocFile;
use toolshed::error::ToolshedError;
use toolshed::manifest::{CommandDef, ManifestSource, ToolManifest, ToolType};
use toolshed::namemap::NameMap;
use toolshed::registry::{Registry, ToolDir};
use toolshed::workflow::{load_workflow, StepDecision, Workflow, WorkflowRun};

fn registry() -> Registry {
    let mut commands = NameMap::new();
    commands.insert("say".to_string(), CommandDef { description: "say".to_string(), args: NameMap::new() });
    let m = ToolManifest {
        name: "echo".to_string(),
        description: "Echo".to_string(),
        category: "demo".to_string(),
        tool_type: ToolType::Native,
        max_output: DEFAULT_MAX_OUTPUT,
        health: Some("echo say ok".to_string()),
        tier: None,
        commands,
        mcp: None,
    };
    let mut reg = Registry::new();
    reg.add_dir(ToolDir {
        dir: "/tools/echo".to_string(),
        dir_name: "echo".to_string(),
        manifest: Some(ManifestSource::Parsed(m)),
        has_run: true,
        run_executable: Some(true),
    });
    reg
}

fn workflow(body: &str) -> Workflow {
    let text = format!("---\nname: greet\ndescription: Greets twice\ntimeout: 30\n---\n{body}");
    load_workflow("/wf/greet", "greet", DocFile::Text(text)).unwrap()
}

fn env() -> NameMap<String> {
    let mut e = NameMap::new();
    e.insert("WHO".to_string(), "world".to_string());
    e
}

#[test]
fn steps_pass_their_output_on() {
    let wf = workflow("echo say hello ${WHO}\necho say \"${prev}!\"\n");
    let reg = registry();
    let mut run = WorkflowRun::start(&wf, false, None);
    assert_eq!(run.total_timeout, 30);
    match run.decide(&wf, &reg, &env(), 10, 0) {
        StepDecision::Run { tool, command, args, timeout_secs, .. } => {
            assert_eq!((tool.as_str(), command.as_str()), ("echo", "say"));
            assert_eq!(args, vec!["hello", "world"]);
            assert_eq!(timeout_secs, 10);
        },
        _ => panic!("expected a step to run"),
    }
    assert!(run.step_done(&wf, "echo", "say", Ok("hello world\n".to_string()), 4096).is_none());
    assert_eq!(run.prev, "hello world");
    match run.decide(&wf, &reg, &env(), 9, 0) {
        StepDecision::Run { args, .. } => assert_eq!(args, vec!["hello world!"]),
        _ => panic!("expected a step to run"),
    }
    assert!(run.step_done(&wf, "echo", "say", Ok("hello world!".to_string()), 4096).is_none());
    match run.decide(&wf, &reg, &env(), 8, 0) {
        StepDecision::Finish(out) => assert_eq!(out, "hello world!\n"),
        _ => panic!("expected the run to finish"),
    }
}

#[test]
fn run_stops_when_time_is_up() {
    let wf = workflow("echo say hi\n");
    let run = WorkflowRun::start(&wf, false, Some(5));
    match run.decide(&wf, &registry(), &env(), 0, 0) {
        StepDecision::Fail(ToolshedError::WorkflowTimeout { workflow, timeout_secs }) => {
            assert_eq!(workflow, "greet");
            assert_eq!(timeout_secs, 5);
        },
        _ => panic!("expected a timeout"),
    }
}

#[test]
fn unknown_tool_fails_the_step() {
    let wf = workflow("nope say hi\n");
    let run = WorkflowRun::start(&wf, false, None);
    match run.decide(&wf, &registry(), &env(), 3, 0) {
        StepDecision::Fail(e) => assert!(e.message().contains("tool 'nope' not found")),
        _ => panic!("expected a failure"),
    }
}

#[test]
fn failing_step_may_continue() {
    let wf = workflow("echo say a ?\necho say b\n");
    let mut run = WorkflowRun::start(&wf, true, None);
    let err = ToolshedError::ToolFailed { tool: "echo".to_string(), code: 2, stderr: "bad".to_string() };
    assert!(run.step_done(&wf, "echo", "say", Err(err), 4096).is_none());
    assert_eq!(run.next, 1);
    assert_eq!(run.prev, "");
    let err2 = ToolshedError::ToolFailed { tool: "echo".to_string(), code: 2, stderr: "bad".to_string() };
    match run.step_done(&wf, "echo", "say", Err(err2), 4096) {
        Some(ToolshedError::WorkflowStepFailed { step, .. }) => assert_eq!(step, 2),
        _ => panic!("expected the step to fail the run"),
    }
}
