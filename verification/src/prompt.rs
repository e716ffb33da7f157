//! The system prompt that introduces the tool shed to an agent: the tools,
//! skills, agents, rules and workflows it holds.

use vstd::prelude::*;
use crate::agent::AgentRegistry;
use crate::manifest::{ToolManifest, ToolType};
use crate::registry::Registry;
use crate::report::{pad, push_padded, texts};
use crate::rule::RuleRegistry;
use crate::skill::SkillRegistry;
use crate::text::{append_chars, decimal, from_chars, join, join_strings, push_str, to_chars, u64_decimal};
use crate::workflow::WorkflowRegistry;

verus! {

/// The part of the prompt before the table of tools.
pub open spec fn prompt_head() -> Seq<char> {
    "# Toolshed Agent\n\nYou have access to Toolshed, a universal tool registry that provides a consistent interface to native CLI tools and MCP servers.\n\n## Discovery Protocol\n\nBefore using any tool, follow these three steps:\n\n1. **List categories** — `toolshed list` shows all available tool categories\n2. **List tools in a category** — `toolshed list <category>` shows tools and descriptions\n3. **Get tool help** — `toolshed help <tool>` shows commands, parameters, and usage\n\n## Available Tools\n\n| Tool                 | Category       | Type   | Commands |\n|----------------------|----------------|--------|----------|\n"@
}

/// The part of the prompt after the table of tools.
pub open spec fn prompt_foot() -> Seq<char> {
    "\n\n## Running Tools\n\n```\ntoolshed run <tool> <command> [args...]\n```\n\n- **Native tools**: positional args and `--flag value` pairs\n- **MCP tools**: `--name value` pairs (JSON values parsed automatically)\n- Use `--full` to disable output truncation\n- Use `--timeout <seconds>` for long-running commands\n\n## Key Principles\n\n- **Always discover before using.** Run `toolshed help <tool>` to see exact parameters.\n- **Tools are stateless between calls.** Each `toolshed run` is independent.\n- **Environment variables** are interpolated at runtime from the shell environment."@
}

/// The type column of a tool.
pub open spec fn kind_name(t: ToolType) -> Seq<char> {
    match t {
        ToolType::Native => "native"@,
        ToolType::Mcp => "mcp"@,
    }
}

/// The commands column of a tool: a native tool's commands, or where to
/// find an MCP tool's.
pub open spec fn commands_cell(m: ToolManifest) -> Seq<char> {
    match m.tool_type {
        ToolType::Native => join(m.commands.keys(), ", "@),
        ToolType::Mcp => "(MCP — run `toolshed help` to discover)"@,
    }
}

/// The row of a tool in the table.
pub open spec fn tool_row(name: Seq<char>, category: Seq<char>, m: ToolManifest) -> Seq<char> {
    "| "@ + pad(name, 20) + " | "@ + pad(category, 14) + " | "@ + pad(kind_name(m.tool_type), 6) + " | "@
        + commands_cell(m) + " |"@
}

/// The rows of the first `n` tools named in a category.
pub open spec fn category_rows(reg: Registry, category: Seq<char>, names: Seq<String>, n: nat) -> Seq<Seq<char>>
    decreases n,
{
    if n == 0 || n > names.len() {
        seq![]
    } else {
        let prev = category_rows(reg, category, names, (n - 1) as nat);
        let name = names[n - 1]@;
        if reg.tools@.contains_key(name) {
            prev.push(tool_row(name, category, reg.tools@[name].manifest))
        } else {
            prev
        }
    }
}

/// The rows of the tools of the first `k` categories, category by
/// category.
pub open spec fn tool_rows(reg: Registry, k: nat) -> Seq<Seq<char>>
    decreases k,
{
    if k == 0 || k > reg.by_category.spec_len() {
        seq![]
    } else {
        let names = reg.by_category.values()[k - 1]@;
        tool_rows(reg, (k - 1) as nat) + category_rows(reg, reg.by_category.keys()[k - 1], names, names.len())
    }
}

/// A section: its heading lines, its rows and its closing line, one per
/// line.
pub open spec fn section(head: Seq<Seq<char>>, rows: Seq<Seq<char>>, tail: Seq<Seq<char>>) -> Seq<char> {
    join(head + rows + tail, "\n"@)
}

/// The skills section, when there are skills.
pub open spec fn skills_section(reg: SkillRegistry) -> Seq<char> {
    let n = reg.skills.spec_len();
    if n == 0 {
        Seq::empty()
    } else {
        section(
            seq!["\n\n## Available Skills\n"@, "| Skill                  | Description |"@, "|------------------------|-------------|"@],
            Seq::new(n, |i: int| "| "@ + pad(reg.skills.keys()[i], 22) + " | "@ + reg.skills.values()[i].manifest.description@ + " |"@),
            seq!["\nUse `toolshed skill show <name>` to read a skill's full content."@],
        )
    }
}

/// The model column of an agent.
pub open spec fn model_cell(model: Option<String>) -> Seq<char> {
    match model {
        Some(m) => m@,
        None => "-"@,
    }
}

/// The agents section, when there are agents.
pub open spec fn agents_section(reg: AgentRegistry) -> Seq<char> {
    let n = reg.agents.spec_len();
    if n == 0 {
        Seq::empty()
    } else {
        section(
            seq!["\n\n## Available Agents\n"@, "| Agent                  | Description | Model |"@, "|------------------------|-------------|-------|"@],
            Seq::new(n, |i: int| "| "@ + pad(reg.agents.keys()[i], 22) + " | "@ + reg.agents.values()[i].manifest.description@ + " | "@ + model_cell(reg.agents.values()[i].manifest.model) + " |"@),
            seq!["\nUse `toolshed agent show <name>` to read an agent's system prompt."@],
        )
    }
}

/// The lines of the first `n` rules: a heading with the rule's type,
/// severity and scope, its body, and an empty line.
pub open spec fn rule_lines(reg: RuleRegistry, n: nat) -> Seq<Seq<char>>
    decreases n,
{
    if n == 0 || n > reg.rules.spec_len() {
        seq![]
    } else {
        let r = reg.rules.values()[n - 1];
        rule_lines(reg, (n - 1) as nat) + seq![
            "### "@ + reg.rules.keys()[n - 1] + " ("@ + r.manifest.rule_type@ + ", "@ + r.manifest.severity@ + ", "@
                + join(texts(r.manifest.scope@), ", "@) + ")\n"@,
            r.body@,
            Seq::empty(),
        ]
    }
}

/// The rules section, with each rule in full, when there are rules.
pub open spec fn rules_section(reg: RuleRegistry) -> Seq<char> {
    let n = reg.rules.spec_len();
    if n == 0 {
        Seq::empty()
    } else {
        section(
            seq!["\n\n## Rules\n"@, "**The following rules MUST be followed:**\n"@],
            rule_lines(reg, n),
            seq![],
        )
    }
}

/// The workflows section, when there are workflows.
pub open spec fn workflows_section(reg: WorkflowRegistry) -> Seq<char> {
    let n = reg.workflows.spec_len();
    if n == 0 {
        Seq::empty()
    } else {
        section(
            seq!["\n\n## Available Workflows\n"@, "| Workflow               | Steps | Description |"@, "|------------------------|-------|-------------|"@],
            Seq::new(n, |i: int| "| "@ + pad(reg.workflows.keys()[i], 22) + " | "@ + pad(decimal(reg.workflows.values()[i].steps@.len()), 5) + " | "@ + reg.workflows.values()[i].manifest.description@ + " |"@),
            seq!["\nUse `toolshed workflow show <name>` to see steps. Use `toolshed workflow run <name>` to execute."@],
        )
    }
}

/// The prompt: the introduction with the table of tools, then the skills,
/// agents, rules and workflows sections.
pub open spec fn prompt_text(
    reg: Registry,
    skills: SkillRegistry,
    agents: AgentRegistry,
    rules: RuleRegistry,
    workflows: WorkflowRegistry,
) -> Seq<char> {
    prompt_head() + join(tool_rows(reg, reg.by_category.spec_len()), "\n"@) + prompt_foot() + skills_section(skills)
        + agents_section(agents) + rules_section(rules) + workflows_section(workflows)
}

/// The front matter that makes the prompt a skill.
pub open spec fn skill_header() -> Seq<char> {
    "---\nname: toolshed\ndescription: Universal tool registry — discover and run CLI tools and MCP servers\nuser_invocable: true\n---\n\n"@
}

/// What `agent-prompt` prints: the prompt, behind the front matter of a
/// skill when the format is `skill`.
pub open spec fn prompt_output(format: Seq<char>, prompt: Seq<char>) -> Seq<char> {
    if format == "skill"@ {
        skill_header() + prompt + "\n"@
    } else {
        prompt + "\n"@
    }
}

fn commands_text(m: &ToolManifest) -> (r: String)
    requires
        m.commands.wf(),
    ensures
        r@ == commands_cell(*m),
{
    match m.tool_type {
        ToolType::Native => {
            let mut names: Vec<String> = Vec::new();
            let n = m.commands.len();
            for i in 0..n
                invariant
                    n == m.commands.spec_len(),
                    names@.len() == i,
                    forall|j: int| 0 <= j < i ==> #[trigger] names@[j]@ == m.commands.keys()[j],
            {
                names.push(m.commands.key_at(i).clone());
            }
            assert(texts(names@) =~= m.commands.keys());
            join_strings(&names, ", ")
        },
        ToolType::Mcp => "(MCP — run `toolshed help` to discover)".to_owned(),
    }
}

fn tool_table_rows(reg: &Registry) -> (r: Vec<String>)
    requires
        reg.wf(),
        forall|k: Seq<char>| #[trigger] reg.tools@.contains_key(k) ==> reg.tools@[k].manifest.commands.wf(),
    ensures
        texts(r@) == tool_rows(*reg, reg.by_category.spec_len()),
{
    let mut rows: Vec<String> = Vec::new();
    let nc = reg.by_category.len();
    for c in 0..nc
        invariant
            reg.wf(),
            forall|k: Seq<char>| #[trigger] reg.tools@.contains_key(k) ==> reg.tools@[k].manifest.commands.wf(),
            nc == reg.by_category.spec_len(),
            texts(rows@) == tool_rows(*reg, c as nat),
    {
        let cat = reg.by_category.key_at(c);
        let names = reg.by_category.value_at(c);
        let ghost base = rows@;
        let nn = names.len();
        for j in 0..nn
            invariant
                reg.wf(),
                forall|k: Seq<char>| #[trigger] reg.tools@.contains_key(k) ==> reg.tools@[k].manifest.commands.wf(),
                nn == names@.len(),
                texts(rows@) == texts(base) + category_rows(*reg, cat@, names@, j as nat),
        {
            match reg.tools.get(names[j].as_str()) {
                Some(t) => {
                    let m = &t.manifest;
                    let mut l = to_chars("| ");
                    push_padded(&mut l, names[j].as_str(), 20);
                    push_str(&mut l, " | ");
                    push_padded(&mut l, cat.as_str(), 14);
                    push_str(&mut l, " | ");
                    match m.tool_type {
                        ToolType::Native => push_padded(&mut l, "native", 6),
                        ToolType::Mcp => push_padded(&mut l, "mcp", 6),
                    }
                    push_str(&mut l, " | ");
                    let cmds = commands_text(m);
                    push_str(&mut l, cmds.as_str());
                    push_str(&mut l, " |");
                    let ghost before = rows@;
                    rows.push(from_chars(&l));
                    assert(texts(rows@) =~= texts(before).push(l@));
                },
                None => {},
            }
        }
        assert(texts(rows@) == tool_rows(*reg, (c + 1) as nat));
    }
    rows
}

fn push_line(lines: &mut Vec<String>, l: &Vec<char>)
    ensures
        texts(final(lines)@) == texts(old(lines)@).push(l@),
{
    lines.push(from_chars(l));
    assert(texts(lines@) =~= texts(old(lines)@).push(l@));
}

fn skills_text(reg: &SkillRegistry) -> (r: String)
    ensures
        r@ == skills_section(*reg),
{
    let n = reg.skills.len();
    if n == 0 {
        return String::new();
    }
    let mut lines: Vec<String> = Vec::new();
    push_line(&mut lines, &to_chars("\n\n## Available Skills\n"));
    push_line(&mut lines, &to_chars("| Skill                  | Description |"));
    push_line(&mut lines, &to_chars("|------------------------|-------------|"));
    let ghost head = texts(lines@);
    let ghost rows = Seq::new(n as nat, |i: int| "| "@ + pad(reg.skills.keys()[i], 22) + " | "@ + reg.skills.values()[i].manifest.description@ + " |"@);
    for i in 0..n
        invariant
            n == reg.skills.spec_len(),
            rows == Seq::new(n as nat, |i: int| "| "@ + pad(reg.skills.keys()[i], 22) + " | "@ + reg.skills.values()[i].manifest.description@ + " |"@),
            texts(lines@) == head + rows.take(i as int),
    {
        let mut l = to_chars("| ");
        push_padded(&mut l, reg.skills.key_at(i).as_str(), 22);
        push_str(&mut l, " | ");
        push_str(&mut l, reg.skills.value_at(i).manifest.description.as_str());
        push_str(&mut l, " |");
        push_line(&mut lines, &l);
        assert(rows.take(i + 1) == rows.take(i as int).push(rows[i as int]));
    }
    assert(rows.take(n as int) == rows);
    push_line(&mut lines, &to_chars("\nUse `toolshed skill show <name>` to read a skill's full content."));
    assert(head =~= seq!["\n\n## Available Skills\n"@, "| Skill                  | Description |"@, "|------------------------|-------------|"@]);
    assert(texts(lines@) =~= head + rows + seq!["\nUse `toolshed skill show <name>` to read a skill's full content."@]);
    assert(lines@.map_values(|p: String| p@) =~= texts(lines@));
    join_strings(&lines, "\n")
}

fn agents_text(reg: &AgentRegistry) -> (r: String)
    ensures
        r@ == agents_section(*reg),
{
    let n = reg.agents.len();
    if n == 0 {
        return String::new();
    }
    let mut lines: Vec<String> = Vec::new();
    push_line(&mut lines, &to_chars("\n\n## Available Agents\n"));
    push_line(&mut lines, &to_chars("| Agent                  | Description | Model |"));
    push_line(&mut lines, &to_chars("|------------------------|-------------|-------|"));
    let ghost head = texts(lines@);
    let ghost rows = Seq::new(n as nat, |i: int| "| "@ + pad(reg.agents.keys()[i], 22) + " | "@ + reg.agents.values()[i].manifest.description@ + " | "@ + model_cell(reg.agents.values()[i].manifest.model) + " |"@);
    for i in 0..n
        invariant
            n == reg.agents.spec_len(),
            rows == Seq::new(n as nat, |i: int| "| "@ + pad(reg.agents.keys()[i], 22) + " | "@ + reg.agents.values()[i].manifest.description@ + " | "@ + model_cell(reg.agents.values()[i].manifest.model) + " |"@),
            texts(lines@) == head + rows.take(i as int),
    {
        let a = reg.agents.value_at(i);
        let mut l = to_chars("| ");
        push_padded(&mut l, reg.agents.key_at(i).as_str(), 22);
        push_str(&mut l, " | ");
        push_str(&mut l, a.manifest.description.as_str());
        push_str(&mut l, " | ");
        match &a.manifest.model {
            Some(m) => push_str(&mut l, m.as_str()),
            None => push_str(&mut l, "-"),
        }
        push_str(&mut l, " |");
        push_line(&mut lines, &l);
        assert(rows.take(i + 1) == rows.take(i as int).push(rows[i as int]));
    }
    assert(rows.take(n as int) == rows);
    push_line(&mut lines, &to_chars("\nUse `toolshed agent show <name>` to read an agent's system prompt."));
    assert(head =~= seq!["\n\n## Available Agents\n"@, "| Agent                  | Description | Model |"@, "|------------------------|-------------|-------|"@]);
    assert(texts(lines@) =~= head + rows + seq!["\nUse `toolshed agent show <name>` to read an agent's system prompt."@]);
    assert(lines@.map_values(|p: String| p@) =~= texts(lines@));
    join_strings(&lines, "\n")
}

fn rules_text(reg: &RuleRegistry) -> (r: String)
    ensures
        r@ == rules_section(*reg),
{
    let n = reg.rules.len();
    if n == 0 {
        return String::new();
    }
    let mut lines: Vec<String> = Vec::new();
    push_line(&mut lines, &to_chars("\n\n## Rules\n"));
    push_line(&mut lines, &to_chars("**The following rules MUST be followed:**\n"));
    let ghost head = texts(lines@);
    for i in 0..n
        invariant
            n == reg.rules.spec_len(),
            texts(lines@) == head + rule_lines(*reg, i as nat),
    {
        let r = reg.rules.value_at(i);
        let mut l = to_chars("### ");
        push_str(&mut l, reg.rules.key_at(i).as_str());
        push_str(&mut l, " (");
        push_str(&mut l, r.manifest.rule_type.as_str());
        push_str(&mut l, ", ");
        push_str(&mut l, r.manifest.severity.as_str());
        push_str(&mut l, ", ");
        let scope = join_strings(&r.manifest.scope, ", ");
        push_str(&mut l, scope.as_str());
        push_str(&mut l, ")\n");
        push_line(&mut lines, &l);
        push_line(&mut lines, &to_chars(r.body.as_str()));
        push_line(&mut lines, &Vec::new());
        assert(texts(lines@) =~= head + rule_lines(*reg, (i + 1) as nat));
    }
    assert(head =~= seq!["\n\n## Rules\n"@, "**The following rules MUST be followed:**\n"@]);
    assert(head + rule_lines(*reg, n as nat) + seq![] =~= head + rule_lines(*reg, n as nat));
    assert(lines@.map_values(|p: String| p@) =~= texts(lines@));
    join_strings(&lines, "\n")
}

fn workflows_text(reg: &WorkflowRegistry) -> (r: String)
    ensures
        r@ == workflows_section(*reg),
{
    let n = reg.workflows.len();
    if n == 0 {
        return String::new();
    }
    let mut lines: Vec<String> = Vec::new();
    push_line(&mut lines, &to_chars("\n\n## Available Workflows\n"));
    push_line(&mut lines, &to_chars("| Workflow               | Steps | Description |"));
    push_line(&mut lines, &to_chars("|------------------------|-------|-------------|"));
    let ghost head = texts(lines@);
    let ghost rows = Seq::new(n as nat, |i: int| "| "@ + pad(reg.workflows.keys()[i], 22) + " | "@ + pad(decimal(reg.workflows.values()[i].steps@.len()), 5) + " | "@ + reg.workflows.values()[i].manifest.description@ + " |"@);
    for i in 0..n
        invariant
            n == reg.workflows.spec_len(),
            rows == Seq::new(n as nat, |i: int| "| "@ + pad(reg.workflows.keys()[i], 22) + " | "@ + pad(decimal(reg.workflows.values()[i].steps@.len()), 5) + " | "@ + reg.workflows.values()[i].manifest.description@ + " |"@),
            texts(lines@) == head + rows.take(i as int),
    {
        let w = reg.workflows.value_at(i);
        let mut l = to_chars("| ");
        push_padded(&mut l, reg.workflows.key_at(i).as_str(), 22);
        push_str(&mut l, " | ");
        let count = from_chars(&u64_decimal(w.steps.len() as u64));
        push_padded(&mut l, count.as_str(), 5);
        push_str(&mut l, " | ");
        push_str(&mut l, w.manifest.description.as_str());
        push_str(&mut l, " |");
        push_line(&mut lines, &l);
        assert(rows.take(i + 1) == rows.take(i as int).push(rows[i as int]));
    }
    assert(rows.take(n as int) == rows);
    push_line(&mut lines, &to_chars("\nUse `toolshed workflow show <name>` to see steps. Use `toolshed workflow run <name>` to execute."));
    assert(head =~= seq!["\n\n## Available Workflows\n"@, "| Workflow               | Steps | Description |"@, "|------------------------|-------|-------------|"@]);
    assert(texts(lines@) =~= head + rows + seq!["\nUse `toolshed workflow show <name>` to see steps. Use `toolshed workflow run <name>` to execute."@]);
    assert(lines@.map_values(|p: String| p@) =~= texts(lines@));
    join_strings(&lines, "\n")
}

/// What `agent-prompt` prints for these registries: the introduction with
/// the table of tools, then whichever of the skills, agents, rules and
/// workflows sections have entries; as a skill, behind its front matter,
/// when `format` is `skill`.
pub fn agent_prompt(
    format: &str,
    reg: &Registry,
    skills: &SkillRegistry,
    agents: &AgentRegistry,
    rules: &RuleRegistry,
    workflows: &WorkflowRegistry,
) -> (r: String)
    requires
        reg.wf(),
        forall|k: Seq<char>| #[trigger] reg.tools@.contains_key(k) ==> reg.tools@[k].manifest.commands.wf(),
    ensures
        r@ == prompt_output(format@, prompt_text(*reg, *skills, *agents, *rules, *workflows)),
{
    let rows = tool_table_rows(reg);
    let table = join_strings(&rows, "\n");
    let mut out: Vec<char> = Vec::new();
    if crate::text::chars_eq(&to_chars(format), &to_chars("skill")) {
        push_str(&mut out, "---\nname: toolshed\ndescription: Universal tool registry — discover and run CLI tools and MCP servers\nuser_invocable: true\n---\n\n");
    }
    push_str(&mut out, "# Toolshed Agent\n\nYou have access to Toolshed, a universal tool registry that provides a consistent interface to native CLI tools and MCP servers.\n\n## Discovery Protocol\n\nBefore using any tool, follow these three steps:\n\n1. **List categories** — `toolshed list` shows all available tool categories\n2. **List tools in a category** — `toolshed list <category>` shows tools and descriptions\n3. **Get tool help** — `toolshed help <tool>` shows commands, parameters, and usage\n\n## Available Tools\n\n| Tool                 | Category       | Type   | Commands |\n|----------------------|----------------|--------|----------|\n");
    push_str(&mut out, table.as_str());
    push_str(&mut out, "\n\n## Running Tools\n\n```\ntoolshed run <tool> <command> [args...]\n```\n\n- **Native tools**: positional args and `--flag value` pairs\n- **MCP tools**: `--name value` pairs (JSON values parsed automatically)\n- Use `--full` to disable output truncation\n- Use `--timeout <seconds>` for long-running commands\n\n## Key Principles\n\n- **Always discover before using.** Run `toolshed help <tool>` to see exact parameters.\n- **Tools are stateless between calls.** Each `toolshed run` is independent.\n- **Environment variables** are interpolated at runtime from the shell environment.");
    push_str(&mut out, skills_text(skills).as_str());
    push_str(&mut out, agents_text(agents).as_str());
    push_str(&mut out, rules_text(rules).as_str());
    push_str(&mut out, workflows_text(workflows).as_str());
    push_str(&mut out, "\n");
    from_chars(&out)
}

} // verus!
