//! The texts the command line prints: listings, validation reports and the
//! steps of a workflow, line by line.

use vstd::prelude::*;
use crate::agent::AgentRegistry;
use crate::error::ToolshedError;
use crate::json::json_text;
use crate::manifest::{arg_type_name, transport_name, ArgDef, CommandDef, ToolManifest};
use crate::mcp::{param_signature, McpToolInfo, ParamInfo};
use crate::registry::{Registry, Tool};
use crate::namemap::NameMap;
use crate::rule::RuleRegistry;
use crate::skill::SkillRegistry;
use crate::text::{append_chars, chars_eq, decimal, from_chars, join, join_strings, push_str, to_chars, u64_decimal};
use crate::workflow::{Workflow, WorkflowRegistry};

verus! {

/// The texts of a sequence of strings.
pub open spec fn texts(v: Seq<String>) -> Seq<Seq<char>> {
    v.map_values(|s: String| s@)
}

/// `s` padded with spaces on the right to `width` characters, as `{:<width}`
/// writes it.
pub open spec fn pad(s: Seq<char>, width: nat) -> Seq<char> {
    if s.len() >= width {
        s
    } else {
        s + Seq::new((width - s.len()) as nat, |i: int| ' ')
    }
}

/// Appends `s` padded to `width` characters.
pub fn push_padded(out: &mut Vec<char>, s: &str, width: usize)
    ensures
        final(out)@ == old(out)@ + pad(s@, width as nat),
{
    let ghost start = out@;
    let c = to_chars(s);
    append_chars(out, c.as_slice());
    let mut k = c.len();
    while k < width
        invariant
            c@ == s@,
            c@.len() <= k <= width || (k == c@.len() && k >= width),
            out@ == start + s@ + Seq::new((k - c@.len()) as nat, |i: int| ' '),
        decreases width - k,
    {
        let ghost before = out@;
        out.push(' ');
        assert(Seq::new((k + 1 - c@.len()) as nat, |i: int| ' ') =~= Seq::new((k - c@.len()) as nat, |i: int| ' ').push(' '));
        k = k + 1;
    }
    if c.len() >= width {
        assert(Seq::new(0nat, |i: int| ' ') =~= Seq::<char>::empty());
        assert(out@ =~= start + s@);
    }
}

/// The line that lists a skill.
pub open spec fn skill_line(name: Seq<char>, description: Seq<char>) -> Seq<char> {
    pad(name, 24) + " "@ + description
}

/// The lines of `skill list`: each skill's name and description.
pub fn skill_list_lines(reg: &SkillRegistry) -> (r: Vec<String>)
    ensures
        r@.len() == reg.skills.spec_len(),
        forall|i: int|
            0 <= i < r@.len() ==> #[trigger] r@[i]@ == skill_line(
                reg.skills.keys()[i],
                reg.skills.values()[i].manifest.description@,
            ),
{
    let mut out: Vec<String> = Vec::new();
    let n = reg.skills.len();
    for i in 0..n
        invariant
            n == reg.skills.spec_len(),
            out@.len() == i,
            forall|j: int|
                0 <= j < i ==> #[trigger] out@[j]@ == skill_line(
                    reg.skills.keys()[j],
                    reg.skills.values()[j].manifest.description@,
                ),
    {
        let mut l: Vec<char> = Vec::new();
        push_padded(&mut l, reg.skills.key_at(i).as_str(), 24);
        push_str(&mut l, " ");
        push_str(&mut l, reg.skills.value_at(i).manifest.description.as_str());
        out.push(from_chars(&l));
    }
    out
}

/// The line that lists an agent: its name, description and model.
pub open spec fn agent_line(name: Seq<char>, description: Seq<char>, model: Option<Seq<char>>) -> Seq<char> {
    pad(name, 24) + " "@ + description + match model {
        Some(m) => "  ["@ + m + "]"@,
        None => Seq::empty(),
    }
}

/// The lines of `agent list`.
pub fn agent_list_lines(reg: &AgentRegistry) -> (r: Vec<String>)
    ensures
        r@.len() == reg.agents.spec_len(),
        forall|i: int|
            0 <= i < r@.len() ==> #[trigger] r@[i]@ == agent_line(
                reg.agents.keys()[i],
                reg.agents.values()[i].manifest.description@,
                crate::audit::opt_chars(reg.agents.values()[i].manifest.model),
            ),
{
    let mut out: Vec<String> = Vec::new();
    let n = reg.agents.len();
    for i in 0..n
        invariant
            n == reg.agents.spec_len(),
            out@.len() == i,
            forall|j: int|
                0 <= j < i ==> #[trigger] out@[j]@ == agent_line(
                    reg.agents.keys()[j],
                    reg.agents.values()[j].manifest.description@,
                    crate::audit::opt_chars(reg.agents.values()[j].manifest.model),
                ),
    {
        let a = reg.agents.value_at(i);
        let mut l: Vec<char> = Vec::new();
        push_padded(&mut l, reg.agents.key_at(i).as_str(), 24);
        push_str(&mut l, " ");
        push_str(&mut l, a.manifest.description.as_str());
        match &a.manifest.model {
            Some(m) => {
                push_str(&mut l, "  [");
                push_str(&mut l, m.as_str());
                push_str(&mut l, "]");
            },
            None => {},
        }
        out.push(from_chars(&l));
    }
    out
}

/// The line that lists a rule: its name, type, severity and description.
pub open spec fn rule_line(name: Seq<char>, rule_type: Seq<char>, severity: Seq<char>, description: Seq<char>) -> Seq<char> {
    pad(name, 24) + " ["@ + rule_type + ", "@ + severity + "] "@ + description
}

/// The lines of `rule list`.
pub fn rule_list_lines(reg: &RuleRegistry) -> (r: Vec<String>)
    ensures
        r@.len() == reg.rules.spec_len(),
        forall|i: int|
            0 <= i < r@.len() ==> #[trigger] r@[i]@ == rule_line(
                reg.rules.keys()[i],
                reg.rules.values()[i].manifest.rule_type@,
                reg.rules.values()[i].manifest.severity@,
                reg.rules.values()[i].manifest.description@,
            ),
{
    let mut out: Vec<String> = Vec::new();
    let n = reg.rules.len();
    for i in 0..n
        invariant
            n == reg.rules.spec_len(),
            out@.len() == i,
            forall|j: int|
                0 <= j < i ==> #[trigger] out@[j]@ == rule_line(
                    reg.rules.keys()[j],
                    reg.rules.values()[j].manifest.rule_type@,
                    reg.rules.values()[j].manifest.severity@,
                    reg.rules.values()[j].manifest.description@,
                ),
    {
        let r = reg.rules.value_at(i);
        let mut l: Vec<char> = Vec::new();
        push_padded(&mut l, reg.rules.key_at(i).as_str(), 24);
        push_str(&mut l, " [");
        push_str(&mut l, r.manifest.rule_type.as_str());
        push_str(&mut l, ", ");
        push_str(&mut l, r.manifest.severity.as_str());
        push_str(&mut l, "] ");
        push_str(&mut l, r.manifest.description.as_str());
        out.push(from_chars(&l));
    }
    out
}

/// The line that lists a workflow: its name, description and number of
/// steps.
pub open spec fn workflow_line(name: Seq<char>, description: Seq<char>, steps: nat) -> Seq<char> {
    pad(name, 24) + " "@ + description + " ("@ + decimal(steps) + " steps)"@
}

/// The lines of `workflow list`.
pub fn workflow_list_lines(reg: &WorkflowRegistry) -> (r: Vec<String>)
    ensures
        r@.len() == reg.workflows.spec_len(),
        forall|i: int|
            0 <= i < r@.len() ==> #[trigger] r@[i]@ == workflow_line(
                reg.workflows.keys()[i],
                reg.workflows.values()[i].manifest.description@,
                reg.workflows.values()[i].steps@.len(),
            ),
{
    let mut out: Vec<String> = Vec::new();
    let n = reg.workflows.len();
    for i in 0..n
        invariant
            n == reg.workflows.spec_len(),
            out@.len() == i,
            forall|j: int|
                0 <= j < i ==> #[trigger] out@[j]@ == workflow_line(
                    reg.workflows.keys()[j],
                    reg.workflows.values()[j].manifest.description@,
                    reg.workflows.values()[j].steps@.len(),
                ),
    {
        let w = reg.workflows.value_at(i);
        let mut l: Vec<char> = Vec::new();
        push_padded(&mut l, reg.workflows.key_at(i).as_str(), 24);
        push_str(&mut l, " ");
        push_str(&mut l, w.manifest.description.as_str());
        push_str(&mut l, " (");
        append_chars(&mut l, u64_decimal(w.steps.len() as u64).as_slice());
        push_str(&mut l, " steps)");
        out.push(from_chars(&l));
    }
    out
}

/// The first refused entry of that name.
pub open spec fn first_error(errors: Seq<(String, String)>, name: Seq<char>) -> Option<int>
    decreases errors.len(),
{
    if errors.len() == 0 {
        None
    } else if errors[0].0@ == name {
        Some(0)
    } else {
        match first_error(errors.drop_first(), name) {
            Some(k) => Some(k + 1),
            None => None,
        }
    }
}

/// The report line of an entry that loaded.
pub open spec fn ok_line(name: Seq<char>) -> Seq<char> {
    name + "  ok"@
}

/// The report line of an entry that was refused.
pub open spec fn error_line(name: Seq<char>, reason: Seq<char>) -> Seq<char> {
    name + "  ERROR: "@ + reason
}

/// The report of `validate` for all entries: each loaded name, then each
/// refused one with its reason.
pub open spec fn full_report(names: Seq<Seq<char>>, errors: Seq<(String, String)>) -> Seq<Seq<char>> {
    names.map_values(|n: Seq<char>| ok_line(n)) + errors.map_values(|e: (String, String)| error_line(e.0@, e.1@))
}

proof fn lemma_first_error_bound(errors: Seq<(String, String)>, name: Seq<char>)
    ensures
        first_error(errors, name) matches Some(k) ==> 0 <= k < errors.len() && errors[k].0@ == name,
    decreases errors.len(),
{
    if errors.len() > 0 {
        lemma_first_error_bound(errors.drop_first(), name);
    }
}

fn error_index(errors: &Vec<(String, String)>, name: &str) -> (r: Option<usize>)
    ensures
        r matches Some(i) ==> first_error(errors@, name@) == Some(i as int) && i < errors@.len(),
        r is None ==> first_error(errors@, name@) is None,
{
    proof {
        lemma_first_error_bound(errors@, name@);
    }
    let n = errors.len();
    let mut i: usize = 0;
    assert(errors@.skip(0) == errors@);
    while i < n
        invariant
            n == errors@.len(),
            i <= n,
            first_error(errors@, name@) == match first_error(errors@.skip(i as int), name@) {
                Some(k) => Some(k + i),
                None => None::<int>,
            },
        decreases n - i,
    {
        let ghost t = errors@.skip(i as int);
        assert(t.drop_first() == errors@.skip(i + 1));
        assert(t[0] == errors@[i as int]);
        if chars_eq(&to_chars(errors[i].0.as_str()), &to_chars(name)) {
            return Some(i);
        }
        i = i + 1;
    }
    None
}

/// The report of `validate`: for one name, `ok` when it loaded, its reason
/// when it was refused (and then the report shows errors), or `None` when
/// there is no such entry; for all, every loaded name and every refused
/// one, showing errors when any was refused.
pub fn validation_report<V>(m: &NameMap<V>, errors: &Vec<(String, String)>, name: Option<&str>) -> (r: Option<(Vec<String>, bool)>)
    requires
        m.wf(),
    ensures
        match name {
            Some(n) => if m@.contains_key(n@) {
                r matches Some((lines, bad)) && texts(lines@) == seq![ok_line(n@)] && !bad
            } else {
                match first_error(errors@, n@) {
                    Some(k) => r matches Some((lines, bad)) && texts(lines@) == seq![
                        error_line(n@, errors@[k].1@),
                    ] && bad,
                    None => r is None,
                }
            },
            None => r matches Some((lines, bad)) && texts(lines@) == full_report(m.keys(), errors@)
                && bad == (errors@.len() > 0),
        },
{
    match name {
        Some(n) => {
            if m.contains_key(n) {
                let mut l = to_chars(n);
                push_str(&mut l, "  ok");
                let lines = vec![from_chars(&l)];
                assert(texts(lines@) =~= seq![ok_line(n@)]);
                Some((lines, false))
            } else {
                match error_index(errors, n) {
                    Some(k) => {
                        let mut l = to_chars(n);
                        push_str(&mut l, "  ERROR: ");
                        push_str(&mut l, errors[k].1.as_str());
                        let lines = vec![from_chars(&l)];
                        assert(texts(lines@) =~= seq![error_line(n@, errors@[k as int].1@)]);
                        Some((lines, true))
                    },
                    None => None,
                }
            }
        },
        None => {
            let mut lines: Vec<String> = Vec::new();
            let count = m.len();
            for i in 0..count
                invariant
                    count == m.spec_len(),
                    lines@.len() == i,
                    forall|j: int| 0 <= j < i ==> #[trigger] lines@[j]@ == ok_line(m.keys()[j]),
            {
                let mut l = to_chars(m.key_at(i).as_str());
                push_str(&mut l, "  ok");
                lines.push(from_chars(&l));
            }
            let ne = errors.len();
            for i in 0..ne
                invariant
                    ne == errors@.len(),
                    count == m.spec_len(),
                    lines@.len() == count + i,
                    forall|j: int| 0 <= j < count ==> #[trigger] lines@[j]@ == ok_line(m.keys()[j]),
                    forall|j: int|
                        0 <= j < i ==> #[trigger] lines@[count + j]@ == error_line(errors@[j].0@, errors@[j].1@),
            {
                let mut l = to_chars(errors[i].0.as_str());
                push_str(&mut l, "  ERROR: ");
                push_str(&mut l, errors[i].1.as_str());
                lines.push(from_chars(&l));
                assert(lines@[count + i]@ == error_line(errors@[i as int].0@, errors@[i as int].1@));
            }
            proof {
                let full = full_report(m.keys(), errors@);
                assert(texts(lines@).len() == full.len());
                assert forall|j: int| 0 <= j < full.len() implies texts(lines@)[j] == full[j] by {
                    if j >= count {
                        assert(lines@[count + (j - count)]@ == error_line(errors@[j - count].0@, errors@[j - count].1@));
                    }
                }
                assert(texts(lines@) =~= full);
            }
            Some((lines, ne > 0))
        },
    }
}

/// The lines of `workflow show`: the name and description, the timeout,
/// then the steps, numbered from one, each with its arguments and a `?`
/// when it may fail.
pub open spec fn show_header(wf: Workflow) -> Seq<Seq<char>> {
    seq![
        wf.manifest.name@ + " — "@ + wf.manifest.description@,
        "Timeout: "@ + decimal(wf.manifest.timeout as nat) + "s"@,
        Seq::empty(),
        "Steps:"@,
    ]
}

/// The line that shows step `i` (counting from zero) of a workflow.
pub open spec fn step_line(i: nat, tool: Seq<char>, command: Seq<char>, args: Seq<Seq<char>>, may_fail: bool) -> Seq<char> {
    "  "@ + decimal(i + 1) + ". "@ + tool + " "@ + command + (if args.len() == 0 {
        Seq::empty()
    } else {
        " "@ + join(args, " "@)
    }) + (if may_fail {
        " ?"@
    } else {
        Seq::empty()
    })
}

/// The lines of `workflow show`.
pub fn workflow_show_lines(wf: &Workflow) -> (r: Vec<String>)
    ensures
        r@.len() == 4 + wf.steps@.len(),
        forall|i: int| 0 <= i < 4 ==> #[trigger] r@[i]@ == show_header(*wf)[i],
        forall|i: int|
            0 <= i < wf.steps@.len() ==> #[trigger] r@[i + 4]@ == step_line(
                i as nat,
                wf.steps@[i].tool@,
                wf.steps@[i].command@,
                texts(wf.steps@[i].args@),
                wf.steps@[i].continue_on_error,
            ),
{
    let mut out: Vec<String> = Vec::new();
    let mut l = to_chars(wf.manifest.name.as_str());
    push_str(&mut l, " — ");
    push_str(&mut l, wf.manifest.description.as_str());
    out.push(from_chars(&l));
    let mut l = to_chars("Timeout: ");
    append_chars(&mut l, u64_decimal(wf.manifest.timeout).as_slice());
    push_str(&mut l, "s");
    out.push(from_chars(&l));
    out.push(String::new());
    out.push("Steps:".to_owned());
    let n = wf.steps.len();
    for i in 0..n
        invariant
            n == wf.steps@.len(),
            out@.len() == 4 + i,
            forall|j: int| 0 <= j < 4 ==> #[trigger] out@[j]@ == show_header(*wf)[j],
            forall|j: int|
                0 <= j < i ==> #[trigger] out@[j + 4]@ == step_line(
                    j as nat,
                    wf.steps@[j].tool@,
                    wf.steps@[j].command@,
                    texts(wf.steps@[j].args@),
                    wf.steps@[j].continue_on_error,
                ),
    {
        let step = &wf.steps[i];
        let mut l = to_chars("  ");
        append_chars(&mut l, u64_decimal((i + 1) as u64).as_slice());
        push_str(&mut l, ". ");
        push_str(&mut l, step.tool.as_str());
        push_str(&mut l, " ");
        push_str(&mut l, step.command.as_str());
        if step.args.len() > 0 {
            push_str(&mut l, " ");
            let joined = join_strings(&step.args, " ");
            push_str(&mut l, joined.as_str());
        }
        if step.continue_on_error {
            push_str(&mut l, " ?");
        }
        out.push(from_chars(&l));
    }
    out
}


/// Appends a line.
pub fn push_line(lines: &mut Vec<String>, l: &Vec<char>)
    ensures
        texts(final(lines)@) == texts(old(lines)@).push(l@),
{
    lines.push(from_chars(l));
    assert(texts(lines@) =~= texts(old(lines)@).push(l@));
}

/// `tool` or `tools`, as fits `n`.
pub open spec fn tool_word(n: nat) -> Seq<char> {
    if n == 1 {
        "tool"@
    } else {
        "tools"@
    }
}

/// The line that lists a category and its number of tools.
pub open spec fn category_line(category: Seq<char>, n: nat) -> Seq<char> {
    pad(category, 20) + " "@ + decimal(n) + " "@ + tool_word(n)
}

/// The lines of `list`: each category with its number of tools.
pub fn category_lines(reg: &Registry) -> (r: Vec<String>)
    ensures
        r@.len() == reg.by_category.spec_len(),
        forall|i: int|
            0 <= i < r@.len() ==> #[trigger] r@[i]@ == category_line(
                reg.by_category.keys()[i],
                reg.by_category.values()[i]@.len(),
            ),
{
    let mut out: Vec<String> = Vec::new();
    let n = reg.by_category.len();
    for i in 0..n
        invariant
            n == reg.by_category.spec_len(),
            out@.len() == i,
            forall|j: int|
                0 <= j < i ==> #[trigger] out@[j]@ == category_line(
                    reg.by_category.keys()[j],
                    reg.by_category.values()[j]@.len(),
                ),
    {
        let count = reg.by_category.value_at(i).len();
        let mut l: Vec<char> = Vec::new();
        push_padded(&mut l, reg.by_category.key_at(i).as_str(), 20);
        push_str(&mut l, " ");
        append_chars(&mut l, u64_decimal(count as u64).as_slice());
        push_str(&mut l, " ");
        if count == 1 {
            push_str(&mut l, "tool");
        } else {
            push_str(&mut l, "tools");
        }
        out.push(from_chars(&l));
    }
    out
}

/// The lines of the first `n` tools named in a category, each with its
/// description.
pub open spec fn tool_desc_lines(reg: Registry, names: Seq<String>, n: nat) -> Seq<Seq<char>>
    decreases n,
{
    if n == 0 || n > names.len() {
        seq![]
    } else {
        let prev = tool_desc_lines(reg, names, (n - 1) as nat);
        let name = names[n - 1]@;
        if reg.tools@.contains_key(name) {
            prev.push(pad(name, 12) + " "@ + reg.tools@[name].manifest.description@)
        } else {
            prev
        }
    }
}

/// The lines of `list <category>`: each of its tools with its description.
pub fn category_tool_lines(reg: &Registry, category: &str) -> (r: Result<Vec<String>, ToolshedError>)
    requires
        reg.wf(),
    ensures
        !reg.by_category@.contains_key(category@) ==> (r matches Err(ToolshedError::CategoryNotFound { name })
            && name@ == category@),
        reg.by_category@.contains_key(category@) ==> (r matches Ok(lines) && texts(lines@) == tool_desc_lines(
            *reg,
            reg.by_category@[category@]@,
            reg.by_category@[category@]@.len(),
        )),
{
    let names = match reg.by_category.get(category) {
        Some(v) => v,
        None => {
            return Err(ToolshedError::CategoryNotFound { name: category.to_owned() });
        },
    };
    let mut out: Vec<String> = Vec::new();
    let n = names.len();
    for i in 0..n
        invariant
            reg.wf(),
            n == names@.len(),
            texts(out@) == tool_desc_lines(*reg, names@, i as nat),
    {
        match reg.tools.get(names[i].as_str()) {
            Some(t) => {
                let mut l: Vec<char> = Vec::new();
                push_padded(&mut l, names[i].as_str(), 12);
                push_str(&mut l, " ");
                push_str(&mut l, t.manifest.description.as_str());
                push_line(&mut out, &l);
            },
            None => {},
        }
    }
    Ok(out)
}

/// How many of the first `n` tools are up, down, and without a health
/// check result.
pub open spec fn health_counts(results: Map<Seq<char>, Option<bool>>, names: Seq<String>, n: nat) -> (nat, nat, nat)
    decreases n,
{
    if n == 0 || n > names.len() {
        (0, 0, 0)
    } else {
        let (up, down, other) = health_counts(results, names, (n - 1) as nat);
        let name = names[n - 1]@;
        if results.contains_key(name) && results[name] == Some(true) {
            (up + 1, down, other)
        } else if results.contains_key(name) && results[name] == Some(false) {
            (up, down + 1, other)
        } else {
            (up, down, other + 1)
        }
    }
}

/// The line `list --health` shows for a category.
pub open spec fn health_line(category: Seq<char>, total: nat, up: nat, down: nat, other: nat) -> Seq<char> {
    let head = pad(category, 20) + " "@ + decimal(total) + " "@ + tool_word(total);
    if other == total {
        head + "  (health not configured)"@
    } else {
        let parts = (if up > 0 {
            seq![decimal(up) + " up"@]
        } else {
            seq![]
        }) + (if down > 0 {
            seq![decimal(down) + " down"@]
        } else {
            seq![]
        });
        head + "  ("@ + join(parts, ", "@) + ")"@
    }
}

/// The lines of `list --health`: each category with how many of its tools
/// the health checks found up and down.
pub fn health_lines(reg: &Registry, results: &NameMap<Option<bool>>) -> (r: Vec<String>)
    requires
        results.wf(),
    ensures
        r@.len() == reg.by_category.spec_len(),
        forall|i: int| 0 <= i < r@.len() ==> {
            let names = reg.by_category.values()[i]@;
            let (up, down, other) = health_counts(results@, names, names.len());
            #[trigger] r@[i]@ == health_line(reg.by_category.keys()[i], names.len(), up, down, other)
        },
{
    let mut out: Vec<String> = Vec::new();
    let n = reg.by_category.len();
    for i in 0..n
        invariant
            n == reg.by_category.spec_len(),
            results.wf(),
            out@.len() == i,
            forall|j: int| 0 <= j < i ==> {
                let names = reg.by_category.values()[j]@;
                let (up, down, other) = health_counts(results@, names, names.len());
                #[trigger] out@[j]@ == health_line(reg.by_category.keys()[j], names.len(), up, down, other)
            },
    {
        let names = reg.by_category.value_at(i);
        let total = names.len();
        let mut up: usize = 0;
        let mut down: usize = 0;
        let mut other: usize = 0;
        for j in 0..total
            invariant
                total == names@.len(),
                results.wf(),
                (up as nat, down as nat, other as nat) == health_counts(results@, names@, j as nat),
                up + down + other == j,
        {
            match results.get(names[j].as_str()) {
                Some(Some(true)) => up = up + 1,
                Some(Some(false)) => down = down + 1,
                _ => other = other + 1,
            }
        }
        let mut l: Vec<char> = Vec::new();
        push_padded(&mut l, reg.by_category.key_at(i).as_str(), 20);
        push_str(&mut l, " ");
        append_chars(&mut l, u64_decimal(total as u64).as_slice());
        push_str(&mut l, " ");
        if total == 1 {
            push_str(&mut l, "tool");
        } else {
            push_str(&mut l, "tools");
        }
        if other == total {
            push_str(&mut l, "  (health not configured)");
        } else {
            let mut parts: Vec<String> = Vec::new();
            if up > 0 {
                let mut p = u64_decimal(up as u64);
                push_str(&mut p, " up");
                parts.push(from_chars(&p));
            }
            if down > 0 {
                let mut p = u64_decimal(down as u64);
                push_str(&mut p, " down");
                parts.push(from_chars(&p));
            }
            let ghost pv = (if up > 0 {
                seq![decimal(up as nat) + " up"@]
            } else {
                seq![]
            }) + (if down > 0 {
                seq![decimal(down as nat) + " down"@]
            } else {
                seq![]
            });
            assert(parts@.map_values(|p: String| p@) =~= pv);
            push_str(&mut l, "  (");
            let joined = join_strings(&parts, ", ");
            push_str(&mut l, joined.as_str());
            push_str(&mut l, ")");
        }
        out.push(from_chars(&l));
    }
    out
}


/// How an argument shows in a usage line: `<name>` for a required
/// positional one, `[name]` for any other.
pub open spec fn arg_mark(name: Seq<char>, a: ArgDef) -> Seq<char> {
    if a.positional && a.required {
        "<"@ + name + ">"@
    } else {
        "["@ + name + "]"@
    }
}

/// The marks of the first `n` arguments that are (or are not) positional.
pub open spec fn marks(args: NameMap<ArgDef>, n: nat, positional: bool) -> Seq<Seq<char>>
    decreases n,
{
    if n == 0 || n > args.spec_len() {
        seq![]
    } else {
        let rest = marks(args, (n - 1) as nat, positional);
        if args.values()[n - 1].positional == positional {
            rest.push(arg_mark(args.keys()[n - 1], args.values()[n - 1]))
        } else {
            rest
        }
    }
}

/// The usage of a command: its positional arguments, then its flags.
pub open spec fn usage(cmd: CommandDef) -> Seq<char> {
    let n = cmd.args.spec_len();
    let pos = join(marks(cmd.args, n, true), " "@);
    let flags = join(marks(cmd.args, n, false), " "@);
    if pos.len() == 0 {
        flags
    } else if flags.len() == 0 {
        pos
    } else {
        pos + " "@ + flags
    }
}

/// The line that describes an argument of a command.
pub open spec fn arg_line(name: Seq<char>, a: ArgDef) -> Seq<char> {
    let req = if a.required {
        "required"@
    } else {
        "optional"@
    };
    let desc = match a.description {
        Some(d) => d@,
        None => Seq::empty(),
    };
    if a.positional {
        "    "@ + pad(name, 12) + " "@ + arg_type_name(a.arg_type) + ", "@ + req + " — "@ + desc
    } else {
        "    "@ + pad(name, 12) + " "@ + arg_type_name(a.arg_type) + match a.default {
            Some(v) => ", default="@ + json_text(v@),
            None => Seq::empty(),
        } + " — "@ + desc
    }
}

/// The lines that describe the first `n` arguments.
pub open spec fn arg_lines(args: NameMap<ArgDef>, n: nat) -> Seq<Seq<char>>
    decreases n,
{
    if n == 0 || n > args.spec_len() {
        seq![]
    } else {
        arg_lines(args, (n - 1) as nat).push(arg_line(args.keys()[n - 1], args.values()[n - 1]))
    }
}

/// The lines of help about a command: its usage, its description, its
/// arguments, and an empty line.
pub open spec fn command_help(name: Seq<char>, cmd: CommandDef) -> Seq<Seq<char>> {
    seq!["  "@ + name + " "@ + usage(cmd), "    "@ + cmd.description@] + arg_lines(cmd.args, cmd.args.spec_len())
        + seq![Seq::empty()]
}

/// The help of the first `n` commands.
pub open spec fn commands_help(cmds: NameMap<CommandDef>, n: nat) -> Seq<Seq<char>>
    decreases n,
{
    if n == 0 || n > cmds.spec_len() {
        seq![]
    } else {
        commands_help(cmds, (n - 1) as nat) + command_help(cmds.keys()[n - 1], cmds.values()[n - 1])
    }
}

/// The lines of `help` for a native tool: its name, type and category,
/// its status when its health was checked, its commands, and its usage.
pub open spec fn native_help(m: ToolManifest, status: Option<bool>) -> Seq<Seq<char>> {
    seq![m.name@ + " — "@ + m.description@, "Type: native"@, "Category: "@ + m.category@] + match status {
        Some(true) => seq!["Status: up"@],
        Some(false) => seq!["Status: DOWN"@],
        None => seq![],
    } + seq![Seq::empty(), "Commands:"@] + commands_help(m.commands, m.commands.spec_len()) + seq![
        "Usage: toolshed run "@ + m.name@ + " <command> [args]"@,
    ]
}

fn marks_text(args: &NameMap<ArgDef>, positional: bool) -> (r: String)
    ensures
        r@ == join(marks(*args, args.spec_len(), positional), " "@),
{
    let mut parts: Vec<String> = Vec::new();
    let n = args.len();
    for i in 0..n
        invariant
            n == args.spec_len(),
            texts(parts@) == marks(*args, i as nat, positional),
    {
        let a = args.value_at(i);
        if a.positional == positional {
            let mut l: Vec<char>;
            if a.positional && a.required {
                l = to_chars("<");
                push_str(&mut l, args.key_at(i).as_str());
                push_str(&mut l, ">");
            } else {
                l = to_chars("[");
                push_str(&mut l, args.key_at(i).as_str());
                push_str(&mut l, "]");
            }
            push_line(&mut parts, &l);
        }
    }
    assert(parts@.map_values(|p: String| p@) =~= texts(parts@));
    join_strings(&parts, " ")
}

fn command_help_lines(lines: &mut Vec<String>, name: &str, cmd: &CommandDef)
    ensures
        texts(final(lines)@) == texts(old(lines)@) + command_help(name@, *cmd),
{
    let ghost start = texts(lines@);
    let pos = marks_text(&cmd.args, true);
    let flags = marks_text(&cmd.args, false);
    let mut l = to_chars("  ");
    push_str(&mut l, name);
    push_str(&mut l, " ");
    if pos.as_str().is_empty() {
        push_str(&mut l, flags.as_str());
    } else if flags.as_str().is_empty() {
        push_str(&mut l, pos.as_str());
    } else {
        push_str(&mut l, pos.as_str());
        push_str(&mut l, " ");
        push_str(&mut l, flags.as_str());
    }
    assert(l@ == "  "@ + name@ + " "@ + usage(*cmd));
    let ghost first = l@;
    push_line(lines, &l);
    let mut l = to_chars("    ");
    push_str(&mut l, cmd.description.as_str());
    let ghost second = l@;
    push_line(lines, &l);
    let ghost head = texts(lines@);
    assert(head =~= start + seq![first, second]);
    let n = cmd.args.len();
    for i in 0..n
        invariant
            n == cmd.args.spec_len(),
            texts(lines@) == head + arg_lines(cmd.args, i as nat),
    {
        let an = cmd.args.key_at(i);
        let a = cmd.args.value_at(i);
        let mut l = to_chars("    ");
        push_padded(&mut l, an.as_str(), 12);
        push_str(&mut l, " ");
        push_str(&mut l, a.arg_type.name().as_str());
        if a.positional {
            push_str(&mut l, ", ");
            if a.required {
                push_str(&mut l, "required");
            } else {
                push_str(&mut l, "optional");
            }
        } else {
            match &a.default {
                Some(v) => {
                    push_str(&mut l, ", default=");
                    push_str(&mut l, crate::json::json_string(v).as_str());
                },
                None => {},
            }
        }
        push_str(&mut l, " — ");
        match &a.description {
            Some(d) => push_str(&mut l, d.as_str()),
            None => {},
        }
        assert(l@ == arg_line(an@, *a));
        push_line(lines, &l);
        assert(texts(lines@) =~= head + arg_lines(cmd.args, (i + 1) as nat));
    }
    push_line(lines, &Vec::new());
    assert(texts(lines@) =~= start + command_help(name@, *cmd));
}

/// The lines of `help` for a native tool, with the result of its health
/// check when it has one.
pub fn native_help_lines(m: &ToolManifest, status: Option<bool>) -> (r: Vec<String>)
    ensures
        texts(r@) == native_help(*m, status),
{
    let mut lines: Vec<String> = Vec::new();
    let mut l = to_chars(m.name.as_str());
    push_str(&mut l, " — ");
    push_str(&mut l, m.description.as_str());
    push_line(&mut lines, &l);
    push_line(&mut lines, &to_chars("Type: native"));
    let mut l = to_chars("Category: ");
    push_str(&mut l, m.category.as_str());
    push_line(&mut lines, &l);
    match status {
        Some(true) => push_line(&mut lines, &to_chars("Status: up")),
        Some(false) => push_line(&mut lines, &to_chars("Status: DOWN")),
        None => {},
    }
    push_line(&mut lines, &Vec::new());
    push_line(&mut lines, &to_chars("Commands:"));
    let ghost head = texts(lines@);
    let n = m.commands.len();
    for i in 0..n
        invariant
            n == m.commands.spec_len(),
            texts(lines@) == head + commands_help(m.commands, i as nat),
    {
        command_help_lines(&mut lines, m.commands.key_at(i).as_str(), m.commands.value_at(i));
        assert(texts(lines@) =~= head + commands_help(m.commands, (i + 1) as nat));
    }
    let mut l = to_chars("Usage: toolshed run ");
    push_str(&mut l, m.name.as_str());
    push_str(&mut l, " <command> [args]");
    push_line(&mut lines, &l);
    assert(texts(lines@) =~= native_help(*m, status));
    lines
}

/// The line that describes a parameter of an MCP tool.
pub open spec fn param_line(p: ParamInfo) -> Seq<char> {
    "    "@ + pad(p.name@, 16) + " "@ + p.param_type@ + ", "@ + (if p.required {
        "required"@
    } else {
        "optional"@
    }) + " — "@ + match p.description {
        Some(d) => d@,
        None => Seq::empty(),
    }
}

/// The lines of help about one tool of an MCP server: its signature, its
/// description, its parameters, and an empty line.
pub open spec fn mcp_tool_help(t: McpToolInfo) -> Seq<Seq<char>> {
    seq!["  "@ + t.name@ + "("@ + join(t.params@.map_values(|p: ParamInfo| param_signature(p)), ", "@) + ")"@]
        + match t.description {
        Some(d) => seq!["    "@ + d@],
        None => seq![],
    } + t.params@.map_values(|p: ParamInfo| param_line(p)) + seq![Seq::empty()]
}

/// The help of the first `n` tools of an MCP server.
pub open spec fn mcp_tools_help(tools: Seq<McpToolInfo>, n: nat) -> Seq<Seq<char>>
    decreases n,
{
    if n == 0 || n > tools.len() {
        seq![]
    } else {
        mcp_tools_help(tools, (n - 1) as nat) + mcp_tool_help(tools[n - 1])
    }
}

/// The lines of `help` for an MCP tool whose server offers `tools`.
pub open spec fn mcp_help(m: ToolManifest, transport: Seq<char>, tools: Seq<McpToolInfo>) -> Seq<Seq<char>> {
    seq![
        m.name@ + " — "@ + m.description@,
        "Type: mcp ("@ + transport + ")"@,
        "Category: "@ + m.category@,
        Seq::empty(),
        "Tools (via MCP):"@,
    ] + mcp_tools_help(tools, tools.len()) + seq!["Usage: toolshed run "@ + m.name@ + " <tool_name> [--arg value ...]"@]
}

/// The lines of `help` for an MCP tool, given the tools its server offers;
/// an error when the tool has no MCP configuration.
pub fn mcp_help_lines(m: &ToolManifest, tools: &Vec<McpToolInfo>) -> (r: Result<Vec<String>, ToolshedError>)
    ensures
        match m.mcp {
            None => r matches Err(ToolshedError::MissingMcpConfig { tool }) && tool@ == m.name@,
            Some(cfg) => r matches Ok(lines) && texts(lines@) == mcp_help(*m, transport_name(cfg.transport), tools@),
        },
{
    let cfg = match &m.mcp {
        Some(c) => c,
        None => {
            return Err(ToolshedError::MissingMcpConfig { tool: m.name.clone() });
        },
    };
    let mut lines: Vec<String> = Vec::new();
    let mut l = to_chars(m.name.as_str());
    push_str(&mut l, " — ");
    push_str(&mut l, m.description.as_str());
    push_line(&mut lines, &l);
    let mut l = to_chars("Type: mcp (");
    push_str(&mut l, cfg.transport.name().as_str());
    push_str(&mut l, ")");
    push_line(&mut lines, &l);
    let mut l = to_chars("Category: ");
    push_str(&mut l, m.category.as_str());
    push_line(&mut lines, &l);
    push_line(&mut lines, &Vec::new());
    push_line(&mut lines, &to_chars("Tools (via MCP):"));
    let ghost head = texts(lines@);
    let n = tools.len();
    for i in 0..n
        invariant
            n == tools@.len(),
            texts(lines@) == head + mcp_tools_help(tools@, i as nat),
    {
        let t = &tools[i];
        let ghost before = texts(lines@);
        let mut l = to_chars("  ");
        push_str(&mut l, t.name.as_str());
        push_str(&mut l, "(");
        push_str(&mut l, t.format_params().as_str());
        push_str(&mut l, ")");
        push_line(&mut lines, &l);
        match &t.description {
            Some(d) => {
                let mut l = to_chars("    ");
                push_str(&mut l, d.as_str());
                push_line(&mut lines, &l);
            },
            None => {},
        }
        let ghost mid = texts(lines@);
        let np = t.params.len();
        for j in 0..np
            invariant
                np == t.params@.len(),
                texts(lines@) == mid + t.params@.take(j as int).map_values(|p: ParamInfo| param_line(p)),
        {
            let p = &t.params[j];
            let mut l = to_chars("    ");
            push_padded(&mut l, p.name.as_str(), 16);
            push_str(&mut l, " ");
            push_str(&mut l, p.param_type.as_str());
            push_str(&mut l, ", ");
            if p.required {
                push_str(&mut l, "required");
            } else {
                push_str(&mut l, "optional");
            }
            push_str(&mut l, " — ");
            match &p.description {
                Some(d) => push_str(&mut l, d.as_str()),
                None => {},
            }
            push_line(&mut lines, &l);
            assert(texts(lines@) =~= mid + t.params@.take(j + 1).map_values(|p: ParamInfo| param_line(p)));
        }
        assert(t.params@.take(np as int) == t.params@);
        push_line(&mut lines, &Vec::new());
        assert(texts(lines@) =~= before + mcp_tool_help(*t));
        assert(texts(lines@) =~= head + mcp_tools_help(tools@, (i + 1) as nat));
    }
    let mut l = to_chars("Usage: toolshed run ");
    push_str(&mut l, m.name.as_str());
    push_str(&mut l, " <tool_name> [--arg value ...]");
    push_line(&mut lines, &l);
    assert(texts(lines@) =~= mcp_help(*m, transport_name(cfg.transport), tools@));
    Ok(lines)
}

} // verus!
