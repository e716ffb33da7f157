//! Running a tool: what must hold before a native tool's command runs, and
//! what its exit makes of the run.

use vstd::prelude::*;
use crate::error::ToolshedError;
use crate::manifest::{ArgDef, ToolManifest};
use crate::namemap::NameMap;
use crate::text::{starts_with, starts_with_vec, to_chars};

verus! {

/// The names of the first `n` arguments of a command that are positional
/// and required, in the order of their names.
pub open spec fn required_positionals(args: NameMap<ArgDef>, n: nat) -> Seq<Seq<char>>
    decreases n,
{
    if n == 0 || n > args.spec_len() {
        seq![]
    } else {
        let rest = required_positionals(args, (n - 1) as nat);
        let a = args.values()[n - 1];
        if a.positional && a.required {
            rest.push(args.keys()[n - 1])
        } else {
            rest
        }
    }
}

/// How many of the words are positional, that is do not start with `--`.
pub open spec fn positional_count(words: Seq<Seq<char>>) -> nat
    decreases words.len(),
{
    if words.len() == 0 {
        0
    } else {
        positional_count(words.drop_last()) + if starts_with(words.last(), "--"@) {
            0nat
        } else {
            1nat
        }
    }
}

/// Checks a call of a native tool's command before it runs: the command
/// must exist, and there must be at least as many positional words as the
/// command has required positional arguments; the first one without a
/// word is the one reported missing.
pub fn check_native_call(m: &ToolManifest, command: &str, args: &Vec<String>) -> (r: Result<(), ToolshedError>)
    requires
        m.commands.wf(),
    ensures
        !m.commands@.contains_key(command@) ==> (r matches Err(ToolshedError::CommandNotFound { tool, command: c })
            && tool@ == m.name@ && c@ == command@),
        m.commands@.contains_key(command@) ==> {
            let req = required_positionals(m.commands@[command@].args, m.commands@[command@].args.spec_len());
            let given = positional_count(args@.map_values(|a: String| a@));
            if given < req.len() {
                r matches Err(ToolshedError::MissingArg { tool, command: c, arg }) && tool@ == m.name@ && c@ == command@
                    && arg@ == req[given as int]
            } else {
                r is Ok
            }
        },
{
    let def = match m.commands.get(command) {
        Some(d) => d,
        None => {
            return Err(ToolshedError::CommandNotFound { tool: m.name.clone(), command: command.to_owned() });
        },
    };
    let mut req: Vec<String> = Vec::new();
    let na = def.args.len();
    for i in 0..na
        invariant
            na == def.args.spec_len(),
            req@.map_values(|x: String| x@) == required_positionals(def.args, i as nat),
    {
        let a = def.args.value_at(i);
        if a.positional && a.required {
            let ghost before = req@;
            req.push(def.args.key_at(i).clone());
            assert(req@.map_values(|x: String| x@) =~= before.map_values(|x: String| x@).push(def.args.keys()[i as int]));
        }
    }
    let ghost words = args@.map_values(|a: String| a@);
    let mut given: usize = 0;
    let n = args.len();
    for i in 0..n
        invariant
            n == args@.len() == words.len(),
            words == args@.map_values(|a: String| a@),
            given <= i,
            given == positional_count(words.take(i as int)),
    {
        assert(words.take(i + 1).drop_last() == words.take(i as int));
        assert(words[i as int] == args@[i as int]@);
        if !starts_with_vec(to_chars(args[i].as_str()).as_slice(), &['-', '-']) {
            given = given + 1;
        }
        assert(seq!['-', '-'] == "--"@) by {
            reveal_strlit("--");
        }
    }
    assert(words.take(n as int) == words);
    if given < req.len() {
        assert(req@[given as int]@ == req@.map_values(|x: String| x@)[given as int]);
        return Err(ToolshedError::MissingArg {
            tool: m.name.clone(),
            command: command.to_owned(),
            arg: req[given].clone(),
        });
    }
    Ok(())
}

/// What the exit of a native tool's run makes of it: its standard output
/// when it succeeded; else a failure with its exit code (1 when it has
/// none, as when a signal ended it) and its standard error, or its
/// standard output when the error stream is empty.
pub fn native_outcome(tool: &str, success: bool, code: Option<i32>, stdout: String, stderr: String) -> (r: Result<String, ToolshedError>)
    ensures
        success ==> (r matches Ok(o) && o@ == stdout@),
        !success ==> (r matches Err(ToolshedError::ToolFailed { tool: t, code: c, stderr: e }) && t@ == tool@
            && c == match code {
                Some(x) => x,
                None => 1,
            } && e@ == if stderr@.len() == 0 {
                stdout@
            } else {
                stderr@
            }),
{
    if success {
        Ok(stdout)
    } else {
        let c = match code {
            Some(x) => x,
            None => 1,
        };
        let e = if stderr.as_str().is_empty() {
            stdout
        } else {
            stderr
        };
        Err(ToolshedError::ToolFailed { tool: tool.to_owned(), code: c, stderr: e })
    }
}

} // verus!
