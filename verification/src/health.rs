//! The health command of a tool, as it is run.

use vstd::prelude::*;
use crate::manifest::ToolType;
use crate::registry::Tool;
use crate::text::{append_chars, chars_eq, from_chars, split_words, starts_with, starts_with_vec, subvec, to_chars, views, words};

verus! {

/// The first whitespace-separated word of `s`, or the empty text.
pub open spec fn first_word(s: Seq<char>) -> Seq<char> {
    if words(s).len() > 0 {
        words(s)[0]
    } else {
        seq![]
    }
}

/// The health command of `t` as it is run. For a native tool with a `run`
/// script, a command that is exactly the tool's name (when the tool has a
/// command) becomes the script's path, and `<name> <command> ...`, where
/// `<command>` is one of the tool's commands, gets the script's path in
/// place of the name; any other command, and every command of an MCP tool,
/// is left as it is.
pub open spec fn resolved_health_cmd(cmd: Seq<char>, t: Tool) -> Seq<char> {
    let name = t.manifest.name@;
    match t.run_path {
        None => cmd,
        Some(rp) => if t.manifest.tool_type != ToolType::Native {
            cmd
        } else if cmd == name && t.manifest.commands.spec_len() > 0 {
            rp@
        } else if starts_with(cmd, name) && cmd.len() > name.len() && cmd[name.len() as int] == ' ' {
            let rest = cmd.skip(name.len() as int);
            if t.manifest.commands@.contains_key(first_word(rest.skip(1))) {
                rp@ + rest
            } else {
                cmd
            }
        } else {
            cmd
        },
    }
}

/// The health command `cmd` of `tool`, resolved so that it runs the tool's
/// own `run` script where it names the tool.
pub fn resolve_health_cmd(cmd: &str, tool: &Tool) -> (r: String)
    requires
        tool.manifest.commands.wf(),
    ensures
        r@ == resolved_health_cmd(cmd@, *tool),
{
    let c = to_chars(cmd);
    let rp = match &tool.run_path {
        None => return from_chars(&c),
        Some(p) => p,
    };
    if tool.manifest.tool_type != ToolType::Native {
        return from_chars(&c);
    }
    let name = to_chars(tool.manifest.name.as_str());
    if chars_eq(&c, &name) && tool.manifest.commands.len() > 0 {
        return from_chars(&to_chars(rp.as_str()));
    }
    if starts_with_vec(&c, &name) && c.len() > name.len() && c[name.len()] == ' ' {
        let rest = subvec(&c, name.len(), c.len());
        let after = subvec(&c, name.len() + 1, c.len());
        assert(after@ == rest@.skip(1));
        let ws = split_words(&after);
        let sub = if ws.len() > 0 {
            assert(ws@[0]@ == views(ws@)[0]);
            from_chars(&ws[0])
        } else {
            String::new()
        };
        proof {
            assert(sub@ == first_word(after@));
        }
        if tool.manifest.commands.contains_key(sub.as_str()) {
            let mut out = to_chars(rp.as_str());
            append_chars(&mut out, &rest);
            return from_chars(&out);
        }
    }
    from_chars(&c)
}

} // verus!
