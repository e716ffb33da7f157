//! Agents: markdown documents (`AGENT.md`) that hold a system prompt, with
//! an optional model named in the header.

use vstd::prelude::*;
use crate::doc::{DocFile, check_identity, doc_identity};
use crate::error::{ToolshedError, error_message};
use crate::frontmatter::{frontmatter, parse};
use crate::namemap::{NameMap, string_view};
use crate::text::{from_chars, push_str, to_chars, trim, trim_vec};

verus! {

/// The header of an agent.
#[derive(Debug, Clone)]
pub struct AgentManifest {
    pub description: String,
    pub model: Option<String>,
}

/// An agent: its header and its prompt.
#[derive(Debug, Clone)]
pub struct Agent {
    pub manifest: AgentManifest,
    pub prompt: String,
}

/// The agent that the text `content` of `AGENT.md` in directory `dir`
/// describes, as description, model and prompt, or the reason it is
/// refused: descriptions may take 200 bytes, the prompt must hold more than
/// whitespace, and a model, when named, must not be empty.
pub open spec fn agent_of(dir: Seq<char>, content: Seq<char>) -> Result<
    (Seq<char>, Option<Seq<char>>, Seq<char>),
    Seq<char>,
> {
    let (meta, body) = frontmatter(content);
    match doc_identity(meta, dir, 200) {
        Err(reason) => Err(reason),
        Ok((_name, desc)) => {
            let model = if meta.contains_key("model"@) {
                Some(meta["model"@])
            } else {
                None
            };
            if trim(body).len() == 0 {
                Err("agent prompt (body) cannot be empty"@)
            } else if model == Some(Seq::<char>::empty()) {
                Err("model field cannot be empty if present"@)
            } else {
                Ok((desc, model, body))
            }
        },
    }
}

fn bad_agent(dir_name: &str, reason: Vec<char>) -> (r: ToolshedError)
    ensures
        r matches ToolshedError::BadAgent { agent, reason: rr } && agent@ == dir_name@ && rr@
            == reason@,
{
    ToolshedError::BadAgent { agent: from_chars(&to_chars(dir_name)), reason: from_chars(&reason) }
}

/// Loads the agent in directory `dir_name` from what reading its
/// `AGENT.md` gave.
pub fn load_agent(dir_name: &str, file: DocFile) -> (r: Result<Agent, ToolshedError>)
    ensures
        match file {
            DocFile::Missing => r matches Err(ToolshedError::BadAgent { agent, reason })
                && agent@ == dir_name@ && reason@ == "missing AGENT.md"@,
            DocFile::Unreadable(e) => r matches Err(ToolshedError::BadAgent { agent, reason })
                && agent@ == dir_name@ && reason@ == "cannot read AGENT.md: "@ + e@,
            DocFile::Text(content) => match agent_of(dir_name@, content@) {
                Ok((desc, model, prompt)) => r matches Ok(a) && a.manifest.description@ == desc
                    && a.prompt@ == prompt && match a.manifest.model {
                    Some(m) => model == Some(m@),
                    None => model is None,
                },
                Err(reason) => r matches Err(ToolshedError::BadAgent { agent, reason: rr })
                    && agent@ == dir_name@ && rr@ == reason,
            },
        },
{
    let content = match file {
        DocFile::Missing => {
            return Err(bad_agent(dir_name, to_chars("missing AGENT.md")));
        },
        DocFile::Unreadable(e) => {
            let mut o = to_chars("cannot read AGENT.md: ");
            push_str(&mut o, e.as_str());
            return Err(bad_agent(dir_name, o));
        },
        DocFile::Text(c) => c,
    };
    let (meta, body) = match parse(content.as_str()) {
        Ok(p) => p,
        Err(e) => {
            return Err(e);
        },
    };
    let (_name, description) = match check_identity(&meta, dir_name, 200) {
        Err(reason) => {
            return Err(bad_agent(dir_name, reason));
        },
        Ok(p) => p,
    };
    let model: Option<String> = match meta.get("model") {
        Some(m) => Some(from_chars(&to_chars(m.as_str()))),
        None => None,
    };
    if trim_vec(&to_chars(body.as_str())).len() == 0 {
        return Err(bad_agent(dir_name, to_chars("agent prompt (body) cannot be empty")));
    }
    match &model {
        Some(m) => {
            if to_chars(m.as_str()).len() == 0 {
                assert(m@ =~= Seq::<char>::empty());
                return Err(bad_agent(dir_name, to_chars("model field cannot be empty if present")));
            }
            assert(m@ != Seq::<char>::empty());
        },
        None => {},
    }
    Ok(Agent { manifest: AgentManifest { description, model }, prompt: body })
}

/// The agents that loaded, by directory name, and the directories that
/// failed with the message of their error.
pub struct AgentRegistry {
    pub agents: NameMap<Agent>,
    pub errors: Vec<(String, String)>,
}

impl AgentRegistry {
    /// A registry with no agents and no errors.
    pub fn new() -> (r: Self)
        ensures
            r.agents.wf(),
            r.agents@ == Map::<Seq<char>, Agent>::empty(),
            r.errors@.len() == 0,
    {
        AgentRegistry { agents: NameMap::new(), errors: Vec::new() }
    }

    /// Records the outcome of loading the agent in `dir_name`: the agent
    /// under its directory name, or the error's message.
    pub fn add(&mut self, dir_name: &str, loaded: Result<Agent, ToolshedError>)
        requires
            old(self).agents.wf(),
        ensures
            final(self).agents.wf(),
            match loaded {
                Ok(a) => final(self).agents@ == old(self).agents@.insert(dir_name@, a)
                    && final(self).errors@ == old(self).errors@,
                Err(e) => final(self).agents@ == old(self).agents@ && final(self).errors@.len()
                    == old(self).errors@.len() + 1 && final(self).errors@.drop_last() == old(self).errors@ && final(self).errors@.last().0@ == dir_name@
                    && final(self).errors@.last().1@ == error_message(e),
            },
    {
        match loaded {
            Ok(a) => {
                self.agents.insert(from_chars(&to_chars(dir_name)), a);
            },
            Err(e) => {
                let m = e.message();
                self.errors.push((from_chars(&to_chars(dir_name)), m));
                assert(self.errors@.drop_last() == old(self).errors@);
            },
        }
    }
}

} // verus!
