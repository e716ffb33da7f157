//! Skills: markdown documents (`SKILL.md`) that agents read on demand.

use vstd::prelude::*;
use crate::doc::{DocFile, check_identity, doc_identity};
use crate::error::{ToolshedError, error_message};
use crate::frontmatter::{frontmatter, parse};
use crate::namemap::{NameMap, string_view};
use crate::text::{from_chars, push_str, to_chars};

verus! {

/// The header of a skill.
#[derive(Debug, Clone)]
pub struct SkillManifest {
    pub name: String,
    pub description: String,
}

/// A skill: where it lives, its header, and its body.
#[derive(Debug, Clone)]
pub struct Skill {
    pub dir: String,
    pub manifest: SkillManifest,
    pub body: String,
}

/// The skill that the text `content` of `SKILL.md` in directory `dir`
/// describes, as name, description and body, or the reason it is refused
/// (descriptions may take 500 bytes).
pub open spec fn skill_of(dir: Seq<char>, content: Seq<char>) -> Result<
    (Seq<char>, Seq<char>, Seq<char>),
    Seq<char>,
> {
    let (meta, body) = frontmatter(content);
    match doc_identity(meta, dir, 500) {
        Err(reason) => Err(reason),
        Ok((name, desc)) => Ok((name, desc, body)),
    }
}

/// Loads the skill in directory `dir` (named `dir_name`) from what reading
/// its `SKILL.md` gave.
pub fn load_skill(dir: &str, dir_name: &str, file: DocFile) -> (r: Result<Skill, ToolshedError>)
    ensures
        match file {
            DocFile::Missing => r matches Err(ToolshedError::BadSkill { skill, reason })
                && skill@ == dir_name@ && reason@ == "missing SKILL.md"@,
            DocFile::Unreadable(e) => r matches Err(ToolshedError::BadSkill { skill, reason })
                && skill@ == dir_name@ && reason@ == "cannot read SKILL.md: "@ + e@,
            DocFile::Text(content) => match skill_of(dir_name@, content@) {
                Ok((name, desc, body)) => r matches Ok(s) && s.dir@ == dir@ && s.manifest.name@
                    == name && s.manifest.description@ == desc && s.body@ == body,
                Err(reason) => r matches Err(ToolshedError::BadSkill { skill, reason: rr })
                    && skill@ == dir_name@ && rr@ == reason,
            },
        },
{
    let content = match file {
        DocFile::Missing => {
            return Err(
                ToolshedError::BadSkill {
                    skill: from_chars(&to_chars(dir_name)),
                    reason: from_chars(&to_chars("missing SKILL.md")),
                },
            );
        },
        DocFile::Unreadable(e) => {
            let mut o = to_chars("cannot read SKILL.md: ");
            push_str(&mut o, e.as_str());
            return Err(
                ToolshedError::BadSkill {
                    skill: from_chars(&to_chars(dir_name)),
                    reason: from_chars(&o),
                },
            );
        },
        DocFile::Text(c) => c,
    };
    let (meta, body) = match parse(content.as_str()) {
        Ok(p) => p,
        Err(e) => {
            return Err(e);
        },
    };
    match check_identity(&meta, dir_name, 500) {
        Err(reason) => Err(
            ToolshedError::BadSkill { skill: from_chars(&to_chars(dir_name)), reason: from_chars(&reason) },
        ),
        Ok((name, description)) => Ok(
            Skill {
                dir: from_chars(&to_chars(dir)),
                manifest: SkillManifest { name, description },
                body,
            },
        ),
    }
}

/// The skills that loaded, by directory name, and the directories that
/// failed with the message of their error.
pub struct SkillRegistry {
    pub skills: NameMap<Skill>,
    pub errors: Vec<(String, String)>,
}

impl SkillRegistry {
    /// A registry with no skills and no errors.
    pub fn new() -> (r: Self)
        ensures
            r.skills.wf(),
            r.skills@ == Map::<Seq<char>, Skill>::empty(),
            r.errors@.len() == 0,
    {
        SkillRegistry { skills: NameMap::new(), errors: Vec::new() }
    }

    /// Records the outcome of loading the skill in `dir_name`: the skill
    /// under its directory name, or the error's message.
    pub fn add(&mut self, dir_name: &str, loaded: Result<Skill, ToolshedError>)
        requires
            old(self).skills.wf(),
        ensures
            final(self).skills.wf(),
            match loaded {
                Ok(s) => final(self).skills@ == old(self).skills@.insert(dir_name@, s)
                    && final(self).errors@ == old(self).errors@,
                Err(e) => final(self).skills@ == old(self).skills@ && final(self).errors@.len()
                    == old(self).errors@.len() + 1 && final(self).errors@.drop_last() == old(self).errors@ && final(self).errors@.last().0@ == dir_name@
                    && final(self).errors@.last().1@ == error_message(e),
            },
    {
        match loaded {
            Ok(s) => {
                self.skills.insert(from_chars(&to_chars(dir_name)), s);
            },
            Err(e) => {
                let m = e.message();
                self.errors.push((from_chars(&to_chars(dir_name)), m));
                assert(self.errors@.drop_last() == old(self).errors@);
            },
        }
    }
}

} // verus!
