//! Rules: markdown documents (`RULE.md`) that state constraints agents
//! must follow, with a type, a severity and the scopes they apply to.

use vstd::prelude::*;
use crate::doc::{DocFile, check_identity, doc_identity};
use crate::error::{ToolshedError, error_message};
use crate::frontmatter::{frontmatter, parse};
use crate::manifest::{is_valid_name, valid_name};
use crate::namemap::{NameMap, str_eq, string_view};
use crate::text::{
    from_chars, push_str, split, split_char, starts_with, starts_with_vec, subvec, to_chars, trim,
    trim_vec,
};

verus! {

/// The header of a rule.
#[derive(Debug, Clone)]
pub struct RuleManifest {
    pub description: String,
    pub rule_type: String,
    pub severity: String,
    pub scope: Vec<String>,
}

/// A rule: its header and its body.
#[derive(Debug, Clone)]
pub struct Rule {
    pub manifest: RuleManifest,
    pub body: String,
}

/// The types a rule may have.
pub open spec fn valid_type(t: Seq<char>) -> bool {
    t == "guardrail"@ || t == "permission"@ || t == "validation"@ || t == "context"@
}

/// The severities a rule may have.
pub open spec fn valid_severity(t: Seq<char>) -> bool {
    t == "error"@ || t == "warning"@ || t == "info"@
}

/// A scope: `global`, or `tool:`, `agent:` or `category:` followed by a
/// valid name.
pub open spec fn valid_scope(s: Seq<char>) -> bool {
    ||| s == "global"@
    ||| starts_with(s, "tool:"@) && valid_name(s.skip(5))
    ||| starts_with(s, "agent:"@) && valid_name(s.skip(6))
    ||| starts_with(s, "category:"@) && valid_name(s.skip(9))
}

/// The first scope in `sc` that is not valid.
pub open spec fn first_bad_scope(sc: Seq<Seq<char>>) -> Option<Seq<char>>
    decreases sc.len(),
{
    if sc.len() == 0 {
        None
    } else if !valid_scope(sc[0]) {
        Some(sc[0])
    } else {
        first_bad_scope(sc.drop_first())
    }
}

/// The value of `key` in a header, or `default` when it has none.
pub open spec fn meta_or(meta: Map<Seq<char>, Seq<char>>, key: Seq<char>, default: Seq<char>) -> Seq<char> {
    if meta.contains_key(key) {
        meta[key]
    } else {
        default
    }
}

/// The scopes of a rule: the comma-separated entries of its `scope`, each
/// trimmed, or `global` alone.
pub open spec fn scopes_of(meta: Map<Seq<char>, Seq<char>>) -> Seq<Seq<char>> {
    if meta.contains_key("scope"@) {
        split(meta["scope"@], ',').map_values(|p: Seq<char>| trim(p))
    } else {
        seq!["global"@]
    }
}

/// The rule that the text `content` of `RULE.md` in directory `dir`
/// describes, as description, type, severity, scopes and body, or the
/// reason it is refused.
pub open spec fn rule_of(dir: Seq<char>, content: Seq<char>) -> Result<
    (Seq<char>, Seq<char>, Seq<char>, Seq<Seq<char>>, Seq<char>),
    Seq<char>,
> {
    let (meta, body) = frontmatter(content);
    match doc_identity(meta, dir, 300) {
        Err(reason) => Err(reason),
        Ok((_name, desc)) => {
            let t = meta_or(meta, "type"@, "guardrail"@);
            let sev = meta_or(meta, "severity"@, "error"@);
            let sc = scopes_of(meta);
            if !valid_type(t) {
                Err(
                    "type must be one of [\"guardrail\", \"permission\", \"validation\", \"context\"], got '"@
                        + t + "'"@,
                )
            } else if !valid_severity(sev) {
                Err("severity must be one of [\"error\", \"warning\", \"info\"], got '"@ + sev + "'"@)
            } else if first_bad_scope(sc) is Some {
                Err(
                    "invalid scope '"@ + first_bad_scope(sc)->0
                        + "' \u{2014} must be 'global' or 'type:name' (tool:x, agent:x, category:x)"@,
                )
            } else if trim(body).len() == 0 {
                Err("rule body cannot be empty"@)
            } else {
                Ok((desc, t, sev, sc, body))
            }
        },
    }
}

/// Whether `s` is a valid scope.
pub fn is_valid_scope(s: &str) -> (r: bool)
    ensures
        r == valid_scope(s@),
{
    proof {
        reveal_strlit("tool:");
        reveal_strlit("agent:");
        reveal_strlit("category:");
    }
    if str_eq(s, "global") {
        return true;
    }
    let v = to_chars(s);
    let tool = to_chars("tool:");
    if starts_with_vec(&v, &tool) {
        assert(v@[0] == v@.take(5)[0]);
        assert(!starts_with(s@, "agent:"@));
        assert(!starts_with(s@, "category:"@));
        return is_valid_name(from_chars(&subvec(&v, 5, v.len())).as_str());
    }
    let agent = to_chars("agent:");
    if starts_with_vec(&v, &agent) {
        assert(v@[0] == v@.take(6)[0]);
        assert(!starts_with(s@, "category:"@));
        return is_valid_name(from_chars(&subvec(&v, 6, v.len())).as_str());
    }
    let category = to_chars("category:");
    if starts_with_vec(&v, &category) {
        return is_valid_name(from_chars(&subvec(&v, 9, v.len())).as_str());
    }
    false
}

fn bad_rule(dir_name: &str, reason: Vec<char>) -> (r: ToolshedError)
    ensures
        r matches ToolshedError::BadRule { rule, reason: rr } && rule@ == dir_name@ && rr@
            == reason@,
{
    ToolshedError::BadRule { rule: from_chars(&to_chars(dir_name)), reason: from_chars(&reason) }
}

fn is_one_of(s: &str, a: &str, b: &str, c: &str, d: Option<&str>) -> (r: bool)
    ensures
        r == (s@ == a@ || s@ == b@ || s@ == c@ || (d matches Some(x) && s@ == x@)),
{
    str_eq(s, a) || str_eq(s, b) || str_eq(s, c) || match d {
        Some(x) => str_eq(s, x),
        None => false,
    }
}

/// Loads the rule in directory `dir_name` from what reading its `RULE.md`
/// gave.
#[verifier::loop_isolation(false)]
pub fn load_rule(dir_name: &str, file: DocFile) -> (r: Result<Rule, ToolshedError>)
    ensures
        match file {
            DocFile::Missing => r matches Err(ToolshedError::BadRule { rule, reason })
                && rule@ == dir_name@ && reason@ == "missing RULE.md"@,
            DocFile::Unreadable(e) => r matches Err(ToolshedError::BadRule { rule, reason })
                && rule@ == dir_name@ && reason@ == "cannot read RULE.md: "@ + e@,
            DocFile::Text(content) => match rule_of(dir_name@, content@) {
                Ok((desc, t, sev, sc, body)) => r matches Ok(rl) && rl.manifest.description@ == desc
                    && rl.manifest.rule_type@ == t && rl.manifest.severity@ == sev
                    && rl.manifest.scope@.map_values(|x: String| x@) == sc && rl.body@ == body,
                Err(reason) => r matches Err(ToolshedError::BadRule { rule, reason: rr })
                    && rule@ == dir_name@ && rr@ == reason,
            },
        },
{
    let content = match file {
        DocFile::Missing => {
            return Err(bad_rule(dir_name, to_chars("missing RULE.md")));
        },
        DocFile::Unreadable(e) => {
            let mut o = to_chars("cannot read RULE.md: ");
            push_str(&mut o, e.as_str());
            return Err(bad_rule(dir_name, o));
        },
        DocFile::Text(c) => c,
    };
    let (meta, body) = match parse(content.as_str()) {
        Ok(p) => p,
        Err(e) => {
            return Err(e);
        },
    };
    let ghost mv = string_view(meta@);
    let (_name, description) = match check_identity(&meta, dir_name, 300) {
        Err(reason) => {
            return Err(bad_rule(dir_name, reason));
        },
        Ok(p) => p,
    };
    let rule_type = match meta.get("type") {
        Some(t) => from_chars(&to_chars(t.as_str())),
        None => from_chars(&to_chars("guardrail")),
    };
    let severity = match meta.get("severity") {
        Some(t) => from_chars(&to_chars(t.as_str())),
        None => from_chars(&to_chars("error")),
    };
    let mut scope: Vec<String> = Vec::new();
    match meta.get("scope") {
        Some(s) => {
            let pieces = split_char(&to_chars(s.as_str()), ',');
            let n = pieces.len();
            for i in 0..n
                invariant
                    n == pieces@.len(),
                    scope@.len() == i,
                    forall|j: int|
                        0 <= j < i ==> #[trigger] scope@[j]@ == trim(pieces@[j]@),
            {
                scope.push(from_chars(&trim_vec(&pieces[i])));
            }
            assert(scope@.map_values(|x: String| x@) =~= split(s@, ',').map_values(
                |p: Seq<char>| trim(p),
            ));
        },
        None => {
            scope.push(from_chars(&to_chars("global")));
            assert(scope@.map_values(|x: String| x@) =~= seq!["global"@]);
        },
    }
    assert(scope@.map_values(|x: String| x@) == scopes_of(mv));
    if !is_one_of(rule_type.as_str(), "guardrail", "permission", "validation", Some("context")) {
        let mut o = to_chars(
            "type must be one of [\"guardrail\", \"permission\", \"validation\", \"context\"], got '",
        );
        push_str(&mut o, rule_type.as_str());
        push_str(&mut o, "'");
        return Err(bad_rule(dir_name, o));
    }
    if !is_one_of(severity.as_str(), "error", "warning", "info", None) {
        let mut o = to_chars("severity must be one of [\"error\", \"warning\", \"info\"], got '");
        push_str(&mut o, severity.as_str());
        push_str(&mut o, "'");
        return Err(bad_rule(dir_name, o));
    }
    let n = scope.len();
    assert(scopes_of(mv).skip(0) =~= scopes_of(mv));
    for i in 0..n
        invariant
            n == scope@.len(),
            scope@.map_values(|x: String| x@) == scopes_of(mv),
            first_bad_scope(scopes_of(mv)) == first_bad_scope(scopes_of(mv).skip(i as int)),
    {
        let ghost sk = scopes_of(mv).skip(i as int);
        assert(sk[0] == scope@[i as int]@);
        if !is_valid_scope(scope[i].as_str()) {
            assert(first_bad_scope(sk) == Some(sk[0]));
            let mut o = to_chars("invalid scope '");
            push_str(&mut o, scope[i].as_str());
            push_str(
                &mut o,
                "' \u{2014} must be 'global' or 'type:name' (tool:x, agent:x, category:x)",
            );
            return Err(bad_rule(dir_name, o));
        }
        assert(sk.drop_first() == scopes_of(mv).skip(i + 1));
    }
    assert(scopes_of(mv).skip(n as int).len() == 0);
    if trim_vec(&to_chars(body.as_str())).len() == 0 {
        return Err(bad_rule(dir_name, to_chars("rule body cannot be empty")));
    }
    Ok(Rule { manifest: RuleManifest { description, rule_type, severity, scope }, body })
}

/// The rules that loaded, by directory name, and the directories that
/// failed with the message of their error.
pub struct RuleRegistry {
    pub rules: NameMap<Rule>,
    pub errors: Vec<(String, String)>,
}

impl RuleRegistry {
    /// A registry with no rules and no errors.
    pub fn new() -> (r: Self)
        ensures
            r.rules.wf(),
            r.rules@ == Map::<Seq<char>, Rule>::empty(),
            r.errors@.len() == 0,
    {
        RuleRegistry { rules: NameMap::new(), errors: Vec::new() }
    }

    /// Records the outcome of loading the rule in `dir_name`: the rule
    /// under its directory name, or the error's message.
    pub fn add(&mut self, dir_name: &str, loaded: Result<Rule, ToolshedError>)
        requires
            old(self).rules.wf(),
        ensures
            final(self).rules.wf(),
            match loaded {
                Ok(a) => final(self).rules@ == old(self).rules@.insert(dir_name@, a)
                    && final(self).errors@ == old(self).errors@,
                Err(e) => final(self).rules@ == old(self).rules@ && final(self).errors@.len()
                    == old(self).errors@.len() + 1 && final(self).errors@.drop_last() == old(self).errors@ && final(self).errors@.last().0@ == dir_name@
                    && final(self).errors@.last().1@ == error_message(e),
            },
    {
        match loaded {
            Ok(a) => {
                self.rules.insert(from_chars(&to_chars(dir_name)), a);
            },
            Err(e) => {
                let m = e.message();
                self.errors.push((from_chars(&to_chars(dir_name)), m));
                assert(self.errors@.drop_last() == old(self).errors@);
            },
        }
    }
}

} // verus!
