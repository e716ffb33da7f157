//! What skills, agents, rules and workflows share: a markdown file whose
//! header names the item and describes it.

use vstd::prelude::*;
use crate::manifest::{is_valid_name, valid_name};
use crate::namemap::{NameMap, string_view};
use crate::text::{
    append_chars, decimal, from_chars, push_str, to_chars, u64_decimal, utf8_len, utf8_longer_than,
};

verus! {

/// What reading an item's markdown file gave.
pub enum DocFile {
    /// There is no such file.
    Missing,
    /// The file could not be read; the message of the failure.
    Unreadable(String),
    /// The text of the file.
    Text(String),
}

/// The name and description of an item with header `meta` in directory
/// `dir`, or the reason they are refused: both must be present, the name
/// must be the directory's and valid, and the description non-empty and at
/// most `max_desc` bytes.
pub open spec fn doc_identity(meta: Map<Seq<char>, Seq<char>>, dir: Seq<char>, max_desc: nat) -> Result<
    (Seq<char>, Seq<char>),
    Seq<char>,
> {
    if !meta.contains_key("name"@) {
        Err("frontmatter missing 'name'"@)
    } else if !meta.contains_key("description"@) {
        Err("frontmatter missing 'description'"@)
    } else {
        let name = meta["name"@];
        let desc = meta["description"@];
        if name != dir {
            Err("name '"@ + name + "' does not match directory '"@ + dir + "'"@)
        } else if !valid_name(name) {
            Err("name must be 1-64 chars, [a-z0-9_-] only, got '"@ + name + "'"@)
        } else if desc.len() == 0 {
            Err("description cannot be empty"@)
        } else if utf8_len(desc) > max_desc {
            Err("description exceeds "@ + decimal(max_desc) + " chars"@)
        } else {
            Ok((name, desc))
        }
    }
}

/// The name and description of an item, or the reason they are refused.
pub fn check_identity(meta: &NameMap<String>, dir_name: &str, max_desc: usize) -> (r: Result<
    (String, String),
    Vec<char>,
>)
    requires
        meta.wf(),
    ensures
        match doc_identity(string_view(meta@), dir_name@, max_desc as nat) {
            Ok((n, d)) => r matches Ok((rn, rd)) && rn@ == n && rd@ == d,
            Err(reason) => r matches Err(rr) && rr@ == reason,
        },
{
    let name = match meta.get("name") {
        Some(n) => n,
        None => {
            return Err(to_chars("frontmatter missing 'name'"));
        },
    };
    let desc = match meta.get("description") {
        Some(d) => d,
        None => {
            return Err(to_chars("frontmatter missing 'description'"));
        },
    };
    if !crate::namemap::str_eq(name.as_str(), dir_name) {
        let mut o = to_chars("name '");
        push_str(&mut o, name.as_str());
        push_str(&mut o, "' does not match directory '");
        push_str(&mut o, dir_name);
        push_str(&mut o, "'");
        return Err(o);
    }
    if !is_valid_name(name.as_str()) {
        let mut o = to_chars("name must be 1-64 chars, [a-z0-9_-] only, got '");
        push_str(&mut o, name.as_str());
        push_str(&mut o, "'");
        return Err(o);
    }
    let d = to_chars(desc.as_str());
    if d.len() == 0 {
        return Err(to_chars("description cannot be empty"));
    }
    if utf8_longer_than(&d, max_desc) {
        let mut o = to_chars("description exceeds ");
        append_chars(&mut o, &u64_decimal(max_desc as u64));
        push_str(&mut o, " chars");
        return Err(o);
    }
    Ok((from_chars(&to_chars(name.as_str())), from_chars(&d)))
}

} // verus!
