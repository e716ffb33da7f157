//! Vault secrets: which secrets to fetch, read from the `vault-env.sh`
//! script, and what Vault's answers mean.

use vstd::prelude::*;
use crate::config::AUTH_DEFAULT_TTL_SECS;
use crate::error::ToolshedError;
use crate::namemap::NameMap;
use crate::text::{
    append_chars, find, find_char, find_vec, from_chars, lines, push_str, split_lines, split_words,
    starts_with, starts_with_vec, subvec, to_chars, trim, trim_vec, views, words,
};

verus! {

/// Where Vault keeps a secret, and the environment variable it is given as.
#[derive(Debug, Clone)]
pub struct SecretDef {
    pub path: String,
    pub key: String,
    pub env_var: String,
}

/// The secret a line of `vault-env.sh` defines, as path, key and variable:
/// a line `v=$(vault_get <path> <key>) ... export <VAR>=...`.
pub open spec fn vault_def_of(line0: Seq<char>) -> Option<(Seq<char>, Seq<char>, Seq<char>)> {
    let line = trim(line0);
    let prefix = "v=$(vault_get "@;
    if !starts_with(line, prefix) {
        None
    } else {
        let rest = line.skip(prefix.len() as int);
        match find(rest, seq![')']) {
            None => None,
            Some(p) => {
                let parts = words(rest.take(p));
                if parts.len() < 2 {
                    None
                } else {
                    match find(line, "export "@) {
                        None => None,
                        Some(e) => {
                            let after = line.skip(e + "export "@.len());
                            match find(after, seq!['=']) {
                                None => None,
                                Some(q) => Some((parts[0], parts[1], after.take(q))),
                            }
                        },
                    }
                }
            },
        }
    }
}

/// The secrets the first `i` lines define, in order.
pub open spec fn vault_defs(ls: Seq<Seq<char>>, i: nat) -> Seq<(Seq<char>, Seq<char>, Seq<char>)>
    decreases i,
{
    if i == 0 || i > ls.len() {
        seq![]
    } else {
        let prev = vault_defs(ls, (i - 1) as nat);
        match vault_def_of(ls[i - 1]) {
            Some(d) => prev.push(d),
            None => prev,
        }
    }
}

/// A line defines a secret exactly when, trimmed, it starts with
/// `v=$(vault_get `, the text after that up to the first `)` has at least
/// two words (the path and the key; further words are ignored), and it
/// holds `export ` with a `=` after it: the variable is the text between
/// the first `export ` and the next `=`.
pub proof fn lemma_vault_line_law(line: Seq<char>)
    ensures
        ({
            let t = trim(line);
            let rest = t.skip(14);
            match vault_def_of(line) {
                Some((path, key, var)) => starts_with(t, "v=$(vault_get "@) && (find(rest, seq![')']) matches Some(p)
                    && words(rest.take(p)).len() >= 2 && path == words(rest.take(p))[0] && key == words(
                    rest.take(p),
                )[1]) && (find(t, "export "@) matches Some(e) && find(t.skip(e + 7), seq!['=']) matches Some(q)
                    && var == t.skip(e + 7).take(q)),
                None => !starts_with(t, "v=$(vault_get "@) || find(rest, seq![')']) is None || (find(
                    rest,
                    seq![')'],
                ) matches Some(p) && words(rest.take(p)).len() < 2) || find(t, "export "@) is None || (find(
                    t,
                    "export "@,
                ) matches Some(e) && find(t.skip(e + 7), seq!['=']) is None),
            }
        }),
{
    reveal_strlit("v=$(vault_get ");
    reveal_strlit("export ");
}

/// The numbers (counting from 1) of the lines among the first `i` that
/// define a secret, in order.
pub open spec fn def_line_numbers(ls: Seq<Seq<char>>, i: nat) -> Seq<nat>
    decreases i,
{
    if i == 0 || i > ls.len() {
        seq![]
    } else if vault_def_of(ls[i - 1]) is Some {
        def_line_numbers(ls, (i - 1) as nat).push(i)
    } else {
        def_line_numbers(ls, (i - 1) as nat)
    }
}

/// Each line that defines a secret gives one definition, in the order of
/// the lines; every other line gives none.
pub proof fn lemma_one_def_per_line(ls: Seq<Seq<char>>, i: nat)
    requires
        i <= ls.len(),
    ensures
        vault_defs(ls, i) == def_line_numbers(ls, i).map_values(|n: nat| vault_def_of(ls[n - 1])->Some_0),
        forall|k: int| 0 <= k < def_line_numbers(ls, i).len() ==> {
            let n = #[trigger] def_line_numbers(ls, i)[k];
            1 <= n <= i && vault_def_of(ls[n - 1]) is Some
        },
    decreases i,
{
    if i == 0 {
        assert(def_line_numbers(ls, 0).map_values(|n: nat| vault_def_of(ls[n - 1])->Some_0) =~= seq![]);
    } else {
        lemma_one_def_per_line(ls, (i - 1) as nat);
        let prev = def_line_numbers(ls, (i - 1) as nat);
        if vault_def_of(ls[i - 1]) is Some {
            assert(def_line_numbers(ls, i) == prev.push(i));
            assert(def_line_numbers(ls, i).map_values(|n: nat| vault_def_of(ls[n - 1])->Some_0) =~= prev.map_values(
                |n: nat| vault_def_of(ls[n - 1])->Some_0,
            ).push(vault_def_of(ls[i - 1])->Some_0));
            assert forall|k: int| 0 <= k < def_line_numbers(ls, i).len() implies {
                let n = #[trigger] def_line_numbers(ls, i)[k];
                1 <= n <= i && vault_def_of(ls[n - 1]) is Some
            } by {
                if k < prev.len() {
                    assert(def_line_numbers(ls, i)[k] == prev[k]);
                }
            }
        }
    }
}

/// A secret definition as plain values.
pub open spec fn def_view(d: SecretDef) -> (Seq<char>, Seq<char>, Seq<char>) {
    (d.path@, d.key@, d.env_var@)
}

fn def_of_line(line0: &[char]) -> (r: Option<SecretDef>)
    ensures
        match vault_def_of(line0@) {
            Some(d) => r matches Some(sd) && def_view(sd) == d,
            None => r is None,
        },
{
    let line = trim_vec(line0);
    let prefix = to_chars("v=$(vault_get ");
    if !starts_with_vec(&line, &prefix) {
        return None;
    }
    let rest = subvec(&line, prefix.len(), line.len());
    let close: Vec<char> = vec![')'];
    assert(close@ =~= seq![')']);
    let p = match find_vec(&rest, &close, 0) {
        None => {
            return None;
        },
        Some(p) => p,
    };
    proof {
        crate::text::lemma_find_from(rest@, close@, 0);
    }
    let args = subvec(&rest, 0, p);
    assert(args@ == rest@.take(p as int));
    let parts = split_words(&args);
    if parts.len() < 2 {
        return None;
    }
    let export = to_chars("export ");
    let e = match find_vec(&line, &export, 0) {
        None => {
            return None;
        },
        Some(e) => e,
    };
    proof {
        crate::text::lemma_find_from(line@, export@, 0);
    }
    let after = subvec(&line, e + export.len(), line.len());
    let eq: Vec<char> = vec!['='];
    assert(eq@ =~= seq!['=']);
    let q = match find_vec(&after, &eq, 0) {
        None => {
            return None;
        },
        Some(q) => q,
    };
    proof {
        crate::text::lemma_find_from(after@, eq@, 0);
    }
    let env = subvec(&after, 0, q);
    assert(env@ == after@.take(q as int));
    assert(views(parts@)[0] == parts@[0]@);
    assert(views(parts@)[1] == parts@[1]@);
    Some(
        SecretDef {
            path: from_chars(&parts[0]),
            key: from_chars(&parts[1]),
            env_var: from_chars(&env),
        },
    )
}

/// The secrets that the `vault-env.sh` script defines, in order.
pub fn parse_vault_env_script(script: &str) -> (r: Vec<SecretDef>)
    ensures
        r@.map_values(|d: SecretDef| def_view(d)) == vault_defs(lines(script@), lines(script@).len()),
{
    let ls = split_lines(&to_chars(script));
    let ghost lsv = views(ls@);
    let mut defs: Vec<SecretDef> = Vec::new();
    let n = ls.len();
    assert(defs@.map_values(|d: SecretDef| def_view(d)) =~= seq![]);
    for i in 0..n
        invariant
            n == ls@.len() == lsv.len(),
            lsv == views(ls@),
            defs@.map_values(|d: SecretDef| def_view(d)) == vault_defs(lsv, i as nat),
    {
        assert(lsv[i as int] == ls@[i as int]@);
        match def_of_line(&ls[i]) {
            Some(d) => {
                let ghost before = defs@;
                defs.push(d);
                assert(defs@.map_values(|d: SecretDef| def_view(d)) =~= before.map_values(
                    |d: SecretDef| def_view(d),
                ).push(def_view(d)));
            },
            None => {},
        }
    }
    defs
}

/// The error a Vault answer with HTTP status `code` (written `status_text`)
/// gives for the secret at `path`, or `None` for a success (2xx).
pub open spec fn vault_status_error(code: u16, status_text: Seq<char>, path: Seq<char>) -> Option<
    (bool, Seq<char>),
> {
    if code == 403 {
        Some((true, "403 permission denied for "@ + path))
    } else if code == 404 {
        Some((false, "404 secret not found: "@ + path))
    } else if code == 503 {
        Some((false, "503 vault sealed or unavailable"@))
    } else if !(200 <= code < 300) {
        Some((false, "unexpected status "@ + status_text + " for "@ + path))
    } else {
        None
    }
}

/// The error for a Vault answer with status `code`, or `None` on success:
/// 403 is an authentication failure, other failures are Vault errors.
pub fn check_vault_status(code: u16, status_text: &str, path: &str) -> (r: Option<ToolshedError>)
    ensures
        match vault_status_error(code, status_text@, path@) {
            None => r is None,
            Some((true, reason)) => r matches Some(ToolshedError::VaultAuthFailed { reason: rr })
                && rr@ == reason,
            Some((false, reason)) => r matches Some(ToolshedError::VaultError { reason: rr })
                && rr@ == reason,
        },
{
    if code == 403 {
        let mut o = to_chars("403 permission denied for ");
        push_str(&mut o, path);
        return Some(ToolshedError::VaultAuthFailed { reason: from_chars(&o) });
    }
    if code == 404 {
        let mut o = to_chars("404 secret not found: ");
        push_str(&mut o, path);
        return Some(ToolshedError::VaultError { reason: from_chars(&o) });
    }
    if code == 503 {
        return Some(
            ToolshedError::VaultError {
                reason: from_chars(&to_chars("503 vault sealed or unavailable")),
            },
        );
    }
    if !(200 <= code && code < 300) {
        let mut o = to_chars("unexpected status ");
        push_str(&mut o, status_text);
        push_str(&mut o, " for ");
        push_str(&mut o, path);
        return Some(ToolshedError::VaultError { reason: from_chars(&o) });
    }
    None
}

/// The lease of a secret: what Vault gave, or an hour when it gave none.
pub open spec fn lease_secs(lease: u64) -> u64 {
    if lease == 0 {
        AUTH_DEFAULT_TTL_SECS
    } else {
        lease
    }
}

/// The value and lease of the secret `key` in the data Vault returned for
/// `path`, or the error for a key it does not hold.
pub fn secret_from_response(data: &NameMap<String>, lease_duration: u64, path: &str, key: &str) -> (r:
    Result<(String, u64), ToolshedError>)
    requires
        data.wf(),
    ensures
        data@.contains_key(key@) ==> (r matches Ok((v, ttl)) && v@ == data@[key@]@ && ttl
            == lease_secs(lease_duration)),
        !data@.contains_key(key@) ==> (r matches Err(ToolshedError::VaultError { reason })
            && reason@ == "key '"@ + key@ + "' not found in secret '"@ + path@ + "'"@),
{
    match data.get(key) {
        Some(v) => {
            let ttl = if lease_duration == 0 {
                AUTH_DEFAULT_TTL_SECS
            } else {
                lease_duration
            };
            Ok((from_chars(&to_chars(v.as_str())), ttl))
        },
        None => {
            let mut o = to_chars("key '");
            push_str(&mut o, key);
            push_str(&mut o, "' not found in secret '");
            push_str(&mut o, path);
            push_str(&mut o, "'");
            Err(ToolshedError::VaultError { reason: from_chars(&o) })
        },
    }
}

} // verus!
