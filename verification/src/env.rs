//! `${VAR}` and `${VAR:-default}` in manifest values, filled in from a
//! snapshot of the environment.

use vstd::prelude::*;
use crate::error::ToolshedError;
use crate::namemap::{str_lt, string_view, NameMap};
use crate::text::{append_chars, find, find_char, find_vec, from_chars, lemma_find_from, occurs_at, subvec, to_chars};

verus! {

/// The first position of `c` in `s`.
pub open spec fn first_pos(s: Seq<char>, c: char) -> Option<int>
    decreases s.len(),
{
    if s.len() == 0 {
        None
    } else if s[0] == c {
        Some(0)
    } else {
        match first_pos(s.drop_first(), c) {
            Some(p) => Some(p + 1),
            None => None,
        }
    }
}

/// What `${expr}` stands for: with `:-`, the variable before it when it is
/// set and not empty, else the text after it; without, the variable, which
/// must be set (else its name is the error).
pub open spec fn lookup(expr: Seq<char>, env: Map<Seq<char>, Seq<char>>) -> Result<Seq<char>, Seq<char>> {
    match find(expr, ":-"@) {
        Some(p) => {
            let name = expr.take(p);
            if env.contains_key(name) && env[name].len() > 0 {
                Ok(env[name])
            } else {
                Ok(expr.skip(p + 2))
            }
        },
        None => if env.contains_key(expr) {
            Ok(env[expr])
        } else {
            Err(expr)
        },
    }
}

/// `r` with `p` in front of its text.
pub open spec fn prefixed(p: Seq<char>, r: Result<Seq<char>, Seq<char>>) -> Result<Seq<char>, Seq<char>> {
    match r {
        Ok(t) => Ok(p + t),
        Err(e) => Err(e),
    }
}

/// `s` with each `${...}` replaced by what it stands for, read from the
/// left; a `${` that is never closed stays as it is, and so does the rest
/// of the text. The error is the name of the first unset variable.
pub open spec fn interpolated(s: Seq<char>, env: Map<Seq<char>, Seq<char>>) -> Result<Seq<char>, Seq<char>>
    decreases s.len(),
{
    if s.len() == 0 {
        Ok(seq![])
    } else if s.len() >= 2 && s[0] == '$' && s[1] == '{' {
        let rest = s.skip(2);
        proof {
            lemma_first_pos_bound(rest, '}');
        }
        match first_pos(rest, '}') {
            None => Ok(s),
            Some(j) => match lookup(rest.take(j), env) {
                Err(name) => Err(name),
                Ok(v) => prefixed(v, interpolated(rest.skip(j + 1), env)),
            },
        }
    } else {
        prefixed(seq![s[0]], interpolated(s.drop_first(), env))
    }
}

/// Text in which no `${` occurs comes back unchanged, whatever the
/// environment holds.
pub proof fn lemma_plain_text_unchanged(s: Seq<char>, env: Map<Seq<char>, Seq<char>>)
    requires
        forall|i: int| 0 <= i < s.len() - 1 ==> !(#[trigger] s[i] == '$' && s[i + 1] == '{'),
    ensures
        interpolated(s, env) == Ok::<Seq<char>, Seq<char>>(s),
    decreases s.len(),
{
    if s.len() > 0 {
        let t = s.drop_first();
        assert forall|i: int| 0 <= i < t.len() - 1 implies !(#[trigger] t[i] == '$' && t[i + 1] == '{') by {
            assert(t[i] == s[i + 1] && t[i + 1] == s[i + 2]);
        }
        lemma_plain_text_unchanged(t, env);
        if s.len() >= 2 {
            assert(!(s[0] == '$' && s[1] == '{'));
        }
        assert(seq![s[0]] + t =~= s);
    } else {
        assert(s =~= seq![]);
    }
}

/// A variable name in which neither `:` nor `}` occurs.
pub open spec fn plain_name(name: Seq<char>) -> bool {
    forall|i: int| 0 <= i < name.len() ==> name[i] != ':' && name[i] != '}'
}

/// `find` gives the occurrence at `k` when there is none before it.
proof fn lemma_find_at(s: Seq<char>, p: Seq<char>, k: int)
    requires
        occurs_at(s, p, k),
        forall|j: int| 0 <= j < k ==> !occurs_at(s, p, j),
    ensures
        find(s, p) == Some(k),
{
    lemma_find_from(s, p, 0);
}

/// A text in which `:` does not occur holds no `:-`.
proof fn lemma_no_default_marker(name: Seq<char>)
    requires
        plain_name(name),
    ensures
        find(name, ":-"@) is None,
{
    reveal_strlit(":-");
    lemma_find_from(name, ":-"@, 0);
    if let Some(k) = find(name, ":-"@) {
        assert(name.subrange(k, k + 2)[0] == name[k]);
    }
}

/// A variable that is set is replaced by its value as it stands: the value
/// is not read again for `${`, and an empty value is no error.
pub proof fn lemma_value_not_expanded(name: Seq<char>, rest: Seq<char>, env: Map<Seq<char>, Seq<char>>)
    requires
        plain_name(name),
        env.contains_key(name),
    ensures
        interpolated("${"@ + name + "}"@ + rest, env) == prefixed(env[name], interpolated(rest, env)),
{
    reveal_strlit("${");
    reveal_strlit("}");
    let s = "${"@ + name + "}"@ + rest;
    let r = s.skip(2);
    assert(r =~= name + "}"@ + rest);
    lemma_first_pos(r, '}', name.len() as int);
    assert(r.take(name.len() as int) =~= name);
    assert(r.skip(name.len() as int + 1) =~= rest);
    lemma_no_default_marker(name);
}

/// With `:-`, a variable that is unset or empty gives the text after the
/// marker.
pub proof fn lemma_empty_takes_default(
    name: Seq<char>,
    default: Seq<char>,
    rest: Seq<char>,
    env: Map<Seq<char>, Seq<char>>,
)
    requires
        plain_name(name),
        forall|i: int| 0 <= i < default.len() ==> default[i] != '}',
        !env.contains_key(name) || env[name].len() == 0,
    ensures
        interpolated("${"@ + name + ":-"@ + default + "}"@ + rest, env) == prefixed(default, interpolated(rest, env)),
{
    reveal_strlit("${");
    reveal_strlit("}");
    reveal_strlit(":-");
    let s = "${"@ + name + ":-"@ + default + "}"@ + rest;
    let r = s.skip(2);
    let expr = name + ":-"@ + default;
    let j = name.len() + 2 + default.len();
    assert(r =~= expr + "}"@ + rest);
    assert forall|t: int| 0 <= t < j implies r[t] != '}' by {
        if t < name.len() {
            assert(r[t] == name[t]);
        } else if t >= name.len() + 2 {
            assert(r[t] == default[t - name.len() - 2]);
        }
    }
    lemma_first_pos(r, '}', j as int);
    assert(r.take(j as int) =~= expr);
    assert(r.skip(j as int + 1) =~= rest);
    assert(expr.subrange(name.len() as int, name.len() as int + 2) =~= ":-"@);
    assert forall|t: int| 0 <= t < name.len() implies !occurs_at(expr, ":-"@, t) by {
        assert(expr.subrange(t, t + 2)[0] == name[t]);
    }
    lemma_find_at(expr, ":-"@, name.len() as int);
    assert(expr.take(name.len() as int) =~= name);
    assert(expr.skip(name.len() as int + 2) =~= default);
}

/// `${NAME}` alone gives the variable's value as it stands, even when that
/// value holds `${`, and the empty text for a variable set but empty;
/// `${NAME:-default}` alone gives the default for a variable unset or
/// empty.
pub proof fn lemma_interpolation_law(name: Seq<char>, default: Seq<char>, env: Map<Seq<char>, Seq<char>>)
    requires
        plain_name(name),
        forall|i: int| 0 <= i < default.len() ==> default[i] != '}',
    ensures
        env.contains_key(name) ==> interpolated("${"@ + name + "}"@, env) == Ok::<Seq<char>, Seq<char>>(env[name]),
        (!env.contains_key(name) || env[name].len() == 0) ==> interpolated("${"@ + name + ":-"@ + default + "}"@, env)
            == Ok::<Seq<char>, Seq<char>>(default),
{
    let e = Seq::<char>::empty();
    assert(interpolated(e, env) == Ok::<Seq<char>, Seq<char>>(e));
    if env.contains_key(name) {
        lemma_value_not_expanded(name, e, env);
        assert("${"@ + name + "}"@ + e =~= "${"@ + name + "}"@);
        assert(env[name] + e =~= env[name]);
    }
    if !env.contains_key(name) || env[name].len() == 0 {
        lemma_empty_takes_default(name, default, e, env);
        assert("${"@ + name + ":-"@ + default + "}"@ + e =~= "${"@ + name + ":-"@ + default + "}"@);
        assert(default + e =~= default);
    }
}

/// A `$` that no `{` follows is kept as it is.
pub proof fn lemma_lone_dollar_kept(rest: Seq<char>, env: Map<Seq<char>, Seq<char>>)
    requires
        rest.len() == 0 || rest[0] != '{',
    ensures
        interpolated(seq!['$'] + rest, env) == prefixed(seq!['$'], interpolated(rest, env)),
{
    let s = seq!['$'] + rest;
    assert(s.drop_first() =~= rest);
    if s.len() >= 2 {
        assert(s[1] == rest[0]);
    }
}

proof fn lemma_prefixed_assoc(a: Seq<char>, b: Seq<char>, r: Result<Seq<char>, Seq<char>>)
    ensures
        prefixed(a, prefixed(b, r)) == prefixed(a + b, r),
{
    match r {
        Ok(t) => {
            assert(a + (b + t) =~= (a + b) + t);
        },
        Err(_) => {},
    }
}

/// The first position of a character, when there is one, lies inside the text.
pub proof fn lemma_first_pos_bound(s: Seq<char>, c: char)
    ensures
        first_pos(s, c) matches Some(p) ==> 0 <= p < s.len(),
    decreases s.len(),
{
    if s.len() > 0 {
        lemma_first_pos_bound(s.drop_first(), c);
    }
}

proof fn lemma_first_pos(s: Seq<char>, c: char, k: int)
    requires
        0 <= k <= s.len(),
        forall|j: int| 0 <= j < k ==> s[j] != c,
        k < s.len() ==> s[k] == c,
    ensures
        first_pos(s, c) == if k < s.len() {
            Some(k)
        } else {
            None::<int>
        },
    decreases s.len(),
{
    if s.len() > 0 && k > 0 {
        let t = s.drop_first();
        assert forall|j: int| 0 <= j < k - 1 implies t[j] != c by {
            assert(t[j] == s[j + 1]);
        }
        lemma_first_pos(t, c, k - 1);
    }
}

/// Fills in `${VAR}` and `${VAR:-default}` in `input` from `env`, a
/// snapshot of the environment: a variable that is set takes its value; a
/// default is taken where the variable is unset or empty; an unset variable
/// without a default is an error naming it. A `${` that is never closed is
/// kept as it is.
pub fn interpolate(input: &str, env: &NameMap<String>) -> (r: Result<String, ToolshedError>)
    requires
        env.wf(),
    ensures
        match interpolated(input@, string_view(env@)) {
            Ok(t) => r matches Ok(out) && out@ == t,
            Err(name) => r matches Err(ToolshedError::EnvVarNotSet { var }) && var@ == name,
        },
{
    let s = to_chars(input);
    let ghost e = string_view(env@);
    let n = s.len();
    let mut out: Vec<char> = Vec::new();
    let mut i: usize = 0;
    assert(s@.skip(0) == s@);
    assert(prefixed(out@, interpolated(s@, e)) == interpolated(s@, e)) by {
        match interpolated(s@, e) {
            Ok(t) => {
                assert(out@ + t =~= t);
            },
            Err(_) => {},
        }
    }
    while i < n
        invariant
            n == s@.len(),
            s@ == input@,
            e == string_view(env@),
            env.wf(),
            i <= n,
            prefixed(out@, interpolated(s@.skip(i as int), e)) == interpolated(s@, e),
        decreases n - i,
    {
        let ghost t = s@.skip(i as int);
        if s[i] == '$' && i + 1 < n && s[i + 1] == '{' {
            let ghost rest = t.skip(2);
            assert(rest == s@.skip(i + 2));
            match find_char(s.as_slice(), '}', i + 2) {
                None => {
                    proof {
                        lemma_first_pos(rest, '}', rest.len() as int);
                    }
                    let tail = subvec(s.as_slice(), i, n);
                    let ghost o = out@;
                    append_chars(&mut out, tail.as_slice());
                    assert(tail@ == t);
                    assert(t.len() >= 2 && t[0] == '$' && t[1] == '{');
                    assert(interpolated(t, e) == Ok::<Seq<char>, Seq<char>>(t));
                    assert(s@.skip(n as int) == Seq::<char>::empty());
                    assert(out@ + Seq::<char>::empty() =~= o + t);
                    i = n;
                },
                Some(k) => {
                    proof {
                        assert forall|j: int| 0 <= j < k - (i + 2) implies rest[j] != '}' by {
                            assert(rest[j] == s@[i + 2 + j]);
                        }
                        lemma_first_pos(rest, '}', k - (i + 2));
                    }
                    let ghost o = out@;
                    let ghost appended: Seq<char>;
                    let expr = subvec(s.as_slice(), i + 2, k);
                    assert(expr@ == rest.take(k - (i + 2)));
                    assert(rest.skip(k - (i + 2) + 1) == s@.skip(k + 1));
                    match find_vec(expr.as_slice(), &[':', '-'], 0) {
                        Some(p) => {
                            assert(seq![':', '-'] == ":-"@) by {
                                reveal_strlit(":-");
                            }
                            proof {
                                lemma_find_from(expr@, ":-"@, 0);
                            }
                            let name = from_chars(&subvec(expr.as_slice(), 0, p));
                            let dflt = subvec(expr.as_slice(), p + 2, expr.len());
                            let chosen = match env.get(name.as_str()) {
                                Some(v) => {
                                    let vc = to_chars(v.as_str());
                                    proof {
                                        assert(e.contains_key(name@));
                                        assert(e[name@] == env@[name@]@);
                                    }
                                    if vc.len() > 0 {
                                        vc
                                    } else {
                                        dflt
                                    }
                                },
                                None => dflt,
                            };
                            append_chars(&mut out, chosen.as_slice());
                            proof {
                                assert(expr@.take(p as int) == name@);
                                appended = chosen@;
                                assert(find(expr@, ":-"@) == Some(p as int));
                                assert(lookup(expr@, e) == Ok::<Seq<char>, Seq<char>>(appended));
                            }
                        },
                        None => {
                            assert(seq![':', '-'] == ":-"@) by {
                                reveal_strlit(":-");
                            }
                            let name = from_chars(&expr);
                            match env.get(name.as_str()) {
                                Some(v) => {
                                    let vc = to_chars(v.as_str());
                                    append_chars(&mut out, vc.as_slice());
                                    proof {
                                        appended = vc@;
                                        assert(name@ == expr@);
                                        assert(e.contains_key(expr@));
                                        assert(e[expr@] == env@[expr@]@);
                                        assert(find(expr@, ":-"@) is None);
                                        assert(lookup(expr@, e) == Ok::<Seq<char>, Seq<char>>(appended));
                                    }
                                },
                                None => {
                                    return Err(ToolshedError::EnvVarNotSet { var: name });
                                },
                            }
                        },
                    }
                    proof {
                        assert(t.len() >= 2 && t[0] == '$' && t[1] == '{');
                        assert(interpolated(t, e) == prefixed(appended, interpolated(s@.skip(k + 1), e)));
                        lemma_prefixed_assoc(o, appended, interpolated(s@.skip(k + 1), e));
                    }
                    i = k + 1;
                },
            }
        } else {
            assert(t.drop_first() == s@.skip(i + 1));
            assert(t[0] == s@[i as int]);
            assert(!(t.len() >= 2 && t[0] == '$' && t[1] == '{'));
            let ghost o = out@;
            out.push(s[i]);
            proof {
                lemma_prefixed_assoc(o, seq![s@[i as int]], interpolated(s@.skip(i + 1), e));
                assert(o + seq![s@[i as int]] == out@);
            }
            i = i + 1;
        }
    }
    assert(s@.skip(n as int) == Seq::<char>::empty());
    Ok(from_chars(&out))
}


/// Fills in every value of `map` from `env`, as [`interpolate`] does; the
/// first value, in the order of the names, that names an unset variable
/// without a default makes the error.
pub fn interpolate_map(map: &NameMap<String>, env: &NameMap<String>) -> (r: Result<NameMap<String>, ToolshedError>)
    requires
        map.wf(),
        env.wf(),
    ensures
        r is Ok <==> forall|i: int|
            0 <= i < map.spec_len() ==> #[trigger] interpolated(map.values()[i]@, string_view(env@)) is Ok,
        r matches Ok(out) ==> {
            &&& out.wf()
            &&& out@.dom() == map@.dom()
            &&& forall|k: Seq<char>|
                #[trigger] map@.contains_key(k) ==> interpolated(map@[k]@, string_view(env@)) == Ok::<
                    Seq<char>,
                    Seq<char>,
                >(out@[k]@)
        },
        r matches Err(err) ==> exists|i: int|
            #![trigger map.values()[i]]
            0 <= i < map.spec_len() && (forall|j: int|
                0 <= j < i ==> #[trigger] interpolated(map.values()[j]@, string_view(env@)) is Ok)
                && (interpolated(map.values()[i]@, string_view(env@)) matches Err(name)
                && err matches ToolshedError::EnvVarNotSet { var } && var@ == name),
{
    let ghost e = string_view(env@);
    let mut out: NameMap<String> = NameMap::new();
    let n = map.len();
    for i in 0..n
        invariant
            n == map.spec_len(),
            map.wf(),
            env.wf(),
            e == string_view(env@),
            out.wf(),
            out@.dom() == map.keys().take(i as int).to_set(),
            forall|j: int|
                0 <= j < i ==> #[trigger] interpolated(map.values()[j]@, e) == Ok::<Seq<char>, Seq<char>>(
                    out@[map.keys()[j]]@,
                ),
    {
        let k = map.key_at(i);
        let v = map.value_at(i);
        match interpolate(v.as_str(), env) {
            Ok(t) => {
                proof {
                    assert forall|j: int| 0 <= j < i implies map.keys()[j] != k@ by {
                        map.lemma_keys_distinct(j, i as int);
                    }
                }
                let ghost before = out@;
                out.insert(k.clone(), t);
                proof {
                    let a = map.keys().take(i as int);
                    let b = map.keys().take(i + 1);
                    assert(b == a.push(k@));
                    assert forall|x: Seq<char>| b.contains(x) <==> (a.contains(x) || x == k@) by {
                        if b.contains(x) {
                            let q = b.index_of(x);
                            if q < i {
                                assert(a[q] == x);
                            }
                        }
                        if a.contains(x) {
                            let q = a.index_of(x);
                            assert(b[q] == x);
                        }
                        if x == k@ {
                            assert(b[i as int] == x);
                        }
                    }
                    assert(out@.dom() =~= b.to_set());
                }
            },
            Err(err) => {
                assert(forall|j: int| 0 <= j < i ==> #[trigger] interpolated(map.values()[j]@, e) is Ok);
                assert(map.values()[i as int] == *v);
                return Err(err);
            },
        }
    }
    proof {
        assert(map.keys().take(n as int) == map.keys());
        assert forall|k: Seq<char>| #[trigger] map@.contains_key(k) implies interpolated(map@[k]@, e) == Ok::<Seq<char>, Seq<char>>(out@[k]@) by {
            map.lemma_contains(k);
            let j = map.keys().index_of(k);
            map.lemma_entry(j);
        }
        assert forall|k: Seq<char>| map@.dom().contains(k) <==> out@.dom().contains(k) by {
            map.lemma_contains(k);
        }
        assert(out@.dom() =~= map@.dom());
    }
    Ok(out)
}

} // verus!
