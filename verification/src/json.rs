//! JSON values as the library holds them, and their mathematical model.

use vstd::prelude::*;
use crate::namemap::{lemma_str_lt_irreflexive, lemma_str_lt_transitive, str_lt, str_less};
use crate::text::{from_chars, push_str};

verus! {

/// A JSON value. A number is held as the text that JSON writes for it; an
/// object holds its members in order.
#[derive(Debug, PartialEq, Eq)]
pub enum JsonValue {
    Null,
    Bool(bool),
    Number(String),
    String(String),
    Array(Vec<JsonValue>),
    Object(Vec<(String, JsonValue)>),
}

/// The model of a [`JsonValue`]: text as character sequences, arrays and
/// objects as sequences.
pub enum Json {
    Null,
    Bool(bool),
    Number(Seq<char>),
    Str(Seq<char>),
    Array(Seq<Json>),
    Object(Seq<(Seq<char>, Json)>),
}

/// The model of a value.
pub open spec fn json_view(v: JsonValue) -> Json
    decreases v, 0nat,
{
    match v {
        JsonValue::Null => Json::Null,
        JsonValue::Bool(b) => Json::Bool(b),
        JsonValue::Number(n) => Json::Number(n@),
        JsonValue::String(s) => Json::Str(s@),
        JsonValue::Array(a) => Json::Array(items_view(a@, a@.len())),
        JsonValue::Object(m) => Json::Object(members_view(m@, m@.len())),
    }
}

/// The models of the first `n` items.
pub open spec fn items_view(a: Seq<JsonValue>, n: nat) -> Seq<Json>
    decreases a, n,
{
    if n == 0 || n > a.len() {
        seq![]
    } else {
        items_view(a, (n - 1) as nat).push(json_view(a[n - 1]))
    }
}

/// The models of the first `n` members.
pub open spec fn members_view(m: Seq<(String, JsonValue)>, n: nat) -> Seq<(Seq<char>, Json)>
    decreases m, n,
{
    if n == 0 || n > m.len() {
        seq![]
    } else {
        members_view(m, (n - 1) as nat).push((m[n - 1].0@, json_view(m[n - 1].1)))
    }
}

impl View for JsonValue {
    type V = Json;

    open spec fn view(&self) -> Json {
        json_view(*self)
    }
}


/// `n` items have `n` models, each that of its item.
pub proof fn lemma_items_view(a: Seq<JsonValue>, n: nat)
    requires
        n <= a.len(),
    ensures
        items_view(a, n).len() == n,
        forall|j: int| 0 <= j < n ==> #[trigger] items_view(a, n)[j] == json_view(a[j]),
    decreases n,
{
    if n > 0 {
        lemma_items_view(a, (n - 1) as nat);
    }
}

/// `n` members have `n` models, each that of its member.
pub proof fn lemma_members_view(m: Seq<(String, JsonValue)>, n: nat)
    requires
        n <= m.len(),
    ensures
        members_view(m, n).len() == n,
        forall|j: int|
            0 <= j < n ==> #[trigger] members_view(m, n)[j] == (m[j].0@, json_view(m[j].1)),
    decreases n,
{
    if n > 0 {
        lemma_members_view(m, (n - 1) as nat);
    }
}

/// The lowercase hexadecimal digit for `d`.
pub open spec fn hex_digit(d: nat) -> char {
    if d < 10 {
        ((d + 48) as int) as char
    } else {
        ((d + 87) as int) as char
    }
}

/// How a character is written inside a JSON string: quote, backslash and
/// control characters escaped, everything else as it is.
pub open spec fn escaped(c: char) -> Seq<char> {
    if c == '"' {
        seq!['\\', '"']
    } else if c == '\\' {
        seq!['\\', '\\']
    } else if c == '\x08' {
        seq!['\\', 'b']
    } else if c == '\x0c' {
        seq!['\\', 'f']
    } else if c == '\n' {
        seq!['\\', 'n']
    } else if c == '\r' {
        seq!['\\', 'r']
    } else if c == '\t' {
        seq!['\\', 't']
    } else if (c as u32) < 32 {
        seq!['\\', 'u', '0', '0', hex_digit(((c as u32) / 16) as nat), hex_digit(((c as u32) % 16) as nat)]
    } else {
        seq![c]
    }
}

/// The escaped form of the first `n` characters of `s`.
pub open spec fn escape_fold(s: Seq<char>, n: nat) -> Seq<char>
    decreases n,
{
    if n == 0 || n > s.len() {
        seq![]
    } else {
        escape_fold(s, (n - 1) as nat) + escaped(s[n - 1])
    }
}

/// `s` as a JSON string literal.
pub open spec fn quoted(s: Seq<char>) -> Seq<char> {
    seq!['"'] + escape_fold(s, s.len()) + seq!['"']
}

/// The compact JSON text of a value: no white space, members and items
/// separated by commas, in the order the value holds them.
pub open spec fn json_text(v: Json) -> Seq<char>
    decreases v, 0nat,
{
    match v {
        Json::Null => "null"@,
        Json::Bool(b) => if b {
            "true"@
        } else {
            "false"@
        },
        Json::Number(n) => n,
        Json::Str(s) => quoted(s),
        Json::Array(a) => seq!['['] + items_text(a, a.len()) + seq![']'],
        Json::Object(m) => seq!['{'] + members_text(m, m.len()) + seq!['}'],
    }
}

/// The texts of the first `n` items, separated by commas.
pub open spec fn items_text(a: Seq<Json>, n: nat) -> Seq<char>
    decreases a, n,
{
    if n == 0 || n > a.len() {
        seq![]
    } else if n == 1 {
        json_text(a[0])
    } else {
        items_text(a, (n - 1) as nat) + seq![','] + json_text(a[n - 1])
    }
}

/// The texts of the first `n` members, `"key":value`, separated by commas.
pub open spec fn members_text(m: Seq<(Seq<char>, Json)>, n: nat) -> Seq<char>
    decreases m, n,
{
    if n == 0 || n > m.len() {
        seq![]
    } else if n == 1 {
        quoted(m[0].0) + seq![':'] + json_text(m[0].1)
    } else {
        members_text(m, (n - 1) as nat) + seq![','] + quoted(m[n - 1].0) + seq![':'] + json_text(
            m[n - 1].1,
        )
    }
}

fn hex_char(d: u32) -> (c: char)
    requires
        d < 16,
    ensures
        c == hex_digit(d as nat),
{
    let b: u8 = if d < 10 {
        (d + 48) as u8
    } else {
        (d + 87) as u8
    };
    b as char
}

/// Appends `s` as a JSON string literal to `out`.
pub fn write_quoted(s: &str, out: &mut Vec<char>)
    ensures
        final(out)@ == old(out)@ + quoted(s@),
{
    let ghost start = out@;
    let chars = crate::text::to_chars(s);
    out.push('"');
    let n = chars.len();
    for i in 0..n
        invariant
            n == chars@.len() == s@.len(),
            chars@ == s@,
            out@ == start + seq!['"'] + escape_fold(s@, i as nat),
    {
        let c = chars[i];
        let code: u32 = c as u32;
        let ghost before = out@;
        if c == '"' {
            out.push('\\');
            out.push('"');
        } else if c == '\\' {
            out.push('\\');
            out.push('\\');
        } else if c == '\x08' {
            out.push('\\');
            out.push('b');
        } else if c == '\x0c' {
            out.push('\\');
            out.push('f');
        } else if c == '\n' {
            out.push('\\');
            out.push('n');
        } else if c == '\r' {
            out.push('\\');
            out.push('r');
        } else if c == '\t' {
            out.push('\\');
            out.push('t');
        } else if code < 32 {
            out.push('\\');
            out.push('u');
            out.push('0');
            out.push('0');
            out.push(hex_char(code / 16));
            out.push(hex_char(code % 16));
        } else {
            out.push(c);
        }
        assert(out@ == before + escaped(s@[i as int]));
        assert(start + seq!['"'] + escape_fold(s@, (i + 1) as nat) == (start + seq!['"']
            + escape_fold(s@, i as nat)) + escaped(s@[i as int]));
    }
    out.push('"');
}

/// Appends the compact JSON text of `v` to `out`.
pub fn write_json(v: &JsonValue, out: &mut Vec<char>)
    ensures
        final(out)@ == old(out)@ + json_text(v@),
    decreases v,
{
    let ghost start = out@;
    match v {
        JsonValue::Null => push_str(out, "null"),
        JsonValue::Bool(b) => if *b {
            push_str(out, "true")
        } else {
            push_str(out, "false")
        },
        JsonValue::Number(n) => push_str(out, n.as_str()),
        JsonValue::String(s) => write_quoted(s.as_str(), out),
        JsonValue::Array(a) => {
            let ghost items = items_view(a@, a@.len());
            proof {
                lemma_items_view(a@, a@.len());
                assert(decreases_to!(*v => *a));
            }
            out.push('[');
            let n = a.len();
            for i in 0..n
                invariant
                    *v == JsonValue::Array(*a),
                    decreases_to!(*v => *a),
                    n == a@.len() == items.len(),
                    items == items_view(a@, a@.len()),
                    forall|j: int| 0 <= j < n ==> #[trigger] items[j] == json_view(a@[j]),
                    out@ == start + seq!['['] + items_text(items, i as nat),
            {
                let ghost before = out@;
                if i > 0 {
                    out.push(',');
                }
                proof {
                    assert(decreases_to!(*a => a[i as int]));
                }
                write_json(&a[i], out);
                assert(items[i as int] == a@[i as int]@);
                assert(out@ == start + seq!['['] + items_text(items, (i + 1) as nat));
            }
            out.push(']');
        },
        JsonValue::Object(m) => {
            let ghost members = members_view(m@, m@.len());
            proof {
                lemma_members_view(m@, m@.len());
                assert(decreases_to!(*v => *m));
            }
            out.push('{');
            let n = m.len();
            for i in 0..n
                invariant
                    *v == JsonValue::Object(*m),
                    decreases_to!(*v => *m),
                    n == m@.len() == members.len(),
                    members == members_view(m@, m@.len()),
                    forall|j: int|
                        0 <= j < n ==> #[trigger] members[j] == (m@[j].0@, json_view(m@[j].1)),
                    out@ == start + seq!['{'] + members_text(members, i as nat),
            {
                if i > 0 {
                    out.push(',');
                }
                write_quoted(m[i].0.as_str(), out);
                out.push(':');
                proof {
                    assert(decreases_to!(*m => m[i as int]));
                    assert(decreases_to!(m[i as int] => m[i as int].1));
                }
                write_json(&m[i].1, out);
                assert(members[i as int] == (m@[i as int].0@, m@[i as int].1@));
                assert(out@ == start + seq!['{'] + members_text(members, (i + 1) as nat));
            }
            out.push('}');
        },
    }
}


/// `x` placed before the first member whose key sorts after its own: into a
/// sequence sorted by key, this keeps it sorted.
pub open spec fn insert_member(s: Seq<(Seq<char>, Json)>, x: (Seq<char>, Json)) -> Seq<(Seq<char>, Json)>
    decreases s.len(),
{
    if s.len() == 0 {
        seq![x]
    } else if str_lt(x.0, s[0].0) {
        seq![x] + s
    } else {
        seq![s[0]] + insert_member(s.drop_first(), x)
    }
}

/// The canonical form of a value: the members of every object sorted by
/// key (members with equal keys keep their order), at every depth.
pub open spec fn canonical(v: Json) -> Json
    decreases v, 0nat,
{
    match v {
        Json::Array(a) => Json::Array(canonical_items(a, a.len())),
        Json::Object(m) => Json::Object(canonical_members(m, m.len())),
        _ => v,
    }
}

/// The canonical forms of the first `n` items.
pub open spec fn canonical_items(a: Seq<Json>, n: nat) -> Seq<Json>
    decreases a, n,
{
    if n == 0 || n > a.len() {
        seq![]
    } else {
        canonical_items(a, (n - 1) as nat).push(canonical(a[n - 1]))
    }
}

/// The first `n` members, with canonical values, sorted by key.
pub open spec fn canonical_members(m: Seq<(Seq<char>, Json)>, n: nat) -> Seq<(Seq<char>, Json)>
    decreases m, n,
{
    if n == 0 || n > m.len() {
        seq![]
    } else {
        insert_member(canonical_members(m, (n - 1) as nat), (m[n - 1].0, canonical(m[n - 1].1)))
    }
}

/// Inserting before the first member whose key sorts after `x`'s.
proof fn lemma_insert_member(s: Seq<(Seq<char>, Json)>, x: (Seq<char>, Json), j: int)
    requires
        0 <= j <= s.len(),
        forall|k: int| 0 <= k < j ==> !str_lt(x.0, #[trigger] s[k].0),
        j < s.len() ==> str_lt(x.0, s[j].0),
    ensures
        insert_member(s, x) == s.insert(j, x),
    decreases s.len(),
{
    if s.len() == 0 {
        assert(s.insert(j, x) =~= seq![x]);
    } else if j == 0 {
        assert(s.insert(0, x) =~= seq![x] + s);
    } else {
        let t = s.drop_first();
        assert forall|k: int| 0 <= k < j - 1 implies !str_lt(x.0, #[trigger] t[k].0) by {
            assert(t[k] == s[k + 1]);
        }
        lemma_insert_member(t, x, j - 1);
        assert(s.insert(j, x) =~= seq![s[0]] + t.insert(j - 1, x));
    }
}

/// The members' keys in non-decreasing order.
pub open spec fn keys_sorted(s: Seq<(Seq<char>, Json)>) -> bool {
    forall|i: int, j: int| 0 <= i < j < s.len() ==> !str_lt(#[trigger] s[j].0, #[trigger] s[i].0)
}

/// Each member of `insert_member(s, x)` is `x` or a member of `s`, and the
/// result is one longer.
proof fn lemma_insert_member_members(s: Seq<(Seq<char>, Json)>, x: (Seq<char>, Json))
    ensures
        insert_member(s, x).len() == s.len() + 1,
        forall|k: int| 0 <= k < insert_member(s, x).len() ==> #[trigger] insert_member(s, x)[k] == x
            || s.contains(insert_member(s, x)[k]),
    decreases s.len(),
{
    if s.len() > 0 && !str_lt(x.0, s[0].0) {
        let t = s.drop_first();
        lemma_insert_member_members(t, x);
        let r = insert_member(s, x);
        assert forall|k: int| 0 <= k < r.len() implies #[trigger] r[k] == x || s.contains(r[k]) by {
            if k == 0 {
                assert(s[0] == r[0]);
            } else {
                assert(r[k] == insert_member(t, x)[k - 1]);
                if insert_member(t, x)[k - 1] != x {
                    let j = choose|j: int| 0 <= j < t.len() && t[j] == insert_member(t, x)[k - 1];
                    assert(s[j + 1] == t[j]);
                }
            }
        }
    } else if s.len() > 0 {
        let r = insert_member(s, x);
        assert forall|k: int| 0 <= k < r.len() implies #[trigger] r[k] == x || s.contains(r[k]) by {
            if k > 0 {
                assert(r[k] == s[k - 1]);
            }
        }
    }
}

/// Inserting into a sorted sequence keeps it sorted.
proof fn lemma_insert_member_sorted(s: Seq<(Seq<char>, Json)>, x: (Seq<char>, Json))
    requires
        keys_sorted(s),
    ensures
        keys_sorted(insert_member(s, x)),
    decreases s.len(),
{
    lemma_insert_member_members(s, x);
    if s.len() == 0 {
    } else if str_lt(x.0, s[0].0) {
        let r = insert_member(s, x);
        assert forall|i: int, j: int| 0 <= i < j < r.len() implies !str_lt(#[trigger] r[j].0, #[trigger] r[i].0) by {
            if i == 0 {
                assert(r[j] == s[j - 1]);
                if str_lt(s[j - 1].0, x.0) {
                    lemma_str_lt_transitive(s[j - 1].0, x.0, s[0].0);
                    if j - 1 == 0 {
                        lemma_str_lt_irreflexive(s[0].0);
                    }
                }
            } else {
                assert(r[i] == s[i - 1] && r[j] == s[j - 1]);
            }
        }
    } else {
        let t = s.drop_first();
        assert(keys_sorted(t)) by {
            assert forall|i: int, j: int| 0 <= i < j < t.len() implies !str_lt(#[trigger] t[j].0, #[trigger] t[i].0) by {
                assert(t[i] == s[i + 1] && t[j] == s[j + 1]);
            }
        }
        lemma_insert_member_sorted(t, x);
        lemma_insert_member_members(t, x);
        let r = insert_member(s, x);
        let rt = insert_member(t, x);
        assert forall|i: int, j: int| 0 <= i < j < r.len() implies !str_lt(#[trigger] r[j].0, #[trigger] r[i].0) by {
            assert(r[j] == rt[j - 1]);
            if i == 0 {
                assert(r[0] == s[0]);
                if rt[j - 1] != x {
                    let m = choose|m: int| 0 <= m < t.len() && t[m] == rt[j - 1];
                    assert(s[m + 1] == t[m]);
                }
            } else {
                assert(r[i] == rt[i - 1]);
            }
        }
    }
}

/// The first `n` members, canonicalised, are sorted by key and `n` in
/// number.
pub proof fn lemma_canonical_members_sorted(m: Seq<(Seq<char>, Json)>, n: nat)
    requires
        n <= m.len(),
    ensures
        keys_sorted(canonical_members(m, n)),
        canonical_members(m, n).len() == n,
    decreases n,
{
    if n > 0 {
        lemma_canonical_members_sorted(m, (n - 1) as nat);
        let x = (m[n - 1].0, canonical(m[n - 1].1));
        lemma_insert_member_sorted(canonical_members(m, (n - 1) as nat), x);
        lemma_insert_member_members(canonical_members(m, (n - 1) as nat), x);
    }
}

/// In the canonical form of an object the keys are sorted, and it has as
/// many members as the object.
pub proof fn lemma_canonical_object_sorted(m: Seq<(Seq<char>, Json)>)
    ensures
        canonical(Json::Object(m)) matches Json::Object(c) && keys_sorted(c) && c.len() == m.len(),
{
    lemma_canonical_members_sorted(m, m.len());
}

/// The canonical form of `v`: the members of every object sorted by key.
pub fn canonicalize(v: &JsonValue) -> (r: JsonValue)
    ensures
        r@ == canonical(v@),
    decreases v,
{
    match v {
        JsonValue::Null => JsonValue::Null,
        JsonValue::Bool(b) => JsonValue::Bool(*b),
        JsonValue::Number(n) => JsonValue::Number(n.clone()),
        JsonValue::String(s) => JsonValue::String(s.clone()),
        JsonValue::Array(a) => {
            let ghost items = items_view(a@, a@.len());
            proof {
                lemma_items_view(a@, a@.len());
                assert(decreases_to!(*v => *a));
            }
            let mut out: Vec<JsonValue> = Vec::new();
            let n = a.len();
            for i in 0..n
                invariant
                    *v == JsonValue::Array(*a),
                    decreases_to!(*v => *a),
                    n == a@.len() == items.len(),
                    items == items_view(a@, a@.len()),
                    forall|j: int| 0 <= j < n ==> #[trigger] items[j] == json_view(a@[j]),
                    out@.len() == i,
                    items_view(out@, i as nat) == canonical_items(items, i as nat),
            {
                proof {
                    assert(decreases_to!(*a => a[i as int]));
                }
                let c = canonicalize(&a[i]);
                let ghost prev = out@;
                out.push(c);
                proof {
                    assert(out@.drop_last() == prev);
                    assert(items_view(out@, i as nat) == items_view(prev, i as nat)) by {
                        lemma_items_view(out@, i as nat);
                        lemma_items_view(prev, i as nat);
                        assert(items_view(out@, i as nat) =~= items_view(prev, i as nat));
                    }
                    assert(items[i as int] == a@[i as int]@);
                }
            }
            JsonValue::Array(out)
        },
        JsonValue::Object(m) => {
            let ghost members = members_view(m@, m@.len());
            proof {
                lemma_members_view(m@, m@.len());
                assert(decreases_to!(*v => *m));
            }
            let mut out: Vec<(String, JsonValue)> = Vec::new();
            let n = m.len();
            for i in 0..n
                invariant
                    *v == JsonValue::Object(*m),
                    decreases_to!(*v => *m),
                    n == m@.len() == members.len(),
                    members == members_view(m@, m@.len()),
                    forall|j: int|
                        0 <= j < n ==> #[trigger] members[j] == (m@[j].0@, json_view(m@[j].1)),
                    members_view(out@, out@.len()) == canonical_members(members, i as nat),
            {
                proof {
                    assert(decreases_to!(*m => m[i as int]));
                    assert(decreases_to!(m[i as int] => m[i as int].1));
                }
                let c = canonicalize(&m[i].1);
                let key = m[i].0.clone();
                let ghost cur = members_view(out@, out@.len());
                proof {
                    lemma_members_view(out@, out@.len());
                }
                let mut j: usize = 0;
                while j < out.len() && !str_less(key.as_str(), out[j].0.as_str())
                    invariant
                        j <= out@.len(),
                        cur == members_view(out@, out@.len()),
                        cur.len() == out@.len(),
                        forall|k: int| 0 <= k < out@.len() ==> #[trigger] cur[k] == (out@[k].0@, json_view(out@[k].1)),
                        forall|k: int| 0 <= k < j ==> !str_lt(key@, #[trigger] cur[k].0),
                    decreases out@.len() - j,
                {
                    j = j + 1;
                }
                let ghost x = (key@, c@);
                proof {
                    lemma_insert_member(cur, x, j as int);
                }
                let ghost prev = out@;
                out.insert(j, (key, c));
                proof {
                    lemma_members_view(out@, out@.len());
                    assert(members_view(out@, out@.len()) =~= cur.insert(j as int, x));
                    assert(members[i as int] == (m@[i as int].0@, m@[i as int].1@));
                }
            }
            JsonValue::Object(out)
        },
    }
}



/// A copy of `v`.
pub fn clone_json(v: &JsonValue) -> (r: JsonValue)
    ensures
        r@ == v@,
    decreases v,
{
    match v {
        JsonValue::Null => JsonValue::Null,
        JsonValue::Bool(b) => JsonValue::Bool(*b),
        JsonValue::Number(n) => JsonValue::Number(n.clone()),
        JsonValue::String(s) => JsonValue::String(s.clone()),
        JsonValue::Array(a) => {
            proof {
                lemma_items_view(a@, a@.len());
                assert(decreases_to!(*v => *a));
            }
            let mut out: Vec<JsonValue> = Vec::new();
            let n = a.len();
            for i in 0..n
                invariant
                    *v == JsonValue::Array(*a),
                    decreases_to!(*v => *a),
                    n == a@.len(),
                    out@.len() == i,
                    forall|j: int| 0 <= j < i ==> json_view(#[trigger] out@[j]) == json_view(a@[j]),
            {
                proof {
                    assert(decreases_to!(*a => a[i as int]));
                }
                out.push(clone_json(&a[i]));
            }
            proof {
                lemma_items_view(out@, n as nat);
                lemma_items_view(a@, n as nat);
                assert(items_view(out@, n as nat) =~= items_view(a@, n as nat));
            }
            JsonValue::Array(out)
        },
        JsonValue::Object(m) => {
            proof {
                lemma_members_view(m@, m@.len());
                assert(decreases_to!(*v => *m));
            }
            let mut out: Vec<(String, JsonValue)> = Vec::new();
            let n = m.len();
            for i in 0..n
                invariant
                    *v == JsonValue::Object(*m),
                    decreases_to!(*v => *m),
                    n == m@.len(),
                    out@.len() == i,
                    forall|j: int| 0 <= j < i ==> (#[trigger] out@[j]).0@ == m@[j].0@ && json_view(out@[j].1) == json_view(m@[j].1),
            {
                proof {
                    assert(decreases_to!(*m => m[i as int]));
                    assert(decreases_to!(m[i as int] => m[i as int].1));
                }
                let c = clone_json(&m[i].1);
                out.push((m[i].0.clone(), c));
            }
            proof {
                lemma_members_view(out@, n as nat);
                lemma_members_view(m@, n as nat);
                assert(members_view(out@, n as nat) =~= members_view(m@, n as nat));
            }
            JsonValue::Object(out)
        },
    }
}

/// The value of the first member named `key`.
pub open spec fn member(m: Seq<(Seq<char>, Json)>, key: Seq<char>) -> Option<Json>
    decreases m.len(),
{
    if m.len() == 0 {
        None
    } else if m[0].0 == key {
        Some(m[0].1)
    } else {
        member(m.drop_first(), key)
    }
}

/// The member `key` of an object; nothing for any other value.
pub open spec fn field_of(v: Json, key: Seq<char>) -> Option<Json> {
    match v {
        Json::Object(m) => member(m, key),
        _ => None,
    }
}

/// The text of a string value.
pub open spec fn text_of(v: Option<Json>) -> Option<Seq<char>> {
    match v {
        Some(Json::Str(s)) => Some(s),
        _ => None,
    }
}

/// A boolean value.
pub open spec fn bool_of(v: Option<Json>) -> Option<bool> {
    match v {
        Some(Json::Bool(b)) => Some(b),
        _ => None,
    }
}

/// A number that is a non-negative integer that fits 64 bits.
pub open spec fn u64_of(v: Option<Json>) -> Option<u64> {
    match v {
        Some(Json::Number(t)) => if t.len() > 0 && t[0] != '+' {
            crate::text::parse_u64(t)
        } else {
            None
        },
        _ => None,
    }
}

/// A number that is an integer that fits 64 bits with a sign.
pub open spec fn i64_of(v: Option<Json>) -> Option<i64> {
    match v {
        Some(Json::Number(t)) => if t.len() > 1 && t[0] == '-' && t[1] != '+' {
            match crate::text::parse_u64(t.drop_first()) {
                Some(n) => if n <= 0x8000_0000_0000_0000 {
                    Some((0 - n) as i64)
                } else {
                    None
                },
                None => None,
            }
        } else if t.len() > 0 && t[0] != '+' {
            match crate::text::parse_u64(t) {
                Some(n) => if n <= 0x7fff_ffff_ffff_ffff {
                    Some(n as i64)
                } else {
                    None
                },
                None => None,
            }
        } else {
            None
        },
        _ => None,
    }
}

/// The member `key` of `v`, when `v` is an object that has one.
pub fn field<'a>(v: &'a JsonValue, key: &str) -> (r: Option<&'a JsonValue>)
    ensures
        match field_of(v@, key@) {
            Some(j) => r matches Some(x) && x@ == j,
            None => r is None,
        },
{
    match v {
        JsonValue::Object(m) => {
            let ghost mv = members_view(m@, m@.len());
            proof {
                lemma_members_view(m@, m@.len());
            }
            let n = m.len();
            let mut i: usize = 0;
            assert(mv.skip(0) == mv);
            while i < n
                invariant
                    *v == JsonValue::Object(*m),
                    n == m@.len() == mv.len(),
                    mv == members_view(m@, m@.len()),
                    forall|j: int| 0 <= j < n ==> #[trigger] mv[j] == (m@[j].0@, json_view(m@[j].1)),
                    i <= n,
                    member(mv, key@) == member(mv.skip(i as int), key@),
                decreases n - i,
            {
                let ghost t = mv.skip(i as int);
                assert(t[0] == mv[i as int]);
                assert(t.drop_first() == mv.skip(i + 1));
                if crate::text::chars_eq(&crate::text::to_chars(m[i].0.as_str()), &crate::text::to_chars(key)) {
                    return Some(&m[i].1);
                }
                i = i + 1;
            }
            None
        },
        _ => None,
    }
}

/// The text of `v`, when it is a string.
pub fn as_text(v: Option<&JsonValue>) -> (r: Option<String>)
    ensures
        match v {
            Some(x) => match text_of(Some(x@)) {
                Some(t) => r matches Some(s) && s@ == t,
                None => r is None,
            },
            None => r is None,
        },
{
    match v {
        Some(JsonValue::String(s)) => Some(s.clone()),
        _ => None,
    }
}

/// `v`, when it is a boolean.
pub fn as_bool(v: Option<&JsonValue>) -> (r: Option<bool>)
    ensures
        r == match v {
            Some(x) => bool_of(Some(x@)),
            None => None,
        },
{
    match v {
        Some(JsonValue::Bool(b)) => Some(*b),
        _ => None,
    }
}

/// `v`, when it is a non-negative integer that fits 64 bits.
pub fn as_u64(v: Option<&JsonValue>) -> (r: Option<u64>)
    ensures
        r == match v {
            Some(x) => u64_of(Some(x@)),
            None => None,
        },
{
    match v {
        Some(JsonValue::Number(t)) => {
            let c = crate::text::to_chars(t.as_str());
            if c.len() > 0 && c[0] != '+' {
                crate::text::parse_u64_vec(c.as_slice())
            } else {
                None
            }
        },
        _ => None,
    }
}

/// `v`, when it is an integer that fits 64 bits with a sign.
pub fn as_i64(v: Option<&JsonValue>) -> (r: Option<i64>)
    ensures
        r == match v {
            Some(x) => i64_of(Some(x@)),
            None => None,
        },
{
    match v {
        Some(JsonValue::Number(t)) => {
            let c = crate::text::to_chars(t.as_str());
            if c.len() > 1 && c[0] == '-' && c[1] != '+' {
                let rest = crate::text::subvec(c.as_slice(), 1, c.len());
                assert(rest@ == c@.drop_first());
                match crate::text::parse_u64_vec(rest.as_slice()) {
                    Some(n) => if n <= 0x8000_0000_0000_0000 {
                        if n == 0x8000_0000_0000_0000 {
                            Some(i64::MIN)
                        } else {
                            Some(0 - (n as i64))
                        }
                    } else {
                        None
                    },
                    None => None,
                }
            } else if c.len() > 0 && c[0] != '+' {
                match crate::text::parse_u64_vec(c.as_slice()) {
                    Some(n) => if n <= 0x7fff_ffff_ffff_ffff {
                        Some(n as i64)
                    } else {
                        None
                    },
                    None => None,
                }
            } else {
                None
            }
        },
        _ => None,
    }
}


/// The compact JSON text of `v`.
pub fn json_string(v: &JsonValue) -> (r: String)
    ensures
        r@ == json_text(v@),
{
    let mut out: Vec<char> = Vec::new();
    write_json(v, &mut out);
    from_chars(&out)
}

} // verus!
