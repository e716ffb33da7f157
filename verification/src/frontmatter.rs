//! The `---`-delimited header of the markdown files that describe skills,
//! agents, rules and workflows: `key: value` lines, indented continuation
//! lines, and optional quotes around a value.

use vstd::prelude::*;
use crate::error::ToolshedError;
use crate::namemap::{NameMap, string_view, lemma_string_view_insert};
use crate::text::{
    append_chars, find, find_vec, occurs_at, trim_end, is_ws, join, from_chars, lemma_find_from, lines, split_lines, starts_with,
    starts_with_vec, subvec, to_chars, trim, trim_start, trim_start_vec, trim_vec, views,
};

verus! {

/// `s` without one pair of matching double or single quotes around it.
pub open spec fn unquote(s: Seq<char>) -> Seq<char> {
    if s.len() >= 2 && ((s[0] == '"' && s.last() == '"') || (s[0] == '\'' && s.last() == '\'')) {
        s.subrange(1, s.len() - 1)
    } else {
        s
    }
}

/// What has been read of a header: the finished entries, the key being
/// read, and its value so far.
pub struct MetaState {
    pub map: Map<Seq<char>, Seq<char>>,
    pub key: Option<Seq<char>>,
    pub value: Seq<char>,
}

/// The entries with the pending key, if any, stored.
pub open spec fn meta_flush(st: MetaState) -> Map<Seq<char>, Seq<char>> {
    match st.key {
        Some(k) => st.map.insert(k, unquote(trim(st.value))),
        None => st.map,
    }
}

/// Reading one header line: an indented line continues the pending value,
/// a line with a colon starts a new key, any other line is ignored.
pub open spec fn meta_step(st: MetaState, line: Seq<char>) -> MetaState {
    if line.len() > 0 && (line[0] == ' ' || line[0] == '\t') {
        if st.key is Some {
            MetaState {
                value: if st.value.len() > 0 {
                    st.value.push('\n') + trim(line)
                } else {
                    trim(line)
                },
                ..st
            }
        } else {
            st
        }
    } else {
        match find(line, seq![':']) {
            Some(c) => MetaState {
                map: meta_flush(st),
                key: Some(trim(line.take(c))),
                value: trim(line.skip(c + 1)),
            },
            None => st,
        }
    }
}

/// The state after reading the first `i` lines.
pub open spec fn meta_fold(lines: Seq<Seq<char>>, i: nat) -> MetaState
    decreases i,
{
    if i == 0 || i > lines.len() {
        MetaState { map: Map::empty(), key: None, value: seq![] }
    } else {
        meta_step(meta_fold(lines, (i - 1) as nat), lines[i - 1])
    }
}

/// The entries of a header block.
pub open spec fn meta_of(block: Seq<char>) -> Map<Seq<char>, Seq<char>> {
    let ls = lines(block);
    meta_flush(meta_fold(ls, ls.len()))
}

/// `s` without its opening `---` and the newline after it, when the text,
/// after leading whitespace, opens with `---`.
pub open spec fn after_open(s: Seq<char>) -> Seq<char> {
    let a = trim_start(s).skip(3);
    if a.len() > 0 && a[0] == '\n' {
        a.skip(1)
    } else {
        a
    }
}

/// Where the closing `\n---` stands in what follows the opening delimiter,
/// if the text has a header at all.
pub open spec fn close_pos(s: Seq<char>) -> Option<int> {
    if starts_with(trim_start(s), seq!['-', '-', '-']) {
        find(after_open(s), seq!['\n', '-', '-', '-'])
    } else {
        None
    }
}

/// The header entries of `s` and its body: with no complete header, no
/// entries and the whole text; otherwise the entries of the lines between
/// the delimiters and what follows the closing `---` and one newline.
pub open spec fn frontmatter(s: Seq<char>) -> (Map<Seq<char>, Seq<char>>, Seq<char>) {
    match close_pos(s) {
        None => (Map::empty(), s),
        Some(pos) => {
            let rest = after_open(s).skip(pos + 4);
            let body = if rest.len() > 0 && rest[0] == '\n' {
                rest.skip(1)
            } else {
                rest
            };
            (meta_of(after_open(s).take(pos)), body)
        },
    }
}

/// Whether a header line is indented, and so continues the value before it.
pub open spec fn indented(line: Seq<char>) -> bool {
    line.len() > 0 && (line[0] == ' ' || line[0] == '\t')
}

proof fn lemma_trim_start_head(s: Seq<char>)
    ensures
        trim_start(s).len() > 0 ==> !is_ws(trim_start(s)[0]),
    decreases s.len(),
{
    if s.len() > 0 && is_ws(s[0]) {
        lemma_trim_start_head(s.drop_first());
    }
}

proof fn lemma_trim_end_prefix(s: Seq<char>)
    ensures
        trim_end(s).len() <= s.len(),
        trim_end(s) == s.take(trim_end(s).len() as int),
        trim_end(s).len() > 0 ==> !is_ws(trim_end(s).last()),
    decreases s.len(),
{
    if s.len() > 0 && is_ws(s.last()) {
        lemma_trim_end_prefix(s.drop_last());
        assert(s.drop_last().take(trim_end(s).len() as int) =~= s.take(trim_end(s).len() as int));
    } else {
        assert(s.take(s.len() as int) =~= s);
    }
}

/// Trimming twice is trimming once.
proof fn lemma_trim_twice(s: Seq<char>)
    ensures
        trim(trim(s)) == trim(s),
{
    let a = trim_start(s);
    let t = trim_end(a);
    lemma_trim_start_head(s);
    lemma_trim_end_prefix(a);
    if t.len() > 0 {
        assert(t[0] == a[0]);
    }
    assert(trim_start(t) == t);
    assert(trim_end(t) == t);
}

/// The first colon of `k + ":" + v`, when `k` holds none, is the one after `k`.
proof fn lemma_first_colon(k: Seq<char>, v: Seq<char>)
    requires
        forall|j: int| 0 <= j < k.len() ==> k[j] != ':',
    ensures
        find(k + seq![':'] + v, seq![':']) == Some(k.len() as int),
{
    let line = k + seq![':'] + v;
    lemma_find_from(line, seq![':'], 0);
    assert(line.subrange(k.len() as int, k.len() + 1int) =~= seq![':']);
    assert(occurs_at(line, seq![':'], k.len() as int));
    match find(line, seq![':']) {
        Some(c) => {
            if c < k.len() {
                assert(line.subrange(c, c + 1)[0] == line[c]);
                assert(line[c] == k[c]);
            }
        },
        None => {},
    }
}

/// What the header holds for `trim(k)` once line `i`, `k: v`, has been read
/// and the lines up to `j`: the key is still being read with the value
/// `v`, or it has been stored with that value and another key is pending.
proof fn lemma_value_kept(ls: Seq<Seq<char>>, i: int, k: Seq<char>, v: Seq<char>, j: int)
    requires
        0 <= i < j <= ls.len(),
        ls[i] == k + seq![':'] + v,
        forall|x: int| 0 <= x < k.len() ==> k[x] != ':',
        forall|x: int| i <= x < ls.len() ==> !indented(#[trigger] ls[x]),
        forall|x: int|
            i < x < ls.len() ==> (find(#[trigger] ls[x], seq![':']) matches Some(c) ==> trim(ls[x].take(c)) != trim(k)),
    ensures
        ({
            let st = meta_fold(ls, j as nat);
            ||| st.key == Some(trim(k)) && st.value == trim(v)
            ||| st.key != Some(trim(k)) && st.map.contains_key(trim(k)) && st.map[trim(k)] == unquote(trim(v))
        }),
    decreases j,
{
    assert(meta_fold(ls, j as nat) == meta_step(meta_fold(ls, (j - 1) as nat), ls[j - 1]));
    assert(!indented(ls[j - 1]));
    if j == i + 1 {
        lemma_first_colon(k, v);
        assert(ls[i].take(k.len() as int) =~= k);
        assert(ls[i].skip(k.len() + 1int) =~= v);
    } else {
        lemma_value_kept(ls, i, k, v, j - 1);
        let st = meta_fold(ls, (j - 1) as nat);
        match find(ls[j - 1], seq![':']) {
            Some(c) => {
                assert(trim(ls[j - 1].take(c)) != trim(k));
                let m = meta_flush(st);
                if st.key == Some(trim(k)) {
                    lemma_trim_twice(v);
                    assert(m == st.map.insert(trim(k), unquote(trim(st.value))));
                } else {
                    assert(m.contains_key(trim(k)) && m[trim(k)] == st.map[trim(k)]);
                }
            },
            None => {},
        }
    }
}

/// The value of a header line `k: v` is everything after the first colon,
/// trimmed and unquoted, further colons kept: when no later line is
/// indented (so nothing continues it) and no later line names the same
/// key, the header's entries map `trim(k)` to `unquote(trim(v))`.
pub proof fn lemma_value_is_rest_of_line(ls: Seq<Seq<char>>, i: int, k: Seq<char>, v: Seq<char>)
    requires
        0 <= i < ls.len(),
        ls[i] == k + seq![':'] + v,
        forall|x: int| 0 <= x < k.len() ==> k[x] != ':',
        forall|x: int| i <= x < ls.len() ==> !indented(#[trigger] ls[x]),
        forall|x: int|
            i < x < ls.len() ==> (find(#[trigger] ls[x], seq![':']) matches Some(c) ==> trim(ls[x].take(c)) != trim(k)),
    ensures
        meta_flush(meta_fold(ls, ls.len())).contains_key(trim(k)),
        meta_flush(meta_fold(ls, ls.len()))[trim(k)] == unquote(trim(v)),
{
    lemma_value_kept(ls, i, k, v, ls.len() as int);
    let st = meta_fold(ls, ls.len());
    if st.key == Some(trim(k)) {
        lemma_trim_twice(v);
        assert(meta_flush(st) == st.map.insert(trim(k), unquote(trim(st.value))));
    } else {
        match st.key {
            Some(x) => {
                assert(x != trim(k));
                assert(meta_flush(st) == st.map.insert(x, unquote(trim(st.value))));
            },
            None => {},
        }
    }
}

/// The same law for a whole file: where the header block of `s` has such
/// a line, what `parse` gives for `trim(k)` is `unquote(trim(v))`.
pub proof fn lemma_parsed_value_is_rest_of_line(s: Seq<char>, pos: int, ls: Seq<Seq<char>>, i: int, k: Seq<char>, v: Seq<char>)
    requires
        close_pos(s) == Some(pos),
        ls == lines(after_open(s).take(pos)),
        0 <= i < ls.len(),
        ls[i] == k + seq![':'] + v,
        forall|x: int| 0 <= x < k.len() ==> k[x] != ':',
        forall|x: int| i <= x < ls.len() ==> !indented(#[trigger] ls[x]),
        forall|x: int|
            i < x < ls.len() ==> (find(#[trigger] ls[x], seq![':']) matches Some(c) ==> trim(ls[x].take(c)) != trim(k)),
    ensures
        frontmatter(s).0.contains_key(trim(k)),
        frontmatter(s).0[trim(k)] == unquote(trim(v)),
{
    lemma_value_is_rest_of_line(ls, i, k, v);
}

proof fn lemma_join_ends(parts: Seq<Seq<char>>, sep: Seq<char>)
    requires
        parts.len() > 0,
        forall|x: int| 0 <= x < parts.len() ==> (#[trigger] parts[x]).len() > 0,
    ensures
        join(parts, sep).len() > 0,
        join(parts, sep)[0] == parts[0][0],
        join(parts, sep).last() == parts.last().last(),
    decreases parts.len(),
{
    if parts.len() > 1 {
        let dl = parts.drop_last();
        assert(dl[0] == parts[0]);
        assert forall|x: int| 0 <= x < dl.len() implies (#[trigger] dl[x]).len() > 0 by {
            assert(dl[x] == parts[x]);
        }
        lemma_join_ends(dl, sep);
    }
}

/// A text that starts and ends with something other than whitespace is its
/// own trim.
proof fn lemma_trim_of_trimmed(t: Seq<char>)
    requires
        t.len() > 0,
        !is_ws(t[0]),
        !is_ws(t.last()),
    ensures
        trim(t) == t,
{
    assert(trim_start(t) == t);
}

/// The key of a header line stays pending with the value `val` through
/// lines that neither continue it nor start another key, and once another
/// key starts, it is stored with that value.
proof fn lemma_pending_kept(ls: Seq<Seq<char>>, c: int, tk: Seq<char>, val: Seq<char>, j: int)
    requires
        0 < c <= j <= ls.len(),
        meta_fold(ls, c as nat).key == Some(tk),
        meta_fold(ls, c as nat).value == val,
        forall|x: int| c <= x < ls.len() ==> !indented(#[trigger] ls[x]),
        forall|x: int|
            c <= x < ls.len() ==> (find(#[trigger] ls[x], seq![':']) matches Some(cc) ==> trim(ls[x].take(cc)) != tk),
    ensures
        ({
            let st = meta_fold(ls, j as nat);
            ||| st.key == Some(tk) && st.value == val
            ||| st.key != Some(tk) && st.map.contains_key(tk) && st.map[tk] == unquote(trim(val))
        }),
    decreases j,
{
    if j > c {
        lemma_pending_kept(ls, c, tk, val, j - 1);
        assert(meta_fold(ls, j as nat) == meta_step(meta_fold(ls, (j - 1) as nat), ls[j - 1]));
        assert(!indented(ls[j - 1]));
        let st = meta_fold(ls, (j - 1) as nat);
        match find(ls[j - 1], seq![':']) {
            Some(cc) => {
                let m = meta_flush(st);
                if st.key == Some(tk) {
                    assert(m == st.map.insert(tk, unquote(trim(st.value))));
                } else {
                    assert(m.contains_key(tk) && m[tk] == st.map[tk]);
                }
            },
            None => {},
        }
    }
}

/// The parts of a value that runs over lines `i..x`: the rest of line `i`
/// after its colon, then each continuation line, all trimmed.
pub open spec fn value_parts(ls: Seq<Seq<char>>, i: int, v: Seq<char>, x: int) -> Seq<Seq<char>> {
    seq![trim(v)] + ls.subrange(i + 1, x).map_values(|l: Seq<char>| trim(l))
}

proof fn lemma_continued(ls: Seq<Seq<char>>, i: int, k: Seq<char>, v: Seq<char>, x: int)
    requires
        0 <= i < x <= ls.len(),
        ls[i] == k + seq![':'] + v,
        forall|y: int| 0 <= y < k.len() ==> k[y] != ':',
        !indented(ls[i]),
        trim(v).len() > 0,
        forall|y: int| i < y < x ==> indented(#[trigger] ls[y]),
    ensures
        meta_fold(ls, x as nat).key == Some(trim(k)),
        meta_fold(ls, x as nat).value == join(value_parts(ls, i, v, x), "\n"@),
    decreases x,
{
    assert(meta_fold(ls, x as nat) == meta_step(meta_fold(ls, (x - 1) as nat), ls[x - 1]));
    if x == i + 1 {
        lemma_first_colon(k, v);
        assert(ls[i].take(k.len() as int) =~= k);
        assert(ls[i].skip(k.len() + 1int) =~= v);
        assert(value_parts(ls, i, v, x) =~= seq![trim(v)]);
    } else {
        lemma_continued(ls, i, k, v, x - 1);
        let p0 = value_parts(ls, i, v, x - 1);
        let p1 = value_parts(ls, i, v, x);
        assert(p1 =~= p0.push(trim(ls[x - 1])));
        assert(p1.drop_last() == p0);
        assert(p0[0] == trim(v));
        lemma_join_len(p0, "\n"@);
        reveal_strlit("\n");
        assert(join(p0, "\n"@).push('\n') + trim(ls[x - 1]) =~= join(p0, "\n"@) + "\n"@ + trim(ls[x - 1]));
    }
}

proof fn lemma_join_len(parts: Seq<Seq<char>>, sep: Seq<char>)
    requires
        parts.len() > 0,
    ensures
        join(parts, sep).len() >= parts[0].len(),
    decreases parts.len(),
{
    if parts.len() > 1 {
        assert(parts.drop_last()[0] == parts[0]);
        lemma_join_len(parts.drop_last(), sep);
    }
}

/// A value written over several lines: a line `k: v` followed by indented
/// lines `l1 .. ln` (none blank once trimmed) gives `trim(k)` the value
/// `trim(v)`, `trim(l1)`, ..., `trim(ln)` joined with line feeds (and then
/// unquoted), when `v` is not blank, the lines after the continuation are
/// not indented and none of them names the same key.
pub proof fn lemma_continued_value(ls: Seq<Seq<char>>, i: int, k: Seq<char>, v: Seq<char>, c: int)
    requires
        0 <= i < c <= ls.len(),
        ls[i] == k + seq![':'] + v,
        forall|y: int| 0 <= y < k.len() ==> k[y] != ':',
        !indented(ls[i]),
        trim(v).len() > 0,
        forall|y: int| i < y < c ==> indented(#[trigger] ls[y]) && trim(ls[y]).len() > 0,
        forall|y: int| c <= y < ls.len() ==> !indented(#[trigger] ls[y]),
        forall|y: int|
            c <= y < ls.len() ==> (find(#[trigger] ls[y], seq![':']) matches Some(cc) ==> trim(ls[y].take(cc)) != trim(k)),
    ensures
        meta_flush(meta_fold(ls, ls.len())).contains_key(trim(k)),
        meta_flush(meta_fold(ls, ls.len()))[trim(k)] == unquote(join(value_parts(ls, i, v, c), "\n"@)),
{
    lemma_continued(ls, i, k, v, c);
    let parts = value_parts(ls, i, v, c);
    let val = join(parts, "\n"@);
    assert forall|x: int| 0 <= x < parts.len() implies (#[trigger] parts[x]).len() > 0 by {
        if x > 0 {
            assert(parts[x] == trim(ls[i + x]));
        }
    }
    lemma_join_ends(parts, "\n"@);
    let last = parts.last();
    lemma_trim_start_head(v);
    lemma_trim_end_prefix(trim_start(v));
    assert(parts[0][0] == trim_start(v)[0]);
    if c - 1 > i {
        assert(last == trim(ls[c - 1]));
        lemma_trim_end_prefix(trim_start(ls[c - 1]));
    } else {
        assert(last == trim(v));
    }
    lemma_trim_of_trimmed(val);
    lemma_pending_kept(ls, c, trim(k), val, ls.len() as int);
    let st = meta_fold(ls, ls.len());
    if st.key == Some(trim(k)) {
        assert(meta_flush(st) == st.map.insert(trim(k), unquote(trim(st.value))));
    } else {
        match st.key {
            Some(y) => {
                assert(meta_flush(st) == st.map.insert(y, unquote(trim(st.value))));
            },
            None => {},
        }
    }
}

fn unquote_vec(s: &[char]) -> (r: Vec<char>)
    ensures
        r@ == unquote(s@),
{
    let n = s.len();
    if n >= 2 && ((s[0] == '"' && s[n - 1] == '"') || (s[0] == '\'' && s[n - 1] == '\'')) {
        subvec(s, 1, n - 1)
    } else {
        subvec(s, 0, n)
    }
}

fn flush(map: &mut NameMap<String>, key: &Option<Vec<char>>, value: &Vec<char>)
    requires
        old(map).wf(),
    ensures
        final(map).wf(),
        string_view(final(map)@) == meta_flush(
            MetaState {
                map: string_view(old(map)@),
                key: match key {
                    Some(k) => Some(k@),
                    None => None,
                },
                value: value@,
            },
        ),
{
    broadcast use lemma_string_view_insert;

    match key {
        Some(k) => {
            let t = trim_vec(value);
            let u = unquote_vec(&t);
            map.insert(from_chars(k), from_chars(&u));
        },
        None => {},
    }
}

/// Splits `content` into its header entries and its body.
pub fn parse(content: &str) -> (r: Result<(NameMap<String>, String), ToolshedError>)
    ensures
        r matches Ok((meta, body)) && meta.wf() && string_view(meta@) == frontmatter(content@).0
            && body@ == frontmatter(content@).1,
{
    let s = to_chars(content);
    let trimmed = trim_start_vec(&s);
    let dashes: Vec<char> = vec!['-', '-', '-'];
    if !starts_with_vec(&trimmed, &dashes) {
        let m = NameMap::new();
        assert(string_view(m@) =~= Map::empty());
        return Ok((m, from_chars(&s)));
    }
    let a0 = subvec(&trimmed, 3, trimmed.len());
    let a = if a0.len() > 0 && a0[0] == '\n' {
        subvec(&a0, 1, a0.len())
    } else {
        a0
    };
    assert(a@ == after_open(s@));
    let closing: Vec<char> = vec!['\n', '-', '-', '-'];
    let pos = match find_vec(&a, &closing, 0) {
        Some(p) => p,
        None => {
            let m = NameMap::new();
            assert(string_view(m@) =~= Map::empty());
            return Ok((m, from_chars(&s)));
        },
    };
    proof {
        lemma_find_from(a@, closing@, 0);
    }
    let rest = subvec(&a, pos + 4, a.len());
    let body = if rest.len() > 0 && rest[0] == '\n' {
        subvec(&rest, 1, rest.len())
    } else {
        rest
    };
    let block = subvec(&a, 0, pos);
    let ls = split_lines(&block);
    let mut map: NameMap<String> = NameMap::new();
    let mut key: Option<Vec<char>> = None;
    let mut value: Vec<char> = Vec::new();
    let ghost lsv = views(ls@);
    assert(string_view(map@) =~= Map::empty());
    let n = ls.len();
    for i in 0..n
        invariant
            n == ls@.len() == lsv.len(),
            lsv == views(ls@),
            map.wf(),
            ({
                let st = meta_fold(lsv, i as nat);
                &&& st.map == string_view(map@)
                &&& st.key == match key {
                    Some(k) => Some(k@),
                    None => None,
                }
                &&& st.value == value@
            }),
    {
        let line = &ls[i];
        assert(lsv[i as int] == line@);
        if line.len() > 0 && (line[0] == ' ' || line[0] == '\t') {
            if key.is_some() {
                let t = trim_vec(line);
                if value.len() > 0 {
                    value.push('\n');
                    append_chars(&mut value, &t);
                } else {
                    value = t;
                }
            }
        } else {
            let colon: Vec<char> = vec![':'];
            match find_vec(line, &colon, 0) {
                Some(c) => {
                    proof {
                        lemma_find_from(line@, colon@, 0);
                        assert(colon@ =~= seq![':']);
                    }
                    flush(&mut map, &key, &value);
                    let k = subvec(line, 0, c);
                    let v = subvec(line, c + 1, line.len());
                    key = Some(trim_vec(&k));
                    value = trim_vec(&v);
                    assert(line@.take(c as int) == k@);
                    assert(line@.skip(c + 1) == v@);
                },
                None => {
                    assert(colon@ =~= seq![':']);
                },
            }
        }
    }
    flush(&mut map, &key, &value);
    assert(block@ == a@.take(pos as int));
    assert(dashes@ =~= seq!['-', '-', '-']);
    assert(closing@ =~= seq!['\n', '-', '-', '-']);
    Ok((map, from_chars(&body)))
}

} // verus!
