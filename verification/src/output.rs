//! Cutting tool output down to a character budget.

use vstd::prelude::*;
use crate::text::{append_chars, decimal, from_chars, subvec, to_chars, u64_decimal};

verus! {

/// A character that counts as unprintable: neither ASCII graphic nor ASCII
/// whitespace (space, tab, line feed, form feed, carriage return).
pub open spec fn unprintable(c: char) -> bool {
    let u = c as u32;
    !(0x21 <= u <= 0x7E) && u != 0x20 && u != 0x09 && u != 0x0A && u != 0x0C && u != 0x0D
}

/// The number of unprintable characters in `s`.
pub open spec fn count_unprintable(s: Seq<char>) -> nat
    decreases s.len(),
{
    if s.len() == 0 {
        0
    } else {
        count_unprintable(s.drop_last()) + if unprintable(s.last()) {
            1nat
        } else {
            0nat
        }
    }
}

/// The part of the output that the binary test looks at: its first 8192
/// characters.
pub open spec fn binary_sample(s: Seq<char>) -> Seq<char> {
    if s.len() <= 8192 {
        s
    } else {
        s.take(8192)
    }
}

/// Output is binary when more than a tenth of its sample is unprintable.
/// The ratio is compared in integers: with at most 8192 characters the
/// quotient is never within rounding distance of one tenth unless it
/// equals it.
pub open spec fn binary(s: Seq<char>) -> bool {
    let sample = binary_sample(s);
    sample.len() > 0 && 10 * count_unprintable(sample) > sample.len()
}

/// The last position of a line feed in `s`, if any.
pub open spec fn last_newline(s: Seq<char>) -> Option<int>
    decreases s.len(),
{
    if s.len() == 0 {
        None
    } else if s.last() == '\n' {
        Some(s.len() - 1)
    } else {
        last_newline(s.drop_last())
    }
}

/// Where long output is cut: after the last line feed among the last fifth
/// of the budget, or at the budget itself.
pub open spec fn cut_point(s: Seq<char>, max: nat) -> nat {
    let start = (max - max / 5) as int;
    match last_newline(s.subrange(start, max as int)) {
        Some(k) => (start + k + 1) as nat,
        None => max,
    }
}

/// What `truncate` gives for `s`, whose UTF-8 encoding is `bytes` long: a
/// notice for binary output, the output itself when it fits, and otherwise
/// its first `cut_point` characters and a notice of the full length.
pub open spec fn truncated(s: Seq<char>, bytes: nat, max: nat) -> Seq<char> {
    if binary(s) {
        "[binary output detected: "@ + decimal(bytes) + " bytes]"@
    } else if s.len() <= max {
        s
    } else {
        s.take(cut_point(s, max) as int) + "\n[output truncated: "@ + decimal(s.len())
            + " chars total, showing first "@ + decimal(cut_point(s, max))
            + ". Rerun with --full for complete output]"@
    }
}

/// A line feed found lies inside the text.
proof fn lemma_last_newline_bound(s: Seq<char>)
    ensures
        last_newline(s) matches Some(k) ==> 0 <= k < s.len() && s[k] == '\n',
    decreases s.len(),
{
    if s.len() > 0 && s.last() != '\n' {
        lemma_last_newline_bound(s.drop_last());
    }
}

/// Long text is cut within the last fifth of the budget, never beyond it,
/// and where it is cut before the budget, it is cut just after a line feed.
pub proof fn lemma_cut_within_budget(s: Seq<char>, max: nat)
    requires
        s.len() > max,
    ensures
        max - max / 5 <= cut_point(s, max) <= max,
        cut_point(s, max) < max ==> s[cut_point(s, max) - 1] == '\n',
{
    let start = (max - max / 5) as int;
    let sub = s.subrange(start, max as int);
    lemma_last_newline_bound(sub);
    if let Some(k) = last_newline(sub) {
        assert(sub[k] == s[start + k]);
    }
}

/// The line feed found is the last one: none stands after it, and with
/// none found, none stands in the text at all.
proof fn lemma_last_newline_is_last(s: Seq<char>)
    ensures
        match last_newline(s) {
            Some(k) => 0 <= k < s.len() && s[k] == '\n' && forall|j: int| k < j < s.len() ==> s[j] != '\n',
            None => forall|j: int| 0 <= j < s.len() ==> s[j] != '\n',
        },
    decreases s.len(),
{
    if s.len() > 0 && s.last() != '\n' {
        lemma_last_newline_is_last(s.drop_last());
        assert forall|j: int| 0 <= j < s.len() - 1 implies s[j] == s.drop_last()[j] by {}
    }
}

/// Long text that is not binary is cut at a point `k` within the last fifth
/// of the budget and shown as its first `k` characters and a notice naming
/// the full length and `k`. No line feed stands between the cut and the
/// budget, and the cut falls just after a line feed of the last fifth
/// unless that fifth holds none, in which case it falls at the budget: the
/// text is cut after the last line feed within the budget's last fifth.
pub proof fn lemma_cut_after_last_line_feed(s: Seq<char>, bytes: nat, max: nat)
    requires
        !binary(s),
        s.len() > max,
    ensures
        exists|k: int|
            #![trigger s.take(k)]
            {
                let start = max - max / 5;
                &&& start <= k <= max
                &&& truncated(s, bytes, max) == s.take(k) + "\n[output truncated: "@ + decimal(s.len())
                    + " chars total, showing first "@ + decimal(k as nat) + ". Rerun with --full for complete output]"@
                &&& forall|j: int| k <= j < max ==> s[j] != '\n'
                &&& ((start < k && s[k - 1] == '\n') || (k == max && forall|j: int| start <= j < max ==> s[j]
                    != '\n'))
            },
{
    let start = (max - max / 5) as int;
    let sub = s.subrange(start, max as int);
    lemma_last_newline_is_last(sub);
    let k = cut_point(s, max) as int;
    match last_newline(sub) {
        Some(p) => {
            assert(sub[p] == s[start + p]);
            assert forall|j: int| k <= j < max implies s[j] != '\n' by {
                assert(sub[j - start] == s[j]);
            }
        },
        None => {
            assert forall|j: int| start <= j < max implies s[j] != '\n' by {
                assert(sub[j - start] == s[j]);
            }
        },
    }
    assert(s.take(k) == s.take(k));
}

fn is_unprintable(c: char) -> (r: bool)
    ensures
        r == unprintable(c),
{
    let u = c as u32;
    !(0x21 <= u && u <= 0x7E) && u != 0x20 && u != 0x09 && u != 0x0A && u != 0x0C && u != 0x0D
}

fn is_binary(v: &[char]) -> (r: bool)
    ensures
        r == binary(v@),
{
    let n = if v.len() <= 8192 {
        v.len()
    } else {
        8192
    };
    assert(binary_sample(v@) == v@.take(n as int));
    let mut count: usize = 0;
    for i in 0..n
        invariant
            n <= v@.len(),
            n <= 8192,
            count == count_unprintable(v@.take(i as int)),
            count <= i,
    {
        assert(v@.take(i + 1).drop_last() == v@.take(i as int));
        if is_unprintable(v[i]) {
            count = count + 1;
        }
    }
    n > 0 && 10 * count > n
}

fn find_last_newline(v: &[char], lo: usize, hi: usize) -> (r: Option<usize>)
    requires
        lo <= hi <= v@.len(),
    ensures
        r matches Some(k) ==> lo <= k < hi && last_newline(v@.subrange(lo as int, hi as int))
            == Some(k - lo),
        r is None ==> last_newline(v@.subrange(lo as int, hi as int)) is None,
{
    let mut j = hi;
    while j > lo
        invariant
            lo <= j <= hi <= v@.len(),
            last_newline(v@.subrange(lo as int, hi as int)) == if last_newline(
                v@.subrange(lo as int, j as int),
            ) is Some {
                last_newline(v@.subrange(lo as int, j as int))
            } else {
                None
            },
            forall|t: int| j <= t < hi ==> v@[t] != '\n',
        decreases j - lo,
    {
        assert(v@.subrange(lo as int, j as int).drop_last() == v@.subrange(lo as int, j - 1));
        if v[j - 1] == '\n' {
            return Some(j - 1);
        }
        j = j - 1;
    }
    None
}

/// `input`, cut down to at most `max_chars` characters with a notice when
/// it is longer, or a notice alone when it looks binary.
pub fn truncate(input: &str, max_chars: usize) -> (r: String)
    ensures
        r@ == truncated(input@, vstd::utf8::encode_utf8(input@).len(), max_chars as nat),
{
    let nbytes = input.as_bytes().len();
    assert(nbytes as nat == vstd::utf8::encode_utf8(input@).len());
    let v = to_chars(input);
    if is_binary(&v) {
        let mut out = to_chars("[binary output detected: ");
        append_chars(&mut out, &u64_decimal(nbytes as u64));
        append_chars(&mut out, &to_chars(" bytes]"));
        return from_chars(&out);
    }
    let char_count = v.len();
    if char_count <= max_chars {
        return from_chars(&v);
    }
    let search_start = max_chars - max_chars / 5;
    let cut = match find_last_newline(&v, search_start, max_chars) {
        Some(k) => k + 1,
        None => max_chars,
    };
    let mut out = subvec(&v, 0, cut);
    append_chars(&mut out, &to_chars("\n[output truncated: "));
    append_chars(&mut out, &u64_decimal(char_count as u64));
    append_chars(&mut out, &to_chars(" chars total, showing first "));
    append_chars(&mut out, &u64_decimal(cut as u64));
    append_chars(&mut out, &to_chars(". Rerun with --full for complete output]"));
    from_chars(&out)
}

} // verus!
