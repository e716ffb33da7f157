//! A map from names to values that keeps its names in lexicographic order,
//! the order in which the registries list what they hold.

use vstd::prelude::*;
use crate::text::to_chars;

verus! {

/// Lexicographic order of character sequences by code point, the order of
/// Rust's `Ord` on `String` (UTF-8 byte order agrees with it).
pub open spec fn str_lt(a: Seq<char>, b: Seq<char>) -> bool
    decreases a.len(),
{
    if a.len() == 0 {
        b.len() > 0
    } else if b.len() == 0 {
        false
    } else if a[0] != b[0] {
        (a[0] as int) < (b[0] as int)
    } else {
        str_lt(a.drop_first(), b.drop_first())
    }
}

/// No sequence is below itself.
pub proof fn lemma_str_lt_irreflexive(a: Seq<char>)
    ensures
        !str_lt(a, a),
    decreases a.len(),
{
    if a.len() > 0 {
        lemma_str_lt_irreflexive(a.drop_first());
    }
}

/// The order is transitive.
pub proof fn lemma_str_lt_transitive(a: Seq<char>, b: Seq<char>, c: Seq<char>)
    requires
        str_lt(a, b),
        str_lt(b, c),
    ensures
        str_lt(a, c),
    decreases a.len(),
{
    if a.len() > 0 && b.len() > 0 && c.len() > 0 && a[0] == b[0] && b[0] == c[0] {
        lemma_str_lt_transitive(a.drop_first(), b.drop_first(), c.drop_first());
    }
}

/// Two different sequences are ordered one way or the other.
pub proof fn lemma_str_lt_total(a: Seq<char>, b: Seq<char>)
    requires
        a != b,
    ensures
        str_lt(a, b) || str_lt(b, a),
    decreases a.len(),
{
    if a.len() == 0 {
        assert(b.len() > 0) by {
            if b.len() == 0 {
                assert(a =~= b);
            }
        }
    } else if b.len() == 0 {
    } else if a[0] != b[0] {
        assert((a[0] as int) != (b[0] as int));
    } else {
        assert(a.drop_first() != b.drop_first()) by {
            if a.drop_first() == b.drop_first() {
                assert(a =~= seq![a[0]] + a.drop_first());
                assert(b =~= seq![b[0]] + b.drop_first());
            }
        }
        lemma_str_lt_total(a.drop_first(), b.drop_first());
    }
}

/// Whether `a` sorts before `b`.
pub fn str_less(a: &str, b: &str) -> (r: bool)
    ensures
        r == str_lt(a@, b@),
{
    let x = to_chars(a);
    let y = to_chars(b);
    let mut i: usize = 0;
    assert(x@.skip(0) == x@);
    assert(y@.skip(0) == y@);
    while i < x.len() && i < y.len() && x[i] == y[i]
        invariant
            i <= x@.len(),
            i <= y@.len(),
            str_lt(a@, b@) == str_lt(x@.skip(i as int), y@.skip(i as int)),
        decreases x@.len() - i,
    {
        assert(x@.skip(i as int).drop_first() == x@.skip(i + 1));
        assert(y@.skip(i as int).drop_first() == y@.skip(i + 1));
        i = i + 1;
    }
    if i == x.len() {
        i < y.len()
    } else if i == y.len() {
        false
    } else {
        x[i] < y[i]
    }
}

/// Whether `a` and `b` hold the same characters.
pub fn str_eq(a: &str, b: &str) -> (r: bool)
    ensures
        r == (a@ == b@),
{
    let x = to_chars(a);
    let y = to_chars(b);
    if x.len() != y.len() {
        return false;
    }
    let mut i: usize = 0;
    while i < x.len()
        invariant
            i <= x@.len() == y@.len(),
            x@ == a@,
            y@ == b@,
            forall|j: int| 0 <= j < i ==> x@[j] == y@[j],
        decreases x@.len() - i,
    {
        if x[i] != y[i] {
            assert(a@[i as int] != b@[i as int]);
            return false;
        }
        i = i + 1;
    }
    assert(x@ =~= y@);
    true
}

/// The character sequences that a map of strings holds.
pub open spec fn string_view(m: Map<Seq<char>, String>) -> Map<Seq<char>, Seq<char>> {
    m.map_values(|s: String| s@)
}

/// Inserting a string inserts its view.
pub broadcast proof fn lemma_string_view_insert(m: Map<Seq<char>, String>, k: Seq<char>, s: String)
    ensures
        #[trigger] string_view(m.insert(k, s)) == string_view(m).insert(k, s@),
{
    assert(string_view(m.insert(k, s)) =~= string_view(m).insert(k, s@));
}

/// A map from names to values, kept in ascending order of names.
#[derive(Debug)]
pub struct NameMap<V> {
    entries: Vec<(String, V)>,
}

impl<V> NameMap<V> {
    /// The names, in stored order.
    pub closed spec fn keys(self) -> Seq<Seq<char>> {
        self.entries@.map_values(|e: (String, V)| e.0@)
    }

    /// The values, in stored order.
    pub closed spec fn values(self) -> Seq<V> {
        self.entries@.map_values(|e: (String, V)| e.1)
    }

    /// The names are strictly ascending, so no name is stored twice.
    pub closed spec fn wf(self) -> bool {
        forall|i: int, j: int|
            0 <= i < j < self.entries@.len() ==> str_lt(
                #[trigger] self.entries@[i].0@,
                #[trigger] self.entries@[j].0@,
            )
    }

    /// What the map holds: each stored name mapped to its value.
    pub closed spec fn view(self) -> Map<Seq<char>, V> {
        Map::new(
            |k: Seq<char>| self.keys().contains(k),
            |k: Seq<char>| self.values()[self.keys().index_of(k)],
        )
    }

    /// The number of entries.
    pub open spec fn spec_len(self) -> nat {
        self.keys().len()
    }

    /// There are as many values as names.
    pub broadcast proof fn lemma_lengths(self)
        ensures
            #[trigger] self.values().len() == self.spec_len(),
    {
    }

    proof fn lemma_distinct(self, i: int, j: int)
        requires
            self.wf(),
            0 <= i < self.entries@.len(),
            0 <= j < self.entries@.len(),
            i != j,
        ensures
            self.entries@[i].0@ != self.entries@[j].0@,
    {
        if i < j {
            assert(str_lt(self.entries@[i].0@, self.entries@[j].0@));
            lemma_str_lt_irreflexive(self.entries@[i].0@);
        } else {
            assert(str_lt(self.entries@[j].0@, self.entries@[i].0@));
            lemma_str_lt_irreflexive(self.entries@[j].0@);
        }
    }

    /// The names are listed in ascending order, the order in which every
    /// listing of a registry shows them.
    pub proof fn lemma_keys_ascending(self, i: int, j: int)
        requires
            self.wf(),
            0 <= i < j < self.spec_len(),
        ensures
            str_lt(self.keys()[i], self.keys()[j]),
    {
        assert(self.keys()[i] == self.entries@[i].0@);
        assert(self.keys()[j] == self.entries@[j].0@);
    }

    /// No name is stored twice.
    pub proof fn lemma_keys_distinct(self, i: int, j: int)
        requires
            self.wf(),
            0 <= i < self.spec_len(),
            0 <= j < self.spec_len(),
            i != j,
        ensures
            self.keys()[i] != self.keys()[j],
    {
        self.lemma_distinct(i, j);
    }

    /// The entry at `i` is what the map holds for its name.
    pub proof fn lemma_entry(self, i: int)
        requires
            self.wf(),
            0 <= i < self.spec_len(),
        ensures
            self@.contains_key(self.keys()[i]),
            self@[self.keys()[i]] == self.values()[i],
    {
        let k = self.keys()[i];
        assert(self.keys().contains(k));
        let j = self.keys().index_of(k);
        assert(self@[k] == self.values()[j]);
        if j != i {
            self.lemma_distinct(i, j);
        }
    }

    /// A name is in the map exactly when it is one of the stored names.
    pub proof fn lemma_contains(self, k: Seq<char>)
        ensures
            self@.contains_key(k) <==> self.keys().contains(k),
    {
    }

    /// An empty map.
    pub fn new() -> (r: Self)
        ensures
            r.wf(),
            r@ == Map::<Seq<char>, V>::empty(),
            r.spec_len() == 0,
    {
        let r = NameMap { entries: Vec::new() };
        assert(r@ =~= Map::<Seq<char>, V>::empty());
        r
    }

    /// The number of entries.
    pub fn len(&self) -> (r: usize)
        ensures
            r == self.spec_len(),
    {
        self.entries.len()
    }

    /// Whether the map is empty.
    pub fn is_empty(&self) -> (r: bool)
        ensures
            r == (self.spec_len() == 0),
            self.wf() ==> (r == (self@ == Map::<Seq<char>, V>::empty())),
    {
        proof {
            if self.spec_len() > 0 && self.wf() {
                self.lemma_entry(0);
                assert(!(self@ =~= Map::<Seq<char>, V>::empty()));
            }
            if self.spec_len() == 0 {
                assert(self@ =~= Map::<Seq<char>, V>::empty());
            }
        }
        self.entries.len() == 0
    }

    /// The name stored at position `i`.
    pub fn key_at(&self, i: usize) -> (r: &String)
        requires
            i < self.spec_len(),
        ensures
            r@ == self.keys()[i as int],
    {
        &self.entries[i].0
    }

    /// The value stored at position `i`.
    pub fn value_at(&self, i: usize) -> (r: &V)
        requires
            i < self.spec_len(),
        ensures
            *r == self.values()[i as int],
    {
        &self.entries[i].1
    }

    /// The value for `k`, if the map holds one.
    pub fn get(&self, k: &str) -> (r: Option<&V>)
        requires
            self.wf(),
        ensures
            r matches Some(v) ==> self@.contains_key(k@) && *v == self@[k@],
            r is None ==> !self@.contains_key(k@),
    {
        let n = self.entries.len();
        for i in 0..n
            invariant
                n == self.entries@.len(),
                self.wf(),
                forall|j: int| 0 <= j < i ==> self.entries@[j].0@ != k@,
        {
            if str_eq(self.entries[i].0.as_str(), k) {
                proof {
                    self.lemma_entry(i as int);
                }
                return Some(&self.entries[i].1);
            }
        }
        None
    }

    /// Whether the map holds a value for `k`.
    pub fn contains_key(&self, k: &str) -> (r: bool)
        requires
            self.wf(),
        ensures
            r == self@.contains_key(k@),
    {
        self.get(k).is_some()
    }

    /// Maps `k` to `v`, replacing what `k` held before.
    pub fn insert(&mut self, k: String, v: V)
        requires
            old(self).wf(),
        ensures
            final(self).wf(),
            final(self)@ == old(self)@.insert(k@, v),
    {
        let n = self.entries.len();
        let mut p: usize = 0;
        while p < n && str_less(self.entries[p].0.as_str(), k.as_str())
            invariant
                n == self.entries@.len(),
                p <= n,
                self.wf(),
                *self == *old(self),
                forall|j: int| 0 <= j < p ==> str_lt(#[trigger] self.entries@[j].0@, k@),
            decreases n - p,
        {
            p = p + 1;
        }
        let ghost old_entries = self.entries@;
        if p < n && str_eq(self.entries[p].0.as_str(), k.as_str()) {
            self.entries.set(p, (k, v));
            proof {
                assert(self.wf()) by {
                    assert forall|i: int, j: int| 0 <= i < j < self.entries@.len() implies str_lt(
                        #[trigger] self.entries@[i].0@,
                        #[trigger] self.entries@[j].0@,
                    ) by {
                        assert(str_lt(old_entries[i].0@, old_entries[j].0@));
                    }
                }
                self.lemma_view_update(*old(self), p as int);
            }
        } else {
            proof {
                if p < n {
                    lemma_str_lt_total(old_entries[p as int].0@, k@);
                }
            }
            self.entries.insert(p, (k, v));
            proof {
                assert(self.wf()) by {
                    assert forall|i: int, j: int| 0 <= i < j < self.entries@.len() implies str_lt(
                        #[trigger] self.entries@[i].0@,
                        #[trigger] self.entries@[j].0@,
                    ) by {
                        if j < p {
                            assert(str_lt(old_entries[i].0@, old_entries[j].0@));
                        } else if j == p {
                        } else if i < p {
                            assert(str_lt(old_entries[i].0@, k@));
                            assert(str_lt(k@, old_entries[p as int].0@));
                            if j - 1 > p {
                                assert(str_lt(old_entries[p as int].0@, old_entries[j - 1].0@));
                                lemma_str_lt_transitive(k@, old_entries[p as int].0@, old_entries[j - 1].0@);
                            }
                            lemma_str_lt_transitive(old_entries[i].0@, k@, old_entries[j - 1].0@);
                        } else if i == p {
                            if j - 1 > p {
                                assert(str_lt(old_entries[p as int].0@, old_entries[j - 1].0@));
                                lemma_str_lt_transitive(k@, old_entries[p as int].0@, old_entries[j - 1].0@);
                            }
                        } else {
                            assert(str_lt(old_entries[i - 1].0@, old_entries[j - 1].0@));
                        }
                    }
                }
                self.lemma_view_inserted(*old(self), p as int);
            }
        }
    }

    proof fn lemma_view_update(self, old_map: Self, p: int)
        requires
            old_map.wf(),
            self.wf(),
            0 <= p < old_map.entries@.len(),
            self.entries@.len() == old_map.entries@.len(),
            forall|i: int| 0 <= i < self.entries@.len() && i != p ==> self.entries@[i] == old_map.entries@[i],
            self.entries@[p].0@ == old_map.entries@[p].0@,
        ensures
            self@ == old_map@.insert(self.entries@[p].0@, self.entries@[p].1),
    {
        let k = self.entries@[p].0@;
        let m = old_map@.insert(k, self.entries@[p].1);
        assert(self.keys() =~= old_map.keys());
        assert(self.keys()[p] == k);
        assert forall|kk: Seq<char>| #[trigger] self@.contains_key(kk) implies self@[kk] == m[kk] by {
            let i = self.keys().index_of(kk);
            self.lemma_entry(i);
            if i != p {
                old_map.lemma_entry(i);
                self.lemma_distinct(i, p);
            }
        }
        assert(self@.dom() =~= m.dom());
        assert(self@ =~= m);
    }

    proof fn lemma_view_inserted(self, old_map: Self, p: int)
        requires
            old_map.wf(),
            self.wf(),
            0 <= p <= old_map.entries@.len(),
            self.entries@.len() == old_map.entries@.len() + 1,
            forall|i: int| 0 <= i < p ==> self.entries@[i] == old_map.entries@[i],
            forall|i: int| p < i < self.entries@.len() ==> self.entries@[i] == old_map.entries@[i - 1],
        ensures
            self@ == old_map@.insert(self.entries@[p].0@, self.entries@[p].1),
    {
        let k = self.entries@[p].0@;
        let m = old_map@.insert(k, self.entries@[p].1);
        assert(self.keys() =~= old_map.keys().insert(p, k));
        assert forall|kk: Seq<char>| #[trigger] self@.contains_key(kk) implies m.contains_key(kk) by {
            let i = self.keys().index_of(kk);
            if i < p {
                assert(old_map.keys()[i] == kk);
            } else if i > p {
                assert(old_map.keys()[i - 1] == kk);
            }
        }
        assert forall|kk: Seq<char>| #[trigger] m.contains_key(kk) implies self@.contains_key(kk) by {
            if kk != k {
                let i = old_map.keys().index_of(kk);
                if i < p {
                    assert(self.keys()[i] == kk);
                } else {
                    assert(self.keys()[i + 1] == kk);
                }
            } else {
                assert(self.keys()[p] == kk);
            }
        }
        assert forall|kk: Seq<char>| #[trigger] self@.contains_key(kk) implies self@[kk] == m[kk] by {
            let i = self.keys().index_of(kk);
            self.lemma_entry(i);
            if i < p {
                old_map.lemma_entry(i);
                self.lemma_distinct(i, p);
            } else if i > p {
                old_map.lemma_entry(i - 1);
                self.lemma_distinct(i, p);
            }
        }
        assert(self@.dom() =~= m.dom());
        assert(self@ =~= m);
    }

    /// Takes the value for `k` out of the map.
    pub fn remove(&mut self, k: &str) -> (r: Option<V>)
        requires
            old(self).wf(),
        ensures
            final(self).wf(),
            final(self)@ == old(self)@.remove(k@),
            r matches Some(v) ==> old(self)@.contains_key(k@) && v == old(self)@[k@],
            r is None ==> !old(self)@.contains_key(k@),
    {
        let n = self.entries.len();
        let mut i: usize = 0;
        while i < n
            invariant
                n == self.entries@.len(),
                i <= n,
                self.wf(),
                *self == *old(self),
                forall|j: int| 0 <= j < i ==> self.entries@[j].0@ != k@,
            decreases n - i,
        {
            if str_eq(self.entries[i].0.as_str(), k) {
                proof {
                    self.lemma_entry(i as int);
                }
                let ghost old_entries = self.entries@;
                let (_key, v) = self.entries.remove(i);
                proof {
                    assert(self.wf()) by {
                        assert forall|a: int, b: int| 0 <= a < b < self.entries@.len() implies str_lt(
                            #[trigger] self.entries@[a].0@,
                            #[trigger] self.entries@[b].0@,
                        ) by {
                            let oa = if a < i { a } else { a + 1 };
                            let ob = if b < i { b } else { b + 1 };
                            assert(str_lt(old_entries[oa].0@, old_entries[ob].0@));
                        }
                    }
                    self.lemma_view_removed(*old(self), i as int);
                }
                return Some(v);
            }
            i = i + 1;
        }
        proof {
            assert(!self.keys().contains(k@)) by {
                if self.keys().contains(k@) {
                    let j = self.keys().index_of(k@);
                    assert(self.entries@[j].0@ == k@);
                }
            }
            assert(self@.remove(k@) =~= self@);
        }
        None
    }

    proof fn lemma_view_removed(self, old_map: Self, p: int)
        requires
            old_map.wf(),
            self.wf(),
            0 <= p < old_map.entries@.len(),
            self.entries@.len() + 1 == old_map.entries@.len(),
            forall|i: int| 0 <= i < p ==> self.entries@[i] == old_map.entries@[i],
            forall|i: int| p <= i < self.entries@.len() ==> self.entries@[i] == old_map.entries@[i + 1],
        ensures
            self@ == old_map@.remove(old_map.entries@[p].0@),
    {
        let k = old_map.entries@[p].0@;
        let m = old_map@.remove(k);
        assert(self.keys() =~= old_map.keys().remove(p));
        assert forall|kk: Seq<char>| #[trigger] self@.contains_key(kk) implies m.contains_key(kk) by {
            let i = self.keys().index_of(kk);
            let oi = if i < p { i } else { i + 1 };
            assert(old_map.keys()[oi] == kk);
            old_map.lemma_distinct(oi, p);
        }
        assert forall|kk: Seq<char>| #[trigger] m.contains_key(kk) implies self@.contains_key(kk) by {
            let i = old_map.keys().index_of(kk);
            if i < p {
                assert(self.keys()[i] == kk);
            } else {
                assert(i != p);
                assert(self.keys()[i - 1] == kk);
            }
        }
        assert forall|kk: Seq<char>| #[trigger] self@.contains_key(kk) implies self@[kk] == m[kk] by {
            let i = self.keys().index_of(kk);
            self.lemma_entry(i);
            let oi = if i < p { i } else { i + 1 };
            old_map.lemma_entry(oi);
        }
        assert(self@.dom() =~= m.dom());
        assert(self@ =~= m);
    }
}

} // verus!
