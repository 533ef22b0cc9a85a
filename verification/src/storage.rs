//! Keyed storage: a finite map from identifiers to values, kept as a list of
//! entries in which no identifier occurs twice.

use vstd::prelude::*;

verus! {

/// An identifier that can be compared and copied at run time.
///
/// Two identifiers are the same where their views are equal.
pub trait Key: View + Sized {
    /// Whether two identifiers are the same.
    fn same(&self, other: &Self) -> (b: bool)
        ensures
            b == (self@ == other@),
    ;

    /// A copy of the identifier.
    fn duplicate(&self) -> (r: Self)
        ensures
            r@ == self@,
    ;
}

impl Key for String {
    fn same(&self, other: &Self) -> (b: bool) {
        *self == *other
    }

    fn duplicate(&self) -> (r: Self) {
        self.clone()
    }
}

/// Compares two string slices with `str`'s `==`, which holds exactly where
/// both hold the same characters in the same order.
#[verifier::external_body]
fn str_same(a: &str, b: &str) -> (r: bool)
    ensures
        r == (a@ == b@),
{
    a == b
}

impl Key for &'static str {
    fn same(&self, other: &Self) -> (b: bool) {
        str_same(*self, *other)
    }

    fn duplicate(&self) -> (r: Self) {
        *self
    }
}

/// Whether no identifier occurs twice among the entries.
pub open spec fn distinct_keys<K: Key, V>(s: Seq<(K, V)>) -> bool {
    forall|i: int, j: int|
        0 <= i < j < s.len() ==> (#[trigger] s[i]).0@ != (#[trigger] s[j]).0@
}

/// Whether an entry with this identifier occurs.
pub open spec fn has_key<K: Key, V>(s: Seq<(K, V)>, k: K::V) -> bool {
    exists|i: int| 0 <= i < s.len() && (#[trigger] s[i]).0@ == k
}

/// The map that a list of entries stands for.
pub open spec fn entries_map<K: Key, V>(s: Seq<(K, V)>) -> Map<K::V, V> {
    Map::new(
        |k: K::V| has_key(s, k),
        |k: K::V| s[choose|i: int| 0 <= i < s.len() && (#[trigger] s[i]).0@ == k].1,
    )
}

/// In a list without repeated identifiers, each entry is what the map holds
/// under its identifier.
pub proof fn lemma_entry_in_map<K: Key, V>(s: Seq<(K, V)>, i: int)
    requires
        distinct_keys(s),
        0 <= i < s.len(),
    ensures
        entries_map(s).contains_key(s[i].0@),
        entries_map(s)[s[i].0@] == s[i].1,
{
    let k = s[i].0@;
    assert(has_key(s, k));
    let j = choose|j: int| 0 <= j < s.len() && (#[trigger] s[j]).0@ == k;
    assert(j == i);
}

/// A list without repeated identifiers stands for a map that holds each of
/// its entries and nothing under any other identifier.
pub proof fn lemma_entries_map_is<K: Key, V>(s: Seq<(K, V)>, m: Map<K::V, V>)
    requires
        distinct_keys(s),
        forall|i: int|
            0 <= i < s.len() ==> m.contains_key((#[trigger] s[i]).0@) && m[s[i].0@] == s[i].1,
        forall|k: K::V| #[trigger] m.contains_key(k) ==> has_key(s, k),
    ensures
        entries_map(s) == m,
{
    assert forall|k: K::V| #[trigger] m.contains_key(k) implies entries_map(s)[k] == m[k] by {
        let i = choose|i: int| 0 <= i < s.len() && (#[trigger] s[i]).0@ == k;
        lemma_entry_in_map(s, i);
    }
    assert(entries_map(s) =~= m);
}

/// A finite map from identifiers to values.
#[derive(Debug)]
pub struct Table<K: Key, V> {
    entries: Vec<(K, V)>,
}

impl<K: Key, V> View for Table<K, V> {
    type V = Map<K::V, V>;

    closed spec fn view(&self) -> Map<K::V, V> {
        entries_map(self.entries@)
    }
}

impl<K: Key, V> Table<K, V> {
    /// Whether the table is well formed: no identifier is stored twice.
    pub closed spec fn wf(&self) -> bool {
        distinct_keys(self.entries@)
    }

    /// The empty table.
    pub fn new() -> (r: Self)
        ensures
            r.wf(),
            r@ == Map::<K::V, V>::empty(),
    {
        let r = Table { entries: Vec::new() };
        assert(r@ =~= Map::<K::V, V>::empty());
        r
    }

    /// The place of the entry with this identifier, if there is one.
    fn position(&self, k: &K) -> (r: Option<usize>)
        ensures
            match r {
                Some(i) => i < self.entries@.len() && self.entries@[i as int].0@ == k@,
                None => !has_key(self.entries@, k@),
            },
    {
        let mut i: usize = 0;
        while i < self.entries.len()
            invariant
                i <= self.entries@.len(),
                forall|j: int| 0 <= j < i ==> (#[trigger] self.entries@[j]).0@ != k@,
            decreases self.entries@.len() - i,
        {
            if self.entries[i].0.same(k) {
                return Some(i);
            }
            i = i + 1;
        }
        None
    }

    /// The value stored under an identifier, if any.
    pub fn get(&self, k: &K) -> (r: Option<&V>)
        requires
            self.wf(),
        ensures
            match r {
                Some(v) => self@.contains_key(k@) && *v == self@[k@],
                None => !self@.contains_key(k@),
            },
    {
        match self.position(k) {
            Some(i) => {
                proof {
                    lemma_entry_in_map(self.entries@, i as int);
                }
                Some(&self.entries[i].1)
            },
            None => None,
        }
    }

    /// Stores a value under an identifier, in place of any value that stood
    /// there.
    pub fn insert(&mut self, k: K, v: V)
        requires
            old(self).wf(),
        ensures
            final(self).wf(),
            final(self)@ == old(self)@.insert(k@, v),
    {
        let ghost before = self.entries@;
        let ghost kv = k@;
        let ghost target = entries_map(before).insert(kv, v);
        match self.position(&k) {
            Some(i) => {
                self.entries.set(i, (k, v));
                proof {
                    let after = self.entries@;
                    assert forall|j: int| 0 <= j < after.len() implies target.contains_key(
                        (#[trigger] after[j]).0@,
                    ) && target[after[j].0@] == after[j].1 by {
                        if j != i {
                            assert(before[j].0@ != before[i as int].0@);
                            lemma_entry_in_map(before, j);
                        }
                    }
                    assert forall|q: K::V| #[trigger] target.contains_key(q) implies has_key(
                        after,
                        q,
                    ) by {
                        if q == kv {
                            assert(after[i as int].0@ == q);
                        } else {
                            let j = choose|j: int|
                                0 <= j < before.len() && (#[trigger] before[j]).0@ == q;
                            assert(after[j].0@ == q);
                        }
                    }
                    lemma_entries_map_is(after, target);
                }
            },
            None => {
                self.entries.push((k, v));
                proof {
                    let after = self.entries@;
                    let n = before.len() as int;
                    assert forall|j: int| 0 <= j < after.len() implies target.contains_key(
                        (#[trigger] after[j]).0@,
                    ) && target[after[j].0@] == after[j].1 by {
                        if j < n {
                            assert(before[j].0@ != kv);
                            lemma_entry_in_map(before, j);
                        }
                    }
                    assert forall|q: K::V| #[trigger] target.contains_key(q) implies has_key(
                        after,
                        q,
                    ) by {
                        if q == kv {
                            assert(after[n].0@ == q);
                        } else {
                            let j = choose|j: int|
                                0 <= j < before.len() && (#[trigger] before[j]).0@ == q;
                            assert(after[j].0@ == q);
                        }
                    }
                    lemma_entries_map_is(after, target);
                }
            },
        }
    }

    /// Removes the entry under an identifier, where there is one.
    pub fn remove(&mut self, k: &K)
        requires
            old(self).wf(),
        ensures
            final(self).wf(),
            final(self)@ == old(self)@.remove(k@),
    {
        let ghost before = self.entries@;
        let ghost kv = k@;
        let ghost target = entries_map(before).remove(kv);
        match self.position(k) {
            Some(i) => {
                let _gone = self.entries.remove(i);
                proof {
                    let after = self.entries@;
                    let p = i as int;
                    assert forall|j: int| 0 <= j < after.len() implies target.contains_key(
                        (#[trigger] after[j]).0@,
                    ) && target[after[j].0@] == after[j].1 by {
                        let j0 = if j < p {
                            j
                        } else {
                            j + 1
                        };
                        assert(after[j] == before[j0]);
                        assert(before[j0].0@ != before[p].0@);
                        lemma_entry_in_map(before, j0);
                    }
                    assert forall|q: K::V| #[trigger] target.contains_key(q) implies has_key(
                        after,
                        q,
                    ) by {
                        let j = choose|j: int|
                            0 <= j < before.len() && (#[trigger] before[j]).0@ == q;
                        let j1 = if j < p {
                            j
                        } else {
                            j - 1
                        };
                        assert(after[j1].0@ == q);
                    }
                    assert(distinct_keys(after)) by {
                        assert forall|a: int, b: int| 0 <= a < b < after.len() implies (
                        #[trigger] after[a]).0@ != (#[trigger] after[b]).0@ by {
                            let a0 = if a < p {
                                a
                            } else {
                                a + 1
                            };
                            let b0 = if b < p {
                                b
                            } else {
                                b + 1
                            };
                            assert(before[a0].0@ != before[b0].0@);
                        }
                    }
                    lemma_entries_map_is(after, target);
                }
            },
            None => {
                assert(entries_map(before) =~= target);
            },
        }
    }
}

} // verus!
