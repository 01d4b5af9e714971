//! An ordered map keyed by strings: the entries are kept sorted by key, as a
//! `BTreeMap<String, V>` keeps and walks them.
use vstd::prelude::*;

use crate::text::{lemma_seq_lt_irreflexive, lemma_seq_lt_total, lemma_seq_lt_transitive, seq_lt, str_eq, str_lt};

verus! {

/// Entries `(key, value)` in strictly increasing key order.
#[derive(Clone)]
pub struct StrMap<V> {
    pub entries: Vec<(String, V)>,
}

impl<V> StrMap<V> {
    /// The key of the `i`-th entry, in key order.
    pub open spec fn key(&self, i: int) -> Seq<char> {
        self.entries@[i].0@
    }

    /// The value of the `i`-th entry, in key order.
    pub open spec fn value(&self, i: int) -> V {
        self.entries@[i].1
    }

    /// Number of entries.
    pub open spec fn size(&self) -> nat {
        self.entries@.len()
    }

    /// Keys strictly increase.
    pub open spec fn wf(&self) -> bool {
        forall|i: int, j: int|
            0 <= i < j < self.entries@.len() ==> seq_lt(#[trigger] self.key(i), #[trigger] self.key(j))
    }

    /// Whether some entry has key `k`.
    pub open spec fn has_key(&self, k: Seq<char>) -> bool {
        exists|i: int| 0 <= i < self.entries@.len() && #[trigger] self.key(i) == k
    }

    /// Position of the entry with key `k` (meaningful when `has_key(k)`).
    pub open spec fn index_of(&self, k: Seq<char>) -> int {
        choose|i: int| 0 <= i < self.entries@.len() && #[trigger] self.key(i) == k
    }

    /// The value stored under `k`.
    pub open spec fn get_spec(&self, k: Seq<char>) -> Option<V> {
        if self.has_key(k) {
            Some(self.value(self.index_of(k)))
        } else {
            None
        }
    }

    /// The keys, in order.
    pub open spec fn keys(&self) -> Seq<Seq<char>> {
        self.entries@.map_values(|e: (String, V)| e.0@)
    }

    /// The values, in key order.
    pub open spec fn values(&self) -> Seq<V> {
        self.entries@.map_values(|e: (String, V)| e.1)
    }

    /// In a well-formed map the entry with a given key is unique.
    pub proof fn lemma_unique(&self, i: int, j: int)
        requires
            self.wf(),
            0 <= i < self.entries@.len(),
            0 <= j < self.entries@.len(),
            self.key(i) == self.key(j),
        ensures
            i == j,
    {
        if i < j {
            lemma_seq_lt_irreflexive(self.key(i));
        } else if j < i {
            lemma_seq_lt_irreflexive(self.key(i));
        }
    }

    /// In a well-formed map, `get_spec` reads the entry at a position holding the key.
    pub proof fn lemma_get_at(&self, i: int)
        requires
            self.wf(),
            0 <= i < self.entries@.len(),
        ensures
            self.has_key(self.key(i)),
            self.index_of(self.key(i)) == i,
            self.get_spec(self.key(i)) == Some(self.value(i)),
    {
        let k = self.key(i);
        assert(self.has_key(k));
        let j = self.index_of(k);
        self.lemma_unique(i, j);
    }

    /// An empty map.
    pub fn new() -> (m: Self)
        ensures
            m.wf(),
            m.size() == 0,
            forall|k: Seq<char>| !m.has_key(k),
    {
        StrMap { entries: Vec::new() }
    }

    /// Number of entries.
    pub fn len(&self) -> (n: usize)
        ensures
            n == self.size(),
    {
        self.entries.len()
    }

    /// Whether the map has no entry.
    pub fn is_empty(&self) -> (b: bool)
        ensures
            b == (self.size() == 0),
    {
        self.entries.len() == 0
    }

    /// Position of the entry with key `k`, if any.
    pub fn position(&self, k: &str) -> (r: Option<usize>)
        requires
            self.wf(),
        ensures
            r is Some <==> self.has_key(k@),
            r matches Some(i) ==> i < self.size() && self.key(i as int) == k@ && self.index_of(k@)
                == i,
    {
        let mut i: usize = 0;
        while i < self.entries.len()
            invariant
                self.wf(),
                i <= self.entries@.len(),
                forall|j: int| 0 <= j < i ==> self.key(j) != k@,
            decreases self.entries.len() - i,
        {
            if str_eq(self.entries[i].0.as_str(), k) {
                proof {
                    self.lemma_get_at(i as int);
                }
                return Some(i);
            }
            i += 1;
        }
        None
    }

    /// `BTreeMap::get`.
    pub fn get(&self, k: &str) -> (r: Option<&V>)
        requires
            self.wf(),
        ensures
            r is Some <==> self.has_key(k@),
            r matches Some(v) ==> self.get_spec(k@) == Some(*v),
    {
        match self.position(k) {
            Some(i) => Some(&self.entries[i].1),
            None => None,
        }
    }

    /// `BTreeMap::contains_key`.
    pub fn contains_key(&self, k: &str) -> (b: bool)
        requires
            self.wf(),
        ensures
            b == self.has_key(k@),
    {
        self.position(k).is_some()
    }

    /// `BTreeMap::insert`, without the previous value: `k` now maps to `v`,
    /// every other key keeps its value.
    pub fn insert(&mut self, k: String, v: V)
        requires
            old(self).wf(),
        ensures
            final(self).wf(),
            final(self).size() == old(self).size() + if old(self).has_key(k@) { 0int } else { 1int },
            final(self).get_spec(k@) == Some(v),
            forall|x: Seq<char>|
                #[trigger] final(self).has_key(x) <==> (old(self).has_key(x) || x == k@),
            forall|x: Seq<char>| x != k@ ==> #[trigger] final(self).get_spec(x) == old(self).get_spec(x),
            old(self).has_key(k@) ==> final(self).entries@ == old(self).entries@.update(old(self).index_of(k@), (k, v)),
            !old(self).has_key(k@) ==> exists|i: int|
                0 <= i <= old(self).entries@.len() && final(self).entries@ == #[trigger] old(self).entries@.insert(i, (k, v)),
    {
        let ghost old_self = *self;
        let ghost entry = (k, v);
        let mut i: usize = 0;
        while i < self.entries.len() && str_lt(self.entries[i].0.as_str(), k.as_str())
            invariant
                *self == old_self,
                self.wf(),
                i <= self.entries@.len(),
                forall|j: int| 0 <= j < i ==> seq_lt(#[trigger] self.key(j), k@),
            decreases self.entries.len() - i,
        {
            i += 1;
        }
        if i < self.entries.len() && str_eq(self.entries[i].0.as_str(), k.as_str()) {
            let ghost kv = k@;
            proof {
                assert(old_self.key(i as int) == kv);
            }
            self.entries.set(i, (k, v));
            proof {
                old_self.lemma_get_at(i as int);
                assert(self.entries@ == old_self.entries@.update(i as int, entry));
                assert forall|a: int, b: int|
                    0 <= a < b < self.entries@.len() implies seq_lt(
                    #[trigger] self.key(a),
                    #[trigger] self.key(b),
                ) by {
                    assert(old_self.key(a) == self.key(a));
                    assert(old_self.key(b) == self.key(b));
                }
                assert forall|x: Seq<char>|
                    #[trigger] self.has_key(x) <==> (old_self.has_key(x) || x == kv) by {
                    if self.has_key(x) {
                        let j = choose|j: int| 0 <= j < self.entries@.len() && #[trigger] self.key(j) == x;
                        assert(old_self.key(j) == self.key(j));
                    }
                    if old_self.has_key(x) {
                        let j = choose|j: int| 0 <= j < old_self.entries@.len() && #[trigger] old_self.key(j) == x;
                        assert(old_self.key(j) == self.key(j));
                    }
                    if x == kv {
                        assert(self.key(i as int) == x);
                    }
                }
                self.lemma_get_at(i as int);
                assert forall|x: Seq<char>| x != kv implies #[trigger] self.get_spec(x) == old_self.get_spec(x) by {
                    if old_self.has_key(x) {
                        let j = old_self.index_of(x);
                        old_self.lemma_get_at(j);
                        assert(self.key(j) == x);
                        self.lemma_get_at(j);
                    }
                }
            }
        } else {
            let ghost kv = k@;
            proof {
                if i < self.entries.len() {
                    lemma_seq_lt_total(self.key(i as int), kv);
                }
                if old_self.has_key(kv) {
                    let j = choose|j: int| 0 <= j < old_self.entries@.len() && #[trigger] old_self.key(j) == kv;
                    lemma_seq_lt_irreflexive(kv);
                    if j > i {
                        assert(seq_lt(old_self.key(i as int), old_self.key(j)));
                        lemma_seq_lt_transitive(kv, old_self.key(i as int), kv);
                    }
                    assert(false);
                }
            }
            self.entries.insert(i, (k, v));
            proof {
                assert(self.entries@ == old_self.entries@.insert(i as int, entry));
                assert(self.key(i as int) == kv);
                assert forall|a: int| 0 <= a < self.entries@.len() && a != i implies #[trigger] self.key(a)
                    == (if a < i { old_self.key(a) } else { old_self.key(a - 1) }) && self.value(a) == (if a
                    < i { old_self.value(a) } else { old_self.value(a - 1) }) by {}
                assert forall|a: int, b: int|
                    0 <= a < b < self.entries@.len() implies seq_lt(
                    #[trigger] self.key(a),
                    #[trigger] self.key(b),
                ) by {
                    if b < i {
                    } else if a < i && b == i {
                    } else if a < i && b > i {
                        assert(seq_lt(old_self.key(a), old_self.key(i as int)));
                    } else if a == i {
                        assert(seq_lt(kv, old_self.key(i as int)));
                        if b - 1 > i {
                            assert(seq_lt(old_self.key(i as int), old_self.key(b - 1)));
                            lemma_seq_lt_transitive(kv, old_self.key(i as int), old_self.key(b - 1));
                        }
                    } else {
                    }
                }
                assert forall|x: Seq<char>|
                    #[trigger] self.has_key(x) <==> (old_self.has_key(x) || x == kv) by {
                    if self.has_key(x) {
                        let j = choose|j: int| 0 <= j < self.entries@.len() && #[trigger] self.key(j) == x;
                        if j < i {
                            assert(old_self.key(j) == x);
                        } else if j > i {
                            assert(old_self.key(j - 1) == x);
                        }
                    }
                    if old_self.has_key(x) {
                        let j = choose|j: int| 0 <= j < old_self.entries@.len() && #[trigger] old_self.key(j) == x;
                        if j < i {
                            assert(self.key(j) == x);
                        } else {
                            assert(self.key(j + 1) == x);
                        }
                    }
                    if x == kv {
                        assert(self.key(i as int) == x);
                    }
                }
                self.lemma_get_at(i as int);
                assert forall|x: Seq<char>| x != kv implies #[trigger] self.get_spec(x) == old_self.get_spec(x) by {
                    if old_self.has_key(x) {
                        let j = old_self.index_of(x);
                        old_self.lemma_get_at(j);
                        if j < i {
                            assert(self.key(j) == x);
                            self.lemma_get_at(j);
                        } else {
                            assert(self.key(j + 1) == x);
                            self.lemma_get_at(j + 1);
                        }
                    }
                }
            }
        }
    }

    /// `BTreeMap::remove`: the value that `k` held; `k` then maps to nothing and
    /// every other key keeps its value.
    pub fn remove(&mut self, k: &str) -> (r: Option<V>)
        requires
            old(self).wf(),
        ensures
            final(self).wf(),
            final(self).size() == old(self).size() - if old(self).has_key(k@) { 1int } else { 0int },
            r == old(self).get_spec(k@),
            !final(self).has_key(k@),
            forall|x: Seq<char>|
                #[trigger] final(self).has_key(x) <==> (old(self).has_key(x) && x != k@),
            forall|x: Seq<char>| x != k@ ==> #[trigger] final(self).get_spec(x) == old(self).get_spec(x),
    {
        let ghost old_self = *self;
        match self.position(k) {
            None => None,
            Some(i) => {
                proof {
                    old_self.lemma_get_at(i as int);
                }
                let (_, v) = self.entries.remove(i);
                proof {
                    assert forall|a: int| 0 <= a < self.entries@.len() implies #[trigger] self.key(a) == (if a
                        < i { old_self.key(a) } else { old_self.key(a + 1) }) && self.value(a) == (if a < i {
                        old_self.value(a)
                    } else {
                        old_self.value(a + 1)
                    }) by {}
                    assert forall|a: int, b: int|
                        0 <= a < b < self.entries@.len() implies seq_lt(
                        #[trigger] self.key(a),
                        #[trigger] self.key(b),
                    ) by {
                        if a < i && b >= i {
                            assert(seq_lt(old_self.key(a), old_self.key(b + 1)));
                        } else if a >= i {
                            assert(seq_lt(old_self.key(a + 1), old_self.key(b + 1)));
                        }
                    }
                    assert forall|x: Seq<char>|
                        #[trigger] self.has_key(x) <==> (old_self.has_key(x) && x != k@) by {
                        if self.has_key(x) {
                            let j = choose|j: int| 0 <= j < self.entries@.len() && #[trigger] self.key(j) == x;
                            if j < i {
                                assert(old_self.key(j) == x);
                                if x == k@ {
                                    old_self.lemma_unique(j, i as int);
                                }
                            } else {
                                assert(old_self.key(j + 1) == x);
                                if x == k@ {
                                    old_self.lemma_unique(j + 1, i as int);
                                }
                            }
                        }
                        if old_self.has_key(x) && x != k@ {
                            let j = choose|j: int| 0 <= j < old_self.entries@.len() && #[trigger] old_self.key(j) == x;
                            if j < i {
                                assert(self.key(j) == x);
                            } else {
                                assert(j != i);
                                assert(self.key(j - 1) == x);
                            }
                        }
                    }
                    assert forall|x: Seq<char>| x != k@ implies #[trigger] self.get_spec(x) == old_self.get_spec(x) by {
                        if old_self.has_key(x) {
                            let j = old_self.index_of(x);
                            old_self.lemma_get_at(j);
                            if j < i {
                                assert(self.key(j) == x);
                                self.lemma_get_at(j);
                            } else {
                                assert(j != i);
                                assert(self.key(j - 1) == x);
                                self.lemma_get_at(j - 1);
                            }
                        }
                    }
                }
                Some(v)
            },
        }
    }
}

/// The sum of the counts of a map's entries.
pub open spec fn count_total(entries: Seq<(String, usize)>) -> int
    decreases entries.len(),
{
    if entries.len() == 0 {
        0
    } else {
        count_total(entries.drop_last()) + entries.last().1
    }
}

/// Inserting an entry adds its count to the total.
pub proof fn lemma_count_total_insert(s: Seq<(String, usize)>, i: int, x: (String, usize))
    requires
        0 <= i <= s.len(),
    ensures
        count_total(s.insert(i, x)) == count_total(s) + x.1,
    decreases s.len(),
{
    if i == s.len() {
        assert(s.insert(i, x).drop_last() =~= s);
    } else {
        lemma_count_total_insert(s.drop_last(), i, x);
        assert(s.insert(i, x).drop_last() =~= s.drop_last().insert(i, x));
    }
}

/// Replacing an entry replaces its count in the total.
pub proof fn lemma_count_total_update(s: Seq<(String, usize)>, i: int, x: (String, usize))
    requires
        0 <= i < s.len(),
    ensures
        count_total(s.update(i, x)) == count_total(s) - s[i].1 + x.1,
    decreases s.len(),
{
    if i == s.len() - 1 {
        assert(s.update(i, x).drop_last() =~= s.drop_last());
    } else {
        lemma_count_total_update(s.drop_last(), i, x);
        assert(s.update(i, x).drop_last() =~= s.drop_last().update(i, x));
    }
}

} // verus!
