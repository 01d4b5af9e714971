//! A stable insertion sort for values ordered by a key.
use vstd::prelude::*;

verus! {

/// Values that sort by a key: `before` is the strict order of their keys.
pub trait SortKey: Sized {
    /// `self` goes strictly before `other`.
    spec fn before(&self, other: &Self) -> bool;

    /// Whether `self` goes strictly before `other`.
    fn goes_before(&self, other: &Self) -> (r: bool)
        ensures
            r == self.before(other);

    /// `before` is a strict weak order.
    proof fn lemma_strict_weak_order(a: &Self, b: &Self, c: &Self)
        ensures
            !a.before(a),
            a.before(b) && b.before(c) ==> a.before(c),
            a.before(c) ==> a.before(b) || b.before(c);
}

/// No later element goes before an earlier one.
pub open spec fn sorted_by_key<T: SortKey>(s: Seq<T>) -> bool {
    forall|i: int, j: int| #![trigger s[i], s[j]] 0 <= i < j < s.len() ==> !s[j].before(&s[i])
}

/// Neither goes before the other.
pub open spec fn same_key<T: SortKey>(a: T, b: T) -> bool {
    !a.before(&b) && !b.before(&a)
}

/// `r` takes its elements from `v` as `perm` says (its `k`-th element is the
/// `perm[k]`-th of `v`), and of two elements with the same key the one that
/// came first in `v` comes first in `r`.
pub open spec fn stable_arrangement<T: SortKey>(r: Seq<T>, v: Seq<T>, perm: Seq<int>) -> bool {
    &&& perm.len() == r.len()
    &&& forall|k: int| 0 <= k < r.len() ==> 0 <= #[trigger] perm[k] < v.len() && r[k] == v[perm[k]]
    &&& forall|a: int, b: int|
        #![trigger perm[a], perm[b]]
        0 <= a < b < r.len() && same_key(r[a], r[b]) ==> perm[a] < perm[b]
}

/// Inserting the next element of `all` at `j`, behind every element of the
/// same key, keeps the arrangement stable.
proof fn lemma_insert_stable<T: SortKey>(before: Seq<T>, all: Seq<T>, perm: Seq<int>, n: int, j: int, item: T)
    requires
        stable_arrangement(before, all, perm),
        forall|k: int| 0 <= k < perm.len() ==> #[trigger] perm[k] < n,
        0 <= n < all.len(),
        all[n] == item,
        0 <= j <= before.len(),
        forall|k: int| j <= k < before.len() ==> item.before(#[trigger] &before[k]),
    ensures
        stable_arrangement(before.insert(j, item), all, perm.insert(j, n)),
        forall|k: int| 0 <= k < perm.insert(j, n).len() ==> #[trigger] perm.insert(j, n)[k] < n + 1,
{
    let out = before.insert(j, item);
    let np = perm.insert(j, n);
    assert forall|k: int| 0 <= k < out.len() implies 0 <= #[trigger] np[k] < all.len() && out[k] == all[np[k]] by {
        if k < j {
            assert(np[k] == perm[k]);
        } else if k > j {
            assert(np[k] == perm[k - 1]);
        }
    }
    assert forall|a: int, b: int|
        #![trigger np[a], np[b]]
        0 <= a < b < out.len() && same_key(out[a], out[b]) implies np[a] < np[b] by {
        if b < j {
            assert(np[a] == perm[a] && np[b] == perm[b]);
        } else if a > j {
            assert(np[a] == perm[a - 1] && np[b] == perm[b - 1]);
        } else if a < j && b > j {
            assert(np[a] == perm[a] && np[b] == perm[b - 1]);
            assert(out[a] == before[a] && out[b] == before[b - 1]);
        } else if b == j {
            assert(np[a] == perm[a]);
        } else {
            assert(out[b] == before[b - 1]);
            assert(item.before(&before[b - 1]));
        }
    }
    assert forall|k: int| 0 <= k < np.len() implies #[trigger] np[k] < n + 1 by {
        if k < j {
            assert(np[k] == perm[k]);
        } else if k > j {
            assert(np[k] == perm[k - 1]);
        }
    }
}

/// The same elements, sorted by key; elements with the same key keep the
/// order they had in `v`.
pub fn sort_by_key<T: SortKey>(v: Vec<T>) -> (r: Vec<T>)
    ensures
        r@.to_multiset() == v@.to_multiset(),
        sorted_by_key(r@),
        exists|perm: Seq<int>| stable_arrangement(r@, v@, perm),
{
    let ghost all = v@;
    let mut rest = v;
    let mut out: Vec<T> = Vec::new();
    let ghost mut perm: Seq<int> = seq![];
    assert(all.skip(0) =~= all);
    proof {
        broadcast use vstd::seq_lib::group_to_multiset_ensures;
        broadcast use vstd::multiset::group_multiset_axioms;
        assert(out@.to_multiset() =~= vstd::multiset::Multiset::empty());
        assert(all.to_multiset() =~= out@.to_multiset().add(rest@.to_multiset()));
    }
    while rest.len() > 0
        invariant
            all.to_multiset() == out@.to_multiset().add(rest@.to_multiset()),
            sorted_by_key(out@),
            rest@.len() <= all.len(),
            rest@ == all.skip(all.len() - rest@.len()),
            stable_arrangement(out@, all, perm),
            forall|k: int| 0 <= k < perm.len() ==> #[trigger] perm[k] < all.len() - rest@.len(),
        decreases rest.len(),
    {
        let ghost rest_before = rest@;
        let ghost n: int = all.len() - rest@.len();
        let item = rest.remove(0);
        assert(rest@ =~= all.skip(n + 1));
        assert(all[n] == rest_before[0]);
        let mut j = out.len();
        while j > 0 && item.goes_before(&out[j - 1])
            invariant
                j <= out@.len(),
                forall|k: int| j <= k < out@.len() ==> item.before(#[trigger] &out@[k]),
            decreases j,
        {
            j -= 1;
        }
        let ghost before = out@;
        proof {
            lemma_insert_stable(before, all, perm, n, j as int, item);
            perm = perm.insert(j as int, n);
        }
        out.insert(j, item);
        proof {
            broadcast use vstd::seq_lib::group_to_multiset_ensures;
            broadcast use vstd::multiset::group_multiset_axioms;
            assert(out@.remove(j as int) =~= before);
            assert(out@[j as int] == item);
            assert(out@.to_multiset().remove(item) == before.to_multiset());
            assert(out@.to_multiset().count(item) > 0);
            assert(out@.to_multiset() =~= before.to_multiset().insert(item));
            assert(rest_before.remove(0) =~= rest@);
            assert(rest@.to_multiset() == rest_before.to_multiset().remove(rest_before[0]));
            assert(rest_before.to_multiset().count(item) > 0);
            assert(rest_before.to_multiset() =~= rest@.to_multiset().insert(item));
            assert(all.to_multiset() =~= out@.to_multiset().add(rest@.to_multiset()));
            assert forall|a: int, b: int| #![trigger out@[a], out@[b]] 0 <= a < b < out@.len() implies !out@[b].before(&out@[a]) by {
                if b < j {
                    assert(out@[a] == before[a] && out@[b] == before[b]);
                } else if a > j {
                    assert(out@[a] == before[a - 1] && out@[b] == before[b - 1]);
                } else if a < j && b > j {
                    assert(out@[a] == before[a] && out@[b] == before[b - 1]);
                    assert(item.before(&before[b - 1]));
                    T::lemma_strict_weak_order(&before[b - 1], &item, &before[a]);
                    T::lemma_strict_weak_order(&item, &before[b - 1], &before[a]);
                    if before[b - 1].before(&before[a]) {
                        T::lemma_strict_weak_order(&item, &before[b - 1], &before[a]);
                        T::lemma_strict_weak_order(&before[a], &item, &before[a]);
                    }
                } else if b == j {
                    // out[a] is before[a], a < j: item does not go before it.
                    assert(out@[a] == before[a]);
                    if j > 0 {
                        assert(!item.before(&before[j - 1]));
                        if a < j - 1 {
                            T::lemma_strict_weak_order(&item, &before[j - 1], &before[a]);
                        }
                    }
                } else {
                    // a == j < b
                    assert(out@[b] == before[b - 1]);
                    assert(item.before(&before[b - 1]));
                    T::lemma_strict_weak_order(&before[b - 1], &item, &before[b - 1]);
                    T::lemma_strict_weak_order(&item, &before[b - 1], &item);
                }
            }
        }
    }
    proof {
        broadcast use vstd::multiset::group_multiset_axioms;
        assert(rest@.to_multiset() =~= vstd::multiset::Multiset::empty()) by {
            broadcast use vstd::seq_lib::group_to_multiset_ensures;
        }
        assert(all.to_multiset() =~= out@.to_multiset());
        assert(stable_arrangement(out@, all, perm));
    }
    out
}

} // verus!
