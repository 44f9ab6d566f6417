//! Stable sorting of manifest entries by a key (what `sort_by` does with a
//! comparator on the key): entries with equal keys keep their order.

use vstd::prelude::*;

verus! {

/// Entries ordered by a key. `precedes` is "sorts strictly before"; it must
/// be a strict weak order, which the three proof functions establish.
pub trait SortKey: Sized {
    spec fn precedes(&self, other: &Self) -> bool;

    proof fn lemma_irreflexive(a: &Self)
        ensures
            !a.precedes(a),
    ;

    proof fn lemma_transitive(a: &Self, b: &Self, c: &Self)
        requires
            a.precedes(b),
            b.precedes(c),
        ensures
            a.precedes(c),
    ;

    /// Not sorting after is transitive too: ties and order chain.
    proof fn lemma_not_after_transitive(a: &Self, b: &Self, c: &Self)
        requires
            !b.precedes(a),
            !c.precedes(b),
        ensures
            !c.precedes(a),
    ;

    fn sorts_before(&self, other: &Self) -> (r: bool)
        ensures
            r == self.precedes(other),
    ;
}

/// Where a stable insertion puts entry `i` into `order`: before the first
/// entry that `i` sorts before.
pub open spec fn insert_at<T: SortKey>(v: Seq<T>, order: Seq<int>, i: int, k: int) -> int
    decreases order.len() - k,
{
    if k >= order.len() || k < 0 {
        order.len() as int
    } else if v[i].precedes(&v[order[k]]) {
        k
    } else {
        insert_at(v, order, i, k + 1)
    }
}

/// The positions `0..n` of `v` in key order, ties in position order.
pub open spec fn stable_order<T: SortKey>(v: Seq<T>, n: nat) -> Seq<int>
    decreases n,
{
    if n == 0 {
        seq![]
    } else {
        let o = stable_order(v, (n - 1) as nat);
        o.insert(insert_at(v, o, n - 1, 0), n - 1)
    }
}

/// Position `a` of `v` comes before position `b`: a smaller key, or an
/// equal key and a smaller position.
pub open spec fn placed_before<T: SortKey>(v: Seq<T>, a: int, b: int) -> bool {
    v[a].precedes(&v[b]) || (!v[b].precedes(&v[a]) && a < b)
}

/// `order` holds each of `0..n` once, in key order, ties in position order.
pub open spec fn sorted_positions<T: SortKey>(v: Seq<T>, order: Seq<int>, n: nat) -> bool {
    &&& order.len() == n
    &&& forall|k: int| 0 <= k < n ==> 0 <= #[trigger] order[k] < n
    &&& forall|k: int, l: int| 0 <= k < l < n ==> placed_before(v, #[trigger] order[k], #[trigger] order[l])
}

/// The entries of `v` taken in `order`.
pub open spec fn take_in_order<T>(v: Seq<T>, order: Seq<int>) -> Seq<T> {
    order.map_values(|i: int| v[i])
}

proof fn lemma_insert_at<T: SortKey>(v: Seq<T>, order: Seq<int>, i: int, k: int)
    requires
        0 <= k <= order.len(),
    ensures
        k <= insert_at(v, order, i, k) <= order.len(),
        forall|j: int| k <= j < insert_at(v, order, i, k) ==> !v[i].precedes(&v[#[trigger] order[j]]),
        insert_at(v, order, i, k) < order.len() ==> v[i].precedes(&v[order[insert_at(v, order, i, k)]]),
    decreases order.len() - k,
{
    if k < order.len() && !v[i].precedes(&v[order[k]]) {
        lemma_insert_at(v, order, i, k + 1);
    }
}

proof fn lemma_placed_transitive<T: SortKey>(v: Seq<T>, a: int, b: int, c: int)
    requires
        placed_before(v, a, b),
        placed_before(v, b, c),
    ensures
        placed_before(v, a, c),
{
    if v[a].precedes(&v[b]) && v[b].precedes(&v[c]) {
        T::lemma_transitive(&v[a], &v[b], &v[c]);
    } else if v[a].precedes(&v[b]) {
        // b and c tie: a still precedes c.
        if !v[a].precedes(&v[c]) {
            T::lemma_not_after_transitive(&v[b], &v[c], &v[a]);
        }
    } else if v[b].precedes(&v[c]) {
        if !v[a].precedes(&v[c]) {
            T::lemma_not_after_transitive(&v[c], &v[a], &v[b]);
        }
    } else {
        T::lemma_not_after_transitive(&v[a], &v[b], &v[c]);
    }
}

/// The stable order is a sorted permutation of the positions.
pub proof fn lemma_stable_order_sorted<T: SortKey>(v: Seq<T>, n: nat)
    requires
        n <= v.len(),
    ensures
        sorted_positions(v, stable_order(v, n), n),
    decreases n,
{
    if n > 0 {
        let m = (n - 1) as nat;
        lemma_stable_order_sorted(v, m);
        let o = stable_order(v, m);
        let i = n - 1;
        lemma_insert_at(v, o, i, 0);
        let p = insert_at(v, o, i, 0);
        let r = o.insert(p, i);
        assert(r == stable_order(v, n));
        assert forall|k: int| 0 <= k < n implies 0 <= #[trigger] r[k] < n by {
            if k > p {
                assert(r[k] == o[k - 1]);
            }
        }
        assert forall|k: int| 0 <= k < p implies placed_before(v, #[trigger] o[k], i) by {
            assert(!v[i].precedes(&v[o[k]]));
        }
        assert forall|k: int| p <= k < m implies placed_before(v, i, #[trigger] o[k]) by {
            if k > p {
                assert(placed_before(v, o[p], o[k]));
                lemma_placed_transitive(v, i, o[p], o[k]);
            }
        }
        assert forall|k: int, l: int| 0 <= k < l < n implies placed_before(v, #[trigger] r[k], #[trigger] r[l]) by {
            if l < p {
            } else if k < p && l == p {
            } else if k < p {
                assert(r[l] == o[l - 1]);
                lemma_placed_transitive(v, o[k], i, o[l - 1]);
            } else if k == p {
                assert(r[l] == o[l - 1]);
            } else {
                assert(r[k] == o[k - 1]);
                assert(r[l] == o[l - 1]);
            }
        }
    }
}

/// Sorts entries by key, keeping the order of entries with equal keys.
pub fn stable_sort<T: SortKey>(list: Vec<T>) -> (r: Vec<T>)
    ensures
        r@ == take_in_order(list@, stable_order(list@, list@.len())),
        r.len() == list.len(),
        forall|k: int, l: int| #![trigger r@[k], r@[l]] 0 <= k < l < r.len() ==> !r@[l].precedes(&r@[k]),
{
    let ghost orig = list@;
    let n = list.len();
    let mut rest = list;
    let mut out: Vec<T> = Vec::new();
    let mut k: usize = 0;
    while k < n
        invariant
            k <= n,
            n == orig.len(),
            rest@ == orig.subrange(k as int, n as int),
            out@ == take_in_order(orig, stable_order(orig, k as nat)),
            stable_order(orig, k as nat).len() == k,
        decreases n - k,
    {
        let ghost o = stable_order(orig, k as nat);
        proof {
            lemma_stable_order_sorted(orig, k as nat);
        }
        let e = rest.remove(0);
        proof {
            assert(e == orig[k as int]);
            assert(rest@ =~= orig.subrange(k + 1, n as int));
        }
        let mut p: usize = 0;
        while p < out.len()
            invariant
                p <= out.len(),
                out.len() == k,
                k < n,
                n == orig.len(),
                o == stable_order(orig, k as nat),
                sorted_positions(orig, o, k as nat),
                out@ == take_in_order(orig, o),
                e == orig[k as int],
                insert_at(orig, o, k as int, 0) == insert_at(orig, o, k as int, p as int),
            ensures
                p <= out.len(),
                insert_at(orig, o, k as int, 0) == insert_at(orig, o, k as int, p as int),
                p < out.len() ==> orig[k as int].precedes(&orig[o[p as int]]),
            decreases out.len() - p,
        {
            proof {
                assert(out@[p as int] == orig[o[p as int]]);
            }
            if e.sorts_before(&out[p]) {
                break;
            }
            p = p + 1;
        }
        proof {
            if p < out.len() {
                assert(out@[p as int] == orig[o[p as int]]);
            }
            assert(insert_at(orig, o, k as int, 0) == p);
        }
        out.insert(p, e);
        proof {
            let o2 = o.insert(p as int, k as int);
            assert(o2 == stable_order(orig, (k + 1) as nat));
            assert(out@ =~= take_in_order(orig, o2));
        }
        k = k + 1;
    }
    proof {
        lemma_stable_order_sorted(orig, n as nat);
        let o = stable_order(orig, n as nat);
        assert forall|a: int, b: int| #![trigger out@[a], out@[b]] 0 <= a < b < out.len() implies !out@[b].precedes(
            &out@[a],
        ) by {
            assert(placed_before(orig, o[a], o[b]));
            assert(out@[a] == orig[o[a]]);
            assert(out@[b] == orig[o[b]]);
            if orig[o[b]].precedes(&orig[o[a]]) {
                if orig[o[a]].precedes(&orig[o[b]]) {
                    T::lemma_transitive(&orig[o[a]], &orig[o[b]], &orig[o[a]]);
                    T::lemma_irreflexive(&orig[o[a]]);
                }
            }
        }
    }
    out
}

proof fn lemma_insert_at_same_keys<T: SortKey>(v: Seq<T>, w: Seq<T>, order: Seq<int>, i: int, k: int, n: int)
    requires
        0 <= i < n <= v.len(),
        n <= w.len(),
        forall|a: int, b: int| 0 <= a < n && 0 <= b < n ==> v[a].precedes(&v[b]) == w[a].precedes(&w[b]),
        forall|m: int| 0 <= m < order.len() ==> 0 <= #[trigger] order[m] < n,
    ensures
        insert_at(v, order, i, k) == insert_at(w, order, i, k),
    decreases order.len() - k,
{
    if 0 <= k < order.len() {
        assert(v[i].precedes(&v[order[k]]) == w[i].precedes(&w[order[k]]));
        lemma_insert_at_same_keys(v, w, order, i, k + 1, n);
    }
}

/// Lists whose entries compare alike have the same stable order.
pub proof fn lemma_stable_order_same_keys<T: SortKey>(v: Seq<T>, w: Seq<T>, n: nat)
    requires
        n <= v.len(),
        n <= w.len(),
        forall|a: int, b: int| 0 <= a < n && 0 <= b < n ==> v[a].precedes(&v[b]) == w[a].precedes(&w[b]),
    ensures
        stable_order(v, n) == stable_order(w, n),
    decreases n,
{
    if n > 0 {
        let m = (n - 1) as nat;
        lemma_stable_order_same_keys(v, w, m);
        lemma_stable_order_sorted(v, m);
        let o = stable_order(v, m);
        lemma_insert_at_same_keys(v, w, o, n - 1, 0, n as int);
    }
}

} // verus!
