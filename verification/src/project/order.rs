//! The order of strings (code point by code point, as `String`'s `Ord`)
//! and sorted, duplicate-free lists of ids.

use vstd::prelude::*;
use crate::text::texts;
use crate::text::chars_of;
use crate::project::stable::SortKey;

verus! {

/// `a` sorts before `b`: at the first position where they differ `a` has
/// the smaller character, or `a` is a proper prefix of `b`.
pub open spec fn seq_lt(a: Seq<char>, b: Seq<char>) -> bool
    decreases a.len(),
{
    if a.len() == 0 {
        b.len() > 0
    } else if b.len() == 0 {
        false
    } else if a[0] != b[0] {
        a[0] < b[0]
    } else {
        seq_lt(a.drop_first(), b.drop_first())
    }
}

/// No string sorts before itself.
pub proof fn lemma_lt_irreflexive(a: Seq<char>)
    ensures
        !seq_lt(a, a),
    decreases a.len(),
{
    if a.len() > 0 {
        lemma_lt_irreflexive(a.drop_first());
    }
}

/// The order is transitive.
pub proof fn lemma_lt_transitive(a: Seq<char>, b: Seq<char>, c: Seq<char>)
    requires
        seq_lt(a, b),
        seq_lt(b, c),
    ensures
        seq_lt(a, c),
    decreases a.len(),
{
    if a.len() > 0 && b.len() > 0 && c.len() > 0 && a[0] == b[0] && b[0] == c[0] {
        lemma_lt_transitive(a.drop_first(), b.drop_first(), c.drop_first());
    }
}

/// Of two different strings one sorts before the other.
pub proof fn lemma_lt_total(a: Seq<char>, b: Seq<char>)
    ensures
        a == b || seq_lt(a, b) || seq_lt(b, a),
    decreases a.len(),
{
    if a.len() > 0 && b.len() > 0 && a[0] == b[0] {
        lemma_lt_total(a.drop_first(), b.drop_first());
        if a.drop_first() == b.drop_first() {
            assert(a =~= seq![a[0]] + a.drop_first());
            assert(b =~= seq![b[0]] + b.drop_first());
        }
    } else if a.len() == 0 && b.len() == 0 {
        assert(a =~= b);
    }
}

/// No two strings sort before each other.
pub proof fn lemma_lt_asymmetric(a: Seq<char>, b: Seq<char>)
    ensures
        seq_lt(a, b) ==> !seq_lt(b, a),
{
    if seq_lt(a, b) && seq_lt(b, a) {
        lemma_lt_transitive(a, b, a);
        lemma_lt_irreflexive(a);
    }
}

proof fn lemma_lt_from(a: Seq<char>, b: Seq<char>, i: int)
    requires
        0 <= i <= a.len(),
        i <= b.len(),
        a.subrange(0, i) == b.subrange(0, i),
    ensures
        seq_lt(a, b) == seq_lt(a.subrange(i, a.len() as int), b.subrange(i, b.len() as int)),
    decreases i,
{
    if i == 0 {
        assert(a.subrange(0, a.len() as int) =~= a);
        assert(b.subrange(0, b.len() as int) =~= b);
    } else {
        assert(a[0] == a.subrange(0, i)[0]);
        assert(b[0] == b.subrange(0, i)[0]);
        assert(a.drop_first().subrange(0, i - 1) =~= a.subrange(0, i).drop_first());
        assert(b.drop_first().subrange(0, i - 1) =~= b.subrange(0, i).drop_first());
        lemma_lt_from(a.drop_first(), b.drop_first(), i - 1);
        assert(a.drop_first().subrange(i - 1, a.len() - 1) =~= a.subrange(i, a.len() as int));
        assert(b.drop_first().subrange(i - 1, b.len() - 1) =~= b.subrange(i, b.len() as int));
    }
}

/// Whether `a` sorts before `b`.
pub fn text_lt(a: &[char], b: &[char]) -> (r: bool)
    ensures
        r == seq_lt(a@, b@),
{
    let mut i: usize = 0;
    while i < a.len() && i < b.len() && a[i] == b[i]
        invariant
            i <= a@.len(),
            i <= b@.len(),
            a@.subrange(0, i as int) == b@.subrange(0, i as int),
        decreases a.len() - i,
    {
        proof {
            assert(a@.subrange(0, i + 1) =~= a@.subrange(0, i as int).push(a@[i as int]));
            assert(b@.subrange(0, i + 1) =~= b@.subrange(0, i as int).push(b@[i as int]));
        }
        i = i + 1;
    }
    proof {
        lemma_lt_from(a@, b@, i as int);
        let ta = a@.subrange(i as int, a@.len() as int);
        let tb = b@.subrange(i as int, b@.len() as int);
        if i < a@.len() && i < b@.len() {
            assert(ta[0] == a@[i as int]);
            assert(tb[0] == b@[i as int]);
        }
    }
    if i == a.len() {
        i < b.len()
    } else if i == b.len() {
        false
    } else {
        a[i] < b[i]
    }
}

/// Each string sorts before every later one.
pub open spec fn strictly_sorted(s: Seq<Seq<char>>) -> bool {
    forall|i: int, j: int| 0 <= i < j < s.len() ==> seq_lt(#[trigger] s[i], #[trigger] s[j])
}

/// The distinct values in sorted order (what collecting into a `BTreeSet`
/// and back gives).
pub fn dedupe_sorted(values: Vec<String>) -> (r: Vec<String>)
    ensures
        strictly_sorted(texts(r@)),
        forall|x: Seq<char>| texts(r@).contains(x) <==> texts(values@).contains(x),
{
    let mut out: Vec<String> = Vec::new();
    let mut i: usize = 0;
    while i < values.len()
        invariant
            i <= values.len(),
            strictly_sorted(texts(out@)),
            forall|x: Seq<char>| texts(out@).contains(x) <==> texts(values@.take(i as int)).contains(x),
        decreases values.len() - i,
    {
        let v = &values[i];
        let vc = chars_of(v.as_str());
        let ghost x = v@;
        let mut p: usize = 0;
        let mut found = false;
        while p < out.len()
            invariant_except_break
                p <= out@.len(),
                vc@ == x,
                !found,
                forall|k: int| 0 <= k < p ==> seq_lt(#[trigger] texts(out@)[k], x),
            ensures
                p <= out@.len(),
                forall|k: int| 0 <= k < p ==> seq_lt(#[trigger] texts(out@)[k], x),
                found ==> p < out@.len() && texts(out@)[p as int] == x,
                !found ==> p == out@.len() || seq_lt(x, texts(out@)[p as int]),
            decreases out.len() - p,
        {
            let oc = chars_of(out[p].as_str());
            if text_lt(oc.as_slice(), vc.as_slice()) {
                p = p + 1;
            } else {
                if !text_lt(vc.as_slice(), oc.as_slice()) {
                    proof {
                        lemma_lt_total(oc@, vc@);
                    }
                    found = true;
                }
                break;
            }
        }
        let ghost t_before = texts(out@);
        let ghost before_vals = texts(values@.take(i as int));
        if !found {
            proof {
                assert forall|k: int| p <= k < t_before.len() implies seq_lt(x, #[trigger] t_before[k]) by {
                    if k > p {
                        assert(seq_lt(t_before[p as int], t_before[k]));
                        lemma_lt_transitive(x, t_before[p as int], t_before[k]);
                    }
                }
            }
            out.insert(p, v.clone());
            proof {
                t_before.insert_ensures(p as int, x);
                let t = texts(out@);
                assert(t =~= t_before.insert(p as int, x));
                assert forall|a: int, b: int| 0 <= a < b < t.len() implies seq_lt(#[trigger] t[a], #[trigger] t[b]) by {
                    if b < p {
                    } else if a < p && b == p {
                    } else if a < p {
                        assert(t[b] == t_before[b - 1]);
                    } else if a == p {
                        assert(t[b] == t_before[b - 1]);
                    } else {
                        assert(t[a] == t_before[a - 1]);
                        assert(t[b] == t_before[b - 1]);
                    }
                }
                assert forall|y: Seq<char>| t.contains(y) <==> (t_before.contains(y) || y == x) by {
                    if t.contains(y) {
                        let k = choose|k: int| 0 <= k < t.len() && t[k] == y;
                        if k < p {
                            assert(t_before[k] == y);
                        } else if k > p {
                            assert(t_before[k - 1] == y);
                        }
                    }
                    if t_before.contains(y) {
                        let k = choose|k: int| 0 <= k < t_before.len() && t_before[k] == y;
                        if k < p {
                            assert(t[k] == y);
                        } else {
                            assert(t[k + 1] == y);
                        }
                    }
                    if y == x {
                        assert(t[p as int] == y);
                    }
                }
            }
        } else {
            proof {
                assert(t_before.contains(x));
            }
        }
        proof {
            assert(values@.take(i + 1) =~= values@.take(i as int).push(values@[i as int]));
            let after_vals = texts(values@.take(i + 1));
            assert(after_vals =~= before_vals.push(x));
            assert forall|y: Seq<char>| after_vals.contains(y) <==> (before_vals.contains(y) || y == x) by {
                if after_vals.contains(y) {
                    let k = choose|k: int| 0 <= k < after_vals.len() && after_vals[k] == y;
                    if k < before_vals.len() {
                        assert(before_vals[k] == y);
                    }
                }
                if before_vals.contains(y) {
                    let k = choose|k: int| 0 <= k < before_vals.len() && before_vals[k] == y;
                    assert(after_vals[k] == y);
                }
                if y == x {
                    assert(after_vals[before_vals.len() as int] == y);
                }
            }
        }
        i = i + 1;
    }
    proof {
        assert(values@.take(values.len() as int) =~= values@);
    }
    out
}

/// Pairs of strings in order: by the first, then by the second.
pub open spec fn pair_text_lt(a: (Seq<char>, Seq<char>), b: (Seq<char>, Seq<char>)) -> bool {
    seq_lt(a.0, b.0) || (a.0 == b.0 && seq_lt(a.1, b.1))
}

/// The pair order is a strict weak order (indeed total): irreflexive,
/// transitive, and not sorting after chains.
pub proof fn lemma_pair_text_order(a: (Seq<char>, Seq<char>), b: (Seq<char>, Seq<char>), c: (Seq<char>, Seq<char>))
    ensures
        !pair_text_lt(a, a),
        pair_text_lt(a, b) && pair_text_lt(b, c) ==> pair_text_lt(a, c),
        !pair_text_lt(b, a) && !pair_text_lt(c, b) ==> !pair_text_lt(c, a),
{
    lemma_lt_irreflexive(a.0);
    lemma_lt_irreflexive(a.1);
    lemma_lt_total(a.0, b.0);
    lemma_lt_total(b.0, c.0);
    lemma_lt_total(a.0, c.0);
    lemma_lt_total(a.1, b.1);
    lemma_lt_total(b.1, c.1);
    lemma_lt_total(a.1, c.1);
    lemma_lt_asymmetric(a.0, b.0);
    lemma_lt_asymmetric(b.0, c.0);
    lemma_lt_asymmetric(a.0, c.0);
    lemma_lt_asymmetric(a.1, b.1);
    lemma_lt_asymmetric(b.1, c.1);
    lemma_lt_asymmetric(a.1, c.1);
    if seq_lt(a.0, b.0) && seq_lt(b.0, c.0) {
        lemma_lt_transitive(a.0, b.0, c.0);
    }
    if seq_lt(a.1, b.1) && seq_lt(b.1, c.1) {
        lemma_lt_transitive(a.1, b.1, c.1);
    }
    if seq_lt(c.0, b.0) && seq_lt(b.0, a.0) {
        lemma_lt_transitive(c.0, b.0, a.0);
    }
    if seq_lt(c.1, b.1) && seq_lt(b.1, a.1) {
        lemma_lt_transitive(c.1, b.1, a.1);
    }
}

impl SortKey for String {
    /// Strings sort by their characters.
    open spec fn precedes(&self, other: &Self) -> bool {
        seq_lt(self@, other@)
    }

    proof fn lemma_irreflexive(a: &Self) {
        lemma_lt_irreflexive(a@);
    }

    proof fn lemma_transitive(a: &Self, b: &Self, c: &Self) {
        lemma_lt_transitive(a@, b@, c@);
    }

    proof fn lemma_not_after_transitive(a: &Self, b: &Self, c: &Self) {
        lemma_lt_total(a@, b@);
        lemma_lt_total(b@, c@);
        lemma_lt_asymmetric(a@, c@);
        if seq_lt(a@, b@) && seq_lt(b@, c@) {
            lemma_lt_transitive(a@, b@, c@);
        }
    }

    fn sorts_before(&self, other: &Self) -> (r: bool) {
        let a = chars_of(self.as_str());
        let b = chars_of(other.as_str());
        text_lt(a.as_slice(), b.as_slice())
    }
}

} // verus!
