//! Permutations of a part of a vector.

use vstd::prelude::*;
use crate::shared::share;
use std::sync::Arc;

verus! {

/// `after` holds what `before` holds, in some other order between the
/// positions `start` and `end`, and in the same order everywhere else.
pub open spec fn permuted_within<T>(before: Seq<T>, after: Seq<T>, start: int, end: int) -> bool {
    &&& 0 <= start <= end <= before.len()
    &&& after.len() == before.len()
    &&& after.subrange(0, start) == before.subrange(0, start)
    &&& after.subrange(end, after.len() as int) == before.subrange(end, before.len() as int)
    &&& after.subrange(start, end).to_multiset() == before.subrange(start, end).to_multiset()
}

/// A sequence is a permutation of itself.
pub proof fn lemma_permuted_reflexive<T>(s: Seq<T>, start: int, end: int)
    requires
        0 <= start <= end <= s.len(),
    ensures
        permuted_within(s, s, start, end),
{
}

/// A permutation of a permutation is a permutation.
pub proof fn lemma_permuted_transitive<T>(a: Seq<T>, b: Seq<T>, c: Seq<T>, start: int, end: int)
    requires
        permuted_within(a, b, start, end),
        permuted_within(b, c, start, end),
    ensures
        permuted_within(a, c, start, end),
{
}

/// To exchange two elements between `start` and `end` is to permute there.
pub proof fn lemma_swap_permutes<T>(s: Seq<T>, start: int, end: int, i: int, j: int)
    requires
        0 <= start <= i < end <= s.len(),
        start <= j < end,
    ensures
        permuted_within(s, s.update(i, s[j]).update(j, s[i]), start, end),
{
    broadcast use vstd::multiset::group_multiset_axioms;
    broadcast use vstd::seq_lib::to_multiset_update;

    let t = s.update(i, s[j]).update(j, s[i]);
    let a = s.subrange(start, end);
    let b = t.subrange(start, end);
    assert(t.subrange(0, start) =~= s.subrange(0, start));
    assert(t.subrange(end, t.len() as int) =~= s.subrange(end, s.len() as int));
    let a1 = a.update(i - start, a[j - start]);
    assert(b =~= a1.update(j - start, a[i - start]));
    assert(a1.to_multiset() == a.to_multiset().insert(a[j - start]).remove(a[i - start]));
    assert(b.to_multiset() == a1.to_multiset().insert(a[i - start]).remove(a1[j - start]));
    a.to_multiset_ensures();
    assert(a.to_multiset().count(a[i - start]) > 0);
    assert(a.to_multiset().count(a[j - start]) > 0);
    if i == j {
        assert(b =~= a);
    } else {
        assert(a1[j - start] == a[j - start]);
        assert(b.to_multiset() =~= a.to_multiset());
    }
}

/// What is permuted within a part of a range is permuted within the range.
pub proof fn lemma_permuted_widens<T>(a: Seq<T>, b: Seq<T>, start: int, end: int, lo: int, hi: int)
    requires
        permuted_within(a, b, start, end),
        0 <= lo <= start,
        end <= hi <= a.len(),
    ensures
        permuted_within(a, b, lo, hi),
{
    broadcast use vstd::seq_lib::lemma_multiset_commutative;

    assert(b.subrange(0, lo) =~= b.subrange(0, start).subrange(0, lo));
    assert(a.subrange(0, lo) =~= a.subrange(0, start).subrange(0, lo));
    assert(b.subrange(hi, b.len() as int) =~= b.subrange(end, b.len() as int).subrange(
        hi - end,
        b.len() - end,
    ));
    assert(a.subrange(hi, a.len() as int) =~= a.subrange(end, a.len() as int).subrange(
        hi - end,
        a.len() - end,
    ));
    assert(b.subrange(lo, start) =~= b.subrange(0, start).subrange(lo, start));
    assert(a.subrange(lo, start) =~= a.subrange(0, start).subrange(lo, start));
    assert(b.subrange(end, hi) =~= b.subrange(end, b.len() as int).subrange(0, hi - end));
    assert(a.subrange(end, hi) =~= a.subrange(end, a.len() as int).subrange(0, hi - end));
    assert(a.subrange(lo, hi) =~= a.subrange(lo, start) + a.subrange(start, end) + a.subrange(
        end,
        hi,
    ));
    assert(b.subrange(lo, hi) =~= b.subrange(lo, start) + b.subrange(start, end) + b.subrange(
        end,
        hi,
    ));
}

/// Every element of a permutation stood somewhere in the range before.
pub proof fn lemma_permuted_member<T>(a: Seq<T>, b: Seq<T>, start: int, end: int, k: int)
    requires
        permuted_within(a, b, start, end),
        start <= k < end,
    ensures
        exists|i: int| start <= i < end && a[i] == b[k],
{
    let sa = a.subrange(start, end);
    let sb = b.subrange(start, end);
    assert(sb[k - start] == b[k]);
    assert(sb.contains(b[k]));
    vstd::seq_lib::to_multiset_contains(sb, b[k]);
    vstd::seq_lib::to_multiset_contains(sa, b[k]);
    assert(sa.contains(b[k]));
    let i = choose|i: int| 0 <= i < sa.len() && sa[i] == b[k];
    assert(a[start + i] == b[k]);
}

/// Exchanges the handles at the positions `i` and `j`.
pub fn swap_handles<T>(v: &mut Vec<Arc<T>>, i: usize, j: usize)
    requires
        i < old(v).len(),
        j < old(v).len(),
    ensures
        final(v)@ == old(v)@.update(i as int, old(v)@[j as int]).update(j as int, old(v)@[i as int]),
{
    let a = share(&v[i]);
    let b = share(&v[j]);
    v.set(i, b);
    v.set(j, a);
}

} // verus!
