//! Sorting of times and of keyed pairs.

use vstd::prelude::*;
use vstd::seq_lib::*;

verus! {

/// No item is smaller than one before it.
pub open spec fn ascending(s: Seq<u64>) -> bool {
    forall|i: int, j: int| 0 <= i < j < s.len() ==> s[i] <= s[j]
}

/// The order of pairs: by the first part, then by the second.
pub open spec fn pair_le(a: (u64, u64), b: (u64, u64)) -> bool {
    a.0 < b.0 || (a.0 == b.0 && a.1 <= b.1)
}

/// No pair is smaller than one before it.
pub open spec fn pairs_ascending(s: Seq<(u64, u64)>) -> bool {
    forall|i: int, j: int| 0 <= i < j < s.len() ==> pair_le(s[i], s[j])
}

/// Calls the slice method `sort` of std on integers: afterwards the items
/// are in ascending order, and they are the items from before, each as often
/// as before.
#[verifier::external_body]
pub(crate) fn sort_u64(v: &mut Vec<u64>)
    ensures
        ascending(final(v)@),
        final(v)@.to_multiset() == old(v)@.to_multiset(),
{
    v.sort();
}

/// Calls the slice method `sort` of std on pairs of integers, which std
/// orders by the first part and then by the second: afterwards the pairs are
/// in ascending order, and they are the pairs from before, each as often as
/// before.
#[verifier::external_body]
pub(crate) fn sort_pairs(v: &mut Vec<(u64, u64)>)
    ensures
        pairs_ascending(final(v)@),
        final(v)@.to_multiset() == old(v)@.to_multiset(),
{
    v.sort();
}

/// The order `<=` of integers, as a relation.
pub open spec fn u64_le() -> spec_fn(u64, u64) -> bool {
    |a: u64, b: u64| a <= b
}

/// The items of `s` in ascending order.
pub open spec fn sorted_ascending(s: Seq<u64>) -> Seq<u64> {
    s.sort_by(u64_le())
}

/// An ascending rearrangement of `s` is `sorted_ascending(s)`: there is only
/// one.
pub proof fn lemma_ascending_is_sorted(s: Seq<u64>, t: Seq<u64>)
    requires
        ascending(t),
        t.to_multiset() == s.to_multiset(),
    ensures
        t == sorted_ascending(s),
        ascending(sorted_ascending(s)),
        sorted_ascending(s).len() == s.len(),
{
    let le = u64_le();
    assert(vstd::relations::total_ordering(le));
    s.lemma_sort_by_ensures(le);
    assert(vstd::relations::sorted_by(t, le));
    lemma_sorted_unique(t, s.sort_by(le), le);
    to_multiset_len(t);
    to_multiset_len(s);
}

/// A sorted copy of `values`.
pub fn sorted_copy(values: &Vec<u64>) -> (out: Vec<u64>)
    ensures
        out@ == sorted_ascending(values@),
        ascending(out@),
        out@.len() == values@.len(),
        out@.to_multiset() == values@.to_multiset(),
{
    let mut out: Vec<u64> = Vec::with_capacity(values.len());
    let mut i: usize = 0;
    while i < values.len()
        invariant
            i <= values.len(),
            out@ == values@.take(i as int),
        decreases values.len() - i,
    {
        out.push(values[i]);
        i += 1;
        assert(out@ =~= values@.take(i as int));
    }
    assert(out@ =~= values@);
    sort_u64(&mut out);
    proof {
        lemma_ascending_is_sorted(values@, out@);
    }
    out
}

} // verus!
