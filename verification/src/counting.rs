//! Counting the items of a sequence that meet a condition, and the facts
//! about such counts that the statistics rest on.

use vstd::prelude::*;
use vstd::seq_lib::*;

verus! {

/// How many items of `s` meet `p`.
pub open spec fn count_where<A>(s: Seq<A>, p: spec_fn(A) -> bool) -> nat
    decreases s.len(),
{
    if s.len() == 0 {
        0
    } else {
        count_where(s.drop_last(), p) + if p(s.last()) {
            1nat
        } else {
            0nat
        }
    }
}

spec fn count_step<A>(p: spec_fn(A) -> bool) -> spec_fn(nat, A) -> nat {
    |acc: nat, a: A|
        if p(a) {
            acc + 1
        } else {
            acc
        }
}

proof fn lemma_count_is_fold<A>(s: Seq<A>, p: spec_fn(A) -> bool)
    ensures
        count_where(s, p) == s.fold_left(0nat, count_step(p)),
    decreases s.len(),
{
    if s.len() > 0 {
        lemma_count_is_fold(s.drop_last(), p);
    }
}

/// A count is at most the length.
pub proof fn lemma_count_bound<A>(s: Seq<A>, p: spec_fn(A) -> bool)
    ensures
        count_where(s, p) <= s.len(),
    decreases s.len(),
{
    if s.len() > 0 {
        lemma_count_bound(s.drop_last(), p);
    }
}

/// Where an item meets the condition, the count is above 0.
pub proof fn lemma_count_positive<A>(s: Seq<A>, p: spec_fn(A) -> bool, at: int)
    requires
        0 <= at < s.len(),
        p(s[at]),
    ensures
        count_where(s, p) > 0,
    decreases s.len(),
{
    if at < s.len() - 1 {
        assert(s.drop_last()[at] == s[at]);
        lemma_count_positive(s.drop_last(), p, at);
    }
}

/// Taking one more item adds one to the count where the item meets the
/// condition.
pub proof fn lemma_count_take_next<A>(s: Seq<A>, p: spec_fn(A) -> bool, k: int)
    requires
        0 <= k < s.len(),
    ensures
        count_where(s.take(k + 1), p) == count_where(s.take(k), p) + if p(s[k]) {
            1nat
        } else {
            0nat
        },
{
    assert(s.take(k + 1).drop_last() =~= s.take(k));
}

/// Rearranging a sequence does not change a count.
pub proof fn lemma_count_rearranged<A>(s1: Seq<A>, s2: Seq<A>, p: spec_fn(A) -> bool)
    requires
        s1.to_multiset() == s2.to_multiset(),
    ensures
        count_where(s1, p) == count_where(s2, p),
{
    let f = count_step(p);
    assert(commutative_foldl(f));
    lemma_fold_left_permutation(s1, s2, f, 0nat);
    lemma_count_is_fold(s1, p);
    lemma_count_is_fold(s2, p);
}

/// Rearranging a sequence rearranges what a function makes of its items.
pub proof fn lemma_map_rearranged<A, B>(s1: Seq<A>, s2: Seq<A>, f: spec_fn(A) -> B)
    requires
        s1.to_multiset() == s2.to_multiset(),
    ensures
        s1.map_values(f).to_multiset() == s2.map_values(f).to_multiset(),
    decreases s1.len(),
{
    broadcast use group_to_multiset_ensures;

    to_multiset_len(s1);
    to_multiset_len(s2);
    if s1.len() == 0 {
        assert(s1.map_values(f) =~= s2.map_values(f));
    } else {
        let a = s1.last();
        let r1 = s1.drop_last();
        assert(s1[s1.len() - 1] == a);
        assert(s1.contains(a));
        assert(s2.to_multiset().count(a) > 0);
        assert(s2.contains(a));
        let i = choose|i: int| 0 <= i < s2.len() && s2[i] == a;
        let r2 = s2.remove(i);
        assert(r1.push(a) =~= s1);
        to_multiset_build(r1, a);
        to_multiset_remove(s2, i);
        assert(r1.to_multiset() =~= s1.to_multiset().remove(a));
        lemma_map_rearranged(r1, r2, f);
        assert(s1.map_values(f) =~= r1.map_values(f).push(f(a)));
        assert(s2.map_values(f) =~= r2.map_values(f).insert(i, f(a)));
        to_multiset_build(r1.map_values(f), f(a));
        to_multiset_insert(r2.map_values(f), i, f(a));
    }
}

/// Where exactly the first `k` items meet the condition, the count is `k`.
pub proof fn lemma_count_split<A>(s: Seq<A>, p: spec_fn(A) -> bool, k: int)
    requires
        0 <= k <= s.len(),
        forall|i: int| 0 <= i < k ==> p(#[trigger] s[i]),
        forall|i: int| k <= i < s.len() ==> !p(#[trigger] s[i]),
    ensures
        count_where(s, p) == k,
    decreases s.len(),
{
    if s.len() > 0 {
        let t = s.drop_last();
        if k == s.len() {
            assert forall|i: int| 0 <= i < k - 1 implies p(#[trigger] t[i]) by {
                assert(t[i] == s[i]);
            }
            lemma_count_split(t, p, k - 1);
            assert(p(s[k - 1]));
        } else {
            assert forall|i: int| 0 <= i < k implies p(#[trigger] t[i]) by {
                assert(t[i] == s[i]);
            }
            assert forall|i: int| k <= i < t.len() implies !p(#[trigger] t[i]) by {
                assert(t[i] == s[i]);
            }
            lemma_count_split(t, p, k);
            assert(!p(s[s.len() - 1]));
        }
    }
}

/// Two sequences whose items meet their conditions at the same places have
/// the same count.
pub proof fn lemma_count_pointwise<A, B>(
    s: Seq<A>,
    p: spec_fn(A) -> bool,
    t: Seq<B>,
    q: spec_fn(B) -> bool,
)
    requires
        s.len() == t.len(),
        forall|i: int| 0 <= i < s.len() ==> p(#[trigger] s[i]) == q(t[i]),
    ensures
        count_where(s, p) == count_where(t, q),
    decreases s.len(),
{
    if s.len() > 0 {
        let s0 = s.drop_last();
        let t0 = t.drop_last();
        assert forall|i: int| 0 <= i < s0.len() implies p(#[trigger] s0[i]) == q(t0[i]) by {
            assert(s0[i] == s[i]);
            assert(t0[i] == t[i]);
        }
        lemma_count_pointwise(s0, p, t0, q);
        assert(p(s[s.len() - 1]) == q(t[s.len() - 1]));
    }
}

/// A wider condition counts at least as many items.
pub proof fn lemma_count_monotone<A>(s: Seq<A>, p: spec_fn(A) -> bool, q: spec_fn(A) -> bool)
    requires
        forall|i: int| 0 <= i < s.len() && p(#[trigger] s[i]) ==> q(s[i]),
    ensures
        count_where(s, p) <= count_where(s, q),
    decreases s.len(),
{
    if s.len() > 0 {
        let s0 = s.drop_last();
        assert forall|i: int| 0 <= i < s0.len() && p(#[trigger] s0[i]) implies q(s0[i]) by {
            assert(s0[i] == s[i]);
        }
        lemma_count_monotone(s0, p, q);
        let last = s[s.len() - 1];
        assert(p(last) ==> q(last));
    }
}

/// Where `p` implies `q`, the items that meet `q` and not `p` are those that
/// meet `q`, less those that meet `p`.
pub proof fn lemma_count_difference<A>(
    s: Seq<A>,
    p: spec_fn(A) -> bool,
    q: spec_fn(A) -> bool,
    d: spec_fn(A) -> bool,
)
    requires
        forall|i: int| 0 <= i < s.len() && p(#[trigger] s[i]) ==> q(s[i]),
        forall|i: int| 0 <= i < s.len() ==> d(#[trigger] s[i]) == (q(s[i]) && !p(s[i])),
    ensures
        count_where(s, d) == count_where(s, q) - count_where(s, p),
    decreases s.len(),
{
    if s.len() > 0 {
        let s0 = s.drop_last();
        assert forall|i: int| 0 <= i < s0.len() && p(#[trigger] s0[i]) implies q(s0[i]) by {
            assert(s0[i] == s[i]);
        }
        assert forall|i: int| 0 <= i < s0.len() implies d(#[trigger] s0[i]) == (q(s0[i]) && !p(
            s0[i],
        )) by {
            assert(s0[i] == s[i]);
        }
        lemma_count_difference(s0, p, q, d);
        let last = s[s.len() - 1];
        assert(p(last) ==> q(last));
        assert(d(last) == (q(last) && !p(last)));
    }
}

} // verus!
