//! Sequence lemmas shared by the loop proofs: how `filter` grows under
//! `push`, and how `to_multiset` behaves under concatenation and insertion.
use vstd::prelude::*;
use vstd::multiset::Multiset;

verus! {

/// Filtering a sequence extended by one element keeps the old result and
/// appends the element exactly when it satisfies the predicate.
pub proof fn lemma_filter_push<A>(s: Seq<A>, p: spec_fn(A) -> bool, x: A)
    ensures
        s.push(x).filter(p) == s.filter(p) + (if p(x) {
            seq![x]
        } else {
            Seq::<A>::empty()
        }),
{
    reveal(Seq::filter);
    assert(s.push(x).drop_last() =~= s);
    assert(s.push(x).last() == x);
    if p(x) {
        assert(s.push(x).filter(p) =~= s.filter(p) + seq![x]);
    } else {
        assert(s.push(x).filter(p) =~= s.filter(p) + Seq::<A>::empty());
    }
}

/// The multiset of a concatenation is the sum of the two multisets.
pub proof fn lemma_to_multiset_add<A>(s1: Seq<A>, s2: Seq<A>)
    ensures
        (s1 + s2).to_multiset() == s1.to_multiset().add(s2.to_multiset()),
    decreases s2.len(),
{
    broadcast use vstd::seq_lib::group_seq_properties;

    if s2.len() == 0 {
        assert(s1 + s2 =~= s1);
        assert(s2.to_multiset() =~= Multiset::<A>::empty());
        assert((s1 + s2).to_multiset() =~= s1.to_multiset().add(s2.to_multiset()));
    } else {
        let last = s2.last();
        lemma_to_multiset_add(s1, s2.drop_last());
        Seq::drop_last_distributes_over_add(s1, s2);
        (s1 + s2).drop_last().to_multiset_ensures();
        s2.drop_last().to_multiset_ensures();
        assert(s1 + s2 =~= (s1 + s2).drop_last().push(last));
        assert((s1 + s2).to_multiset() =~= (s1 + s2).drop_last().to_multiset().insert(last));
        assert(s2 =~= s2.drop_last().push(last));
        assert(s2.to_multiset() =~= s2.drop_last().to_multiset().insert(last));
        assert((s1 + s2).to_multiset() =~= s1.to_multiset().add(s2.to_multiset()));
    }
}

/// Inserting an element anywhere in a sequence adds exactly that element
/// to its multiset.
pub proof fn lemma_to_multiset_insert<A>(s: Seq<A>, pos: int, x: A)
    requires
        0 <= pos <= s.len(),
    ensures
        s.insert(pos, x).to_multiset() == s.to_multiset().insert(x),
{
    broadcast use vstd::seq_lib::group_seq_properties;

    let left = s.subrange(0, pos);
    let right = s.subrange(pos, s.len() as int);
    assert(s =~= left + right);
    assert(s.insert(pos, x) =~= left + (seq![x] + right));
    lemma_to_multiset_add(left, right);
    lemma_to_multiset_add(left, seq![x] + right);
    lemma_to_multiset_add(seq![x], right);
    assert(seq![x].to_multiset() =~= Multiset::<A>::empty().insert(x));
    assert(s.insert(pos, x).to_multiset() =~= s.to_multiset().insert(x));
}

} // verus!
