//! Facts about sequences that the loops over lists use.

use vstd::prelude::*;

verus! {

/// `s` up to `i + 1` is `s` up to `i` with the item at `i` after it.
pub proof fn lemma_take_succ<A>(s: Seq<A>, i: int)
    requires
        0 <= i < s.len(),
    ensures
        s.take(i + 1).drop_last() == s.take(i),
        s.take(i + 1).last() == s[i],
        s.take(i + 1).len() == i + 1,
{
    assert(s.take(i + 1).drop_last() =~= s.take(i));
}

/// Mapping `s` up to `i + 1` adds `f` of the item at `i`.
pub proof fn lemma_map_values_succ<A, B>(s: Seq<A>, i: int, f: spec_fn(A) -> B)
    requires
        0 <= i < s.len(),
    ensures
        s.take(i + 1).map_values(f) == s.take(i).map_values(f).push(f(s[i])),
{
    assert(s.take(i + 1).map_values(f) =~= s.take(i).map_values(f).push(f(s[i])));
}

/// The concatenation of `f` applied to every item of `s`, in order.
pub open spec fn flat_map<A, B>(s: Seq<A>, f: spec_fn(A) -> Seq<B>) -> Seq<B>
    decreases s.len(),
{
    if s.len() == 0 {
        Seq::empty()
    } else {
        flat_map(s.drop_last(), f) + f(s.last())
    }
}

/// `flat_map` over two sequences one after the other is the two results
/// one after the other.
pub proof fn lemma_flat_map_concat<A, B>(a: Seq<A>, b: Seq<A>, f: spec_fn(A) -> Seq<B>)
    ensures
        flat_map(a + b, f) == flat_map(a, f) + flat_map(b, f),
    decreases b.len(),
{
    if b.len() == 0 {
        assert(a + b =~= a);
        assert(flat_map(b, f) == Seq::<B>::empty());
        assert(flat_map(a, f) + Seq::<B>::empty() =~= flat_map(a, f));
    } else {
        lemma_flat_map_concat(a, b.drop_last(), f);
        assert((a + b).drop_last() =~= a + b.drop_last());
        assert((a + b).last() == b.last());
        assert(flat_map(a, f) + flat_map(b.drop_last(), f) + f(b.last()) =~= flat_map(a, f) + (
        flat_map(b.drop_last(), f) + f(b.last())));
    }
}

/// `flat_map` over one item is `f` of that item.
pub proof fn lemma_flat_map_single<A, B>(x: A, f: spec_fn(A) -> Seq<B>)
    ensures
        flat_map(seq![x], f) == f(x),
{
    assert(seq![x].drop_last() =~= Seq::<A>::empty());
    assert(flat_map(Seq::<A>::empty(), f) == Seq::<B>::empty());
    assert(Seq::<B>::empty() + f(x) =~= f(x));
}

} // verus!
