//! What the items of a sequence contribute, one behind the other.

use vstd::prelude::*;

verus! {

/// The parts that the items contribute, in order.
pub open spec fn gathered<A, B>(items: Seq<A>, part: spec_fn(A) -> Seq<B>) -> Seq<B>
    decreases items.len(),
{
    if items.len() == 0 {
        Seq::empty()
    } else {
        gathered(items.drop_last(), part) + part(items.last())
    }
}

/// One more item contributes its part behind the others.
pub proof fn lemma_gathered_next<A, B>(items: Seq<A>, n: int, part: spec_fn(A) -> Seq<B>)
    requires
        0 <= n < items.len(),
    ensures
        gathered(items.take(n + 1), part) == gathered(items.take(n), part) + part(items[n]),
{
    assert(items.take(n + 1).drop_last() =~= items.take(n));
}

/// What two sequences contribute together.
pub proof fn lemma_gathered_concat<A, B>(left: Seq<A>, right: Seq<A>, part: spec_fn(A) -> Seq<B>)
    ensures
        gathered(left + right, part) == gathered(left, part) + gathered(right, part),
    decreases right.len(),
{
    if right.len() == 0 {
        assert(left + right =~= left);
        assert(gathered(left, part) + Seq::<B>::empty() =~= gathered(left, part));
    } else {
        assert((left + right).drop_last() =~= left + right.drop_last());
        lemma_gathered_concat(left, right.drop_last(), part);
        assert(gathered(left, part) + gathered(right.drop_last(), part) + part(right.last())
            =~= gathered(left, part) + (gathered(right.drop_last(), part) + part(right.last())));
    }
}

/// What a single item contributes.
pub proof fn lemma_gathered_one<A, B>(item: A, part: spec_fn(A) -> Seq<B>)
    ensures
        gathered(seq![item], part) == part(item),
{
    assert(seq![item].drop_last() =~= Seq::empty());
    assert(gathered(seq![item].drop_last(), part) == Seq::<B>::empty());
    assert(Seq::<B>::empty() + part(item) =~= part(item));
}

/// Items of which none contributes anything.
pub proof fn lemma_gathered_nothing<A, B>(items: Seq<A>, part: spec_fn(A) -> Seq<B>)
    requires
        forall|i: int| 0 <= i < items.len() ==> part(#[trigger] items[i]).len() == 0,
    ensures
        gathered(items, part) == Seq::<B>::empty(),
    decreases items.len(),
{
    if items.len() > 0 {
        let rest = items.drop_last();
        assert forall|i: int| 0 <= i < rest.len() implies part(#[trigger] rest[i]).len() == 0 by {
            assert(rest[i] == items[i]);
        }
        lemma_gathered_nothing(rest, part);
        assert(part(items[items.len() - 1]).len() == 0);
        assert(gathered(items, part) =~= Seq::<B>::empty());
    }
}

} // verus!
