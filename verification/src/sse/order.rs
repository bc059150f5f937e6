//! Keys in increasing order.

use vstd::prelude::*;

verus! {

/// Each key ranks below those behind it.
pub open spec fn increasing<K>(keys: Seq<K>, rank: spec_fn(K) -> int) -> bool {
    forall|i: int, j: int|
        0 <= i < j < keys.len() ==> rank(#[trigger] keys[i]) < rank(#[trigger] keys[j])
}

/// The keys of a set, lowest rank first.
pub open spec fn ordered_keys<K>(keys: Set<K>, rank: spec_fn(K) -> int) -> Seq<K> {
    choose|order: Seq<K>| #[trigger] increasing(order, rank) && order.to_set() == keys
}

/// A sequence of increasing rank is the order of its keys.
pub proof fn lemma_ordered_keys<K>(keys: Set<K>, rank: spec_fn(K) -> int, order: Seq<K>)
    requires
        increasing(order, rank),
        order.to_set() == keys,
    ensures
        ordered_keys(keys, rank) == order,
{
    lemma_increasing_unique(ordered_keys(keys, rank), order, rank);
}

/// Two sequences of increasing rank that hold the same keys are equal.
proof fn lemma_increasing_unique<K>(left: Seq<K>, right: Seq<K>, rank: spec_fn(K) -> int)
    requires
        increasing(left, rank),
        increasing(right, rank),
        left.to_set() == right.to_set(),
    ensures
        left == right,
    decreases left.len(),
{
    if left.len() == 0 {
        if right.len() > 0 {
            assert(right.to_set().contains(right[0]));
            assert(left.contains(right[0]));
        }
        assert(left =~= right);
    } else {
        assert(left.to_set().contains(left[0]));
        assert(right.contains(left[0]));
        let j = choose|j: int| 0 <= j < right.len() && right[j] == left[0];
        assert(right.to_set().contains(right[0]));
        assert(left.contains(right[0]));
        let i = choose|i: int| 0 <= i < left.len() && left[i] == right[0];
        assert(left[0] == right[0]) by {
            if j > 0 && i > 0 {
                assert(rank(right[0]) < rank(right[j]));
                assert(rank(left[0]) < rank(left[i]));
            }
        }
        let left_rest = left.drop_first();
        let right_rest = right.drop_first();
        assert(left_rest.to_set() =~= right_rest.to_set()) by {
            lemma_rest_set(left, rank);
            lemma_rest_set(right, rank);
        }
        assert(increasing(left_rest, rank));
        assert(increasing(right_rest, rank));
        lemma_increasing_unique(left_rest, right_rest, rank);
        assert(left =~= seq![left[0]] + left_rest);
        assert(right =~= seq![right[0]] + right_rest);
    }
}

/// Behind the first key of an increasing sequence stand all the others.
proof fn lemma_rest_set<K>(order: Seq<K>, rank: spec_fn(K) -> int)
    requires
        increasing(order, rank),
        order.len() > 0,
    ensures
        order.drop_first().to_set() == order.to_set().remove(order[0]),
{
    let rest = order.drop_first();
    assert forall|k: K| rest.to_set().contains(k) <==> order.to_set().remove(order[0]).contains(
        k,
    ) by {
        if rest.contains(k) {
            let i = choose|i: int| 0 <= i < rest.len() && rest[i] == k;
            assert(order[i + 1] == k);
            assert(rank(order[0]) < rank(order[i + 1]));
        }
        if order.contains(k) && k != order[0] {
            let i = choose|i: int| 0 <= i < order.len() && order[i] == k;
            assert(rest[i - 1] == k);
        }
    }
    assert(rest.to_set() =~= order.to_set().remove(order[0]));
}

/// A finite set of keys that rank differently has an order.
pub proof fn lemma_order_exists<K>(keys: Set<K>, rank: spec_fn(K) -> int)
    requires
        keys.finite(),
        forall|a: K, b: K|
            keys.contains(a) && keys.contains(b) && rank(a) == rank(b) ==> a == b,
    ensures
        increasing(ordered_keys(keys, rank), rank),
        ordered_keys(keys, rank).to_set() == keys,
    decreases keys.len(),
{
    if keys.len() == 0 {
        assert(keys =~= Set::empty());
        assert(Seq::<K>::empty().to_set() =~= keys);
        lemma_ordered_keys(keys, rank, Seq::empty());
    } else {
        let top = lemma_highest(keys, rank);
        let rest = keys.remove(top);
        lemma_order_exists(rest, rank);
        let below = ordered_keys(rest, rank);
        let order = below.push(top);
        assert forall|i: int, j: int| 0 <= i < j < order.len() implies rank(#[trigger] order[i])
            < rank(#[trigger] order[j]) by {
            assert(below.to_set().contains(below[i]));
            assert(rest.contains(order[i]));
        }
        assert forall|k: K| order.to_set().contains(k) <==> keys.contains(k) by {
            if order.contains(k) {
                let i = choose|i: int| 0 <= i < order.len() && order[i] == k;
                if i < below.len() {
                    assert(below.to_set().contains(below[i]));
                }
            }
            if keys.contains(k) {
                if k == top {
                    assert(order[below.len() as int] == k);
                } else {
                    assert(below.to_set().contains(k));
                    let i = choose|i: int| 0 <= i < below.len() && below[i] == k;
                    assert(order[i] == k);
                }
            }
        }
        assert(order.to_set() =~= keys);
        lemma_ordered_keys(keys, rank, order);
    }
}

/// The key of the highest rank.
proof fn lemma_highest<K>(keys: Set<K>, rank: spec_fn(K) -> int) -> (top: K)
    requires
        keys.finite(),
        keys.len() > 0,
    ensures
        keys.contains(top),
        forall|k: K| keys.contains(k) ==> rank(k) <= rank(top),
    decreases keys.len(),
{
    let some = keys.choose();
    let rest = keys.remove(some);
    if rest.len() == 0 {
        assert(forall|k: K| keys.contains(k) && k != some ==> rest.contains(k));
        some
    } else {
        let top = lemma_highest(rest, rank);
        assert(forall|k: K| keys.contains(k) && k != some ==> rest.contains(k));
        if rank(some) <= rank(top) {
            top
        } else {
            some
        }
    }
}

/// The order in which a `BTreeMap` walks keys of type `i64`.
pub proof fn lemma_increasing_i64(keys: Seq<i64>)
    requires
        vstd::std_specs::btree::increasing_seq(keys),
    ensures
        forall|i: int, j: int| 0 <= i < j < keys.len() ==> keys[i] < keys[j],
{
    assert(vstd::laws_cmp::obeys_cmp::<i64>());
    assert forall|i: int, j: int| 0 <= i < j < keys.len() implies keys[i] < keys[j] by {
        assert(vstd::std_specs::cmp::OrdSpec::cmp_spec(&keys[i], &keys[j]) is Less);
    }
}

/// The order in which a `BTreeMap` walks keys of type `usize`.
pub proof fn lemma_increasing_usize(keys: Seq<usize>)
    requires
        vstd::std_specs::btree::increasing_seq(keys),
    ensures
        forall|i: int, j: int| 0 <= i < j < keys.len() ==> keys[i] < keys[j],
{
    assert(vstd::laws_cmp::obeys_cmp::<usize>());
    assert forall|i: int, j: int| 0 <= i < j < keys.len() implies keys[i] < keys[j] by {
        assert(vstd::std_specs::cmp::OrdSpec::cmp_spec(&keys[i], &keys[j]) is Less);
    }
}

} // verus!
