//! Stable ordering of a chosen part of a list by a two-level integer key.
//!
//! An order is a sequence of positions into the list. Position `i` comes before
//! position `j` when its key is smaller, or when the keys are equal and `i < j`
//! (the sort is stable). Exactly one order has all chosen positions and is
//! sorted this way (`lemma_stable_order_unique`).
use vstd::prelude::*;

verus! {

/// Position `i` comes before position `j`.
pub open spec fn precedes(keys: Seq<(u64, i128)>, i: int, j: int) -> bool {
    ||| keys[i].0 < keys[j].0
    ||| (keys[i].0 == keys[j].0 && keys[i].1 < keys[j].1)
    ||| (keys[i].0 == keys[j].0 && keys[i].1 == keys[j].1 && i < j)
}

/// `order` lists every chosen position exactly once, stably sorted by key.
pub open spec fn is_stable_order(keys: Seq<(u64, i128)>, chosen: Seq<bool>, order: Seq<usize>) -> bool {
    &&& forall|k: int| 0 <= k < order.len() ==> (#[trigger] order[k]) < keys.len() && chosen[order[k] as int]
    &&& forall|a: int, b: int| 0 <= a < b < order.len() ==> precedes(keys, #[trigger] order[a] as int, #[trigger] order[b] as int)
    &&& forall|i: int| 0 <= i < keys.len() && #[trigger] chosen[i] ==> listed(order, i)
}

/// Position `i` appears in `order`.
pub open spec fn listed(order: Seq<usize>, i: int) -> bool {
    exists|k: int| 0 <= k < order.len() && order[k] as int == i
}

/// The stable order of the chosen positions.
pub open spec fn stable_order_of(keys: Seq<(u64, i128)>, chosen: Seq<bool>) -> Seq<usize> {
    choose|order: Seq<usize>| is_stable_order(keys, chosen, order)
}

/// `precedes` is a strict total order on positions.
pub proof fn lemma_precedes_order(keys: Seq<(u64, i128)>)
    ensures
        forall|i: int| !precedes(keys, i, i),
        forall|i: int, j: int| #[trigger] precedes(keys, i, j) ==> !precedes(keys, j, i),
        forall|i: int, j: int, k: int| #[trigger] precedes(keys, i, j) && #[trigger] precedes(keys, j, k) ==> precedes(keys, i, k),
        forall|i: int, j: int| i != j ==> precedes(keys, i, j) || precedes(keys, j, i),
{
}

/// Two stable orders of the same chosen positions are equal.
pub proof fn lemma_stable_order_unique(keys: Seq<(u64, i128)>, chosen: Seq<bool>, o1: Seq<usize>, o2: Seq<usize>)
    requires
        chosen.len() == keys.len(),
        is_stable_order(keys, chosen, o1),
        is_stable_order(keys, chosen, o2),
    ensures
        o1 == o2,
    decreases o1.len() + o2.len(),
{
    lemma_precedes_order(keys);
    if o1.len() == 0 {
        if o2.len() > 0 {
            assert(chosen[o2[0] as int]);
            assert(listed(o1, o2[0] as int));
        }
        assert(o1 =~= o2);
    } else if o2.len() == 0 {
        assert(chosen[o1[0] as int]);
        assert(listed(o2, o1[0] as int));
    } else {
        let x = o1[0];
        let y = o2[0];
        if x != y {
            assert(chosen[x as int]);
            assert(listed(o2, x as int));
            let p = choose|p: int| 0 <= p < o2.len() && o2[p] as int == x as int;
            assert(p != 0);
            assert(precedes(keys, o2[0] as int, o2[p] as int));
            assert(chosen[y as int]);
            assert(listed(o1, y as int));
            let q = choose|q: int| 0 <= q < o1.len() && o1[q] as int == y as int;
            assert(q != 0);
            assert(precedes(keys, o1[0] as int, o1[q] as int));
            assert(false);
        }
        let chosen2 = chosen.update(x as int, false);
        let r1 = o1.drop_first();
        let r2 = o2.drop_first();
        lemma_drop_first_is_order(keys, chosen, o1);
        lemma_drop_first_is_order(keys, chosen, o2);
        lemma_stable_order_unique(keys, chosen2, r1, r2);
        assert(o1 =~= seq![x] + r1);
        assert(o2 =~= seq![x] + r2);
    }
}

/// Without its first position, a stable order is the stable order of the rest.
pub proof fn lemma_drop_first_is_order(keys: Seq<(u64, i128)>, chosen: Seq<bool>, o: Seq<usize>)
    requires
        chosen.len() == keys.len(),
        is_stable_order(keys, chosen, o),
        o.len() > 0,
    ensures
        is_stable_order(keys, chosen.update(o[0] as int, false), o.drop_first()),
{
    lemma_precedes_order(keys);
    let x = o[0];
    let c2 = chosen.update(x as int, false);
    let r = o.drop_first();
    assert forall|k: int| 0 <= k < r.len() implies (#[trigger] r[k]) < keys.len() && c2[r[k] as int] by {
        assert(r[k] == o[k + 1]);
        assert(precedes(keys, o[0] as int, o[k + 1] as int));
    }
    assert forall|a: int, b: int| 0 <= a < b < r.len() implies precedes(keys, #[trigger] r[a] as int, #[trigger] r[b] as int) by {
        assert(r[a] == o[a + 1] && r[b] == o[b + 1]);
    }
    assert forall|i: int| 0 <= i < keys.len() && #[trigger] c2[i] implies listed(r, i) by {
        assert(chosen[i]);
        assert(listed(o, i));
        let p = choose|p: int| 0 <= p < o.len() && o[p] as int == i;
        assert(p != 0);
        assert(r[p - 1] as int == i);
    }
}

/// When a stable order exists, `stable_order_of` is that order.
pub proof fn lemma_stable_order_of(keys: Seq<(u64, i128)>, chosen: Seq<bool>, o: Seq<usize>)
    requires
        chosen.len() == keys.len(),
        is_stable_order(keys, chosen, o),
    ensures
        stable_order_of(keys, chosen) == o,
{
    lemma_stable_order_unique(keys, chosen, stable_order_of(keys, chosen), o);
}

/// Key `a` is strictly greater than key `b`.
pub open spec fn key_above(a: (u64, i128), b: (u64, i128)) -> bool {
    a.0 > b.0 || (a.0 == b.0 && a.1 > b.1)
}

/// The first place at or after `p` in `order` whose key is above that of `x`,
/// or the end.
pub open spec fn insertion_point(keys: Seq<(u64, i128)>, order: Seq<usize>, x: int, p: int) -> int
    decreases order.len() - p,
{
    if 0 <= p < order.len() && !key_above(keys[order[p] as int], keys[x]) {
        insertion_point(keys, order, x, p + 1)
    } else {
        p
    }
}

proof fn lemma_insertion_point(keys: Seq<(u64, i128)>, order: Seq<usize>, x: int, p: int)
    requires
        0 <= p <= order.len(),
    ensures
        p <= insertion_point(keys, order, x, p) <= order.len(),
        forall|q: int| p <= q < insertion_point(keys, order, x, p) ==> !key_above(keys[#[trigger] order[q] as int], keys[x]),
        insertion_point(keys, order, x, p) < order.len()
            ==> key_above(keys[order[insertion_point(keys, order, x, p)] as int], keys[x]),
    decreases order.len() - p,
{
    if p < order.len() && !key_above(keys[order[p] as int], keys[x]) {
        lemma_insertion_point(keys, order, x, p + 1);
    }
}

/// The number of chosen positions.
pub open spec fn count_chosen(chosen: Seq<bool>) -> nat
    decreases chosen.len(),
{
    if chosen.len() == 0 {
        0
    } else {
        count_chosen(chosen.drop_last()) + if chosen.last() { 1nat } else { 0nat }
    }
}

/// When every position is chosen, all of them are counted.
pub proof fn lemma_count_all_chosen(chosen: Seq<bool>)
    requires
        forall|i: int| 0 <= i < chosen.len() ==> #[trigger] chosen[i],
    ensures
        count_chosen(chosen) == chosen.len(),
    decreases chosen.len(),
{
    if chosen.len() > 0 {
        lemma_count_all_chosen(chosen.drop_last());
    }
}

/// A stable order of all but the last position grows into one of the whole list,
/// by one entry when the last position is chosen.
proof fn lemma_extend_order(keys: Seq<(u64, i128)>, chosen: Seq<bool>, o: Seq<usize>) -> (o2: Seq<usize>)
    requires
        chosen.len() == keys.len(),
        0 < keys.len() <= usize::MAX,
        is_stable_order(keys.take(keys.len() - 1), chosen.take(keys.len() - 1), o),
    ensures
        is_stable_order(keys, chosen, o2),
        o2.len() == o.len() + if chosen.last() { 1nat } else { 0nat },
{
    lemma_precedes_order(keys);
    let n = keys.len() - 1;
    let k2 = keys.take(n);
    let c2 = chosen.take(n);
    assert forall|a: int, b: int| 0 <= a < n && 0 <= b < n implies precedes(k2, a, b) == precedes(keys, a, b) by {}
    if !chosen[n] {
        assert forall|a: int, b: int| 0 <= a < b < o.len() implies precedes(keys, #[trigger] o[a] as int, #[trigger] o[b] as int) by {
            assert(precedes(k2, o[a] as int, o[b] as int));
        }
        assert forall|i: int| 0 <= i < keys.len() && #[trigger] chosen[i] implies listed(o, i) by {
            assert(c2[i]);
        }
        assert forall|k: int| 0 <= k < o.len() implies (#[trigger] o[k]) < keys.len() && chosen[o[k] as int] by {
            assert(c2[o[k] as int]);
        }
        o
    } else {
        lemma_insertion_point(keys, o, n, 0);
        let p = insertion_point(keys, o, n, 0);
        let o2 = o.insert(p, n as usize);
        assert forall|q: int| 0 <= q < p implies precedes(keys, #[trigger] o[q] as int, n) by {
            assert(!key_above(keys[o[q] as int], keys[n]));
            assert(o[q] < n);
        }
        if p < o.len() {
            assert forall|q: int| p <= q < o.len() implies precedes(keys, n, #[trigger] o[q] as int) by {
                if q > p {
                    assert(precedes(k2, o[p] as int, o[q] as int));
                }
            }
        }
        assert forall|k: int| 0 <= k < o2.len() implies (#[trigger] o2[k]) < keys.len() && chosen[o2[k] as int] by {
            if k < p {
                assert(o2[k] == o[k] && c2[o[k] as int]);
            } else if k > p {
                assert(o2[k] == o[k - 1] && c2[o[k - 1] as int]);
            }
        }
        assert forall|a: int, b: int| 0 <= a < b < o2.len() implies precedes(keys, #[trigger] o2[a] as int, #[trigger] o2[b] as int) by {
            if b < p {
                assert(o2[a] == o[a] && o2[b] == o[b]);
                assert(precedes(k2, o[a] as int, o[b] as int));
            } else if b == p {
                assert(o2[a] == o[a]);
            } else if a < p {
                assert(o2[a] == o[a] && o2[b] == o[b - 1]);
                assert(precedes(k2, o[a] as int, o[b - 1] as int));
            } else if a == p {
                assert(o2[b] == o[b - 1]);
            } else {
                assert(o2[a] == o[a - 1] && o2[b] == o[b - 1]);
                assert(precedes(k2, o[a - 1] as int, o[b - 1] as int));
            }
        }
        assert forall|i: int| 0 <= i < keys.len() && #[trigger] chosen[i] implies listed(o2, i) by {
            if i == n {
                assert(o2[p] as int == n);
            } else {
                assert(c2[i]);
                assert(listed(o, i));
                let q = choose|q: int| 0 <= q < o.len() && o[q] as int == i;
                if q < p {
                    assert(o2[q] as int == i);
                } else {
                    assert(o2[q + 1] as int == i);
                }
            }
        }
        o2
    }
}

/// Every choice of positions has a stable order, as long as its count of chosen positions.
pub proof fn lemma_stable_order_exists(keys: Seq<(u64, i128)>, chosen: Seq<bool>)
    requires
        chosen.len() == keys.len(),
        keys.len() <= usize::MAX,
    ensures
        is_stable_order(keys, chosen, stable_order_of(keys, chosen)),
        stable_order_of(keys, chosen).len() == count_chosen(chosen),
    decreases keys.len(),
{
    if keys.len() == 0 {
        assert(is_stable_order(keys, chosen, Seq::<usize>::empty()));
        lemma_stable_order_of(keys, chosen, Seq::<usize>::empty());
    } else {
        let n = keys.len() - 1;
        let c2 = chosen.take(n);
        lemma_stable_order_exists(keys.take(n), c2);
        let o2 = lemma_extend_order(keys, chosen, stable_order_of(keys.take(n), c2));
        lemma_stable_order_of(keys, chosen, o2);
        assert(c2 =~= chosen.drop_last());
    }
}

/// Key `a` is strictly greater than key `b`.
fn key_greater(a: (u64, i128), b: (u64, i128)) -> (r: bool)
    ensures
        r == (a.0 > b.0 || (a.0 == b.0 && a.1 > b.1)),
{
    a.0 > b.0 || (a.0 == b.0 && a.1 > b.1)
}

/// The chosen positions of the list, stably sorted by key.
pub fn stable_order(keys: &Vec<(u64, i128)>, chosen: &Vec<bool>) -> (order: Vec<usize>)
    requires
        keys.len() == chosen.len(),
    ensures
        is_stable_order(keys@, chosen@, order@),
        order@ == stable_order_of(keys@, chosen@),
{
    let n = keys.len();
    let mut order: Vec<usize> = Vec::new();
    let mut i: usize = 0;
    while i < n
        invariant
            i <= n == keys.len() == chosen.len(),
            forall|k: int| 0 <= k < order.len() ==> (#[trigger] order@[k]) < i && chosen@[order@[k] as int],
            forall|a: int, b: int| 0 <= a < b < order.len() ==> precedes(keys@, #[trigger] order@[a] as int, #[trigger] order@[b] as int),
            forall|j: int| 0 <= j < i && #[trigger] chosen@[j] ==> listed(order@, j),
        decreases n - i,
    {
        proof { lemma_precedes_order(keys@); }
        if chosen[i] {
            let ki = keys[i];
            let mut p: usize = 0;
            while p < order.len() && !key_greater(keys[order[p]], ki)
                invariant
                    p <= order.len(),
                    i < n == keys.len(),
                    ki == keys@[i as int],
                    forall|k: int| 0 <= k < order.len() ==> (#[trigger] order@[k]) < i,
                    forall|q: int| 0 <= q < p ==> precedes(keys@, #[trigger] order@[q] as int, i as int),
                decreases order.len() - p,
            {
                p = p + 1;
            }
            let ghost old_order = order@;
            proof {
                if p < order.len() {
                    assert forall|q: int| p <= q < old_order.len() implies precedes(keys@, i as int, #[trigger] old_order[q] as int) by {
                        if q > p {
                            assert(precedes(keys@, old_order[p as int] as int, old_order[q] as int));
                        }
                    }
                }
            }
            order.insert(p, i);
            assert forall|a: int, b: int| 0 <= a < b < order.len() implies precedes(keys@, #[trigger] order@[a] as int, #[trigger] order@[b] as int) by {
                if b < p {
                    assert(order@[a] == old_order[a] && order@[b] == old_order[b]);
                } else if b == p {
                    assert(order@[a] == old_order[a]);
                } else if a < p {
                    assert(order@[a] == old_order[a] && order@[b] == old_order[b - 1]);
                    if b - 1 > p - 1 {
                    }
                    assert(precedes(keys@, old_order[a] as int, i as int));
                } else if a == p {
                    assert(order@[b] == old_order[b - 1]);
                } else {
                    assert(order@[a] == old_order[a - 1] && order@[b] == old_order[b - 1]);
                }
            }
            assert forall|j: int| 0 <= j < i + 1 && #[trigger] chosen@[j] implies listed(order@, j) by {
                if j == i {
                    assert(order@[p as int] == i);
                } else {
                    assert(listed(old_order, j));
                    let q = choose|q: int| 0 <= q < old_order.len() && old_order[q] as int == j;
                    if q < p {
                        assert(order@[q] as int == j);
                    } else {
                        assert(order@[q + 1] as int == j);
                    }
                }
            }
        }
        i = i + 1;
    }
    proof {
        lemma_stable_order_of(keys@, chosen@, order@);
    }
    order
}

} // verus!
