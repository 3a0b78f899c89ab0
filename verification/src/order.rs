//! The order of places in the sources: by file, then by line, then by column.

use vstd::prelude::*;
use crate::token::Loc;

verus! {

/// Whether the place `a` comes before the place `b`.
pub open spec fn loc_lt(a: Loc, b: Loc) -> bool {
    a.file < b.file || (a.file == b.file && (a.line < b.line || (a.line == b.line && a.column
        < b.column)))
}

/// The position at or behind `from` at which the handle `x` goes into
/// `order`: before the first handle whose place comes after that of `x`.
pub open spec fn insert_pos(order: Seq<usize>, locs: Seq<Loc>, x: int, from: int) -> int
    decreases order.len() - from,
{
    if from < 0 || from >= order.len() {
        order.len() as int
    } else if 0 <= x < locs.len() && order[from] < locs.len() && loc_lt(
        locs[x],
        locs[order[from] as int],
    ) {
        from
    } else {
        insert_pos(order, locs, x, from + 1)
    }
}

/// The handles of the first `n` places, in the order of the places;
/// handles of one place in the order of the handles.
pub open spec fn sorted_order(locs: Seq<Loc>, n: nat) -> Seq<usize>
    decreases n,
{
    if n == 0 || n > locs.len() {
        Seq::empty()
    } else {
        let before = sorted_order(locs, (n - 1) as nat);
        before.insert(insert_pos(before, locs, n - 1, 0), (n - 1) as usize)
    }
}

pub proof fn lemma_insert_pos(order: Seq<usize>, locs: Seq<Loc>, x: int, from: int)
    requires
        0 <= from <= order.len(),
    ensures
        from <= insert_pos(order, locs, x, from) <= order.len(),
    decreases order.len() - from,
{
    if from < order.len() {
        lemma_insert_pos(order, locs, x, from + 1);
    }
}

/// The order holds each of the first `n` handles, and nothing else.
pub proof fn lemma_sorted_order(locs: Seq<Loc>, n: nat)
    requires
        n <= locs.len() <= usize::MAX,
    ensures
        sorted_order(locs, n).len() == n,
        forall|i: int| 0 <= i < n ==> (#[trigger] sorted_order(locs, n)[i]) < n,
    decreases n,
{
    if n > 0 {
        lemma_sorted_order(locs, (n - 1) as nat);
        let before = sorted_order(locs, (n - 1) as nat);
        lemma_insert_pos(before, locs, n - 1, 0);
    }
}

/// In the order, no handle stands before a handle whose place comes before its own.
pub proof fn lemma_order_is_sorted(locs: Seq<Loc>, n: nat)
    requires
        n <= locs.len() <= usize::MAX,
    ensures
        forall|i: int, j: int|
            0 <= i < j < sorted_order(locs, n).len() ==> !loc_lt(
                locs[(#[trigger] sorted_order(locs, n)[j]) as int],
                locs[(#[trigger] sorted_order(locs, n)[i]) as int],
            ),
    decreases n,
{
    if n > 0 {
        lemma_order_is_sorted(locs, (n - 1) as nat);
        lemma_sorted_order(locs, (n - 1) as nat);
        lemma_sorted_order(locs, n);
        let before = sorted_order(locs, (n - 1) as nat);
        let p = insert_pos(before, locs, n - 1, 0);
        lemma_insert_pos(before, locs, n - 1, 0);
        lemma_pos_bounds(before, locs, n - 1, 0);
        let after = sorted_order(locs, n);
        assert forall|i: int, j: int| 0 <= i < j < after.len() implies !loc_lt(
            locs[(#[trigger] after[j]) as int],
            locs[(#[trigger] after[i]) as int],
        ) by {
            if j == p {
                // the new handle stands behind handles that do not come after it
                assert(after[i] == before[i]);
                assert(after[j] == (n - 1) as usize);
                assert(!loc_lt(locs[n - 1], locs[before[i] as int]));
            } else if i == p {
                // and before handles that do not come before the first one after it
                assert(after[i] == (n - 1) as usize);
                assert(after[j] == before[j - 1]);
                assert(p < before.len());
                assert(loc_lt(locs[n - 1], locs[before[p] as int]));
                if j - 1 > p {
                    assert(!loc_lt(locs[before[j - 1] as int], locs[before[p] as int]));
                }
            } else {
                let bi = if i < p {
                    i
                } else {
                    i - 1
                };
                let bj = if j < p {
                    j
                } else {
                    j - 1
                };
                assert(after[i] == before[bi]);
                assert(after[j] == before[bj]);
            }
        }
    }
}

proof fn lemma_pos_bounds(order: Seq<usize>, locs: Seq<Loc>, x: int, from: int)
    requires
        0 <= from <= order.len(),
        0 <= x < locs.len(),
        forall|i: int| 0 <= i < order.len() ==> (#[trigger] order[i]) < locs.len(),
    ensures
        forall|i: int|
            from <= i < insert_pos(order, locs, x, from) ==> !loc_lt(
                locs[x],
                locs[(#[trigger] order[i]) as int],
            ),
        insert_pos(order, locs, x, from) < order.len() ==> loc_lt(
            locs[x],
            locs[order[insert_pos(order, locs, x, from)] as int],
        ),
    decreases order.len() - from,
{
    if from < order.len() {
        lemma_pos_bounds(order, locs, x, from + 1);
    }
}

fn comes_before(a: Loc, b: Loc) -> (r: bool)
    ensures
        r == loc_lt(a, b),
{
    a.file < b.file || (a.file == b.file && (a.line < b.line || (a.line == b.line && a.column
        < b.column)))
}

/// The handles of the places, in the order of the places.
pub fn order_of(locs: &Vec<Loc>) -> (r: Vec<usize>)
    ensures
        r@ == sorted_order(locs@, locs@.len()),
        r@.len() == locs@.len(),
        forall|i: int| 0 <= i < r@.len() ==> (#[trigger] r@[i]) < locs@.len(),
{
    let mut order: Vec<usize> = Vec::new();
    let mut n: usize = 0;
    while n < locs.len()
        invariant
            n <= locs@.len(),
            order@ == sorted_order(locs@, n as nat),
            order@.len() == n,
            forall|i: int| 0 <= i < n ==> (#[trigger] order@[i]) < n,
        decreases locs@.len() - n,
    {
        let mut p: usize = 0;
        while p < order.len() && !comes_before(locs[n], locs[order[p]])
            invariant
                p <= order@.len(),
                n < locs@.len(),
                order@.len() == n,
                forall|i: int| 0 <= i < n ==> (#[trigger] order@[i]) < n,
                insert_pos(order@, locs@, n as int, 0) == insert_pos(
                    order@,
                    locs@,
                    n as int,
                    p as int,
                ),
            decreases order@.len() - p,
        {
            p = p + 1;
        }
        order.insert(p, n);
        proof {
            lemma_sorted_order(locs@, (n + 1) as nat);
        }
        n = n + 1;
    }
    order
}

} // verus!
