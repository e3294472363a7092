//! Sums of sequences of natural numbers, and how they change when the
//! sequence does.

use vstd::prelude::*;

verus! {

/// The sum of the numbers of `ws`.
pub open spec fn sum(ws: Seq<nat>) -> nat
    decreases ws.len(),
{
    if ws.len() == 0 {
        0
    } else {
        sum(ws.drop_last()) + ws.last()
    }
}

/// A number pushed adds itself to the sum.
pub proof fn lemma_sum_push(ws: Seq<nat>, w: nat)
    ensures
        sum(ws.push(w)) == sum(ws) + w,
{
    assert(ws.push(w).drop_last() =~= ws);
}

/// A number replaced changes the sum by the difference.
pub proof fn lemma_sum_update(ws: Seq<nat>, k: int, w: nat)
    requires
        0 <= k < ws.len(),
    ensures
        sum(ws.update(k, w)) + ws[k] == sum(ws) + w,
    decreases ws.len(),
{
    if k == ws.len() - 1 {
        assert(ws.update(k, w).drop_last() =~= ws.drop_last());
    } else {
        lemma_sum_update(ws.drop_last(), k, w);
        assert(ws.update(k, w).drop_last() =~= ws.drop_last().update(k, w));
    }
}

/// The first number taken away takes itself off the sum.
pub proof fn lemma_sum_drop_first(ws: Seq<nat>)
    requires
        ws.len() > 0,
    ensures
        sum(ws) == ws[0] + sum(ws.drop_first()),
    decreases ws.len(),
{
    if ws.len() == 1 {
        assert(ws.drop_first() =~= Seq::<nat>::empty());
        assert(ws.drop_last() =~= Seq::<nat>::empty());
    } else {
        lemma_sum_drop_first(ws.drop_last());
        assert(ws.drop_first().drop_last() =~= ws.drop_last().drop_first());
    }
}

/// A sum of numbers that are each at most `bound` is at most `bound` times
/// their number.
pub proof fn lemma_sum_bounded(ws: Seq<nat>, bound: nat)
    requires
        forall|k: int| 0 <= k < ws.len() ==> ws[k] <= bound,
    ensures
        sum(ws) <= bound * ws.len(),
    decreases ws.len(),
{
    if ws.len() > 0 {
        lemma_sum_bounded(ws.drop_last(), bound);
        assert(bound * ws.len() == bound * (ws.len() - 1) + bound) by (nonlinear_arith);
    }
}

/// A sum of zeros is zero.
pub proof fn lemma_sum_zero(ws: Seq<nat>)
    requires
        forall|k: int| 0 <= k < ws.len() ==> ws[k] == 0,
    ensures
        sum(ws) == 0,
    decreases ws.len(),
{
    if ws.len() > 0 {
        lemma_sum_zero(ws.drop_last());
    }
}

} // verus!
