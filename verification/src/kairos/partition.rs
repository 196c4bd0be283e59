//! The arithmetic of proportional work partitioning.
//!
//! Work of size `total` is split over weighted domains: each domain first
//! receives `floor(total * weight / sum)` units (computed without overflow as
//! `q * weight + floor(r * weight / sum)` with `total = q * sum + r`), and the
//! few units left by rounding go one each to the first domains in order.

use vstd::prelude::*;

verus! {

/// Sum of the weights.
pub open spec fn weight_sum(ws: Seq<(u16, nat)>) -> nat
    decreases ws.len(),
{
    if ws.len() == 0 {
        0
    } else {
        weight_sum(ws.drop_last()) + ws.last().1
    }
}

/// The rounded-down share of one weight.
pub open spec fn base_chunk(total: nat, sum: nat, w: nat) -> nat {
    (total / sum) * w + ((total % sum) * w) / sum
}

/// Sum of the rounded-down shares.
pub open spec fn base_sum(total: nat, sum: nat, ws: Seq<(u16, nat)>) -> nat
    decreases ws.len(),
{
    if ws.len() == 0 {
        0
    } else {
        base_sum(total, sum, ws.drop_last()) + base_chunk(total, sum, ws.last().1)
    }
}

/// Units left over after the rounded-down shares.
pub open spec fn leftover(total: nat, ws: Seq<(u16, nat)>) -> int {
    total - base_sum(total, weight_sum(ws), ws)
}

/// The share of the `i`-th weighted domain.
pub open spec fn chunk_len(total: nat, ws: Seq<(u16, nat)>, i: int) -> nat {
    base_chunk(total, weight_sum(ws), ws[i].1) + if i < leftover(total, ws) {
        1nat
    } else {
        0nat
    }
}

/// Where the `i`-th share starts: the sum of the shares before it.
pub open spec fn chunk_start(total: nat, ws: Seq<(u16, nat)>, i: int) -> nat
    decreases i,
{
    if i <= 0 {
        0
    } else {
        chunk_start(total, ws, i - 1) + chunk_len(total, ws, i - 1)
    }
}

/// Sum of the remainders' rounded-down shares.
pub open spec fn floor_sum(r: nat, sum: nat, ws: Seq<(u16, nat)>) -> nat
    decreases ws.len(),
{
    if ws.len() == 0 {
        0
    } else {
        floor_sum(r, sum, ws.drop_last()) + (r * ws.last().1) / sum
    }
}

proof fn lemma_floor_sum_bounds(r: nat, sum: nat, ws: Seq<(u16, nat)>)
    requires
        sum > 0,
    ensures
        sum * floor_sum(r, sum, ws) <= r * weight_sum(ws),
        r * weight_sum(ws) - sum * floor_sum(r, sum, ws) <= (sum - 1) * ws.len(),
    decreases ws.len(),
{
    if ws.len() > 0 {
        let p = ws.drop_last();
        let w = ws.last().1;
        lemma_floor_sum_bounds(r, sum, p);
        let f = floor_sum(r, sum, p);
        let s = weight_sum(p);
        let fw = (r * w) / sum;
        let m = (r * w) % sum;
        assert(r * w == sum * fw + m && 0 <= m < sum) by (nonlinear_arith)
            requires
                sum > 0,
                fw == (r * w) / sum,
                m == (r * w) % sum,
        ;
        let n = p.len();
        assert(weight_sum(ws) == s + w);
        assert(floor_sum(r, sum, ws) == f + fw);
        assert(ws.len() == n + 1);
        assert(sum * (f + fw) <= r * (s + w) && r * (s + w) - sum * (f + fw) <= (sum - 1) * (n
            + 1)) by (nonlinear_arith)
            requires
                sum * f <= r * s,
                r * s - sum * f <= (sum - 1) * n,
                r * w == sum * fw + m,
                0 <= m < sum,
        ;
    } else {
        assert(sum * floor_sum(r, sum, ws) == 0 && r * weight_sum(ws) == 0) by (nonlinear_arith)
            requires
                floor_sum(r, sum, ws) == 0,
                weight_sum(ws) == 0,
        ;
    }
}

proof fn lemma_base_sum_split(total: nat, sum: nat, ws: Seq<(u16, nat)>)
    requires
        sum > 0,
    ensures
        base_sum(total, sum, ws) == (total / sum) * weight_sum(ws) + floor_sum(
            total % sum,
            sum,
            ws,
        ),
    decreases ws.len(),
{
    if ws.len() > 0 {
        let p = ws.drop_last();
        let w = ws.last().1;
        lemma_base_sum_split(total, sum, p);
        let q = total / sum;
        let s = weight_sum(p);
        assert(weight_sum(ws) == s + w);
        assert(q * (s + w) == q * s + q * w) by (nonlinear_arith);
    } else {
        assert((total / sum) * weight_sum(ws) == 0) by (nonlinear_arith)
            requires
                weight_sum(ws) == 0,
        ;
    }
}

/// With a positive weight sum, the rounded-down shares never exceed the
/// total and leave fewer units over than there are domains.
pub proof fn lemma_leftover_bounds(total: nat, ws: Seq<(u16, nat)>)
    requires
        weight_sum(ws) > 0,
    ensures
        0 <= leftover(total, ws) < ws.len(),
{
    let sum = weight_sum(ws);
    let q = total / sum;
    let r = total % sum;
    lemma_floor_sum_bounds(r, sum, ws);
    lemma_base_sum_split(total, sum, ws);
    let f = floor_sum(r, sum, ws);
    assert(total == sum * q + r && r < sum) by (nonlinear_arith)
        requires
            sum > 0,
            q == total / sum,
            r == total % sum,
    ;
    assert(q * sum == sum * q) by (nonlinear_arith);
    assert(r * sum == sum * r) by (nonlinear_arith);
    // sum * f <= r * sum, hence f <= r
    assert(f <= r) by (nonlinear_arith)
        requires
            sum * f <= r * sum,
            sum > 0,
    ;
    // sum * (r - f) <= (sum - 1) * n < sum * n, hence r - f < n
    let n = ws.len();
    assert(n > 0) by {
        if n == 0 {
            assert(weight_sum(ws) == 0);
        }
    }
    assert(r - f < n) by (nonlinear_arith)
        requires
            n > 0,
            r * sum - sum * f <= (sum - 1) * n,
            sum > 0,
            f <= r,
    ;
}

/// A prefix's rounded-down shares never exceed the whole's.
pub proof fn lemma_base_sum_prefix(total: nat, sum: nat, ws: Seq<(u16, nat)>, i: int)
    requires
        0 <= i <= ws.len(),
    ensures
        base_sum(total, sum, ws.take(i)) <= base_sum(total, sum, ws),
    decreases ws.len(),
{
    if i < ws.len() {
        let p = ws.drop_last();
        assert(ws.take(i) =~= p.take(i));
        lemma_base_sum_prefix(total, sum, p, i);
    } else {
        assert(ws.take(i) =~= ws);
    }
}

/// The start of the `i`-th share: the rounded-down shares before it plus
/// the leftover units already handed out.
pub proof fn lemma_chunk_start(total: nat, ws: Seq<(u16, nat)>, i: int)
    requires
        weight_sum(ws) > 0,
        0 <= i <= ws.len(),
    ensures
        chunk_start(total, ws, i) == base_sum(total, weight_sum(ws), ws.take(i)) + if i
            < leftover(total, ws) {
            i
        } else {
            leftover(total, ws)
        },
    decreases i,
{
    lemma_leftover_bounds(total, ws);
    if i > 0 {
        lemma_chunk_start(total, ws, i - 1);
        assert(ws.take(i).drop_last() =~= ws.take(i - 1));
        assert(ws.take(i).last() == ws[i - 1]);
    } else {
        assert(ws.take(0).len() == 0);
    }
}

/// The shares tile `[0, total)`: every share starts where the previous one
/// ended and the last one ends at `total`.
pub proof fn lemma_shares_cover(total: nat, ws: Seq<(u16, nat)>)
    requires
        weight_sum(ws) > 0,
    ensures
        chunk_start(total, ws, ws.len() as int) == total,
        forall|i: int| 0 <= i <= ws.len() ==> #[trigger] chunk_start(total, ws, i) <= total,
{
    let sum = weight_sum(ws);
    lemma_leftover_bounds(total, ws);
    lemma_chunk_start(total, ws, ws.len() as int);
    assert(ws.take(ws.len() as int) =~= ws);
    assert forall|i: int| 0 <= i <= ws.len() implies #[trigger] chunk_start(total, ws, i)
        <= total by {
        lemma_chunk_start(total, ws, i);
        lemma_base_sum_prefix(total, sum, ws, i);
    }
}

/// Each share is the exact proportional share rounded down, plus at most one.
pub proof fn lemma_share_is_proportional(total: nat, ws: Seq<(u16, nat)>, i: int)
    requires
        weight_sum(ws) > 0,
        0 <= i < ws.len(),
    ensures
        (total * ws[i].1) / weight_sum(ws) <= chunk_len(total, ws, i) <= (total * ws[i].1)
            / weight_sum(ws) + 1,
{
    let sum = weight_sum(ws);
    let w = ws[i].1;
    let q = total / sum;
    let r = total % sum;
    assert(total == sum * q + r && r < sum) by (nonlinear_arith)
        requires
            sum > 0,
            q == total / sum,
            r == total % sum,
    ;
    assert(total * w == sum * (q * w) + r * w) by (nonlinear_arith)
        requires
            total == sum * q + r,
    ;
    assert((total * w) / sum == q * w + (r * w) / sum) by (nonlinear_arith)
        requires
            total * w == sum * (q * w) + r * w,
            sum > 0,
    ;
}

/// The exact proportional share of one weight, rounded down.
pub open spec fn floor_share(total: nat, sum: nat, w: nat) -> nat {
    (total * w) / sum
}

/// Sum of the exact proportional shares, each rounded down.
pub open spec fn floor_share_sum(total: nat, sum: nat, ws: Seq<(u16, nat)>) -> nat
    decreases ws.len(),
{
    if ws.len() == 0 {
        0
    } else {
        floor_share_sum(total, sum, ws.drop_last()) + floor_share(total, sum, ws.last().1)
    }
}

/// The overflow-free rounded-down share is the exact one.
pub proof fn lemma_base_chunk_is_floor_share(total: nat, sum: nat, w: nat)
    requires
        sum > 0,
    ensures
        base_chunk(total, sum, w) == floor_share(total, sum, w),
{
    let q = total / sum;
    let r = total % sum;
    assert(total == sum * q + r && r < sum) by (nonlinear_arith)
        requires
            sum > 0,
            q == total / sum,
            r == total % sum,
    ;
    assert(total * w == sum * (q * w) + r * w) by (nonlinear_arith)
        requires
            total == sum * q + r,
    ;
    assert((total * w) / sum == q * w + (r * w) / sum) by (nonlinear_arith)
        requires
            total * w == sum * (q * w) + r * w,
            sum > 0,
    ;
}

/// The sum of the overflow-free shares is the sum of the exact ones.
pub proof fn lemma_base_sum_is_floor_share_sum(total: nat, sum: nat, ws: Seq<(u16, nat)>)
    requires
        sum > 0,
    ensures
        base_sum(total, sum, ws) == floor_share_sum(total, sum, ws),
    decreases ws.len(),
{
    if ws.len() > 0 {
        lemma_base_sum_is_floor_share_sum(total, sum, ws.drop_last());
        lemma_base_chunk_is_floor_share(total, sum, ws.last().1);
    }
}

/// Each weight is at most the sum of the weights.
pub proof fn lemma_weight_le_sum(ws: Seq<(u16, nat)>, i: int)
    requires
        0 <= i < ws.len(),
    ensures
        ws[i].1 <= weight_sum(ws),
    decreases ws.len(),
{
    if i < ws.len() - 1 {
        lemma_weight_le_sum(ws.drop_last(), i);
    }
}

} // verus!
