//! Spreads an inventory pool over the rungs of one side of the ladder.
use vstd::prelude::*;

verus! {

/// Quantity of rung `i`: full rungs while the pool exceeds the target, then
/// the remainder if it is at least `half`, then nothing.
pub open spec fn rung_quantity(i: int, target: int, pool: int, half: int) -> int {
    if pool > (i + 1) * target {
        target
    } else if pool - i * target >= half {
        pool - i * target
    } else {
        0
    }
}

/// The whole quantity vector for `n` rungs.
pub open spec fn distributed(n: nat, target: int, pool: int, half: int) -> Seq<int> {
    Seq::new(n, |i: int| rung_quantity(i, target, pool, half))
}

/// The quantity vector as machine integers.
pub open spec fn distributed_i64(n: nat, target: int, pool: int, half: int) -> Seq<i64> {
    Seq::new(n, |i: int| rung_quantity(i, target, pool, half) as i64)
}

/// Sum of a sequence of integers.
pub open spec fn seq_sum(s: Seq<int>) -> int
    decreases s.len(),
{
    if s.len() == 0 {
        0
    } else {
        seq_sum(s.drop_last()) + s.last()
    }
}

proof fn lemma_prefix_sum(n: nat, target: int, pool: int, half: int, m: nat)
    requires
        target > 0,
        half >= 0,
        m <= n,
    ensures
        pool > m * target ==> seq_sum(distributed(n, target, pool, half).take(m as int)) == m * target,
        seq_sum(distributed(n, target, pool, half).take(m as int)) <= if pool > 0 { pool } else { 0 },
        seq_sum(distributed(n, target, pool, half).take(m as int)) >= 0,
    decreases m,
{
    let d = distributed(n, target, pool, half);
    if m > 0 {
        let k = (m - 1) as nat;
        lemma_prefix_sum(n, target, pool, half, k);
        assert(d.take(m as int).drop_last() =~= d.take(k as int));
        assert(d.take(m as int).last() == rung_quantity(k as int, target, pool, half));
        assert((k + 1) * target == k * target + target) by (nonlinear_arith);
        if pool <= k * target {
            assert(pool <= (k + 1) * target);
        }
    } else {
        assert(d.take(0) =~= Seq::<int>::empty());
    }
}

/// The rungs together never hold more than the pool (nor less than nothing).
pub proof fn lemma_distribution_within_pool(n: nat, target: int, pool: int, half: int)
    requires
        target > 0,
        half >= 0,
    ensures
        seq_sum(distributed(n, target, pool, half)) <= if pool > 0 { pool } else { 0 },
        forall|i: int| 0 <= i < n ==> #[trigger] distributed(n, target, pool, half)[i] >= 0,
{
    lemma_prefix_sum(n, target, pool, half, n);
    assert(distributed(n, target, pool, half).take(n as int) =~= distributed(n, target, pool, half));
}

/// Greedy split of `pool` into `amount` rungs of at most `target_quantity`.
pub fn distribute_quantity(amount: usize, target_quantity: i64, pool: i64, quantity_decimal_half: i64) -> (quantities: Vec<i64>)
    requires
        target_quantity > 0,
        quantity_decimal_half >= 0,
    ensures
        quantities@ == distributed_i64(amount as nat, target_quantity as int, pool as int, quantity_decimal_half as int),
        quantities@.len() == amount,
        forall|i: int| 0 <= i < amount ==> quantities@[i] as int
            == rung_quantity(i, target_quantity as int, pool as int, quantity_decimal_half as int),
{
    let mut quantities: Vec<i64> = Vec::new();
    let mut remaining: i64 = pool;
    let mut exhausted: bool = false;
    let mut i: usize = 0;
    let ghost t = target_quantity as int;
    let ghost p = pool as int;
    let ghost h = quantity_decimal_half as int;
    while i < amount
        invariant
            t == target_quantity as int,
            p == pool as int,
            h == quantity_decimal_half as int,
            t > 0,
            h >= 0,
            i <= amount,
            quantities@.len() == i,
            !exhausted ==> remaining as int == p - i * t,
            !exhausted && i > 0 ==> p > i * t,
            exhausted ==> p <= i * t,
            forall|j: int| 0 <= j < i ==> quantities@[j] as int == rung_quantity(j, t, p, h),
        decreases amount - i,
    {
        assert(i * t + t == (i + 1) * t) by (nonlinear_arith);
        if exhausted {
            quantities.push(0);
        } else if remaining > target_quantity {
            quantities.push(target_quantity);
            remaining = remaining - target_quantity;
        } else {
            if remaining >= quantity_decimal_half {
                quantities.push(remaining);
            } else {
                quantities.push(0);
            }
            exhausted = true;
        }
        i = i + 1;
    }
    assert(quantities@ =~= distributed_i64(amount as nat, target_quantity as int, pool as int, quantity_decimal_half as int));
    quantities
}

} // verus!
