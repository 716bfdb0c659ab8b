//! The ladder of resting orders and index rotation on it.
use vstd::prelude::*;
use crate::fixed::{in_bound, VALUE_BOUND};
use crate::order::Order;

verus! {

/// `N` open-long rungs, `N` open-short rungs (index 0 nearest the book) and
/// one close order per direction.
pub struct OrderLadder {
    pub open_longs: Vec<Order>,
    pub open_shorts: Vec<Order>,
    pub close_long: Order,
    pub close_short: Order,
}

/// Every rung price of the side is representable.
pub open spec fn rungs_in_bound(s: Seq<Order>) -> bool {
    forall|i: int| 0 <= i < s.len() ==> #[trigger] in_bound(s[i].price as int)
}

impl OrderLadder {
    pub open spec fn wf(&self, n: nat) -> bool {
        &&& self.open_longs@.len() == n
        &&& self.open_shorts@.len() == n
        &&& rungs_in_bound(self.open_longs@)
        &&& rungs_in_bound(self.open_shorts@)
    }

    /// Whether every rung price is representable.
    pub fn in_range(&self) -> (r: bool)
        ensures
            r == (rungs_in_bound(self.open_longs@) && rungs_in_bound(self.open_shorts@)),
    {
        all_in_bound(&self.open_longs) && all_in_bound(&self.open_shorts)
    }
}

fn all_in_bound(v: &Vec<Order>) -> (r: bool)
    ensures
        r == rungs_in_bound(v@),
{
    let mut i: usize = 0;
    while i < v.len()
        invariant
            i <= v@.len(),
            forall|j: int| 0 <= j < i ==> #[trigger] in_bound(v@[j].price as int),
        decreases v@.len() - i,
    {
        if v[i].price < -VALUE_BOUND || v[i].price > VALUE_BOUND {
            assert(!in_bound(v@[i as int].price as int));
            return false;
        }
        i = i + 1;
    }
    true
}

/// `s` rotated left by `k`: element `k` comes first, the first `k` wrap to the end.
pub open spec fn rotated_left<T>(s: Seq<T>, k: int) -> Seq<T> {
    s.subrange(k, s.len() as int) + s.subrange(0, k)
}

/// `s` rotated right by `k`: the last `k` elements come first.
pub open spec fn rotated_right<T>(s: Seq<T>, k: int) -> Seq<T> {
    rotated_left(s, s.len() - k)
}

/// Rotating left by `k` and then by `n - k` gives back the same sequence.
pub proof fn lemma_rotation_inverse<T>(s: Seq<T>, k: int)
    requires
        0 <= k <= s.len(),
    ensures
        rotated_left(rotated_left(s, k), s.len() - k) == s,
        rotated_right(rotated_left(s, k), k) == s,
{
    let r = rotated_left(s, k);
    assert(rotated_left(r, s.len() - k) =~= s);
}

/// A copy of `v` rotated left by `k`.
pub fn rotate_left(v: &Vec<Order>, k: usize) -> (r: Vec<Order>)
    requires
        k <= v@.len(),
    ensures
        r@ == rotated_left(v@, k as int),
{
    let n = v.len();
    let mut r: Vec<Order> = Vec::new();
    let mut i: usize = k;
    while i < n
        invariant
            k <= i <= n,
            n == v@.len(),
            r@ == v@.subrange(k as int, i as int),
        decreases n - i,
    {
        r.push(v[i]);
        i = i + 1;
        assert(r@ =~= v@.subrange(k as int, i as int));
    }
    let mut j: usize = 0;
    while j < k
        invariant
            j <= k <= n,
            n == v@.len(),
            r@ == v@.subrange(k as int, n as int) + v@.subrange(0, j as int),
        decreases k - j,
    {
        r.push(v[j]);
        j = j + 1;
        assert(r@ =~= v@.subrange(k as int, n as int) + v@.subrange(0, j as int));
    }
    r
}

/// A copy of `v` rotated right by `k`.
pub fn rotate_right(v: &Vec<Order>, k: usize) -> (r: Vec<Order>)
    requires
        k <= v@.len(),
    ensures
        r@ == rotated_right(v@, k as int),
{
    rotate_left(v, v.len() - k)
}

} // verus!
