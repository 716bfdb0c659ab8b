//! Per-tick reconciliation of the desired ladder against the resting one.
use vstd::prelude::*;
use crate::distribute::{distribute_quantity, distributed, distributed_i64, lemma_distribution_within_pool, rung_quantity, seq_sum};
use crate::fixed::{in_bound, in_nonneg_bound, VALUE_BOUND};
use crate::ladder::{rotate_left, rotate_right, rotated_left, rotated_right, rungs_in_bound, OrderLadder};
use crate::state::TickSnapshot;
use crate::order::Order;
use crate::state::MAX_ORDER_AMOUNT;

verus! {

/// A position may differ from its close order's quantity by this much
/// (0.005 units) before the close order is reposted.
pub const QUANTITY_TOLERANCE: i64 = 50;

/// A target close price may differ from the resting one by this much
/// (5 units) before the close order is reposted.
pub const PRICE_TOLERANCE: i64 = 50_000;

/// Direction in which the rungs of a side move away from the book:
/// down for longs, up for shorts.
pub open spec fn outward(is_long: bool) -> int {
    if is_long { -1 } else { 1 }
}

/// How far the book has moved past rung 0 in the filling direction.
pub open spec fn fill_gap(front: int, top: int, is_long: bool) -> int {
    if is_long { front - top } else { top - front }
}

/// Whole steps of `step` needed to cover a positive gap.
pub open spec fn ceil_steps(gap: int, step: int) -> int {
    if gap > 0 { (gap + step - 1) / step } else { 0 }
}

/// Whole steps of `step` that fit in a positive gap.
pub open spec fn floor_steps(gap: int, step: int) -> int {
    if gap > 0 { gap / step } else { 0 }
}

/// Shift units of a side for this tick: the event count, or, when no event
/// arrived but rung 0 is virtual, the steps by which the book passed rung 0.
pub open spec fn pending_shift(rungs: Seq<Order>, top: int, event_shift: int, step: int, is_long: bool) -> int {
    if event_shift == 0 && rungs[0].quantity <= 0 {
        ceil_steps(fill_gap(rungs[0].price as int, top, is_long), step)
    } else {
        event_shift
    }
}

/// Steps by which the book has moved toward the ladder without a fill.
pub open spec fn widen_shift(rungs: Seq<Order>, top: int, step: int, is_long: bool) -> int {
    floor_steps(-fill_gap(rungs[0].price as int, top, is_long), step)
}

/// A virtual open rung: never sent, so it carries no client id.
pub open spec fn virtual_rung(price: int, is_long: bool) -> Order {
    Order { price: price as i64, quantity: 0, is_open: true, is_long, order_id: 0 }
}

/// Prices of the first `count` rungs stay representable when moved by `delta`.
pub open spec fn moves_in_bound(s: Seq<Order>, count: int, delta: int) -> bool {
    forall|j: int| 0 <= j < count ==> #[trigger] in_bound(s[j].price + delta)
}

/// The first `count` rungs moved by `delta` and made virtual; the rest kept.
pub open spec fn moved_prefix(s: Seq<Order>, count: int, delta: int, is_long: bool) -> Seq<Order> {
    Seq::new(s.len(), |i: int| if i < count { virtual_rung(s[i].price + delta, is_long) } else { s[i] })
}

/// The side after a shift in the filling direction, before quantities.
pub open spec fn fill_moved(old: Seq<Order>, shift: int, inc: int, is_long: bool) -> Seq<Order> {
    let n = old.len() as int;
    if shift >= n {
        moved_prefix(old, n, outward(is_long) * shift * inc, is_long)
    } else {
        rotated_left(moved_prefix(old, shift, outward(is_long) * n * inc, is_long), shift)
    }
}

pub open spec fn fill_ok(old: Seq<Order>, shift: int, inc: int, is_long: bool) -> bool {
    let n = old.len() as int;
    if shift >= n {
        moves_in_bound(old, n, outward(is_long) * shift * inc)
    } else {
        moves_in_bound(old, shift, outward(is_long) * n * inc)
    }
}

/// The side after a shift toward the book, before quantities.
pub open spec fn widen_moved(old: Seq<Order>, widen: int, inc: int, is_long: bool) -> Seq<Order> {
    let n = old.len() as int;
    if widen >= n {
        moved_prefix(old, n, -outward(is_long) * widen * inc, is_long)
    } else {
        moved_prefix(rotated_right(old, widen), widen, -outward(is_long) * n * inc, is_long)
    }
}

pub open spec fn widen_ok(old: Seq<Order>, widen: int, inc: int, is_long: bool) -> bool {
    let n = old.len() as int;
    if widen >= n {
        moves_in_bound(old, n, -outward(is_long) * widen * inc)
    } else {
        moves_in_bound(rotated_right(old, widen), widen, -outward(is_long) * n * inc)
    }
}

/// Rungs that a shift toward the book takes off the far end.
pub open spec fn widen_cancels(old: Seq<Order>, widen: int) -> Seq<Order> {
    if widen >= old.len() { old } else { rotated_right(old, widen).take(widen) }
}

/// Elements of `from` at the indices below `k` where the rung's quantity
/// differs from the wanted one.
pub open spec fn picked(moved: Seq<Order>, q: Seq<i64>, from: Seq<Order>, k: int) -> Seq<Order>
    decreases k,
{
    if k <= 0 {
        Seq::empty()
    } else {
        picked(moved, q, from, k - 1) + if moved[k - 1].quantity != q[k - 1] {
            seq![from[k - 1]]
        } else {
            Seq::empty()
        }
    }
}

/// `new` is `moved` with every rung whose quantity differs replaced by a fresh
/// order at the same price and the wanted quantity.
pub open spec fn requantified(moved: Seq<Order>, q: Seq<i64>, new: Seq<Order>, is_long: bool) -> bool {
    &&& new.len() == moved.len()
    &&& forall|i: int| 0 <= i < moved.len() ==> {
        if moved[i].quantity == q[i] {
            #[trigger] new[i] == moved[i]
        } else {
            new[i].same_terms(moved[i].price as int, q[i] as int, true, is_long)
        }
    }
}

/// A fresh ladder side anchored at `top`.
pub open spec fn rebuilt(new: Seq<Order>, top: int, inc: int, q: Seq<i64>, is_long: bool) -> bool {
    &&& new.len() == q.len()
    &&& forall|i: int| 0 <= i < q.len() ==>
        #[trigger] new[i].same_terms(top + outward(is_long) * i * inc, q[i] as int, true, is_long)
}

pub open spec fn rebuild_ok(n: int, top: int, inc: int, is_long: bool) -> bool {
    0 < inc <= VALUE_BOUND && forall|i: int| 0 <= i < n ==> #[trigger] in_bound(top + outward(is_long) * i * inc)
}

/// What one tick does to one side.
pub struct SideUpdate {
    pub rungs: Vec<Order>,
    pub last_increment: i64,
    pub cancels: Vec<Order>,
    pub posts: Vec<Order>,
}

/// The parameters of one side for one tick.
pub struct SideInput {
    pub is_long: bool,
    pub last_increment: i64,
    pub increment: i128,
    pub top: i64,
    pub event_shift: u64,
    pub pool: i64,
    pub target_quantity: i64,
    pub quantity_decimal_half: i64,
}

impl SideInput {
    pub open spec fn wf(&self) -> bool {
        &&& 0 < self.last_increment <= VALUE_BOUND
        &&& in_nonneg_bound(self.top as int)
        &&& 0 < self.target_quantity
        &&& 0 <= self.quantity_decimal_half
    }
}

/// What a tick does to a side whose rungs are `old`: `None` when a new rung
/// price would not be representable, else the new rungs, the increment now in
/// force, and the orders to cancel and to post.
pub open spec fn side_outcome(old: Seq<Order>, input: SideInput, r: Option<SideUpdate>) -> bool {
    let n = old.len() as int;
    let step = input.last_increment as int;
    let shift = pending_shift(old, input.top as int, input.event_shift as int, step, input.is_long);
    let widen = widen_shift(old, input.top as int, step, input.is_long);
    let is_long = input.is_long;
    let q = distributed_i64(old.len(), input.target_quantity as int, input.pool as int, input.quantity_decimal_half as int);
    if input.increment != input.last_increment {
        match r {
            None => !rebuild_ok(n, input.top as int, input.increment as int, is_long),
            Some(u) => {
                &&& rebuild_ok(n, input.top as int, input.increment as int, is_long)
                &&& rebuilt(u.rungs@, input.top as int, input.increment as int, q, is_long)
                &&& u.last_increment == input.increment
                &&& u.cancels@ == old
                &&& u.posts@ == u.rungs@
            },
        }
    } else if shift > 0 {
        match r {
            None => !fill_ok(old, shift, step, is_long),
            Some(u) => {
                let moved = fill_moved(old, shift, step, is_long);
                &&& fill_ok(old, shift, step, is_long)
                &&& requantified(moved, q, u.rungs@, is_long)
                &&& u.cancels@ == picked(moved, q, moved, n)
                &&& u.posts@ == picked(moved, q, u.rungs@, n)
                &&& u.last_increment == input.last_increment
            },
        }
    } else if widen > 0 {
        match r {
            None => !widen_ok(old, widen, step, is_long),
            Some(u) => {
                let moved = widen_moved(old, widen, step, is_long);
                &&& widen_ok(old, widen, step, is_long)
                &&& requantified(moved, q, u.rungs@, is_long)
                &&& u.cancels@ == widen_cancels(old, widen) + picked(moved, q, moved, n)
                &&& u.posts@ == picked(moved, q, u.rungs@, n)
                &&& u.last_increment == input.last_increment
            },
        }
    } else {
        match r {
            None => false,
            Some(u) => {
                &&& u.rungs@ == old
                &&& u.last_increment == input.last_increment
                &&& u.cancels@.len() == 0
                &&& u.posts@.len() == 0
            },
        }
    }
}


/// A copy of the rungs.
fn copy_rungs(v: &Vec<Order>) -> (r: Vec<Order>)
    ensures
        r@ == v@,
{
    let r = rotate_left(v, 0);
    assert(r@ =~= v@);
    r
}

/// The first `count` rungs moved by `delta` and made virtual, or `None` when a
/// moved price would not be representable.
fn move_prefix(s: &Vec<Order>, count: usize, delta: i128, is_long: bool) -> (r: Option<Vec<Order>>)
    requires
        count <= s@.len(),
        rungs_in_bound(s@),
        -0x1_0000_0000_0000_0000_0000_0000 <= delta <= 0x1_0000_0000_0000_0000_0000_0000,
    ensures
        r is Some <==> moves_in_bound(s@, count as int, delta as int),
        r is Some ==> r->0@ == moved_prefix(s@, count as int, delta as int, is_long),
{
    let n = s.len();
    let mut out: Vec<Order> = Vec::new();
    let mut i: usize = 0;
    while i < n
        invariant
            i <= n,
            n == s@.len(),
            count <= n,
            rungs_in_bound(s@),
            -0x1_0000_0000_0000_0000_0000_0000 <= delta <= 0x1_0000_0000_0000_0000_0000_0000,
            out@.len() == i,
            forall|j: int| 0 <= j < i ==> #[trigger] out@[j] == moved_prefix(s@, count as int, delta as int, is_long)[j],
            forall|j: int| 0 <= j < i && j < count ==> #[trigger] in_bound(s@[j].price + delta),
        decreases n - i,
    {
        if i < count {
            assert(in_bound(s@[i as int].price as int));
            let price: i128 = s[i].price as i128 + delta;
            if price < -(VALUE_BOUND as i128) || price > VALUE_BOUND as i128 {
                assert(!in_bound(s@[i as int].price + delta));
                return None;
            }
            out.push(Order::with_id(price as i64, 0, true, is_long, 0));
        } else {
            out.push(s[i]);
        }
        i = i + 1;
    }
    assert(out@ =~= moved_prefix(s@, count as int, delta as int, is_long));
    Some(out)
}

/// Shift units in the filling direction and toward the book, measured with
/// the spacing the ladder was built with.
fn shift_counts(old: &Vec<Order>, input: &SideInput) -> (r: (u64, u64))
    requires
        old@.len() > 0,
        rungs_in_bound(old@),
        input.wf(),
    ensures
        r.0 == pending_shift(old@, input.top as int, input.event_shift as int, input.last_increment as int, input.is_long),
        r.1 == widen_shift(old@, input.top as int, input.last_increment as int, input.is_long),
{
    let front = old[0];
    assert(in_bound(old@[0].price as int));
    let step: i64 = input.last_increment;
    let gap: i64 = if input.is_long { front.price - input.top } else { input.top - front.price };
    let shift: u64 = if input.event_shift == 0 && front.quantity <= 0 {
        if gap > 0 { ((gap + step - 1) / step) as u64 } else { 0 }
    } else {
        input.event_shift
    };
    let widen: u64 = if gap < 0 { ((-gap) / step) as u64 } else { 0 };
    (shift, widen)
}

/// Gives every rung whose quantity differs from the wanted one a fresh order
/// at the same price, queuing the old rung for cancelling and the new for posting.
fn requantify(moved: &Vec<Order>, q: &Vec<i64>, is_long: bool, cancels: &mut Vec<Order>, posts: &mut Vec<Order>) -> (new: Vec<Order>)
    requires
        q@.len() == moved@.len(),
    ensures
        requantified(moved@, q@, new@, is_long),
        final(cancels)@ == old(cancels)@ + picked(moved@, q@, moved@, moved@.len() as int),
        final(posts)@ == old(posts)@ + picked(moved@, q@, new@, moved@.len() as int),
{
    let n = moved.len();
    let mut new: Vec<Order> = Vec::new();
    let mut i: usize = 0;
    while i < n
        invariant
            i <= n,
            n == moved@.len(),
            q@.len() == n,
            new@.len() == i,
            forall|j: int| 0 <= j < i ==> {
                if moved@[j].quantity == q@[j] {
                    #[trigger] new@[j] == moved@[j]
                } else {
                    new@[j].same_terms(moved@[j].price as int, q@[j] as int, true, is_long)
                }
            },
            cancels@ == old(cancels)@ + picked(moved@, q@, moved@, i as int),
            posts@ == old(posts)@ + picked(moved@, q@, new@, i as int),
        decreases n - i,
    {
        let rung = moved[i];
        let want = q[i];
        let ghost before = new@;
        if rung.quantity != want {
            cancels.push(rung);
            let fresh = Order::new(rung.price, want, true, is_long);
            new.push(fresh);
            posts.push(fresh);
        } else {
            new.push(rung);
        }
        proof {
            lemma_picked_prefix(moved@, q@, new@, before, i as int);
        }
        i = i + 1;
    }
    assert(requantified(moved@, q@, new@, is_long));
    new
}

/// `picked` reads only the first `k` elements of `from`.
proof fn lemma_picked_prefix(moved: Seq<Order>, q: Seq<i64>, from: Seq<Order>, prefix: Seq<Order>, k: int)
    requires
        0 <= k <= prefix.len(),
        prefix.len() <= from.len(),
        forall|j: int| 0 <= j < prefix.len() ==> from[j] == prefix[j],
    ensures
        picked(moved, q, from, k) == picked(moved, q, prefix, k),
    decreases k,
{
    if k > 0 {
        lemma_picked_prefix(moved, q, from, prefix, k - 1);
    }
}

/// A fresh side anchored at `top`, or `None` when the spacing or a price is
/// not representable.
fn rebuild(n: usize, top: i64, inc: i128, q: &Vec<i64>, is_long: bool) -> (r: Option<Vec<Order>>)
    requires
        q@.len() == n,
        n <= MAX_ORDER_AMOUNT,
        -4 * VALUE_BOUND <= top <= 4 * VALUE_BOUND,
    ensures
        r is Some <==> rebuild_ok(n as int, top as int, inc as int, is_long),
        r is Some ==> rebuilt(r->0@, top as int, inc as int, q@, is_long),
{
    if inc <= 0 || inc > VALUE_BOUND as i128 {
        return None;
    }
    let sign: i128 = if is_long { -1 } else { 1 };
    let mut out: Vec<Order> = Vec::new();
    let mut i: usize = 0;
    while i < n
        invariant
            i <= n,
            n <= MAX_ORDER_AMOUNT,
            q@.len() == n,
            0 < inc <= VALUE_BOUND,
            -4 * VALUE_BOUND <= top <= 4 * VALUE_BOUND,
            sign == outward(is_long),
            out@.len() == i,
            forall|j: int| 0 <= j < i ==> #[trigger] out@[j].same_terms(top + outward(is_long) * j * inc, q@[j] as int, true, is_long),
            forall|j: int| 0 <= j < i ==> #[trigger] in_bound(top + outward(is_long) * j * inc),
        decreases n - i,
    {
        assert(0 <= i * inc <= MAX_ORDER_AMOUNT * VALUE_BOUND) by (nonlinear_arith)
            requires 0 <= i <= MAX_ORDER_AMOUNT, 0 < inc <= VALUE_BOUND;
        let mag: i128 = (i as i128) * inc;
        let price: i128 = if is_long { top as i128 - mag } else { top as i128 + mag };
        assert(price == top + outward(is_long) * i * inc) by (nonlinear_arith)
            requires mag == i * inc, price == top + outward(is_long) * mag;
        if price < -(VALUE_BOUND as i128) || price > VALUE_BOUND as i128 {
            assert(!in_bound(top + outward(is_long) * i * inc));
            return None;
        }
        out.push(Order::new(price as i64, q[i], true, is_long));
        i = i + 1;
    }
    Some(out)
}

/// `count` steps of `step` in the outward direction of the side.
fn outward_delta(is_long: bool, count: u64, step: i64) -> (r: i128)
    requires
        0 < step <= VALUE_BOUND,
    ensures
        r == outward(is_long) * count * step,
        -0x1_0000_0000_0000_0000_0000_0000 <= r <= 0x1_0000_0000_0000_0000_0000_0000,
{
    assert(0 <= count * step <= 0x1_0000_0000_0000_0000 * VALUE_BOUND) by (nonlinear_arith)
        requires 0 <= count < 0x1_0000_0000_0000_0000, 0 < step <= VALUE_BOUND;
    let mag: i128 = count as i128 * step as i128;
    if is_long {
        assert(-1 * count * step == -(count * step)) by (nonlinear_arith);
        -mag
    } else {
        assert(1 * count * step == count * step) by (nonlinear_arith);
        mag
    }
}

/// `count` steps of `step` toward the book.
fn inward_delta(is_long: bool, count: u64, step: i64) -> (r: i128)
    requires
        0 < step <= VALUE_BOUND,
    ensures
        r == -outward(is_long) * count * step,
        -0x1_0000_0000_0000_0000_0000_0000 <= r <= 0x1_0000_0000_0000_0000_0000_0000,
{
    let d = outward_delta(is_long, count, step);
    assert(-outward(is_long) * count * step == -(outward(is_long) * count * step)) by (nonlinear_arith);
    -d
}

proof fn lemma_moved_prefix_in_bound(s: Seq<Order>, count: int, delta: int, is_long: bool)
    requires
        0 <= count <= s.len(),
        rungs_in_bound(s),
        moves_in_bound(s, count, delta),
    ensures
        rungs_in_bound(moved_prefix(s, count, delta, is_long)),
{
    let m = moved_prefix(s, count, delta, is_long);
    assert forall|i: int| 0 <= i < m.len() implies #[trigger] in_bound(m[i].price as int) by {
        if i < count {
            assert(in_bound(s[i].price + delta));
        } else {
            assert(in_bound(s[i].price as int));
        }
    }
}

proof fn lemma_rotation_in_bound(s: Seq<Order>, k: int)
    requires
        0 <= k <= s.len(),
        rungs_in_bound(s),
    ensures
        rungs_in_bound(rotated_left(s, k)),
{
    let r = rotated_left(s, k);
    assert forall|i: int| 0 <= i < r.len() implies #[trigger] in_bound(r[i].price as int) by {
        if i < s.len() - k {
            assert(r[i] == s[i + k]);
            assert(in_bound(s[i + k].price as int));
        } else {
            assert(r[i] == s[i - (s.len() - k)]);
            assert(in_bound(s[i - (s.len() - k)].price as int));
        }
    }
}

proof fn lemma_requantified_in_bound(moved: Seq<Order>, q: Seq<i64>, new: Seq<Order>, is_long: bool)
    requires
        rungs_in_bound(moved),
        requantified(moved, q, new, is_long),
    ensures
        rungs_in_bound(new),
{
    assert forall|i: int| 0 <= i < new.len() implies #[trigger] in_bound(new[i].price as int) by {
        assert(in_bound(moved[i].price as int));
        if moved[i].quantity == q[i] {
            assert(new[i] == moved[i]);
        }
    }
}

/// One side of one tick: shift detection, then rebuild, rotation or widening,
/// then the quantity diff.
pub fn reconcile_side(old: &Vec<Order>, input: &SideInput) -> (r: Option<SideUpdate>)
    requires
        0 < old@.len() <= MAX_ORDER_AMOUNT,
        rungs_in_bound(old@),
        input.wf(),
    ensures
        side_outcome(old@, *input, r),
        r matches Some(u) ==> u.rungs@.len() == old@.len() && rungs_in_bound(u.rungs@) && 0 < u.last_increment <= VALUE_BOUND,
{
    let n = old.len();
    let step = input.last_increment;
    let is_long = input.is_long;
    let (shift, widen) = shift_counts(old, input);
    let ghost gshift = shift as int;
    let ghost gwiden = widen as int;
    if input.increment != step as i128 {
        let q = distribute_quantity(n, input.target_quantity, input.pool, input.quantity_decimal_half);
        match rebuild(n, input.top, input.increment, &q, is_long) {
            None => None,
            Some(rungs) => {
                let posts = copy_rungs(&rungs);
                let cancels = copy_rungs(old);
                proof {
                    assert(rebuilt(rungs@, input.top as int, input.increment as int, q@, is_long));
                    assert forall|i: int| 0 <= i < rungs@.len() implies #[trigger] in_bound(rungs@[i].price as int) by {
                        assert(rungs@[i].same_terms(input.top + outward(is_long) * i * input.increment, q@[i] as int, true, is_long));
                    }
                }
                Some(SideUpdate { rungs, last_increment: input.increment as i64, cancels, posts })
            },
        }
    } else if shift > 0 {
        let q = distribute_quantity(n, input.target_quantity, input.pool, input.quantity_decimal_half);
        let moved_opt = if shift as u128 >= n as u128 {
            move_prefix(old, n, outward_delta(is_long, shift, step), is_long)
        } else {
            match move_prefix(old, shift as usize, outward_delta(is_long, n as u64, step), is_long) {
                None => None,
                Some(m) => Some(rotate_left(&m, shift as usize)),
            }
        };
        match moved_opt {
            None => None,
            Some(moved) => {
                let mut cancels: Vec<Order> = Vec::new();
                let mut posts: Vec<Order> = Vec::new();
                let rungs = requantify(&moved, &q, is_long, &mut cancels, &mut posts);
                proof {
                    if shift as int >= n as int {
                        lemma_moved_prefix_in_bound(old@, n as int, outward(is_long) * shift * step, is_long);
                    } else {
                        let pre = moved_prefix(old@, shift as int, outward(is_long) * n * step, is_long);
                        lemma_moved_prefix_in_bound(old@, shift as int, outward(is_long) * n * step, is_long);
                        lemma_rotation_in_bound(pre, shift as int);
                    }
                    lemma_requantified_in_bound(moved@, q@, rungs@, is_long);
                    assert(moved@ == fill_moved(old@, shift as int, step as int, is_long));
                    assert(cancels@ =~= picked(moved@, q@, moved@, n as int));
                    assert(posts@ =~= picked(moved@, q@, rungs@, n as int));
                }
                Some(SideUpdate { rungs, last_increment: step, cancels, posts })
            },
        }
    } else if widen > 0 {
        let q = distribute_quantity(n, input.target_quantity, input.pool, input.quantity_decimal_half);
        let mut cancels: Vec<Order> = Vec::new();
        let moved_opt = if widen as u128 >= n as u128 {
            cancels = copy_rungs(old);
            move_prefix(old, n, inward_delta(is_long, widen, step), is_long)
        } else {
            let turned = rotate_right(old, widen as usize);
            let mut j: usize = 0;
            while j < widen as usize
                invariant
                    j <= widen <= n,
                    turned@.len() == n,
                    cancels@ == turned@.take(j as int),
                decreases widen - j,
            {
                cancels.push(turned[j]);
                j = j + 1;
                assert(cancels@ =~= turned@.take(j as int));
            }
            move_prefix(&turned, widen as usize, inward_delta(is_long, n as u64, step), is_long)
        };
        match moved_opt {
            None => None,
            Some(moved) => {
                let ghost pre = cancels@;
                let mut posts: Vec<Order> = Vec::new();
                let rungs = requantify(&moved, &q, is_long, &mut cancels, &mut posts);
                proof {
                    if widen as int >= n as int {
                        lemma_moved_prefix_in_bound(old@, n as int, -outward(is_long) * widen * step, is_long);
                    } else {
                        let turned = rotated_right(old@, widen as int);
                        lemma_rotation_in_bound(old@, n - widen);
                        lemma_moved_prefix_in_bound(turned, widen as int, -outward(is_long) * n * step, is_long);
                    }
                    lemma_requantified_in_bound(moved@, q@, rungs@, is_long);
                    assert(posts@ =~= picked(moved@, q@, rungs@, n as int));
                    assert(pre == widen_cancels(old@, widen as int));
                }
                Some(SideUpdate { rungs, last_increment: step, cancels, posts })
            },
        }
    } else {
        Some(SideUpdate { rungs: copy_rungs(old), last_increment: step, cancels: Vec::new(), posts: Vec::new() })
    }
}


pub open spec fn abs_int(x: int) -> int {
    if x >= 0 { x } else { -x }
}

/// A close order is reposted after a fill or expiry on it, or when it drifted
/// from the position or from the target price.
pub open spec fn close_needs_repost(close: Order, repost: bool, position: int, price: int) -> bool {
    repost || abs_int(position - close.quantity) > QUANTITY_TOLERANCE || abs_int(price - close.price) > PRICE_TOLERANCE
}

/// The close order queued for cancelling: the old one, unless it was consumed.
pub open spec fn close_cancel_seq(close: Order, repost: bool, position: int, price: int) -> Seq<Order> {
    if close_needs_repost(close, repost, position, price) && !repost { seq![close] } else { Seq::empty() }
}

/// The close order queued for posting, if any.
pub open spec fn close_post_seq(close: Order, repost: bool, position: int, price: int, r: Order) -> Seq<Order> {
    if close_needs_repost(close, repost, position, price) { seq![r] } else { Seq::empty() }
}

/// The close order after a tick: a fresh order for the whole position at the
/// target price when reposted, else the old one.
pub open spec fn close_result(close: Order, repost: bool, position: int, price: int, is_long: bool, r: Order) -> bool {
    if close_needs_repost(close, repost, position, price) {
        r.same_terms(price, position, false, is_long)
    } else {
        r == close
    }
}

/// Reposts the close order of one direction at the target price, sized to
/// the whole position, when it needs it. An order that was consumed (a fill
/// or expiry was seen) is not cancelled.
pub fn reconcile_close(close: Order, repost: bool, position: i64, price: i64, is_long: bool, cancels: &mut Vec<Order>, posts: &mut Vec<Order>) -> (r: Order)
    ensures
        close_result(close, repost, position as int, price as int, is_long, r),
        final(cancels)@ == old(cancels)@ + close_cancel_seq(close, repost, position as int, price as int),
        final(posts)@ == old(posts)@ + close_post_seq(close, repost, position as int, price as int, r),
{
    let dq: i128 = position as i128 - close.quantity as i128;
    let dp: i128 = price as i128 - close.price as i128;
    let far_q = dq > QUANTITY_TOLERANCE as i128 || -dq > QUANTITY_TOLERANCE as i128;
    let far_p = dp > PRICE_TOLERANCE as i128 || -dp > PRICE_TOLERANCE as i128;
    if repost || far_q || far_p {
        if !repost {
            cancels.push(close);
        }
        let fresh = Order::new(price, position, false, is_long);
        posts.push(fresh);
        assert(cancels@ =~= old(cancels)@ + close_cancel_seq(close, repost, position as int, price as int));
        assert(posts@ =~= old(posts)@ + close_post_seq(close, repost, position as int, price as int, fresh));
        fresh
    } else {
        assert(cancels@ =~= old(cancels)@ + close_cancel_seq(close, repost, position as int, price as int));
        assert(posts@ =~= old(posts)@ + close_post_seq(close, repost, position as int, price as int, close));
        close
    }
}

/// The working memory of the reconciliation loop: the ladder and the spacing
/// it was built with.
pub struct Reconciler {
    pub ladder: OrderLadder,
    pub last_long_increment: i64,
    pub last_short_increment: i64,
    pub order_quantity: i64,
    pub quantity_decimal_half: i64,
}

/// The orders one tick cancels and posts, by origin.
pub struct TickPlan {
    pub long: SideUpdate,
    pub short: SideUpdate,
    pub close_cancels: Vec<Order>,
    pub close_posts: Vec<Order>,
}

impl TickPlan {
    pub open spec fn cancels_spec(&self) -> Seq<Order> {
        self.long.cancels@ + self.short.cancels@ + self.close_cancels@
    }

    pub open spec fn posts_spec(&self) -> Seq<Order> {
        self.long.posts@ + self.short.posts@ + self.close_posts@
    }

    /// Every order to cancel: long rungs, short rungs, then close orders.
    pub fn cancels(&self) -> (r: Vec<Order>)
        ensures
            r@ == self.cancels_spec(),
    {
        let mut r = copy_rungs(&self.long.cancels);
        let mut b = copy_rungs(&self.short.cancels);
        let mut c = copy_rungs(&self.close_cancels);
        r.append(&mut b);
        r.append(&mut c);
        r
    }

    /// Every order to post: long rungs, short rungs, then close orders.
    pub fn posts(&self) -> (r: Vec<Order>)
        ensures
            r@ == self.posts_spec(),
    {
        let mut r = copy_rungs(&self.long.posts);
        let mut b = copy_rungs(&self.short.posts);
        let mut c = copy_rungs(&self.close_posts);
        r.append(&mut b);
        r.append(&mut c);
        r
    }
}

/// A snapshot the reconciler can work from.
pub open spec fn snapshot_wf(snap: TickSnapshot) -> bool {
    in_nonneg_bound(snap.top_ask as int) && in_nonneg_bound(snap.top_bid as int)
}

impl Reconciler {
    pub open spec fn wf(&self) -> bool {
        &&& 0 < self.ladder.open_longs@.len() <= MAX_ORDER_AMOUNT
        &&& self.ladder.wf(self.ladder.open_longs@.len())
        &&& 0 < self.last_long_increment <= VALUE_BOUND
        &&& 0 < self.last_short_increment <= VALUE_BOUND
        &&& 0 < self.order_quantity
        &&& 0 <= self.quantity_decimal_half
    }

    pub open spec fn long_input(&self, snap: TickSnapshot) -> SideInput {
        SideInput {
            is_long: true,
            last_increment: self.last_long_increment,
            increment: snap.long_increment,
            top: snap.top_bid,
            event_shift: snap.open_long_shift,
            pool: snap.open_long_pool,
            target_quantity: self.order_quantity,
            quantity_decimal_half: self.quantity_decimal_half,
        }
    }

    pub open spec fn short_input(&self, snap: TickSnapshot) -> SideInput {
        SideInput {
            is_long: false,
            last_increment: self.last_short_increment,
            increment: snap.short_increment,
            top: snap.top_ask,
            event_shift: snap.open_short_shift,
            pool: snap.open_short_pool,
            target_quantity: self.order_quantity,
            quantity_decimal_half: self.quantity_decimal_half,
        }
    }

    /// Plans one tick from a snapshot and moves the ladder to the planned
    /// state. `None` when a new rung price or spacing is not representable;
    /// the ladder is then left as it was and a full reset is due.
    pub fn plan_tick(&mut self, snap: &TickSnapshot) -> (r: Option<TickPlan>)
        requires
            old(self).wf(),
            snapshot_wf(*snap),
        ensures
            r is None ==> *final(self) == *old(self),
            r is None <==> (side_outcome(old(self).ladder.open_longs@, old(self).long_input(*snap), None)
                || side_outcome(old(self).ladder.open_shorts@, old(self).short_input(*snap), None)),
            r matches Some(p) ==> {
                &&& final(self).wf()
                &&& side_outcome(old(self).ladder.open_longs@, old(self).long_input(*snap), Some(p.long))
                &&& side_outcome(old(self).ladder.open_shorts@, old(self).short_input(*snap), Some(p.short))
                &&& final(self).ladder.open_longs@ == p.long.rungs@
                &&& final(self).ladder.open_shorts@ == p.short.rungs@
                &&& final(self).last_long_increment == p.long.last_increment
                &&& final(self).last_short_increment == p.short.last_increment
                &&& close_result(old(self).ladder.close_long, snap.close_long_repost, snap.current_longs as int,
                        snap.long_close_price as int, true, final(self).ladder.close_long)
                &&& close_result(old(self).ladder.close_short, snap.close_short_repost, snap.current_shorts as int,
                        snap.short_close_price as int, false, final(self).ladder.close_short)
                &&& p.close_cancels@ == close_cancel_seq(old(self).ladder.close_long, snap.close_long_repost,
                        snap.current_longs as int, snap.long_close_price as int)
                        + close_cancel_seq(old(self).ladder.close_short, snap.close_short_repost,
                        snap.current_shorts as int, snap.short_close_price as int)
                &&& p.close_posts@ == close_post_seq(old(self).ladder.close_long, snap.close_long_repost,
                        snap.current_longs as int, snap.long_close_price as int, final(self).ladder.close_long)
                        + close_post_seq(old(self).ladder.close_short, snap.close_short_repost,
                        snap.current_shorts as int, snap.short_close_price as int, final(self).ladder.close_short)
            },
    {
        let long_input = SideInput {
            is_long: true,
            last_increment: self.last_long_increment,
            increment: snap.long_increment,
            top: snap.top_bid,
            event_shift: snap.open_long_shift,
            pool: snap.open_long_pool,
            target_quantity: self.order_quantity,
            quantity_decimal_half: self.quantity_decimal_half,
        };
        let short_input = SideInput {
            is_long: false,
            last_increment: self.last_short_increment,
            increment: snap.short_increment,
            top: snap.top_ask,
            event_shift: snap.open_short_shift,
            pool: snap.open_short_pool,
            target_quantity: self.order_quantity,
            quantity_decimal_half: self.quantity_decimal_half,
        };
        let long = match reconcile_side(&self.ladder.open_longs, &long_input) {
            None => { return None; },
            Some(u) => u,
        };
        let short = match reconcile_side(&self.ladder.open_shorts, &short_input) {
            None => { return None; },
            Some(u) => u,
        };
        let mut close_cancels: Vec<Order> = Vec::new();
        let mut close_posts: Vec<Order> = Vec::new();
        let close_long = reconcile_close(self.ladder.close_long, snap.close_long_repost, snap.current_longs,
            snap.long_close_price, true, &mut close_cancels, &mut close_posts);
        let close_short = reconcile_close(self.ladder.close_short, snap.close_short_repost, snap.current_shorts,
            snap.short_close_price, false, &mut close_cancels, &mut close_posts);
        assert(close_cancels@ =~= close_cancel_seq(self.ladder.close_long, snap.close_long_repost, snap.current_longs as int, snap.long_close_price as int)
            + close_cancel_seq(self.ladder.close_short, snap.close_short_repost, snap.current_shorts as int, snap.short_close_price as int));
        assert(close_posts@ =~= close_post_seq(self.ladder.close_long, snap.close_long_repost, snap.current_longs as int, snap.long_close_price as int, close_long)
            + close_post_seq(self.ladder.close_short, snap.close_short_repost, snap.current_shorts as int, snap.short_close_price as int, close_short));
        self.ladder.open_longs = copy_rungs(&long.rungs);
        self.ladder.open_shorts = copy_rungs(&short.rungs);
        self.ladder.close_long = close_long;
        self.ladder.close_short = close_short;
        self.last_long_increment = long.last_increment;
        self.last_short_increment = short.last_increment;
        Some(TickPlan { long, short, close_cancels, close_posts })
    }
}


/// What the initial ladder is built from.
pub struct LadderSeed {
    pub market_price: i64,
    pub margin: i64,
    pub long_increment: i128,
    pub short_increment: i128,
    pub open_long_pool: i64,
    pub open_short_pool: i64,
    pub current_longs: i64,
    pub current_shorts: i64,
    pub long_close_price: i64,
    pub short_close_price: i64,
    pub order_amount: u64,
    pub order_quantity: i64,
    pub quantity_decimal_half: i64,
}

impl LadderSeed {
    pub open spec fn wf(&self) -> bool {
        &&& 0 <= self.market_price <= 2 * VALUE_BOUND
        &&& in_nonneg_bound(self.margin as int)
        &&& 0 < self.order_amount <= MAX_ORDER_AMOUNT
        &&& 0 < self.order_quantity
        &&& 0 <= self.quantity_decimal_half
    }

    /// Price of long rung 0: the market price less the margin.
    pub open spec fn long_anchor(&self) -> int {
        self.market_price - self.margin
    }

    /// Price of short rung 0: the market price plus the margin.
    pub open spec fn short_anchor(&self) -> int {
        self.market_price + self.margin
    }

    pub open spec fn long_quantities(&self) -> Seq<i64> {
        distributed_i64(self.order_amount as nat, self.order_quantity as int, self.open_long_pool as int, self.quantity_decimal_half as int)
    }

    pub open spec fn short_quantities(&self) -> Seq<i64> {
        distributed_i64(self.order_amount as nat, self.order_quantity as int, self.open_short_pool as int, self.quantity_decimal_half as int)
    }

    pub open spec fn buildable(&self) -> bool {
        &&& rebuild_ok(self.order_amount as int, self.long_anchor(), self.long_increment as int, true)
        &&& rebuild_ok(self.order_amount as int, self.short_anchor(), self.short_increment as int, false)
    }

    /// `rec` and `posts` are the ladder this seed describes.
    pub open spec fn built(&self, rec: Reconciler, posts: Seq<Order>) -> bool {
        &&& rec.wf()
        &&& rebuilt(rec.ladder.open_longs@, self.long_anchor(), self.long_increment as int, self.long_quantities(), true)
        &&& rebuilt(rec.ladder.open_shorts@, self.short_anchor(), self.short_increment as int, self.short_quantities(), false)
        &&& rec.ladder.close_long.same_terms(self.long_close_price as int, self.current_longs as int, false, true)
        &&& rec.ladder.close_short.same_terms(self.short_close_price as int, self.current_shorts as int, false, false)
        &&& rec.last_long_increment == self.long_increment
        &&& rec.last_short_increment == self.short_increment
        &&& rec.order_quantity == self.order_quantity
        &&& rec.quantity_decimal_half == self.quantity_decimal_half
        &&& posts == rec.ladder.open_longs@ + rec.ladder.open_shorts@ + seq![rec.ladder.close_long, rec.ladder.close_short]
    }
}

proof fn lemma_rebuilt_in_bound(new: Seq<Order>, top: int, inc: int, q: Seq<i64>, is_long: bool)
    requires
        rebuilt(new, top, inc, q, is_long),
        rebuild_ok(q.len() as int, top, inc, is_long),
    ensures
        rungs_in_bound(new),
{
    assert forall|i: int| 0 <= i < new.len() implies #[trigger] in_bound(new[i].price as int) by {
        assert(new[i].same_terms(top + outward(is_long) * i * inc, q[i] as int, true, is_long));
        assert(in_bound(top + outward(is_long) * i * inc));
    }
}

/// Builds the full ladder around the market price: `N` rungs per side
/// spaced by each side's increment, plus both close orders, all to be posted.
/// `None` when a spacing or a price is not representable.
pub fn build_initial_ladder(seed: &LadderSeed) -> (r: Option<(Reconciler, Vec<Order>)>)
    requires
        seed.wf(),
    ensures
        r is Some <==> seed.buildable(),
        r matches Some(b) ==> seed.built(b.0, b.1@),
{
    let n = seed.order_amount as usize;
    let long_q = distribute_quantity(n, seed.order_quantity, seed.open_long_pool, seed.quantity_decimal_half);
    let short_q = distribute_quantity(n, seed.order_quantity, seed.open_short_pool, seed.quantity_decimal_half);
    let lower: i64 = seed.market_price - seed.margin;
    let upper: i64 = seed.market_price + seed.margin;
    let longs = match rebuild(n, lower, seed.long_increment, &long_q, true) {
        None => { return None; },
        Some(v) => v,
    };
    let shorts = match rebuild(n, upper, seed.short_increment, &short_q, false) {
        None => { return None; },
        Some(v) => v,
    };
    proof {
        lemma_rebuilt_in_bound(longs@, lower as int, seed.long_increment as int, long_q@, true);
        lemma_rebuilt_in_bound(shorts@, upper as int, seed.short_increment as int, short_q@, false);
    }
    let close_long = Order::new(seed.long_close_price, seed.current_longs, false, true);
    let close_short = Order::new(seed.short_close_price, seed.current_shorts, false, false);
    let mut posts = copy_rungs(&longs);
    let mut tail = copy_rungs(&shorts);
    posts.append(&mut tail);
    posts.push(close_long);
    posts.push(close_short);
    let rec = Reconciler {
        ladder: OrderLadder { open_longs: longs, open_shorts: shorts, close_long, close_short },
        last_long_increment: seed.long_increment as i64,
        last_short_increment: seed.short_increment as i64,
        order_quantity: seed.order_quantity,
        quantity_decimal_half: seed.quantity_decimal_half,
    };
    assert(posts@ =~= rec.ladder.open_longs@ + rec.ladder.open_shorts@ + seq![rec.ladder.close_long, rec.ladder.close_short]);
    Some((rec, posts))
}

/// Quantities of a run of rungs.
pub open spec fn rung_quantities(s: Seq<Order>) -> Seq<int> {
    s.map_values(|o: Order| o.quantity as int)
}

proof fn lemma_rung_quantity_fits(i: int, target: int, pool: int, half: int)
    requires
        target > 0,
        half >= 0,
    ensures
        0 <= rung_quantity(i, target, pool, half) <= target,
{
    if !(pool > (i + 1) * target) && pool - i * target >= half {
        assert((i + 1) * target == i * target + target) by (nonlinear_arith);
    }
}

/// Rungs that carry exactly the distributed quantities hold no more than the pool.
pub proof fn lemma_rungs_within_pool(rungs: Seq<Order>, n: nat, target: i64, pool: i64, half: i64)
    requires
        target > 0,
        half >= 0,
        rungs.len() == n,
        forall|i: int| 0 <= i < n ==> #[trigger] rungs[i].quantity == distributed_i64(n, target as int, pool as int, half as int)[i],
    ensures
        seq_sum(rung_quantities(rungs)) <= if pool > 0 { pool as int } else { 0 },
        forall|i: int| 0 <= i < n ==> #[trigger] rungs[i].quantity >= 0,
{
    assert forall|i: int| 0 <= i < n implies #[trigger] rung_quantities(rungs)[i] == distributed(n, target as int, pool as int, half as int)[i] by {
        lemma_rung_quantity_fits(i, target as int, pool as int, half as int);
        assert(rungs[i].quantity == distributed_i64(n, target as int, pool as int, half as int)[i]);
    }
    assert(rung_quantities(rungs) =~= distributed(n, target as int, pool as int, half as int));
    lemma_distribution_within_pool(n, target as int, pool as int, half as int);
    assert forall|i: int| 0 <= i < n implies #[trigger] rungs[i].quantity >= 0 by {
        lemma_rung_quantity_fits(i, target as int, pool as int, half as int);
        assert(rungs[i].quantity == distributed_i64(n, target as int, pool as int, half as int)[i]);
    }
}

/// Whenever a tick re-sizes a side (a spacing change, a shift or a widening),
/// the open quantities of that side sum to at most its pool, the room left
/// under the maximum position (nothing in close-only mode).
pub proof fn lemma_tick_within_pool(old: Seq<Order>, input: SideInput, u: SideUpdate)
    requires
        0 < old.len(),
        input.wf(),
        side_outcome(old, input, Some(u)),
        input.increment != input.last_increment
            || pending_shift(old, input.top as int, input.event_shift as int, input.last_increment as int, input.is_long) > 0
            || widen_shift(old, input.top as int, input.last_increment as int, input.is_long) > 0,
    ensures
        seq_sum(rung_quantities(u.rungs@)) <= if input.pool > 0 { input.pool as int } else { 0 },
        forall|i: int| 0 <= i < u.rungs@.len() ==> #[trigger] u.rungs@[i].quantity >= 0,
{
    let n = old.len();
    let q = distributed_i64(n, input.target_quantity as int, input.pool as int, input.quantity_decimal_half as int);
    if input.increment != input.last_increment {
        assert forall|i: int| 0 <= i < n implies #[trigger] u.rungs@[i].quantity == q[i] by {
            assert(u.rungs@[i].same_terms(input.top + outward(input.is_long) * i * input.increment, q[i] as int, true, input.is_long));
        }
    } else {
        let step = input.last_increment as int;
        let shift = pending_shift(old, input.top as int, input.event_shift as int, step, input.is_long);
        let widen = widen_shift(old, input.top as int, step, input.is_long);
        let moved = if shift > 0 { fill_moved(old, shift, step, input.is_long) } else { widen_moved(old, widen, step, input.is_long) };
        assert(requantified(moved, q, u.rungs@, input.is_long));
        assert forall|i: int| 0 <= i < n implies #[trigger] u.rungs@[i].quantity == q[i] by {
            if moved[i].quantity == q[i] {
                assert(u.rungs@[i] == moved[i]);
            } else {
                assert(u.rungs@[i].same_terms(moved[i].price as int, q[i] as int, true, input.is_long));
            }
        }
    }
    lemma_rungs_within_pool(u.rungs@, n, input.target_quantity, input.pool, input.quantity_decimal_half);
}

/// A freshly built ladder holds on each side no more than that side's pool.
pub proof fn lemma_initial_within_pool(seed: LadderSeed, rec: Reconciler, posts: Seq<Order>)
    requires
        seed.wf(),
        seed.built(rec, posts),
    ensures
        seq_sum(rung_quantities(rec.ladder.open_longs@)) <= if seed.open_long_pool > 0 { seed.open_long_pool as int } else { 0 },
        seq_sum(rung_quantities(rec.ladder.open_shorts@)) <= if seed.open_short_pool > 0 { seed.open_short_pool as int } else { 0 },
{
    let n = seed.order_amount as nat;
    assert forall|i: int| 0 <= i < n implies #[trigger] rec.ladder.open_longs@[i].quantity == seed.long_quantities()[i] by {
        assert(rec.ladder.open_longs@[i].same_terms(seed.long_anchor() + outward(true) * i * seed.long_increment, seed.long_quantities()[i] as int, true, true));
    }
    assert forall|i: int| 0 <= i < n implies #[trigger] rec.ladder.open_shorts@[i].quantity == seed.short_quantities()[i] by {
        assert(rec.ladder.open_shorts@[i].same_terms(seed.short_anchor() + outward(false) * i * seed.short_increment, seed.short_quantities()[i] as int, true, false));
    }
    lemma_rungs_within_pool(rec.ladder.open_longs@, n, seed.order_quantity, seed.open_long_pool, seed.quantity_decimal_half);
    lemma_rungs_within_pool(rec.ladder.open_shorts@, n, seed.order_quantity, seed.open_short_pool, seed.quantity_decimal_half);
}

/// The same terms: price, quantity and direction flags (client ids aside).
pub open spec fn same_order_terms(a: Order, b: Order) -> bool {
    a.same_terms(b.price as int, b.quantity as int, b.is_open, b.is_long)
}

/// A ladder rebuilt after a reset from the same state and top of book is the
/// one a cold start builds: equal rung for rung, client ids aside, with the
/// same spacing in force.
pub proof fn lemma_initial_ladder_repeatable(seed: LadderSeed, a: Reconciler, pa: Seq<Order>, b: Reconciler, pb: Seq<Order>)
    requires
        seed.built(a, pa),
        seed.built(b, pb),
    ensures
        a.ladder.open_longs@.len() == b.ladder.open_longs@.len(),
        a.ladder.open_shorts@.len() == b.ladder.open_shorts@.len(),
        forall|i: int| 0 <= i < a.ladder.open_longs@.len() ==>
            same_order_terms(#[trigger] a.ladder.open_longs@[i], b.ladder.open_longs@[i]),
        forall|i: int| 0 <= i < a.ladder.open_shorts@.len() ==>
            same_order_terms(#[trigger] a.ladder.open_shorts@[i], b.ladder.open_shorts@[i]),
        same_order_terms(a.ladder.close_long, b.ladder.close_long),
        same_order_terms(a.ladder.close_short, b.ladder.close_short),
        a.last_long_increment == b.last_long_increment,
        a.last_short_increment == b.last_short_increment,
{
    assert forall|i: int| 0 <= i < a.ladder.open_longs@.len() implies
        same_order_terms(#[trigger] a.ladder.open_longs@[i], b.ladder.open_longs@[i]) by {
        assert(a.ladder.open_longs@[i].same_terms(seed.long_anchor() + outward(true) * i * seed.long_increment, seed.long_quantities()[i] as int, true, true));
        assert(b.ladder.open_longs@[i].same_terms(seed.long_anchor() + outward(true) * i * seed.long_increment, seed.long_quantities()[i] as int, true, true));
    }
    assert forall|i: int| 0 <= i < a.ladder.open_shorts@.len() implies
        same_order_terms(#[trigger] a.ladder.open_shorts@[i], b.ladder.open_shorts@[i]) by {
        assert(a.ladder.open_shorts@[i].same_terms(seed.short_anchor() + outward(false) * i * seed.short_increment, seed.short_quantities()[i] as int, true, false));
        assert(b.ladder.open_shorts@[i].same_terms(seed.short_anchor() + outward(false) * i * seed.short_increment, seed.short_quantities()[i] as int, true, false));
    }
}

/// The close orders of a freshly built ladder carry exactly the current
/// positions, so with no position nothing is posted to close it.
pub proof fn lemma_initial_close_tracks_position(seed: LadderSeed, rec: Reconciler, posts: Seq<Order>)
    requires
        seed.built(rec, posts),
    ensures
        rec.ladder.close_long.quantity == seed.current_longs,
        rec.ladder.close_short.quantity == seed.current_shorts,
        seed.current_longs == 0 ==> !(rec.ladder.close_long.quantity > 0),
        seed.current_shorts == 0 ==> !(rec.ladder.close_short.quantity > 0),
{
}

/// A posted close order always carries exactly the current position, so with
/// no position nothing with a positive quantity is posted to close it.
pub proof fn lemma_close_tracks_position(close: Order, repost: bool, position: int, price: int, is_long: bool, r: Order)
    requires
        close_result(close, repost, position, price, is_long, r),
    ensures
        forall|i: int| 0 <= i < close_post_seq(close, repost, position, price, r).len() ==>
            #[trigger] close_post_seq(close, repost, position, price, r)[i].quantity == position,
        position == 0 ==> forall|i: int| 0 <= i < close_post_seq(close, repost, position, price, r).len() ==>
            !(#[trigger] close_post_seq(close, repost, position, price, r)[i].quantity > 0),
{
}

/// Next step of the control loop.
#[derive(Clone, Copy, Debug, PartialEq, Eq, Structural)]
pub enum Action {
    /// Run one reconciliation tick.
    Tick,
    /// Cancel every open order of the pair.
    CancelAll,
    /// Wait this many seconds.
    Pause(u64),
    /// Clear the trading state (`MemoryManager::reset_all`).
    ResetState,
    /// Build and post a fresh initial ladder.
    Rebuild,
}

/// Seconds between the two cancel-all calls of a recovery.
pub const FIRST_PAUSE_SECS: u64 = 2;

/// Seconds left for the exchange to settle before the state is cleared.
pub const SETTLE_PAUSE_SECS: u64 = 15;

/// The recovery sequence, by position.
pub open spec fn recovery_action(k: int) -> Action {
    if k == 0 {
        Action::CancelAll
    } else if k == 1 {
        Action::Pause(FIRST_PAUSE_SECS)
    } else if k == 2 {
        Action::CancelAll
    } else if k == 3 {
        Action::Pause(SETTLE_PAUSE_SECS)
    } else if k == 4 {
        Action::ResetState
    } else {
        Action::Rebuild
    }
}

/// Number of steps in a recovery.
pub const RECOVERY_STEPS: u64 = 6;

/// Normal operation, or the overflow recovery and how far it has come.
pub struct Supervisor {
    /// `0` in normal operation, else the index of the next recovery step.
    pub step: u64,
}

impl Supervisor {
    pub fn new() -> (r: Supervisor)
        ensures
            r.step == 0,
    {
        Supervisor { step: 0 }
    }

    pub open spec fn wf(&self) -> bool {
        self.step < RECOVERY_STEPS
    }

    pub fn is_recovering(&self) -> (r: bool)
        ensures
            r == (self.step != 0),
    {
        self.step != 0
    }

    /// In normal operation: a tick, or the first cancel-all when the overflow
    /// flag is up. During a recovery: its next step, back to normal after the
    /// rebuild.
    pub fn next_action(&mut self, overflowing: bool) -> (r: Action)
        requires
            old(self).wf(),
        ensures
            final(self).wf(),
            old(self).step == 0 && !overflowing ==> r == Action::Tick && final(self).step == 0,
            old(self).step == 0 && overflowing ==> r == recovery_action(0) && final(self).step == 1,
            old(self).step != 0 ==> r == recovery_action(old(self).step as int)
                && final(self).step == (old(self).step + 1) % (RECOVERY_STEPS as int),
    {
        if self.step == 0 {
            if overflowing {
                self.step = 1;
                Action::CancelAll
            } else {
                Action::Tick
            }
        } else {
            let k = self.step;
            self.step = if k + 1 == RECOVERY_STEPS { 0 } else { k + 1 };
            if k == 1 {
                Action::Pause(FIRST_PAUSE_SECS)
            } else if k == 2 {
                Action::CancelAll
            } else if k == 3 {
                Action::Pause(SETTLE_PAUSE_SECS)
            } else if k == 4 {
                Action::ResetState
            } else {
                Action::Rebuild
            }
        }
    }
}

} // verus!
