use grid_maker::distribute::distribute_quantity;
use grid_maker::fixed::SCALE;
use grid_maker::ladder::{rotate_left, rotate_right, OrderLadder};
use grid_maker::order::Order;
use grid_maker::reconciler::{reconcile_side, Reconciler, SideInput};
use grid_maker::state::TickSnapshot;

fn rungs(prices: &[i64], quantities: &[i64], is_long: bool) -> Vec<Order> {
    prices.iter().zip(quantities.iter()).enumerate().map(|(i, (p, q))| Order::with_id(*p, *q, true, is_long, i as u32 + 1)).collect()
}

fn prices(v: &[Order]) -> Vec<i64> {
    v.iter().map(|o| o.get_price()).collect()
}

fn quantities(v: &[Order]) -> Vec<i64> {
    v.iter().map(|o| o.get_quantity()).collect()
}

#[test]
fn distribution_fills_greedily() {
    assert_eq!(distribute_quantity(5, 10, 35, 5), vec![10, 10, 10, 5, 0]);
    assert_eq!(distribute_quantity(5, 10, 34, 5), vec![10, 10, 10, 0, 0]);
    assert_eq!(distribute_quantity(3, 10, 30, 5), vec![10, 10, 10]);
    assert_eq!(distribute_quantity(3, 10, 1000, 5), vec![10, 10, 10]);
    assert_eq!(distribute_quantity(4, 10, 0, 5), vec![0, 0, 0, 0]);
    assert_eq!(distribute_quantity(4, 10, -20, 5), vec![0, 0, 0, 0]);
    assert_eq!(distribute_quantity(0, 10, 50, 5), Vec::<i64>::new());
}

#[test]
fn distribution_never_exceeds_pool() {
    for pool in -15..80 {
        let q = distribute_quantity(6, 10, pool, 3);
        let total: i64 = q.iter().sum();
        assert!(total <= pool.max(0));
        assert!(q.iter().all(|x| *x >= 0));
    }
}

#[test]
fn rotation_round_trip() {
    let v = rungs(&[100, 99, 98, 97, 96], &[1, 2, 3, 4, 5], true);
    for k in 0..5 {
        let once = rotate_left(&v, k);
        let back = rotate_left(&once, 5 - k);
        assert_eq!(prices(&back), prices(&v));
        assert_eq!(prices(&rotate_right(&once, k)), prices(&v));
    }
    assert_eq!(prices(&rotate_left(&v, 2)), vec![98, 97, 96, 100, 99]);
}

fn long_input(last: i64, inc: i128, top: i64, shift: u64, pool: i64) -> SideInput {
    SideInput {
        is_long: true,
        last_increment: last,
        increment: inc,
        top,
        event_shift: shift,
        pool,
        target_quantity: 10,
        quantity_decimal_half: 5,
    }
}

#[test]
fn fill_shift_by_three_on_five_rungs() {
    let old = rungs(&[100, 99, 98, 97, 96], &[10, 10, 10, 10, 10], true);
    let u = reconcile_side(&old, &long_input(1, 1, 95, 3, 50)).unwrap();
    // Three rungs rolled off the near end and came back N steps past the far end.
    assert_eq!(prices(&u.rungs), vec![97, 96, 95, 94, 93]);
    assert_eq!(quantities(&u.rungs), vec![10, 10, 10, 10, 10]);
    assert_eq!(u.posts.len(), 3);
    assert_eq!(prices(&u.posts), vec![95, 94, 93]);
    assert_eq!(u.cancels.iter().filter(|o| o.is_real()).count(), 0);
    assert_eq!(u.rungs[0].get_id(), 4);
}

#[test]
fn shift_of_whole_ladder_reprices_everything() {
    let old = rungs(&[100, 99, 98, 97, 96], &[10, 10, 10, 10, 10], true);
    let u = reconcile_side(&old, &long_input(1, 1, 90, 7, 20)).unwrap();
    assert_eq!(prices(&u.rungs), vec![93, 92, 91, 90, 89]);
    assert_eq!(quantities(&u.rungs), vec![10, 10, 0, 0, 0]);
}

#[test]
fn safety_net_counts_steps_past_book() {
    let old = rungs(&[1000, 990, 980, 970, 960], &[0, 10, 10, 10, 10], true);
    let u = reconcile_side(&old, &long_input(10, 10, 975, 0, 50)).unwrap();
    // rung 0 at 1000 is above the bid 975: three steps of 10 bring it under.
    assert_eq!(prices(&u.rungs), vec![970, 960, 950, 940, 930]);
}

#[test]
fn book_moving_toward_ladder_widens() {
    let old = rungs(&[100, 99, 98, 97, 96], &[10, 10, 10, 10, 10], true);
    let u = reconcile_side(&old, &long_input(1, 1, 102, 0, 50)).unwrap();
    assert_eq!(prices(&u.rungs), vec![102, 101, 100, 99, 98]);
    assert_eq!(quantities(&u.rungs), vec![10, 10, 10, 10, 10]);
    // the two far rungs were cancelled and reposted near the book
    assert_eq!(prices(&u.cancels)[..2], [97, 96]);
    assert_eq!(prices(&u.posts), vec![102, 101]);
}

#[test]
fn increment_change_rebuilds_at_book() {
    let old = rungs(&[100, 99, 98, 97, 96], &[10, 10, 10, 10, 10], true);
    let u = reconcile_side(&old, &long_input(1, 2, 100, 0, 25)).unwrap();
    assert_eq!(prices(&u.rungs), vec![100, 98, 96, 94, 92]);
    assert_eq!(quantities(&u.rungs), vec![10, 10, 5, 0, 0]);
    assert_eq!(u.cancels.len(), 5);
    assert_eq!(u.posts.len(), 5);
    assert_eq!(u.last_increment, 2);
}

#[test]
fn nothing_moves_without_shift() {
    let old = rungs(&[100, 99, 98, 97, 96], &[10, 10, 10, 10, 10], true);
    let u = reconcile_side(&old, &long_input(1, 1, 100, 0, 50)).unwrap();
    assert_eq!(prices(&u.rungs), prices(&old));
    assert!(u.cancels.is_empty() && u.posts.is_empty());
}

#[test]
fn unrepresentable_spacing_is_refused() {
    let old = rungs(&[100, 99, 98, 97, 96], &[10, 10, 10, 10, 10], true);
    assert!(reconcile_side(&old, &long_input(1, 0, 100, 0, 50)).is_none());
    assert!(reconcile_side(&old, &long_input(1, 1 << 40, 100, 0, 50)).is_none());
}

fn snapshot(current_longs: i64) -> TickSnapshot {
    TickSnapshot {
        top_ask: 101 * SCALE,
        top_bid: 100 * SCALE,
        open_long_shift: 0,
        open_short_shift: 0,
        close_long_repost: false,
        close_short_repost: false,
        current_longs,
        current_shorts: 0,
        long_close_price: 101 * SCALE,
        short_close_price: 100 * SCALE,
        long_increment: SCALE as i128,
        short_increment: SCALE as i128,
        open_long_pool: 100 - current_longs,
        open_short_pool: 100,
    }
}

fn reconciler() -> Reconciler {
    let longs: Vec<i64> = (0..5).map(|i| (99 - i) * SCALE).collect();
    let shorts: Vec<i64> = (0..5).map(|i| (102 + i) * SCALE).collect();
    Reconciler {
        ladder: OrderLadder {
            open_longs: rungs(&longs, &[10, 10, 10, 10, 10], true),
            open_shorts: rungs(&shorts, &[10, 10, 10, 10, 10], false),
            close_long: Order::with_id(101 * SCALE, 0, false, true, 90),
            close_short: Order::with_id(100 * SCALE, 0, false, false, 91),
        },
        last_long_increment: SCALE,
        last_short_increment: SCALE,
        order_quantity: 10,
        quantity_decimal_half: 5,
    }
}

#[test]
fn flat_position_posts_no_close_quantity() {
    let mut rec = reconciler();
    let mut snap = snapshot(0);
    snap.close_long_repost = true;
    let plan = rec.plan_tick(&snap).unwrap();
    let closes: Vec<&Order> = plan.close_posts.iter().filter(|o| o.is_long()).collect();
    assert_eq!(closes.len(), 1);
    assert_eq!(closes[0].get_quantity(), 0);
    assert!(!closes[0].is_real());
    assert!(plan.close_cancels.is_empty());
}

#[test]
fn close_order_follows_position() {
    let mut rec = reconciler();
    let plan = rec.plan_tick(&snapshot(300)).unwrap();
    assert_eq!(plan.close_posts.len(), 1);
    assert_eq!(plan.close_posts[0].get_quantity(), 300);
    assert_eq!(plan.close_posts[0].get_price(), 101 * SCALE);
    assert_eq!(plan.close_cancels.len(), 1);
    assert_eq!(plan.close_cancels[0].get_id(), 90);
    assert_eq!(rec.ladder.close_long.get_quantity(), 300);
    // within tolerance nothing is reposted
    let again = rec.plan_tick(&snapshot(340)).unwrap();
    assert!(again.close_posts.is_empty());
    assert!(again.posts().is_empty());
    assert!(again.cancels().is_empty());
}

#[test]
fn tick_quantities_stay_within_pool() {
    let mut rec = reconciler();
    let mut snap = snapshot(75);
    snap.open_long_shift = 1;
    let plan = rec.plan_tick(&snap).unwrap();
    let total: i64 = rec.ladder.open_longs.iter().filter(|o| o.is_real()).map(|o| o.get_quantity()).sum();
    assert!(total <= 100 - 75);
    assert_eq!(quantities(&rec.ladder.open_longs), vec![10, 10, 5, 0, 0]);
    assert!(!plan.posts().is_empty());
}
