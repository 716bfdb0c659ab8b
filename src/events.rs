//! Applies stream events and account snapshots to the trading state.
use vstd::prelude::*;
use crate::text::text_eq;
use crate::decode::{AccountInfo, BalanceEntry, OrderSide, OrderStatus, PositionEntry, StreamEvent};
use crate::fixed::{in_bound, in_nonneg_bound, SCALE, VALUE_BOUND};
use crate::state::{clamp_accumulator, saturating_inc, MemoryManager, ACCUMULATOR_LIMIT};

verus! {

/// Traded value of a fill, capped at the accumulator limit.
pub open spec fn fill_volume(quantity: int, price: int) -> int {
    let v = quantity * price / (SCALE as int);
    if v > ACCUMULATOR_LIMIT { ACCUMULATOR_LIMIT as int } else { v }
}

/// What the caller still has to do after an event.
pub struct EventEffect {
    /// After a short settle delay, record this open-fill price (full or partial fill) for the
    /// direction (`true` for long) as its last open price.
    pub last_open: Option<(bool, i64)>,
    /// A value of the event was out of range and was not stored.
    pub rejected: bool,
}

/// An order update opens a position only when a long buys or a short
/// sells; any other side word counts as closing.
pub open spec fn opens(is_long: bool, side: OrderSide) -> bool {
    if is_long { side == OrderSide::Buy } else { side == OrderSide::Sell }
}

/// One position entry applied: only entries for `pair` whose values are in
/// range change the long or short position.
pub open spec fn position_step(before: MemoryManager, p: PositionEntry, pair: Seq<char>) -> MemoryManager {
    if p.symbol@ != pair {
        before
    } else if p.side@ == "LONG"@ && in_nonneg_bound(p.amount as int) && in_bound(p.entry_price as int) {
        MemoryManager { current_longs: p.amount, long_entry_price: p.entry_price, long_un_pnl: p.unrealized_pnl, ..before }
    } else if p.side@ == "SHORT"@ && in_nonneg_bound(-p.amount) && in_bound(p.entry_price as int) {
        MemoryManager { current_shorts: (-p.amount) as i64, short_entry_price: p.entry_price, short_un_pnl: p.unrealized_pnl, ..before }
    } else {
        before
    }
}

/// The position entries applied in order.
pub open spec fn positions_applied(m: MemoryManager, ps: Seq<PositionEntry>, pair: Seq<char>) -> MemoryManager
    decreases ps.len(),
{
    if ps.len() == 0 {
        m
    } else {
        position_step(positions_applied(m, ps.drop_last(), pair), ps.last(), pair)
    }
}

/// Index of the first balance entry for `asset`, if any.
pub open spec fn first_balance(bs: Seq<BalanceEntry>, asset: Seq<char>) -> Option<int>
    decreases bs.len(),
{
    if bs.len() == 0 {
        None
    } else {
        match first_balance(bs.drop_last(), asset) {
            Some(i) => Some(i),
            None => if bs.last().asset@ == asset { Some(bs.len() - 1) } else { None },
        }
    }
}


fn same_string(a: &String, b: &String) -> (r: bool)
    ensures
        r == (a@ == b@),
{
    *a == *b
}

/// Stores the wallet balance of the first entry for `token`.
fn apply_balances(mem: &mut MemoryManager, balances: &Vec<BalanceEntry>, token: &String)
    ensures
        *final(mem) == match first_balance(balances@, token@) {
            Some(i) => MemoryManager { balance: balances@[i].wallet_balance, ..*old(mem) },
            None => *old(mem),
        },
{
    let mut i: usize = 0;
    while i < balances.len()
        invariant
            i <= balances@.len(),
            *mem == *old(mem),
            first_balance(balances@.take(i as int), token@) is None,
        decreases balances@.len() - i,
    {
        assert(balances@.take(i as int + 1).drop_last() =~= balances@.take(i as int));
        if same_string(&balances[i].asset, token) {
            mem.set_balance(balances[i].wallet_balance);
            proof {
                lemma_first_balance_prefix(balances@, token@, i as int + 1, i as int);
            }
            return;
        }
        i = i + 1;
    }
    assert(balances@.take(balances@.len() as int) =~= balances@);
}

proof fn lemma_first_balance_prefix(bs: Seq<BalanceEntry>, asset: Seq<char>, k: int, j: int)
    requires
        0 < k <= bs.len(),
        first_balance(bs.take(k), asset) == Some(j),
    ensures
        first_balance(bs, asset) == Some(j),
    decreases bs.len() - k,
{
    if k < bs.len() {
        assert(bs.take(k + 1).drop_last() =~= bs.take(k));
        assert(first_balance(bs.take(k + 1), asset) == Some(j));
        lemma_first_balance_prefix(bs, asset, k + 1, j);
    } else {
        assert(bs.take(k) =~= bs);
    }
}

/// Applies the position entries for `pair`; reports whether one was out of range.
fn apply_positions(mem: &mut MemoryManager, positions: &Vec<PositionEntry>, pair: &String) -> (rejected: bool)
    requires
        old(mem).wf(),
    ensures
        final(mem).wf(),
        *final(mem) == positions_applied(*old(mem), positions@, pair@),
{
    let mut rejected = false;
    let mut i: usize = 0;
    while i < positions.len()
        invariant
            i <= positions@.len(),
            mem.wf(),
            *mem == positions_applied(*old(mem), positions@.take(i as int), pair@),
        decreases positions@.len() - i,
    {
        assert(positions@.take(i as int + 1).drop_last() =~= positions@.take(i as int));
        assert(positions@.take(i as int + 1).last() == positions@[i as int]);
        let ghost before = *mem;
        proof {
            reveal_strlit("LONG");
            reveal_strlit("SHORT");
            assert("LONG"@.len() == 4);
            assert("SHORT"@.len() == 5);
            assert("LONG"@ != "SHORT"@);
        }
        let p = &positions[i];
        if same_string(&p.symbol, pair) {
            let in_range = -VALUE_BOUND <= p.entry_price && p.entry_price <= VALUE_BOUND;
            if text_eq(&p.side, "LONG") {
                if in_range && 0 <= p.amount && p.amount <= VALUE_BOUND {
                    mem.set_current_longs(p.amount, p.entry_price, p.unrealized_pnl);
                } else {
                    rejected = true;
                }
            } else if text_eq(&p.side, "SHORT") {
                if in_range && -VALUE_BOUND <= p.amount && p.amount <= 0 {
                    mem.set_current_shorts(-p.amount, p.entry_price, p.unrealized_pnl);
                } else {
                    rejected = true;
                }
            }
        }
        assert(*mem == position_step(before, positions@[i as int], pair@));
        i = i + 1;
    }
    assert(positions@.take(positions@.len() as int) =~= positions@);
    rejected
}

/// Applies one stream event to the state.
pub fn apply_event(mem: &mut MemoryManager, event: &StreamEvent, token: &String, pair: &String) -> (r: EventEffect)
    requires
        old(mem).wf(),
    ensures
        final(mem).wf(),
        match *event {
            StreamEvent::BookTicker { ask, bid } => {
                &&& r.last_open is None
                &&& if in_nonneg_bound(ask as int) && in_nonneg_bound(bid as int) {
                    *final(mem) == (MemoryManager { top_ask: ask, top_bid: bid, ..*old(mem) }) && !r.rejected
                } else {
                    *final(mem) == *old(mem) && r.rejected
                }
            },
            StreamEvent::OrderUpdate { status, is_long, side, last_quantity, last_price, commission, realized_profit } => {
                let open = opens(is_long, side);
                let m = *old(mem);
                match status {
                    OrderStatus::Expired => {
                        &&& !r.rejected
                        &&& r.last_open is None
                        &&& *final(mem) == if open && is_long {
                            MemoryManager { open_longs_expired: saturating_inc(m.open_longs_expired), ..m }
                        } else if is_long {
                            MemoryManager { close_longs_expired: saturating_inc(m.close_longs_expired), ..m }
                        } else if open {
                            MemoryManager { open_shorts_expired: saturating_inc(m.open_shorts_expired), ..m }
                        } else {
                            MemoryManager { close_shorts_expired: saturating_inc(m.close_shorts_expired), ..m }
                        }
                    },
                    OrderStatus::Filled | OrderStatus::PartiallyFilled => {
                        if last_quantity < 0 || last_price < 0 {
                            *final(mem) == m && r.rejected && r.last_open is None
                        } else {
                            let volume = fill_volume(last_quantity as int, last_price as int);
                            let acc = MemoryManager {
                                volume: clamp_accumulator(m.volume + volume) as i128,
                                commission: clamp_accumulator(m.commission + commission) as i128,
                                realized_profit: clamp_accumulator(m.realized_profit + realized_profit) as i128,
                                ..m
                            };
                            &&& *final(mem) == if open && is_long {
                                MemoryManager { open_longs_filled: saturating_inc(m.open_longs_filled), ..acc }
                            } else if is_long {
                                MemoryManager { close_longs_filled: saturating_inc(m.close_longs_filled), ..acc }
                            } else if open {
                                MemoryManager { open_shorts_filled: saturating_inc(m.open_shorts_filled), ..acc }
                            } else {
                                MemoryManager { close_shorts_filled: saturating_inc(m.close_shorts_filled), ..acc }
                            }
                            &&& r.last_open == if open && in_bound(last_price as int) {
                                Some((is_long, last_price))
                            } else {
                                None
                            }
                            &&& r.rejected == (open && !in_bound(last_price as int))
                        }
                    },
                    OrderStatus::Other => *final(mem) == m && !r.rejected && r.last_open is None,
                }
            },
            StreamEvent::AccountUpdate { balances, positions } => {
                let with_balance = match first_balance(balances@, token@) {
                    Some(i) => MemoryManager { balance: balances@[i].wallet_balance, ..*old(mem) },
                    None => *old(mem),
                };
                *final(mem) == positions_applied(with_balance, positions@, pair@) && r.last_open is None
            },
            StreamEvent::Unknown => *final(mem) == *old(mem) && !r.rejected && r.last_open is None,
        },
{
    match event {
        StreamEvent::BookTicker { ask, bid } => {
            if 0 <= *ask && *ask <= VALUE_BOUND && 0 <= *bid && *bid <= VALUE_BOUND {
                mem.set_marketprice(*ask, *bid);
                EventEffect { last_open: None, rejected: false }
            } else {
                EventEffect { last_open: None, rejected: true }
            }
        },
        StreamEvent::OrderUpdate { status, is_long, side, last_quantity, last_price, commission, realized_profit } => {
            let open = if *is_long { *side == OrderSide::Buy } else { *side == OrderSide::Sell };
            match status {
                OrderStatus::Expired => {
                    if open && *is_long {
                        mem.new_open_long_expired();
                    } else if *is_long {
                        mem.new_close_long_expired();
                    } else if open {
                        mem.new_open_short_expired();
                    } else {
                        mem.new_close_short_expired();
                    }
                    EventEffect { last_open: None, rejected: false }
                },
                OrderStatus::Filled | OrderStatus::PartiallyFilled => {
                    if *last_quantity < 0 || *last_price < 0 {
                        return EventEffect { last_open: None, rejected: true };
                    }
                    let q = *last_quantity as i128;
                    let p = *last_price as i128;
                    assert(0 <= q * p <= 0x8000_0000_0000_0000 * 0x8000_0000_0000_0000) by (nonlinear_arith)
                        requires 0 <= q < 0x8000_0000_0000_0000, 0 <= p < 0x8000_0000_0000_0000;
                    let raw: i128 = q * p / (SCALE as i128);
                    let volume: i128 = if raw > ACCUMULATOR_LIMIT { ACCUMULATOR_LIMIT } else { raw };
                    if open && *is_long {
                        mem.new_open_long_filled(volume, *commission, *realized_profit);
                    } else if *is_long {
                        mem.new_close_long_filled(volume, *commission, *realized_profit);
                    } else if open {
                        mem.new_open_short_filled(volume, *commission, *realized_profit);
                    } else {
                        mem.new_close_short_filled(volume, *commission, *realized_profit);
                    }
                    if open {
                        if -VALUE_BOUND <= *last_price && *last_price <= VALUE_BOUND {
                            EventEffect { last_open: Some((*is_long, *last_price)), rejected: false }
                        } else {
                            EventEffect { last_open: None, rejected: true }
                        }
                    } else {
                        EventEffect { last_open: None, rejected: false }
                    }
                },
                OrderStatus::Other => EventEffect { last_open: None, rejected: false },
            }
        },
        StreamEvent::AccountUpdate { balances, positions } => {
            apply_balances(mem, balances, token);
            let rejected = apply_positions(mem, positions, pair);
            EventEffect { last_open: None, rejected }
        },
        StreamEvent::Unknown => EventEffect { last_open: None, rejected: false },
    }
}

/// The account may not trade.
#[derive(Clone, Copy, Debug, PartialEq, Eq, Structural)]
pub enum AccountError {
    NotAllowedToTrade,
}

/// Stores fee tier, balance and positions from an account snapshot; fails
/// afterwards when the account may not trade.
pub fn apply_account_info(mem: &mut MemoryManager, info: &AccountInfo, token: &String, pair: &String) -> (r: Result<bool, AccountError>)
    requires
        old(mem).wf(),
    ensures
        final(mem).wf(),
        *final(mem) == positions_applied(
            match first_balance(info.assets@, token@) {
                Some(i) => MemoryManager { vip_level: info.fee_tier, balance: info.assets@[i].wallet_balance, ..*old(mem) },
                None => MemoryManager { vip_level: info.fee_tier, ..*old(mem) },
            },
            info.positions@,
            pair@,
        ),
        r is Err <==> !info.can_trade,
{
    mem.set_vip_level(info.fee_tier);
    apply_balances(mem, &info.assets, token);
    let rejected = apply_positions(mem, &info.positions, pair);
    if !info.can_trade {
        return Err(AccountError::NotAllowedToTrade);
    }
    Ok(rejected)
}

} // verus!
