//! The shared trading state: configuration, top of book, positions,
//! drain-on-read event counters and the overflow and restart flags.
use vstd::prelude::*;
use crate::fixed::{in_bound, in_nonneg_bound, ACCEL_BOUND, SCALE, VALUE_BOUND};
use crate::increment::{long_increment, short_increment, snap_increment_spec, IncrementInputs};

verus! {

/// Largest magnitude of an accounting accumulator.
pub const ACCUMULATOR_LIMIT: i128 = 0x1_0000_0000_0000_0000_0000_0000_0000;

/// Last long open price before any fill is seen.
pub const INITIAL_LAST_LONG_OPEN: i64 = 999_990_000;

/// Startup configuration, with fixed-point money values.
pub struct Config {
    pub pair: String,
    pub testnet: bool,
    pub leverage: u64,
    pub close_only: bool,
    pub margin: i64,
    pub increment: i64,
    pub close_diff: i64,
    pub order_amount: u64,
    pub order_quantity: i64,
    pub max_position: i64,
    pub soft_position: i64,
    pub acceleration: i64,
    pub discord_token: String,
    pub discord_channel: String,
}

/// Largest ladder size.
pub const MAX_ORDER_AMOUNT: u64 = 65_536;

impl Config {
    pub open spec fn wf(&self) -> bool {
        &&& 0 < self.order_amount <= MAX_ORDER_AMOUNT
        &&& 0 < self.increment <= VALUE_BOUND
        &&& 0 <= self.acceleration <= ACCEL_BOUND
        &&& 0 <= self.soft_position < self.max_position <= VALUE_BOUND
        &&& 0 < self.order_quantity <= VALUE_BOUND
        &&& in_nonneg_bound(self.margin as int)
        &&& in_nonneg_bound(self.close_diff as int)
    }

    pub fn is_valid(&self) -> (r: bool)
        ensures
            r == self.wf(),
    {
        0 < self.order_amount && self.order_amount <= MAX_ORDER_AMOUNT
            && 0 < self.increment && self.increment <= VALUE_BOUND
            && 0 <= self.acceleration && self.acceleration <= ACCEL_BOUND
            && 0 <= self.soft_position && self.soft_position < self.max_position
            && self.max_position <= VALUE_BOUND
            && 0 < self.order_quantity && self.order_quantity <= VALUE_BOUND
            && 0 <= self.margin && self.margin <= VALUE_BOUND
            && 0 <= self.close_diff && self.close_diff <= VALUE_BOUND
    }
}

/// Why the exchange's trading rules do not fit the configuration.
#[derive(Clone, Copy, Debug, PartialEq, Eq, Structural)]
pub enum ExchangeInfoError {
    QuantityOutOfBounds,
    TooManyOrders,
    BadStepSize,
}

/// Everything one reconciliation tick reads, taken in one step.
pub struct TickSnapshot {
    pub top_ask: i64,
    pub top_bid: i64,
    /// Open-long fills and expiries since the last snapshot.
    pub open_long_shift: u64,
    /// Open-short fills and expiries since the last snapshot.
    pub open_short_shift: u64,
    pub close_long_repost: bool,
    pub close_short_repost: bool,
    pub current_longs: i64,
    pub current_shorts: i64,
    pub long_close_price: i64,
    pub short_close_price: i64,
    pub long_increment: i128,
    pub short_increment: i128,
    pub open_long_pool: i64,
    pub open_short_pool: i64,
}

/// Cumulative figures for status reports.
pub struct Stats {
    pub volume: i128,
    pub order_overflow_count: u64,
    pub balance: i64,
    pub commission: i128,
    pub realized_profit: i128,
    pub current_longs: i64,
    pub current_shorts: i64,
    pub price_decimal_count: i64,
    pub quantity_decimal_count: i64,
    pub market_price: i64,
    pub long_close_price: i64,
    pub short_close_price: i64,
    pub long_entry_price: i64,
    pub short_entry_price: i64,
    pub long_un_pnl: i64,
    pub short_un_pnl: i64,
    pub vip_level: u64,
    pub long_increment: i128,
    pub short_increment: i128,
}

pub open spec fn saturating_inc(c: u64) -> u64 {
    if c < u64::MAX { (c + 1) as u64 } else { c }
}

pub open spec fn clamp_accumulator(x: int) -> int {
    if x > ACCUMULATOR_LIMIT {
        ACCUMULATOR_LIMIT as int
    } else if x < -ACCUMULATOR_LIMIT {
        -ACCUMULATOR_LIMIT
    } else {
        x
    }
}

pub open spec fn saturating_sum(a: u64, b: u64) -> u64 {
    if a + b <= u64::MAX { (a + b) as u64 } else { u64::MAX }
}

pub open spec fn max_int(a: int, b: int) -> int {
    if a >= b { a } else { b }
}

pub open spec fn min_int(a: int, b: int) -> int {
    if a <= b { a } else { b }
}

fn accumulate(acc: i128, x: i128) -> (r: i128)
    requires
        -ACCUMULATOR_LIMIT <= acc <= ACCUMULATOR_LIMIT,
        -ACCUMULATOR_LIMIT <= x <= ACCUMULATOR_LIMIT,
    ensures
        r == clamp_accumulator(acc + x),
{
    let s: i128 = acc + x;
    if s > ACCUMULATOR_LIMIT {
        ACCUMULATOR_LIMIT
    } else if s < -ACCUMULATOR_LIMIT {
        -ACCUMULATOR_LIMIT
    } else {
        s
    }
}

fn bump(c: u64) -> (r: u64)
    ensures
        r == saturating_inc(c),
{
    if c < u64::MAX { c + 1 } else { c }
}

/// The trading state store.
pub struct MemoryManager {
    pub url_request: String,
    pub url_websocket: String,
    pub discord_token: String,
    pub discord_channel: String,
    pub pair: String,
    pub token: String,
    pub price_decimal: i64,
    pub price_decimal_count: i64,
    pub quantity_decimal: i64,
    pub quantity_decimal_half: i64,
    pub quantity_decimal_count: i64,
    pub leverage: u64,
    pub close_only: bool,
    pub margin: i64,
    pub increment: i64,
    pub close_diff: i64,
    pub order_amount: u64,
    pub order_quantity: i64,
    pub max_position: i64,
    pub top_ask: i64,
    pub top_bid: i64,
    pub current_longs: i64,
    pub current_shorts: i64,
    pub long_entry_price: i64,
    pub short_entry_price: i64,
    pub long_un_pnl: i64,
    pub short_un_pnl: i64,
    pub open_longs_filled: u64,
    pub open_longs_expired: u64,
    pub close_longs_filled: u64,
    pub close_longs_expired: u64,
    pub open_shorts_filled: u64,
    pub open_shorts_expired: u64,
    pub close_shorts_filled: u64,
    pub close_shorts_expired: u64,
    pub volume: i128,
    pub balance: i64,
    pub realized_profit: i128,
    pub commission: i128,
    pub order_overflow_count: u64,
    pub order_overflow: bool,
    pub need_restart: bool,
    pub vip_level: u64,
    pub soft_position: i64,
    pub acceleration: i64,
    pub last_long_open: i64,
    pub last_short_open: i64,
}

impl MemoryManager {
    /// Configuration limits hold and every stored value is in range.
    pub open spec fn wf(&self) -> bool {
        &&& 0 < self.order_amount <= MAX_ORDER_AMOUNT
        &&& 0 < self.increment <= VALUE_BOUND
        &&& 0 <= self.acceleration <= ACCEL_BOUND
        &&& 0 <= self.soft_position < self.max_position <= VALUE_BOUND
        &&& 0 < self.order_quantity <= VALUE_BOUND
        &&& in_nonneg_bound(self.margin as int)
        &&& in_nonneg_bound(self.close_diff as int)
        &&& in_nonneg_bound(self.price_decimal as int)
        &&& in_nonneg_bound(self.quantity_decimal as int)
        &&& in_nonneg_bound(self.quantity_decimal_half as int)
        &&& in_nonneg_bound(self.top_ask as int)
        &&& in_nonneg_bound(self.top_bid as int)
        &&& in_nonneg_bound(self.current_longs as int)
        &&& in_nonneg_bound(self.current_shorts as int)
        &&& in_bound(self.long_entry_price as int)
        &&& in_bound(self.short_entry_price as int)
        &&& -2 * VALUE_BOUND <= self.last_long_open <= 2 * VALUE_BOUND
        &&& -2 * VALUE_BOUND <= self.last_short_open <= 2 * VALUE_BOUND
        &&& -ACCUMULATOR_LIMIT <= self.volume <= ACCUMULATOR_LIMIT
        &&& -ACCUMULATOR_LIMIT <= self.realized_profit <= ACCUMULATOR_LIMIT
        &&& -ACCUMULATOR_LIMIT <= self.commission <= ACCUMULATOR_LIMIT
    }

    /// Exchange metadata has been received: tick and step sizes are known.
    pub open spec fn has_exchange_info(&self) -> bool {
        self.price_decimal > 0 && self.quantity_decimal_half > 0
    }

    pub fn new(config: Config, url_request: String, url_websocket: String) -> (r: MemoryManager)
        requires
            config.wf(),
        ensures
            r.wf(),
            r.pair@ == config.pair@,
            r.order_amount == config.order_amount,
            r.order_quantity == config.order_quantity,
            r.max_position == config.max_position,
            r.increment == config.increment,
            r.close_only == config.close_only,
            r.top_ask == 0 && r.top_bid == 0,
            r.current_longs == 0 && r.current_shorts == 0,
            r.long_entry_price == -SCALE && r.short_entry_price == -SCALE,
            r.counters_clear(),
            !r.order_overflow,
            r.order_overflow_count == 0,
            r.volume == 0 && r.commission == 0 && r.realized_profit == 0,
            r.balance == 0 && r.vip_level == 0,
            r.long_un_pnl == 0 && r.short_un_pnl == 0,
            r.price_decimal == 0 && r.quantity_decimal == 0 && r.quantity_decimal_half == 0,
            r.soft_position == config.soft_position,
            r.acceleration == config.acceleration,
            r.margin == config.margin,
            r.close_diff == config.close_diff,
            r.leverage == config.leverage,
            r.token@.len() == 0,
            r.url_request@ == url_request@,
            r.url_websocket@ == url_websocket@,
            !r.need_restart,
            r.last_long_open == INITIAL_LAST_LONG_OPEN,
            r.last_short_open == 0,
    {
        MemoryManager {
            url_request,
            url_websocket,
            discord_token: config.discord_token,
            discord_channel: config.discord_channel,
            pair: config.pair,
            token: String::new(),
            price_decimal: 0,
            price_decimal_count: 0,
            quantity_decimal: 0,
            quantity_decimal_half: 0,
            quantity_decimal_count: 0,
            leverage: config.leverage,
            close_only: config.close_only,
            margin: config.margin,
            increment: config.increment,
            close_diff: config.close_diff,
            order_amount: config.order_amount,
            order_quantity: config.order_quantity,
            max_position: config.max_position,
            top_ask: 0,
            top_bid: 0,
            current_longs: 0,
            current_shorts: 0,
            long_entry_price: -SCALE,
            short_entry_price: -SCALE,
            long_un_pnl: 0,
            short_un_pnl: 0,
            open_longs_filled: 0,
            open_longs_expired: 0,
            close_longs_filled: 0,
            close_longs_expired: 0,
            open_shorts_filled: 0,
            open_shorts_expired: 0,
            close_shorts_filled: 0,
            close_shorts_expired: 0,
            volume: 0,
            balance: 0,
            realized_profit: 0,
            commission: 0,
            order_overflow_count: 0,
            order_overflow: false,
            need_restart: false,
            vip_level: 0,
            soft_position: config.soft_position,
            acceleration: config.acceleration,
            last_long_open: INITIAL_LAST_LONG_OPEN,
            last_short_open: 0,
        }
    }

    /// All eight event counters read zero.
    pub open spec fn counters_clear(&self) -> bool {
        &&& self.open_longs_filled == 0
        &&& self.open_longs_expired == 0
        &&& self.close_longs_filled == 0
        &&& self.close_longs_expired == 0
        &&& self.open_shorts_filled == 0
        &&& self.open_shorts_expired == 0
        &&& self.close_shorts_filled == 0
        &&& self.close_shorts_expired == 0
    }

    /// Stores the exchange's trading rules; the configured quantity must lie
    /// within the exchange's bounds and the ladder must fit a quarter of its
    /// open-order limit. Beyond those checks, a tick or step size that is not
    /// positive, or that exceeds the fixed-point range, is refused with
    /// `BadStepSize`: the ladder cannot be priced or sized with it. Half a step
    /// is stored rounded up, `(step + 1) / 2`, so that it stays positive.
    pub fn set_exchange_info(
        &mut self,
        token: String,
        price_decimal: i64,
        price_decimal_count: i64,
        quantity_decimal: i64,
        quantity_decimal_count: i64,
        min_quantity: i64,
        max_quantity: i64,
        max_order_amount: u64,
    ) -> (r: Result<(), ExchangeInfoError>)
        requires
            old(self).wf(),
        ensures
            final(self).wf(),
            r == Err::<(), ExchangeInfoError>(ExchangeInfoError::BadStepSize) <==> !(0 < price_decimal <= VALUE_BOUND && 0 < quantity_decimal <= VALUE_BOUND),
            r == Err::<(), ExchangeInfoError>(ExchangeInfoError::QuantityOutOfBounds) <==> (0 < price_decimal <= VALUE_BOUND && 0 < quantity_decimal <= VALUE_BOUND)
                && (old(self).order_quantity < min_quantity || old(self).order_quantity > max_quantity),
            r == Err::<(), ExchangeInfoError>(ExchangeInfoError::TooManyOrders) <==> (0 < price_decimal <= VALUE_BOUND && 0 < quantity_decimal <= VALUE_BOUND)
                && !(old(self).order_quantity < min_quantity || old(self).order_quantity > max_quantity)
                && 4 * old(self).order_amount > max_order_amount,
            r is Ok ==> final(self).has_exchange_info() && final(self).token@ == token@
                && final(self).price_decimal == price_decimal && final(self).quantity_decimal == quantity_decimal
                && final(self).quantity_decimal_half == (quantity_decimal + 1) / 2
                && final(self).price_decimal_count == price_decimal_count
                && final(self).quantity_decimal_count == quantity_decimal_count,
            r is Err ==> *final(self) == *old(self),
    {
        if !(0 < price_decimal && price_decimal <= VALUE_BOUND && 0 < quantity_decimal && quantity_decimal <= VALUE_BOUND) {
            return Err(ExchangeInfoError::BadStepSize);
        }
        if self.order_quantity < min_quantity || self.order_quantity > max_quantity {
            return Err(ExchangeInfoError::QuantityOutOfBounds);
        }
        if self.order_amount as u128 * 4 > max_order_amount as u128 {
            return Err(ExchangeInfoError::TooManyOrders);
        }
        self.token = token;
        self.price_decimal = price_decimal;
        self.price_decimal_count = price_decimal_count;
        self.quantity_decimal = quantity_decimal;
        self.quantity_decimal_half = (quantity_decimal + 1) / 2;
        self.quantity_decimal_count = quantity_decimal_count;
        Ok(())
    }

    pub fn get_url_request(&self) -> (r: String)
        ensures
            r@ == self.url_request@,
    {
        self.url_request.clone()
    }

    pub fn get_url_websocket(&self) -> (r: String)
        ensures
            r@ == self.url_websocket@,
    {
        self.url_websocket.clone()
    }

    pub fn get_pair(&self) -> (r: String)
        ensures
            r@ == self.pair@,
    {
        self.pair.clone()
    }

    pub fn get_token(&self) -> (r: String)
        ensures
            r@ == self.token@,
    {
        self.token.clone()
    }

    pub fn get_discord(&self) -> (r: (String, String))
        ensures
            r.0@ == self.discord_token@,
            r.1@ == self.discord_channel@,
    {
        (self.discord_token.clone(), self.discord_channel.clone())
    }

    pub fn get_order_amount(&self) -> (r: u64)
        ensures
            r == self.order_amount,
    {
        self.order_amount
    }

    pub fn get_margin(&self) -> (r: i64)
        ensures
            r == self.margin,
    {
        self.margin
    }

    pub fn get_leverage(&self) -> (r: u64)
        ensures
            r == self.leverage,
    {
        self.leverage
    }

    pub fn get_order_quantity(&self) -> (r: i64)
        ensures
            r == self.order_quantity,
    {
        self.order_quantity
    }

    pub fn get_max_position(&self) -> (r: i64)
        ensures
            r == self.max_position,
    {
        self.max_position
    }

    pub fn get_price_decimal_count(&self) -> (r: i64)
        ensures
            r == self.price_decimal_count,
    {
        self.price_decimal_count
    }

    pub fn get_quantity_decimal_half(&self) -> (r: i64)
        ensures
            r == self.quantity_decimal_half,
    {
        self.quantity_decimal_half
    }

    pub fn get_quantity_decimal_count(&self) -> (r: i64)
        ensures
            r == self.quantity_decimal_count,
    {
        self.quantity_decimal_count
    }

    pub fn set_marketprice(&mut self, top_ask: i64, top_bid: i64)
        requires
            old(self).wf(),
            in_nonneg_bound(top_ask as int),
            in_nonneg_bound(top_bid as int),
        ensures
            final(self).wf(),
            *final(self) == (MemoryManager { top_ask, top_bid, ..*old(self) }),
    {
        self.top_ask = top_ask;
        self.top_bid = top_bid;
    }

    /// Mid price rounded to the price tick, or `0` while either side of the book is unknown.
    pub open spec fn marketprice_spec(&self) -> int {
        if self.top_ask > 0 && self.top_bid > 0 {
            ((self.top_ask + self.top_bid + self.price_decimal) / (2 * self.price_decimal)) * self.price_decimal
        } else {
            0
        }
    }

    pub fn get_marketprice(&self) -> (r: i64)
        requires
            self.wf(),
            self.price_decimal > 0,
        ensures
            r == self.marketprice_spec(),
            0 <= r <= 2 * VALUE_BOUND,
    {
        if self.top_ask > 0 && self.top_bid > 0 {
            let sum: i64 = self.top_ask + self.top_bid + self.price_decimal;
            let q: i64 = sum / (2 * self.price_decimal);
            proof {
                let (s, d, qq) = (sum as int, self.price_decimal as int, q as int);
                assert(qq * d <= s / 2) by (nonlinear_arith)
                    requires qq == s / (2 * d), d > 0, s >= 0;
                assert(qq * d >= 0) by (nonlinear_arith)
                    requires qq == s / (2 * d), d > 0, s >= 0;
            }
            q * self.price_decimal
        } else {
            0
        }
    }

    pub fn get_top_ask(&self) -> (r: i64)
        ensures
            r == self.top_ask,
    {
        self.top_ask
    }

    pub fn get_top_bid(&self) -> (r: i64)
        ensures
            r == self.top_bid,
    {
        self.top_bid
    }

    pub fn set_balance(&mut self, balance: i64)
        ensures
            *final(self) == (MemoryManager { balance, ..*old(self) }),
    {
        self.balance = balance;
    }

    pub fn set_vip_level(&mut self, vip_level: u64)
        ensures
            *final(self) == (MemoryManager { vip_level, ..*old(self) }),
    {
        self.vip_level = vip_level;
    }

    pub fn set_last_long_open(&mut self, price: i64)
        requires
            old(self).wf(),
            in_bound(price as int),
        ensures
            final(self).wf(),
            *final(self) == (MemoryManager { last_long_open: price, ..*old(self) }),
    {
        self.last_long_open = price;
    }

    pub fn set_last_short_open(&mut self, price: i64)
        requires
            old(self).wf(),
            in_bound(price as int),
        ensures
            final(self).wf(),
            *final(self) == (MemoryManager { last_short_open: price, ..*old(self) }),
    {
        self.last_short_open = price;
    }

    /// Both last open prices become the current market price.
    pub fn set_last_prices(&mut self)
        requires
            old(self).wf(),
            old(self).price_decimal > 0,
        ensures
            final(self).wf(),
            *final(self) == (MemoryManager {
                last_long_open: old(self).marketprice_spec() as i64,
                last_short_open: old(self).marketprice_spec() as i64,
                ..*old(self)
            }),
    {
        let mp = self.get_marketprice();
        self.last_long_open = mp;
        self.last_short_open = mp;
    }

    pub fn set_current_longs(&mut self, long_quantity: i64, long_entry_price: i64, long_un_pnl: i64)
        requires
            old(self).wf(),
            in_nonneg_bound(long_quantity as int),
            in_bound(long_entry_price as int),
        ensures
            final(self).wf(),
            *final(self) == (MemoryManager {
                current_longs: long_quantity,
                long_entry_price,
                long_un_pnl,
                ..*old(self)
            }),
    {
        self.current_longs = long_quantity;
        self.long_entry_price = long_entry_price;
        self.long_un_pnl = long_un_pnl;
    }

    pub fn set_current_shorts(&mut self, short_quantity: i64, short_entry_price: i64, short_un_pnl: i64)
        requires
            old(self).wf(),
            in_nonneg_bound(short_quantity as int),
            in_bound(short_entry_price as int),
        ensures
            final(self).wf(),
            *final(self) == (MemoryManager {
                current_shorts: short_quantity,
                short_entry_price,
                short_un_pnl,
                ..*old(self)
            }),
    {
        self.current_shorts = short_quantity;
        self.short_entry_price = short_entry_price;
        self.short_un_pnl = short_un_pnl;
    }

    /// Returns the open longs filled count and resets it to zero.
    pub fn get_open_long_filled(&mut self) -> (r: u64)
        ensures
            r == old(self).open_longs_filled,
            *final(self) == (MemoryManager { open_longs_filled: 0, ..*old(self) }),
    {
        let n = self.open_longs_filled;
        self.open_longs_filled = 0;
        n
    }

    /// Records a fill and adds its volume, commission and realized profit.
    pub fn new_open_long_filled(&mut self, volume: i128, commission: i64, realized_profit: i64)
        requires
            old(self).wf(),
            -ACCUMULATOR_LIMIT <= volume <= ACCUMULATOR_LIMIT,
        ensures
            final(self).wf(),
            *final(self) == (MemoryManager {
                open_longs_filled: saturating_inc(old(self).open_longs_filled),
                volume: clamp_accumulator(old(self).volume + volume) as i128,
                commission: clamp_accumulator(old(self).commission + commission) as i128,
                realized_profit: clamp_accumulator(old(self).realized_profit + realized_profit) as i128,
                ..*old(self)
            }),
    {
        self.open_longs_filled = bump(self.open_longs_filled);
        self.volume = accumulate(self.volume, volume);
        self.commission = accumulate(self.commission, commission as i128);
        self.realized_profit = accumulate(self.realized_profit, realized_profit as i128);
    }

    /// Returns the open longs expired count and resets it to zero.
    pub fn get_open_long_expired(&mut self) -> (r: u64)
        ensures
            r == old(self).open_longs_expired,
            *final(self) == (MemoryManager { open_longs_expired: 0, ..*old(self) }),
    {
        let n = self.open_longs_expired;
        self.open_longs_expired = 0;
        n
    }

    pub fn new_open_long_expired(&mut self)
        ensures
            *final(self) == (MemoryManager { open_longs_expired: saturating_inc(old(self).open_longs_expired), ..*old(self) }),
    {
        self.open_longs_expired = bump(self.open_longs_expired);
    }

    /// Returns the close longs filled count and resets it to zero.
    pub fn get_close_long_filled(&mut self) -> (r: u64)
        ensures
            r == old(self).close_longs_filled,
            *final(self) == (MemoryManager { close_longs_filled: 0, ..*old(self) }),
    {
        let n = self.close_longs_filled;
        self.close_longs_filled = 0;
        n
    }

    /// Records a fill and adds its volume, commission and realized profit.
    pub fn new_close_long_filled(&mut self, volume: i128, commission: i64, realized_profit: i64)
        requires
            old(self).wf(),
            -ACCUMULATOR_LIMIT <= volume <= ACCUMULATOR_LIMIT,
        ensures
            final(self).wf(),
            *final(self) == (MemoryManager {
                close_longs_filled: saturating_inc(old(self).close_longs_filled),
                volume: clamp_accumulator(old(self).volume + volume) as i128,
                commission: clamp_accumulator(old(self).commission + commission) as i128,
                realized_profit: clamp_accumulator(old(self).realized_profit + realized_profit) as i128,
                ..*old(self)
            }),
    {
        self.close_longs_filled = bump(self.close_longs_filled);
        self.volume = accumulate(self.volume, volume);
        self.commission = accumulate(self.commission, commission as i128);
        self.realized_profit = accumulate(self.realized_profit, realized_profit as i128);
    }

    /// Returns the close longs expired count and resets it to zero.
    pub fn get_close_long_expired(&mut self) -> (r: u64)
        ensures
            r == old(self).close_longs_expired,
            *final(self) == (MemoryManager { close_longs_expired: 0, ..*old(self) }),
    {
        let n = self.close_longs_expired;
        self.close_longs_expired = 0;
        n
    }

    pub fn new_close_long_expired(&mut self)
        ensures
            *final(self) == (MemoryManager { close_longs_expired: saturating_inc(old(self).close_longs_expired), ..*old(self) }),
    {
        self.close_longs_expired = bump(self.close_longs_expired);
    }

    /// Returns the open shorts filled count and resets it to zero.
    pub fn get_open_short_filled(&mut self) -> (r: u64)
        ensures
            r == old(self).open_shorts_filled,
            *final(self) == (MemoryManager { open_shorts_filled: 0, ..*old(self) }),
    {
        let n = self.open_shorts_filled;
        self.open_shorts_filled = 0;
        n
    }

    /// Records a fill and adds its volume, commission and realized profit.
    pub fn new_open_short_filled(&mut self, volume: i128, commission: i64, realized_profit: i64)
        requires
            old(self).wf(),
            -ACCUMULATOR_LIMIT <= volume <= ACCUMULATOR_LIMIT,
        ensures
            final(self).wf(),
            *final(self) == (MemoryManager {
                open_shorts_filled: saturating_inc(old(self).open_shorts_filled),
                volume: clamp_accumulator(old(self).volume + volume) as i128,
                commission: clamp_accumulator(old(self).commission + commission) as i128,
                realized_profit: clamp_accumulator(old(self).realized_profit + realized_profit) as i128,
                ..*old(self)
            }),
    {
        self.open_shorts_filled = bump(self.open_shorts_filled);
        self.volume = accumulate(self.volume, volume);
        self.commission = accumulate(self.commission, commission as i128);
        self.realized_profit = accumulate(self.realized_profit, realized_profit as i128);
    }

    /// Returns the open shorts expired count and resets it to zero.
    pub fn get_open_short_expired(&mut self) -> (r: u64)
        ensures
            r == old(self).open_shorts_expired,
            *final(self) == (MemoryManager { open_shorts_expired: 0, ..*old(self) }),
    {
        let n = self.open_shorts_expired;
        self.open_shorts_expired = 0;
        n
    }

    pub fn new_open_short_expired(&mut self)
        ensures
            *final(self) == (MemoryManager { open_shorts_expired: saturating_inc(old(self).open_shorts_expired), ..*old(self) }),
    {
        self.open_shorts_expired = bump(self.open_shorts_expired);
    }

    /// Returns the close shorts filled count and resets it to zero.
    pub fn get_close_short_filled(&mut self) -> (r: u64)
        ensures
            r == old(self).close_shorts_filled,
            *final(self) == (MemoryManager { close_shorts_filled: 0, ..*old(self) }),
    {
        let n = self.close_shorts_filled;
        self.close_shorts_filled = 0;
        n
    }

    /// Records a fill and adds its volume, commission and realized profit.
    pub fn new_close_short_filled(&mut self, volume: i128, commission: i64, realized_profit: i64)
        requires
            old(self).wf(),
            -ACCUMULATOR_LIMIT <= volume <= ACCUMULATOR_LIMIT,
        ensures
            final(self).wf(),
            *final(self) == (MemoryManager {
                close_shorts_filled: saturating_inc(old(self).close_shorts_filled),
                volume: clamp_accumulator(old(self).volume + volume) as i128,
                commission: clamp_accumulator(old(self).commission + commission) as i128,
                realized_profit: clamp_accumulator(old(self).realized_profit + realized_profit) as i128,
                ..*old(self)
            }),
    {
        self.close_shorts_filled = bump(self.close_shorts_filled);
        self.volume = accumulate(self.volume, volume);
        self.commission = accumulate(self.commission, commission as i128);
        self.realized_profit = accumulate(self.realized_profit, realized_profit as i128);
    }

    /// Returns the close shorts expired count and resets it to zero.
    pub fn get_close_short_expired(&mut self) -> (r: u64)
        ensures
            r == old(self).close_shorts_expired,
            *final(self) == (MemoryManager { close_shorts_expired: 0, ..*old(self) }),
    {
        let n = self.close_shorts_expired;
        self.close_shorts_expired = 0;
        n
    }

    pub fn new_close_short_expired(&mut self)
        ensures
            *final(self) == (MemoryManager { close_shorts_expired: saturating_inc(old(self).close_shorts_expired), ..*old(self) }),
    {
        self.close_shorts_expired = bump(self.close_shorts_expired);
    }

    /// Capacity left for opening longs: nothing in close-only mode.
    pub fn max_open_long(&self) -> (r: i64)
        requires
            self.wf(),
        ensures
            r == if self.close_only { 0 } else { self.max_position - self.current_longs },
    {
        if self.close_only { 0 } else { self.max_position - self.current_longs }
    }

    pub fn max_close_long(&self) -> (r: i64)
        ensures
            r == self.current_longs,
    {
        self.current_longs
    }

    /// Capacity left for opening shorts: nothing in close-only mode.
    pub fn max_open_short(&self) -> (r: i64)
        requires
            self.wf(),
        ensures
            r == if self.close_only { 0 } else { self.max_position - self.current_shorts },
    {
        if self.close_only { 0 } else { self.max_position - self.current_shorts }
    }

    pub fn max_close_short(&self) -> (r: i64)
        ensures
            r == self.current_shorts,
    {
        self.current_shorts
    }

    pub open spec fn long_inputs(&self) -> IncrementInputs {
        IncrementInputs {
            base_increment: self.increment,
            acceleration: self.acceleration,
            soft_position: self.soft_position,
            max_position: self.max_position,
            target_quantity: self.order_quantity,
            position: self.current_longs,
            range_from: self.long_entry_price,
            range_to: self.last_long_open,
        }
    }

    pub open spec fn short_inputs(&self) -> IncrementInputs {
        IncrementInputs {
            base_increment: self.increment,
            acceleration: self.acceleration,
            soft_position: self.soft_position,
            max_position: self.max_position,
            target_quantity: self.order_quantity,
            position: self.current_shorts,
            range_from: self.last_short_open,
            range_to: self.short_entry_price,
        }
    }

    pub open spec fn long_increment_spec(&self) -> int {
        snap_increment_spec(self.long_inputs().long_raw())
    }

    pub open spec fn short_increment_spec(&self) -> int {
        snap_increment_spec(self.short_inputs().short_raw())
    }

    fn make_long_inputs(&self) -> (r: IncrementInputs)
        ensures
            r == self.long_inputs(),
    {
        IncrementInputs {
            base_increment: self.increment,
            acceleration: self.acceleration,
            soft_position: self.soft_position,
            max_position: self.max_position,
            target_quantity: self.order_quantity,
            position: self.current_longs,
            range_from: self.long_entry_price,
            range_to: self.last_long_open,
        }
    }

    fn make_short_inputs(&self) -> (r: IncrementInputs)
        ensures
            r == self.short_inputs(),
    {
        IncrementInputs {
            base_increment: self.increment,
            acceleration: self.acceleration,
            soft_position: self.soft_position,
            max_position: self.max_position,
            target_quantity: self.order_quantity,
            position: self.current_shorts,
            range_from: self.last_short_open,
            range_to: self.short_entry_price,
        }
    }

    /// Long-side rung spacing.
    pub fn get_long_increment(&self) -> (r: i128)
        requires
            self.wf(),
        ensures
            r == self.long_increment_spec(),
    {
        long_increment(&self.make_long_inputs())
    }

    /// Short-side rung spacing.
    pub fn get_short_increment(&self) -> (r: i128)
        requires
            self.wf(),
        ensures
            r == self.short_increment_spec(),
    {
        short_increment(&self.make_short_inputs())
    }

    pub fn get_increments(&self) -> (r: (i128, i128))
        requires
            self.wf(),
        ensures
            r.0 == self.long_increment_spec(),
            r.1 == self.short_increment_spec(),
    {
        (self.get_long_increment(), self.get_short_increment())
    }

    /// Long inventory amplitude of the increment model.
    pub fn get_long_amplitude(&self) -> (r: i128)
        requires
            self.wf(),
        ensures
            r == self.long_inputs().amplitude(),
    {
        crate::increment::amplitude(self.current_longs, self.soft_position, self.max_position)
    }

    /// Short inventory amplitude of the increment model.
    pub fn get_short_amplitude(&self) -> (r: i128)
        requires
            self.wf(),
        ensures
            r == self.short_inputs().amplitude(),
    {
        crate::increment::amplitude(self.current_shorts, self.soft_position, self.max_position)
    }

    pub fn get_long_increment_imp(&self) -> (r: i128)
        requires
            self.wf(),
        ensures
            r == self.long_inputs().long_raw(),
    {
        crate::increment::long_increment_raw(&self.make_long_inputs())
    }

    pub fn get_long_r_delta(&self) -> (r: i128)
        requires
            self.wf(),
        ensures
            r == self.long_inputs().r_delta(),
    {
        self.make_long_inputs().r_delta_of()
    }

    pub fn get_long_range_supposed(&self) -> (r: i128)
        requires
            self.wf(),
        ensures
            r == self.long_inputs().range_supposed(),
    {
        self.make_long_inputs().range_supposed_of()
    }

    pub fn get_long_range_current(&self) -> (r: i128)
        requires
            self.wf(),
        ensures
            r == self.long_inputs().range_current(),
    {
        self.make_long_inputs().range_current_of()
    }

    pub fn get_short_increment_imp(&self) -> (r: i128)
        requires
            self.wf(),
        ensures
            r == self.short_inputs().short_raw(),
    {
        crate::increment::short_increment_raw(&self.make_short_inputs())
    }

    pub fn get_short_r_delta(&self) -> (r: i128)
        requires
            self.wf(),
        ensures
            r == self.short_inputs().r_delta(),
    {
        self.make_short_inputs().r_delta_of()
    }

    pub fn get_short_range_supposed(&self) -> (r: i128)
        requires
            self.wf(),
        ensures
            r == self.short_inputs().range_supposed(),
    {
        self.make_short_inputs().range_supposed_of()
    }

    pub fn get_short_range_current(&self) -> (r: i128)
        requires
            self.wf(),
        ensures
            r == self.short_inputs().range_current(),
    {
        self.make_short_inputs().range_current_of()
    }

    pub open spec fn long_close_price_spec(&self) -> int {
        max_int(self.top_ask as int, self.long_entry_price + self.close_diff)
    }

    pub open spec fn short_close_price_spec(&self) -> int {
        min_int(self.top_bid as int, self.short_entry_price - self.close_diff)
    }

    /// Close prices: no better than the book, no worse than entry plus or minus the close offset.
    pub fn get_close_prices(&self) -> (r: (i64, i64))
        requires
            self.wf(),
        ensures
            r.0 == self.long_close_price_spec(),
            r.1 == self.short_close_price_spec(),
    {
        let up: i64 = self.long_entry_price + self.close_diff;
        let down: i64 = self.short_entry_price - self.close_diff;
        (
            if self.top_ask >= up { self.top_ask } else { up },
            if self.top_bid <= down { self.top_bid } else { down },
        )
    }

    /// The state after one snapshot: every event counter drained.
    pub open spec fn drained(&self) -> MemoryManager {
        MemoryManager {
            open_longs_filled: 0,
            open_longs_expired: 0,
            close_longs_filled: 0,
            close_longs_expired: 0,
            open_shorts_filled: 0,
            open_shorts_expired: 0,
            close_shorts_filled: 0,
            close_shorts_expired: 0,
            ..*self
        }
    }

    /// One consistent view for a reconciliation tick; drains the event counters.
    pub fn get_updates(&mut self) -> (r: TickSnapshot)
        requires
            old(self).wf(),
        ensures
            final(self).wf(),
            *final(self) == old(self).drained(),
            r.top_ask == old(self).top_ask,
            r.top_bid == old(self).top_bid,
            r.open_long_shift == saturating_sum(old(self).open_longs_filled, old(self).open_longs_expired),
            r.open_short_shift == saturating_sum(old(self).open_shorts_filled, old(self).open_shorts_expired),
            r.close_long_repost == (old(self).close_longs_expired > 0 || old(self).close_longs_filled > 0),
            r.close_short_repost == (old(self).close_shorts_expired > 0 || old(self).close_shorts_filled > 0),
            r.current_longs == old(self).current_longs,
            r.current_shorts == old(self).current_shorts,
            r.long_close_price == old(self).long_close_price_spec(),
            r.short_close_price == old(self).short_close_price_spec(),
            r.long_increment == old(self).long_increment_spec(),
            r.short_increment == old(self).short_increment_spec(),
            r.open_long_pool == if old(self).close_only { 0 } else { old(self).max_position - old(self).current_longs },
            r.open_short_pool == if old(self).close_only { 0 } else { old(self).max_position - old(self).current_shorts },
    {
        let olf = self.get_open_long_filled();
        let ole = self.get_open_long_expired();
        let osf = self.get_open_short_filled();
        let ose = self.get_open_short_expired();
        let cle = self.get_close_long_expired();
        let clf = self.get_close_long_filled();
        let cse = self.get_close_short_expired();
        let csf = self.get_close_short_filled();
        let (long_close_price, short_close_price) = self.get_close_prices();
        let (long_increment, short_increment) = self.get_increments();
        TickSnapshot {
            top_ask: self.top_ask,
            top_bid: self.top_bid,
            open_long_shift: olf.saturating_add(ole),
            open_short_shift: osf.saturating_add(ose),
            close_long_repost: cle > 0 || clf > 0,
            close_short_repost: cse > 0 || csf > 0,
            current_longs: self.current_longs,
            current_shorts: self.current_shorts,
            long_close_price,
            short_close_price,
            long_increment,
            short_increment,
            open_long_pool: self.max_open_long(),
            open_short_pool: self.max_open_short(),
        }
    }

    pub fn get_stats(&self) -> (r: Stats)
        requires
            self.wf(),
            self.price_decimal > 0,
        ensures
            r.volume == self.volume,
            r.order_overflow_count == self.order_overflow_count,
            r.balance == self.balance,
            r.commission == -self.commission,
            r.realized_profit == self.realized_profit,
            r.current_longs == self.current_longs,
            r.current_shorts == self.current_shorts,
            r.market_price == self.marketprice_spec(),
            r.long_close_price == self.long_close_price_spec(),
            r.short_close_price == self.short_close_price_spec(),
            r.long_increment == self.long_increment_spec(),
            r.short_increment == self.short_increment_spec(),
            r.vip_level == self.vip_level,
    {
        let (long_close_price, short_close_price) = self.get_close_prices();
        Stats {
            volume: self.volume,
            order_overflow_count: self.order_overflow_count,
            balance: self.balance,
            commission: -self.commission,
            realized_profit: self.realized_profit,
            current_longs: self.current_longs,
            current_shorts: self.current_shorts,
            price_decimal_count: self.price_decimal_count,
            quantity_decimal_count: self.quantity_decimal_count,
            market_price: self.get_marketprice(),
            long_close_price,
            short_close_price,
            long_entry_price: self.long_entry_price,
            short_entry_price: self.short_entry_price,
            long_un_pnl: self.long_un_pnl,
            short_un_pnl: self.short_un_pnl,
            vip_level: self.vip_level,
            long_increment: self.get_long_increment(),
            short_increment: self.get_short_increment(),
        }
    }

    /// Marks an unexpected exchange response; cleared only by `reset_all`.
    pub fn start_overflow(&mut self)
        ensures
            *final(self) == (MemoryManager {
                order_overflow: true,
                order_overflow_count: saturating_inc(old(self).order_overflow_count),
                ..*old(self)
            }),
    {
        self.order_overflow = true;
        self.order_overflow_count = bump(self.order_overflow_count);
    }

    pub fn is_oveflowing(&self) -> (r: bool)
        ensures
            r == self.order_overflow,
    {
        self.order_overflow
    }

    /// The state after a full reset.
    pub open spec fn reset_spec(&self) -> MemoryManager {
        MemoryManager {
            top_ask: 0,
            top_bid: 0,
            current_longs: 0,
            current_shorts: 0,
            order_overflow: false,
            ..self.drained()
        }
    }

    /// Clears the book, the positions, every event counter and the overflow flag.
    pub fn reset_all(&mut self)
        requires
            old(self).wf(),
        ensures
            final(self).wf(),
            *final(self) == old(self).reset_spec(),
    {
        self.top_ask = 0;
        self.top_bid = 0;
        self.current_longs = 0;
        self.current_shorts = 0;
        self.open_longs_filled = 0;
        self.open_longs_expired = 0;
        self.close_longs_filled = 0;
        self.close_longs_expired = 0;
        self.open_shorts_filled = 0;
        self.open_shorts_expired = 0;
        self.close_shorts_filled = 0;
        self.close_shorts_expired = 0;
        self.order_overflow = false;
    }

    /// Requests a reconnect. The overflow flag is raised too, on purpose: the
    /// ladder is rebuilt from scratch around the reconnect, since events may be
    /// lost while the stream is down.
    pub fn set_need_restart_true(&mut self)
        ensures
            *final(self) == (MemoryManager { need_restart: true, order_overflow: true, ..*old(self) }),
    {
        self.need_restart = true;
        self.order_overflow = true;
    }

    pub fn is_restart_needed(&self) -> (r: bool)
        ensures
            r == self.need_restart,
    {
        self.need_restart
    }

    pub fn set_need_restart_false(&mut self)
        ensures
            *final(self) == (MemoryManager { need_restart: false, ..*old(self) }),
    {
        self.need_restart = false;
    }

    /// Stops opening new positions; closes are still managed.
    pub fn activate_close_only(&mut self)
        ensures
            *final(self) == (MemoryManager { close_only: true, ..*old(self) }),
    {
        self.close_only = true;
    }
} // impl MemoryManager

/// Draining is idempotent: a second snapshot with no event in between sees
/// no shift and no close repost, and leaves the state as the first left it.
pub proof fn lemma_drain_twice(s: MemoryManager)
    ensures
        s.drained().drained() == s.drained(),
        s.drained().counters_clear(),
        saturating_sum(s.drained().open_longs_filled, s.drained().open_longs_expired) == 0,
        saturating_sum(s.drained().open_shorts_filled, s.drained().open_shorts_expired) == 0,
        !(s.drained().close_longs_expired > 0 || s.drained().close_longs_filled > 0),
        !(s.drained().close_shorts_expired > 0 || s.drained().close_shorts_filled > 0),
{
}

/// After a full reset every event counter reads zero and the overflow flag is clear.
pub proof fn lemma_reset_clears_counters(s: MemoryManager)
    ensures
        s.reset_spec().counters_clear(),
        !s.reset_spec().order_overflow,
{
}


} // verus!
