use grid_maker::decode::{decode_order_reply, decode_stream_event, AccountInfo, BalanceEntry, OrderSide, OrderStatus, PositionEntry, StreamEvent};
use grid_maker::events::{apply_account_info, apply_event, AccountError};
use grid_maker::fixed::SCALE;
use grid_maker::gateway::{cancel_reply_ok, post_reply_ok};
use grid_maker::reconciler::{build_initial_ladder, Action, LadderSeed, Supervisor};
use grid_maker::state::{Config, ExchangeInfoError, MemoryManager, INITIAL_LAST_LONG_OPEN};

fn config() -> Config {
    Config {
        pair: String::from("BTCUSDT"),
        testnet: true,
        leverage: 10,
        close_only: false,
        margin: 5 * SCALE,
        increment: SCALE,
        close_diff: 10 * SCALE,
        order_amount: 5,
        order_quantity: 10,
        max_position: 100,
        soft_position: 40,
        acceleration: SCALE,
        discord_token: String::from("token"),
        discord_channel: String::from("channel"),
    }
}

fn manager() -> MemoryManager {
    let mut m = MemoryManager::new(config(), String::from("https://example.test"), String::from("wss://example.test"));
    m.set_exchange_info(String::from("USDT"), 1000, 1, 10, 3, 1, 1_000_000, 100).unwrap();
    m
}

#[test]
fn new_state_starts_empty() {
    let m = MemoryManager::new(config(), String::from("a"), String::from("b"));
    assert!(config().is_valid());
    assert_eq!(m.get_top_ask(), 0);
    assert_eq!(m.get_top_bid(), 0);
    assert_eq!(m.long_entry_price, -SCALE);
    assert_eq!(m.last_long_open, INITIAL_LAST_LONG_OPEN);
    assert!(!m.is_oveflowing());
    assert!(!m.is_restart_needed());
    assert_eq!(m.get_pair(), "BTCUSDT");
    assert_eq!(m.order_overflow_count, 0);
    assert_eq!((m.volume, m.commission, m.realized_profit, m.balance, m.vip_level), (0, 0, 0, 0, 0));
}

#[test]
fn invalid_config_is_refused() {
    let mut c = config();
    c.soft_position = c.max_position;
    assert!(!c.is_valid());
    let mut c = config();
    c.order_amount = 0;
    assert!(!c.is_valid());
}

#[test]
fn exchange_info_errors() {
    let mut m = MemoryManager::new(config(), String::new(), String::new());
    assert_eq!(m.set_exchange_info(String::from("USDT"), 0, 1, 10, 3, 1, 1000, 100), Err(ExchangeInfoError::BadStepSize));
    assert_eq!(m.set_exchange_info(String::from("USDT"), 1000, 1, 10, 3, 11, 1000, 100), Err(ExchangeInfoError::QuantityOutOfBounds));
    assert_eq!(m.set_exchange_info(String::from("USDT"), 1000, 1, 10, 3, 1, 9, 100), Err(ExchangeInfoError::QuantityOutOfBounds));
    assert_eq!(m.set_exchange_info(String::from("USDT"), 1000, 1, 10, 3, 1, 1000, 19), Err(ExchangeInfoError::TooManyOrders));
    assert_eq!(m.set_exchange_info(String::from("USDT"), 1000, 1, 10, 3, 1, 1000, 20), Ok(()));
    assert_eq!(m.get_quantity_decimal_half(), 5);
    assert_eq!(m.get_token(), "USDT");
}

#[test]
fn drained_counters_read_once() {
    let mut m = manager();
    m.new_open_long_filled(0, 0, 0);
    m.new_open_long_filled(0, 0, 0);
    m.new_open_long_expired();
    assert_eq!((m.get_open_long_filled(), m.get_open_long_expired()), (2, 1));
    assert_eq!((m.get_open_long_filled(), m.get_open_long_expired()), (0, 0));
    m.new_close_short_expired();
    assert_eq!(m.get_close_short_expired(), 1);
    assert_eq!(m.get_close_short_expired(), 0);
}

#[test]
fn snapshot_sums_and_drains() {
    let mut m = manager();
    m.set_marketprice(101 * SCALE, 100 * SCALE);
    m.new_open_long_filled(0, 0, 0);
    m.new_open_long_expired();
    m.new_close_short_filled(0, 0, 0);
    m.set_current_longs(30, 95 * SCALE, 0);
    let s = m.get_updates();
    assert_eq!(s.open_long_shift, 2);
    assert_eq!(s.open_short_shift, 0);
    assert!(!s.close_long_repost);
    assert!(s.close_short_repost);
    assert_eq!(s.long_close_price, 105 * SCALE);
    assert_eq!(s.short_close_price, -11 * SCALE);
    assert_eq!(s.open_long_pool, 70);
    assert_eq!(s.open_short_pool, 100);
    let again = m.get_updates();
    assert_eq!(again.open_long_shift, 0);
    assert!(!again.close_short_repost);
}

#[test]
fn close_only_empties_pools() {
    let mut m = manager();
    m.activate_close_only();
    assert_eq!(m.max_open_long(), 0);
    assert_eq!(m.max_open_short(), 0);
}

#[test]
fn market_price_rounds_to_tick() {
    let mut m = manager();
    assert_eq!(m.get_marketprice(), 0);
    m.set_marketprice(1_000_300, 1_000_000);
    assert_eq!(m.get_marketprice(), 1_000_000);
    m.set_marketprice(1_001_000, 1_000_000);
    assert_eq!(m.get_marketprice(), 1_001_000);
    m.set_last_prices();
    assert_eq!(m.last_long_open, 1_001_000);
    assert_eq!(m.last_short_open, 1_001_000);
}

#[test]
fn amplitude_at_soft_position_is_one() {
    let mut m = manager();
    m.set_current_longs(40, -SCALE, 0);
    assert_eq!(m.get_long_amplitude(), SCALE as i128);
    m.set_current_longs(39, -SCALE, 0);
    assert_eq!(m.get_long_amplitude(), 0);
    m.set_current_longs(70, -SCALE, 0);
    assert_eq!(m.get_long_amplitude(), 15_000);
}

#[test]
fn increment_is_base_below_soft_position() {
    let m = manager();
    assert_eq!(m.get_increments(), (SCALE as i128, SCALE as i128));
}

#[test]
fn increment_widens_with_inventory() {
    let mut m = manager();
    // 60 of 100 held, soft at 40: amplitude 1.333; half range 0.9 * 1 * 100 / 20 = 4.5.
    m.set_current_longs(60, 100 * SCALE, 0);
    m.set_last_long_open(100 * SCALE);
    assert_eq!(m.get_long_range_supposed(), 27_000);
    assert_eq!(m.get_long_range_current(), 0);
    assert_eq!(m.get_long_r_delta(), 37_000);
    // 1 + 1 * sqrt(3.7) * 1.3333 = 3.5646...
    assert_eq!(m.get_long_increment_imp(), 35_646);
    assert_eq!(m.get_long_increment(), 35_000);
    m.set_current_shorts(60, 100 * SCALE, 0);
    m.set_last_short_open(100 * SCALE);
    // the short side rounds the term to a tenth first: 1 + 2.6 = 3.6, snapped to 3.5
    assert_eq!(m.get_short_increment_imp(), 36_000);
    assert_eq!(m.get_short_increment(), 35_000);
}

#[test]
fn small_increments_snap_to_quarters() {
    let mut c = config();
    c.increment = 11_300;
    c.acceleration = 0;
    let mut m = MemoryManager::new(c, String::new(), String::new());
    m.set_exchange_info(String::from("USDT"), 1000, 1, 10, 3, 1, 1000, 100).unwrap();
    assert_eq!(m.get_long_increment(), 12_500);
}

#[test]
fn reset_clears_counters_and_overflow() {
    let mut m = manager();
    m.new_open_short_expired();
    m.new_close_long_filled(0, 0, 0);
    m.set_current_shorts(20, 90 * SCALE, 0);
    m.start_overflow();
    assert!(m.is_oveflowing());
    m.reset_all();
    assert!(!m.is_oveflowing());
    assert_eq!(m.order_overflow_count, 1);
    assert_eq!(m.get_open_short_expired(), 0);
    assert_eq!(m.get_close_long_filled(), 0);
    assert_eq!(m.max_close_short(), 0);
}

#[test]
fn restart_request_forces_reset() {
    let mut m = manager();
    m.set_need_restart_true();
    assert!(m.is_restart_needed());
    assert!(m.is_oveflowing());
    m.set_need_restart_false();
    assert!(!m.is_restart_needed());
}

fn seed() -> LadderSeed {
    LadderSeed {
        market_price: 100 * SCALE,
        margin: SCALE,
        long_increment: SCALE as i128,
        short_increment: 2 * SCALE as i128,
        open_long_pool: 25,
        open_short_pool: 100,
        current_longs: 0,
        current_shorts: 0,
        long_close_price: 101 * SCALE,
        short_close_price: 99 * SCALE,
        order_amount: 5,
        order_quantity: 10,
        quantity_decimal_half: 5,
    }
}

fn terms(v: &[grid_maker::order::Order]) -> Vec<(i64, i64)> {
    v.iter().map(|o| (o.price, o.quantity)).collect()
}

#[test]
fn initial_ladder_layout() {
    let (rec, posts) = build_initial_ladder(&seed()).unwrap();
    assert_eq!(terms(&rec.ladder.open_longs), vec![(99 * SCALE, 10), (98 * SCALE, 10), (97 * SCALE, 5), (96 * SCALE, 0), (95 * SCALE, 0)]);
    assert_eq!(terms(&rec.ladder.open_shorts), vec![(101 * SCALE, 10), (103 * SCALE, 10), (105 * SCALE, 10), (107 * SCALE, 10), (109 * SCALE, 10)]);
    assert_eq!(posts.len(), 12);
    assert!(!rec.ladder.close_long.is_real());
    assert_eq!(rec.ladder.close_long.get_quantity(), 0);
}

#[test]
fn overflow_recovery_scenario() {
    let mut m = manager();
    let reply = decode_order_reply("{\"code\":-1111,\"msg\":\"Precision is over the maximum\"}");
    if !post_reply_ok(&reply) {
        m.start_overflow();
    }
    assert!(m.is_oveflowing());
    let mut sup = Supervisor::new();
    let mut seen = vec![];
    for _ in 0..6 {
        let a = sup.next_action(m.is_oveflowing());
        if a == Action::ResetState {
            m.reset_all();
        }
        seen.push(a);
    }
    assert_eq!(seen, vec![Action::CancelAll, Action::Pause(2), Action::CancelAll, Action::Pause(15), Action::ResetState, Action::Rebuild]);
    assert_eq!(seen.iter().filter(|a| **a == Action::CancelAll).count(), 2);
    assert_eq!((m.get_open_long_filled(), m.get_open_long_expired(), m.get_close_long_filled(), m.get_close_long_expired()), (0, 0, 0, 0));
    assert_eq!((m.get_open_short_filled(), m.get_open_short_expired(), m.get_close_short_filled(), m.get_close_short_expired()), (0, 0, 0, 0));
    let (a, _) = build_initial_ladder(&seed()).unwrap();
    let (b, _) = build_initial_ladder(&seed()).unwrap();
    assert_eq!(terms(&a.ladder.open_longs), terms(&b.ladder.open_longs));
    assert_eq!(terms(&a.ladder.open_shorts), terms(&b.ladder.open_shorts));
    assert_eq!(sup.next_action(m.is_oveflowing()), Action::Tick);
}

#[test]
fn reply_classification() {
    assert!(post_reply_ok(&decode_order_reply("{\"status\":\"NEW\",\"orderId\":1}")));
    assert!(post_reply_ok(&decode_order_reply("{\"code\":-2022,\"msg\":\"would immediately match\"}")));
    assert!(post_reply_ok(&decode_order_reply("[{\"status\":\"NEW\"},{\"code\":-2022}]")));
    assert!(!post_reply_ok(&decode_order_reply("[{\"status\":\"NEW\"},{\"code\":-4164}]")));
    assert!(!post_reply_ok(&decode_order_reply("[{\"status\":\"NEW\"},{\"msg\":\"?\"}]")));
    assert!(!post_reply_ok(&decode_order_reply("<html>bad gateway</html>")));
    assert!(!post_reply_ok(&decode_order_reply("{\"status\":\"EXPIRED\"}")));
    assert!(cancel_reply_ok(&decode_order_reply("{\"status\":\"CANCELED\"}")));
    assert!(cancel_reply_ok(&decode_order_reply("[{\"status\":\"CANCELED\"},{\"status\":\"CANCELED\"}]")));
    assert!(!cancel_reply_ok(&decode_order_reply("{\"code\":-2011,\"msg\":\"Unknown order sent.\"}")));
    assert!(!cancel_reply_ok(&decode_order_reply("[{\"status\":\"CANCELED\"},{\"code\":-2011}]")));
    assert!(!cancel_reply_ok(&decode_order_reply("not json")));
}

#[test]
fn stream_events_update_state() {
    let mut m = manager();
    let token = String::from("USDT");
    let pair = String::from("BTCUSDT");
    let ev = decode_stream_event("{\"stream\":\"btcusdt@bookTicker\",\"data\":{\"a\":\"101.5\",\"b\":\"101.4\"}}", "btcusdt@bookTicker").unwrap();
    let eff = apply_event(&mut m, &ev, &token, &pair);
    assert!(!eff.rejected);
    assert_eq!((m.get_top_ask(), m.get_top_bid()), (1_015_000, 1_014_000));

    let fill = "{\"stream\":\"key\",\"data\":{\"e\":\"ORDER_TRADE_UPDATE\",\"o\":{\"X\":\"FILLED\",\"ps\":\"LONG\",\"S\":\"BUY\",\"l\":\"0.002\",\"L\":\"100.0\",\"n\":\"0.01\",\"rp\":\"0\"}}}";
    let ev = decode_stream_event(fill, "btcusdt@bookTicker").unwrap();
    let eff = apply_event(&mut m, &ev, &token, &pair);
    assert_eq!(eff.last_open, Some((true, 100 * SCALE)));
    assert_eq!(m.volume, 2_000);
    assert_eq!(m.commission, 100);
    assert_eq!(m.get_open_long_filled(), 1);

    let expired = "{\"stream\":\"key\",\"data\":{\"e\":\"ORDER_TRADE_UPDATE\",\"o\":{\"X\":\"EXPIRED\",\"ps\":\"SHORT\",\"S\":\"BUY\"}}}";
    let ev = decode_stream_event(expired, "btcusdt@bookTicker").unwrap();
    apply_event(&mut m, &ev, &token, &pair);
    assert_eq!(m.get_close_short_expired(), 1);
    let odd = "{\"stream\":\"key\",\"data\":{\"e\":\"ORDER_TRADE_UPDATE\",\"o\":{\"X\":\"EXPIRED\",\"ps\":\"SHORT\",\"S\":\"NONE\"}}}";
    let ev = decode_stream_event(odd, "btcusdt@bookTicker").unwrap();
    apply_event(&mut m, &ev, &token, &pair);
    assert_eq!((m.get_open_short_expired(), m.get_close_short_expired()), (0, 1));
    let open_short = "{\"stream\":\"key\",\"data\":{\"e\":\"ORDER_TRADE_UPDATE\",\"o\":{\"X\":\"EXPIRED\",\"ps\":\"SHORT\",\"S\":\"SELL\"}}}";
    let ev = decode_stream_event(open_short, "btcusdt@bookTicker").unwrap();
    apply_event(&mut m, &ev, &token, &pair);
    assert_eq!(m.get_open_short_expired(), 1);

    let account = "{\"stream\":\"key\",\"data\":{\"e\":\"ACCOUNT_UPDATE\",\"a\":{\"B\":[{\"a\":\"BNB\",\"wb\":\"1\"},{\"a\":\"USDT\",\"wb\":\"250.5\"}],\"P\":[{\"s\":\"BTCUSDT\",\"ps\":\"SHORT\",\"pa\":\"-0.003\",\"ep\":\"102\",\"up\":\"-0.1\"},{\"s\":\"ETHUSDT\",\"ps\":\"LONG\",\"pa\":\"1\",\"ep\":\"3000\",\"up\":\"0\"}]}}}";
    let ev = decode_stream_event(account, "btcusdt@bookTicker").unwrap();
    apply_event(&mut m, &ev, &token, &pair);
    assert_eq!(m.balance, 2_505_000);
    assert_eq!(m.max_close_short(), 30);
    assert_eq!(m.short_entry_price, 1_020_000);
    assert_eq!(m.max_close_long(), 0);

    let other = decode_stream_event("{\"stream\":\"key\",\"data\":{\"e\":\"MARGIN_CALL\"}}", "btcusdt@bookTicker").unwrap();
    assert!(matches!(other, StreamEvent::Unknown));
    assert!(decode_stream_event("{", "x").is_err());
    assert_eq!(decode_stream_event("{\"data\":{}}", "x").unwrap_err(), grid_maker::decode::DecodeError::MissingField);
    assert_eq!(decode_stream_event("{", "x").unwrap_err(), grid_maker::decode::DecodeError::NotJson);
    let bad = "{\"stream\":\"btcusdt@bookTicker\",\"data\":{\"a\":\"1x\",\"b\":\"1\"}}";
    assert_eq!(decode_stream_event(bad, "btcusdt@bookTicker").unwrap_err(), grid_maker::decode::DecodeError::BadNumber);
}

#[test]
fn partial_open_fill_moves_last_open() {
    let mut m = manager();
    let ev = StreamEvent::OrderUpdate {
        status: OrderStatus::PartiallyFilled,
        is_long: false,
        side: OrderSide::Sell,
        last_quantity: 10,
        last_price: 100 * SCALE,
        commission: 0,
        realized_profit: 0,
    };
    let eff = apply_event(&mut m, &ev, &String::from("USDT"), &String::from("BTCUSDT"));
    assert_eq!(eff.last_open, Some((false, 100 * SCALE)));
    assert_eq!(m.get_open_short_filled(), 1);
    let close = StreamEvent::OrderUpdate {
        status: OrderStatus::PartiallyFilled,
        is_long: true,
        side: OrderSide::Sell,
        last_quantity: 10,
        last_price: 100 * SCALE,
        commission: 0,
        realized_profit: 0,
    };
    let eff = apply_event(&mut m, &close, &String::from("USDT"), &String::from("BTCUSDT"));
    assert_eq!(eff.last_open, None);
    assert_eq!(m.get_close_long_filled(), 1);
}

#[test]
fn account_snapshot_applies_then_checks_trading() {
    let mut m = manager();
    let info = AccountInfo {
        fee_tier: 2,
        can_trade: false,
        assets: vec![BalanceEntry { asset: String::from("USDT"), wallet_balance: 1000 * SCALE }],
        positions: vec![PositionEntry {
            symbol: String::from("BTCUSDT"),
            side: String::from("LONG"),
            amount: 20,
            entry_price: 99 * SCALE,
            unrealized_pnl: 0,
        }],
    };
    assert_eq!(apply_account_info(&mut m, &info, &String::from("USDT"), &String::from("BTCUSDT")), Err(AccountError::NotAllowedToTrade));
    assert_eq!(m.vip_level, 2);
    assert_eq!(m.max_close_long(), 20);
    assert_eq!(m.balance, 1000 * SCALE);
}
