use grid_maker::decode::{decode_account_info, decode_code, decode_exchange_info, decode_str_member, decode_u64_member, DecodeError, SymbolInfo};
use grid_maker::gateway::Gateway;
use grid_maker::number::parse_fixed;
use grid_maker::order::Order;
use grid_maker::setup::{check_symbol, get_timestamp, timestamp_from_millis, SetupError};
use grid_maker::text::{decimal_text, fixed_to_text};
use hmac::Mac;

#[test]
fn parses_decimal_strings() {
    assert_eq!(parse_fixed("123.45"), Some(1_234_500));
    assert_eq!(parse_fixed("-0.5"), Some(-5_000));
    assert_eq!(parse_fixed("1.23456789"), None);
    assert_eq!(parse_fixed("1.23450000"), Some(12_345));
    assert_eq!(parse_fixed("0.00001"), None);
    assert_eq!(parse_fixed("42"), Some(420_000));
    assert_eq!(parse_fixed("0.00100000"), Some(10));
    assert_eq!(parse_fixed("99999999999999"), Some(999_999_999_999_990_000));
    assert_eq!(parse_fixed("999999999999999"), None);
    assert_eq!(parse_fixed(""), None);
    assert_eq!(parse_fixed("-"), None);
    assert_eq!(parse_fixed("1."), None);
    assert_eq!(parse_fixed(".5"), None);
    assert_eq!(parse_fixed("1e5"), None);
    assert_eq!(parse_fixed("12a"), None);
}

#[test]
fn writes_fixed_point_text() {
    assert_eq!(fixed_to_text(1_234_500, 2), "123.45");
    assert_eq!(fixed_to_text(5, 4), "0.0005");
    assert_eq!(fixed_to_text(12_345, 2), "1.23");
    assert_eq!(fixed_to_text(12_350, 2), "1.24");
    assert_eq!(fixed_to_text(-12_350, 1), "-1.2");
    assert_eq!(fixed_to_text(250_000, 0), "25");
    assert_eq!(fixed_to_text(15_000, 6), "1.500000");
    assert_eq!(fixed_to_text(15_000, 12), "1.500000000000");
    assert_eq!(decimal_text(4_294_967_294), "4294967294");
}

#[test]
fn order_query_string() {
    let o = Order::with_id(1_005_000, 20, true, true, 77);
    assert_eq!(
        o.to_single_url_string("BTCUSDT", 1, 3),
        "symbol=BTCUSDT&side=BUY&positionSide=LONG&type=LIMIT&price=100.5&timeInForce=GTX&quantity=0.002&newClientOrderId=77"
    );
    let c = Order::with_id(1_010_000, 20, false, true, 78);
    assert_eq!(
        c.to_url_string("BTCUSDT", 2, 3),
        "{\"symbol\":\"BTCUSDT\",\"side\":\"SELL\",\"positionSide\":\"LONG\",\"type\":\"LIMIT\",\"price\":\"101.00\",\"timeInForce\":\"GTX\",\"quantity\":\"0.002\",\"newClientOrderId\":\"78\"}"
    );
    let s = Order::with_id(1_010_000, 20, true, false, 79);
    assert!(s.to_single_url_string("BTCUSDT", 1, 3).contains("side=SELL&positionSide=SHORT"));
}

#[test]
fn random_ids_stay_in_range() {
    let a = Order::new(1, 1, true, true);
    assert!(a.get_id() < u32::MAX);
    assert_eq!((a.get_price(), a.get_quantity()), (1, 1));
}

fn gateway() -> Gateway {
    Gateway {
        base_url: String::from("https://api.test"),
        pair: String::from("BTCUSDT"),
        secret: String::from("s3cret"),
        price_decimal_count: 1,
        quantity_decimal_count: 3,
    }
}

fn signature(secret: &str, payload: &str) -> String {
    let mut mac = hmac::Hmac::<sha2::Sha256>::new_from_slice(secret.as_bytes()).unwrap();
    mac.update(payload.as_bytes());
    mac.finalize().into_bytes().iter().map(|b| format!("{:02x}", b)).collect()
}

#[test]
fn signed_url_carries_hmac() {
    let g = gateway();
    let url = g.signed_url("/fapi/v1/listenKey", "", 1_700_000_000_000);
    let payload = "timestamp=1700000000000";
    assert_eq!(url, format!("https://api.test/fapi/v1/listenKey?{}&signature={}", payload, signature("s3cret", payload)));
    assert_eq!(signature("s3cret", payload).len(), 64);
}

#[test]
fn post_urls_batch_real_orders() {
    let g = gateway();
    let mut orders: Vec<Order> = (0..7).map(|i| Order::with_id(1_000_000 - i * 10_000, 10, true, true, i as u32)).collect();
    orders.push(Order::with_id(900_000, 0, true, true, 99));
    let urls = g.post_urls(&orders, 5);
    assert_eq!(urls.len(), 2);
    assert!(urls[0].starts_with("https://api.test/fapi/v1/batchOrders?batchOrders=%5B%7B%22symbol%22%3A%22BTCUSDT%22"));
    let single = g.post_urls(&orders[..1].to_vec(), 5);
    let payload = "symbol=BTCUSDT&side=BUY&positionSide=LONG&type=LIMIT&price=100.0&timeInForce=GTX&quantity=0.001&newClientOrderId=0&timestamp=5";
    assert_eq!(single, vec![format!("https://api.test/fapi/v1/order?{}&signature={}", payload, signature("s3cret", payload))]);
    assert!(g.post_urls(&vec![Order::with_id(1, 0, true, true, 1)], 5).is_empty());
}

#[test]
fn cancel_urls_encode_id_lists() {
    let g = gateway();
    let orders = vec![Order::with_id(1, 10, true, true, 11), Order::with_id(2, 10, true, true, 12)];
    let urls = g.cancel_urls(&orders, 9);
    let payload = "symbol=BTCUSDT&origClientOrderIdList=%5B%2211%22%2C%2212%22%5D&timestamp=9";
    assert_eq!(urls, vec![format!("https://api.test/fapi/v1/batchOrders?{}&signature={}", payload, signature("s3cret", payload))]);
    let one = g.cancel_urls(&orders[..1].to_vec(), 9);
    assert!(one[0].starts_with("https://api.test/fapi/v1/order?symbol=BTCUSDT&origClientOrderId=11&timestamp=9&signature="));
}

#[test]
fn timestamps_lag_one_second() {
    assert_eq!(timestamp_from_millis(1_700_000_001_000), 1_700_000_000_000);
    assert_eq!(timestamp_from_millis(10), 0);
    assert!(get_timestamp() > 1_600_000_000_000);
}

fn symbol(name: &str, status: &str, types: &[&str], tif: &[&str]) -> SymbolInfo {
    SymbolInfo {
        symbol: String::from(name),
        status: String::from(status),
        margin_asset: String::from("USDT"),
        price_precision: 1,
        quantity_precision: 3,
        tick_size: 1000,
        step_size: 10,
        min_quantity: 10,
        max_quantity: 10_000_000,
        max_num_orders: 200,
        order_types: types.iter().map(|s| String::from(*s)).collect(),
        time_in_force: tif.iter().map(|s| String::from(*s)).collect(),
    }
}

#[test]
fn symbol_checks() {
    let pair = String::from("BTCUSDT");
    let ok = vec![symbol("ETHUSDT", "TRADING", &["LIMIT"], &["GTX"]), symbol("BTCUSDT", "TRADING", &["MARKET", "LIMIT"], &["GTC", "GTX"])];
    assert_eq!(check_symbol(&ok, &pair), Ok(1));
    assert_eq!(check_symbol(&vec![symbol("ETHUSDT", "TRADING", &["LIMIT"], &["GTX"])], &pair), Err(SetupError::UnknownPair));
    assert_eq!(check_symbol(&vec![symbol("BTCUSDT", "BREAK", &["LIMIT"], &["GTX"])], &pair), Err(SetupError::NotTrading));
    assert_eq!(check_symbol(&vec![symbol("BTCUSDT", "TRADING", &["MARKET"], &["GTX"])], &pair), Err(SetupError::NoLimitOrders));
    assert_eq!(check_symbol(&vec![symbol("BTCUSDT", "TRADING", &["LIMIT"], &["GTC"])], &pair), Err(SetupError::NoPostOnly));
}

#[test]
fn exchange_info_decodes_filters() {
    let body = "{\"symbols\":[{\"symbol\":\"ETHUSDT\"},{\"symbol\":\"BTCUSDT\",\"status\":\"TRADING\",\"marginAsset\":\"USDT\",\"pricePrecision\":2,\"quantityPrecision\":3,\"orderTypes\":[\"LIMIT\"],\"timeInForce\":[\"GTX\"],\"filters\":[{\"filterType\":\"PRICE_FILTER\",\"tickSize\":\"0.10\"},{\"filterType\":\"LOT_SIZE\",\"stepSize\":\"0.001\",\"minQty\":\"0.001\",\"maxQty\":\"1000\"},{\"filterType\":\"MAX_NUM_ORDERS\",\"limit\":200}]}]}";
    let symbols = decode_exchange_info(body, "BTCUSDT").unwrap();
    assert_eq!(symbols.len(), 1);
    let s = &symbols[0];
    assert_eq!((s.tick_size, s.step_size, s.min_quantity, s.max_quantity, s.max_num_orders), (1000, 10, 10, 10_000_000, 200));
    assert_eq!(check_symbol(&symbols, &String::from("BTCUSDT")), Ok(0));
    assert!(decode_exchange_info(body, "XRPUSDT").unwrap().is_empty());
}

#[test]
fn settings_replies_decode() {
    assert_eq!(decode_code("{\"code\":200,\"msg\":\"success\"}"), Ok(200));
    assert_eq!(decode_code("{\"msg\":\"?\"}"), Err(DecodeError::MissingField));
    assert_eq!(decode_code("oops"), Err(DecodeError::NotJson));
    assert_eq!(decode_u64_member("{\"leverage\":10}", "leverage"), Ok(10));
    assert_eq!(decode_str_member("{\"listenKey\":\"abc\"}", "listenKey"), Ok(String::from("abc")));
}

#[test]
fn account_info_decodes() {
    let body = "{\"feeTier\":1,\"canTrade\":true,\"assets\":[{\"asset\":\"USDT\",\"walletBalance\":\"12.5\"}],\"positions\":[{\"symbol\":\"BTCUSDT\",\"positionSide\":\"LONG\",\"positionAmt\":\"0.010\",\"entryPrice\":\"100\",\"unrealizedProfit\":\"0\"}]}";
    let info = decode_account_info(body).unwrap();
    assert_eq!((info.fee_tier, info.can_trade, info.assets.len(), info.positions.len()), (1, true, 1, 1));
    assert_eq!(info.assets[0].wallet_balance, 125_000);
    assert_eq!(info.positions[0].amount, 100);
    assert!(!decode_account_info("{\"feeTier\":1,\"assets\":[],\"positions\":[]}").unwrap().can_trade);
    assert_eq!(decode_account_info("{\"assets\":[]}").unwrap_err(), DecodeError::MissingField);
}

#[test]
fn settings_codes_and_commands() {
    assert!(grid_maker::setup::settings_code_ok(200, -4059));
    assert!(grid_maker::setup::settings_code_ok(-4059, -4059));
    assert!(!grid_maker::setup::settings_code_ok(-1022, -4059));
    assert_eq!(grid_maker::setup::parse_command("kill"), grid_maker::setup::Command::Kill);
    assert_eq!(grid_maker::setup::parse_command("close"), grid_maker::setup::Command::CloseOnly);
    assert_eq!(grid_maker::setup::parse_command("close please"), grid_maker::setup::Command::Nothing);
}
