//! Typed decoding of the exchange's JSON bodies and stream messages.
//!
//! Each decoder's contract says what it returns in terms of the values the
//! text holds at given paths (see `jsontext`).
use vstd::prelude::*;
use crate::jsontext::{
    element, json_bool, json_bool_at, json_element, json_i64, json_i64_at, json_len, json_len_at, json_member,
    json_parse, json_parses, json_str, json_str_at, json_u64, json_u64_at, member, JsonNode, JsonPath,
};
use crate::number::{decimal_value, parse_fixed};
use crate::text::text_eq;

verus! {

/// Why a body could not be decoded.
#[derive(Clone, Copy, Debug, PartialEq, Eq, Structural)]
pub enum DecodeError {
    NotJson,
    MissingField,
    BadNumber,
}

pub open spec fn root() -> JsonPath {
    Seq::empty()
}

/// A string member, or `MissingField`.
pub open spec fn str_at(t: Seq<char>, p: JsonPath) -> Result<Seq<char>, DecodeError> {
    match json_str_at(t, p) {
        Some(s) => Ok(s),
        None => Err(DecodeError::MissingField),
    }
}

/// A decimal-string member as a fixed-point value, or why not.
pub open spec fn fixed_at(t: Seq<char>, p: JsonPath) -> Result<int, DecodeError> {
    match json_str_at(t, p) {
        None => Err(DecodeError::MissingField),
        Some(s) => match decimal_value(s) {
            Some(v) => Ok(v),
            None => Err(DecodeError::BadNumber),
        },
    }
}

/// Index `j` is the first of `n` entries with an error, and that error is `e`.
pub open spec fn first_error(n: int, err: spec_fn(int) -> Option<DecodeError>, e: DecodeError) -> bool {
    exists|j: int| 0 <= j < n && no_error(j, err) && #[trigger] err(j) == Some(e)
}

pub open spec fn no_error(n: int, err: spec_fn(int) -> Option<DecodeError>) -> bool {
    forall|i: int| 0 <= i < n ==> (#[trigger] err(i)) is None
}

fn node_at(node: &JsonNode, key: &str) -> (r: JsonNode)
    ensures
        r.text() == node.text(),
        r.path() == member(node.path(), key@),
{
    json_member(node, key)
}

fn str_field(node: &JsonNode, key: &str) -> (r: Result<String, DecodeError>)
    ensures
        r is Ok <==> str_at(node.text(), member(node.path(), key@)) is Ok,
        r matches Ok(s) ==> str_at(node.text(), member(node.path(), key@)) == Ok::<Seq<char>, DecodeError>(s@),
        r matches Err(e) ==> e == DecodeError::MissingField,
{
    match json_str(&json_member(node, key)) {
        Some(s) => Ok(s),
        None => Err(DecodeError::MissingField),
    }
}

/// A member holding a decimal string, as a fixed-point value.
fn fixed_field(node: &JsonNode, key: &str) -> (r: Result<i64, DecodeError>)
    ensures
        r matches Ok(v) ==> fixed_at(node.text(), member(node.path(), key@)) == Ok::<int, DecodeError>(v as int),
        r matches Err(e) ==> fixed_at(node.text(), member(node.path(), key@)) == Err::<int, DecodeError>(e),
{
    match json_str(&json_member(node, key)) {
        None => Err(DecodeError::MissingField),
        Some(s) => match parse_fixed(s.as_str()) {
            Some(x) => Ok(x),
            None => Err(DecodeError::BadNumber),
        },
    }
}

/// One entry of an order reply.
#[derive(Clone, Debug)]
pub enum ReplyItem {
    Status(String),
    Code(i64),
    Neither,
}

/// An order or cancel reply: a single status or code, or one entry per order.
#[derive(Clone, Debug)]
pub enum OrderReply {
    Unparseable,
    Status(String),
    Code(i64),
    Items(Vec<ReplyItem>),
}

/// A `status` string wins over a `code` number; with neither, the entry has none.
pub open spec fn item_of(t: Seq<char>, p: JsonPath, it: ReplyItem) -> bool {
    match json_str_at(t, member(p, "status"@)) {
        Some(s) => it matches ReplyItem::Status(x) && x@ == s,
        None => match json_i64_at(t, member(p, "code"@)) {
            Some(c) => it matches ReplyItem::Code(x) && x == c,
            None => it is Neither,
        },
    }
}

pub open spec fn items_of(t: Seq<char>, v: Seq<ReplyItem>) -> bool {
    &&& v.len() == json_len_at(t, root())
    &&& forall|i: int| 0 <= i < v.len() ==> item_of(t, element(root(), i), #[trigger] v[i])
}

/// The reply a body holds: unparseable text is a failure, a top-level status
/// wins over a code, and otherwise each array entry is read alike.
pub open spec fn order_reply_of(t: Seq<char>, r: OrderReply) -> bool {
    if !json_parses(t) {
        r is Unparseable
    } else {
        match json_str_at(t, member(root(), "status"@)) {
            Some(s) => r matches OrderReply::Status(x) && x@ == s,
            None => match json_i64_at(t, member(root(), "code"@)) {
                Some(c) => r matches OrderReply::Code(x) && x == c,
                None => r matches OrderReply::Items(v) && items_of(t, v@),
            },
        }
    }
}

fn decode_item(v: &JsonNode) -> (r: ReplyItem)
    ensures
        item_of(v.text(), v.path(), r),
{
    match json_str(&json_member(v, "status")) {
        Some(s) => ReplyItem::Status(s),
        None => match json_i64(&json_member(v, "code")) {
            Some(c) => ReplyItem::Code(c),
            None => ReplyItem::Neither,
        },
    }
}

/// Reads a reply body.
pub fn decode_order_reply(text: &str) -> (r: OrderReply)
    ensures
        order_reply_of(text@, r),
{
    let v = match json_parse(text) {
        Some(v) => v,
        None => { return OrderReply::Unparseable; },
    };
    match json_str(&json_member(&v, "status")) {
        Some(s) => { return OrderReply::Status(s); },
        None => {},
    }
    match json_i64(&json_member(&v, "code")) {
        Some(c) => { return OrderReply::Code(c); },
        None => {},
    }
    let n = json_len(&v);
    let mut items: Vec<ReplyItem> = Vec::new();
    let mut i: usize = 0;
    while i < n
        invariant
            v.text() == text@,
            v.path() == root(),
            n == json_len_at(text@, root()),
            i <= n,
            items@.len() == i,
            forall|j: int| 0 <= j < i ==> item_of(text@, element(root(), j), #[trigger] items@[j]),
        decreases n - i,
    {
        items.push(decode_item(&json_element(&v, i)));
        i = i + 1;
    }
    OrderReply::Items(items)
}

/// What an order-update event reports.
#[derive(Clone, Copy, Debug, PartialEq, Eq, Structural)]
pub enum OrderStatus {
    Expired,
    Filled,
    PartiallyFilled,
    Other,
}

pub open spec fn status_of(x: Seq<char>) -> OrderStatus {
    if x == "EXPIRED"@ {
        OrderStatus::Expired
    } else if x == "FILLED"@ {
        OrderStatus::Filled
    } else if x == "PARTIALLY_FILLED"@ {
        OrderStatus::PartiallyFilled
    } else {
        OrderStatus::Other
    }
}

/// The side word of an order update.
#[derive(Clone, Copy, Debug, PartialEq, Eq, Structural)]
pub enum OrderSide {
    Buy,
    Sell,
    Other,
}

pub open spec fn side_of(s: Seq<char>) -> OrderSide {
    if s == "BUY"@ {
        OrderSide::Buy
    } else if s == "SELL"@ {
        OrderSide::Sell
    } else {
        OrderSide::Other
    }
}

/// A position entry of an account snapshot or update.
#[derive(Clone, Debug)]
pub struct PositionEntry {
    pub symbol: String,
    /// `LONG`, `SHORT`, or anything else.
    pub side: String,
    pub amount: i64,
    pub entry_price: i64,
    pub unrealized_pnl: i64,
}

/// A balance entry of an account snapshot or update.
#[derive(Clone, Debug)]
pub struct BalanceEntry {
    pub asset: String,
    pub wallet_balance: i64,
}

/// One message of the combined stream.
#[derive(Clone, Debug)]
pub enum StreamEvent {
    BookTicker { ask: i64, bid: i64 },
    OrderUpdate {
        status: OrderStatus,
        is_long: bool,
        side: OrderSide,
        last_quantity: i64,
        last_price: i64,
        commission: i64,
        realized_profit: i64,
    },
    AccountUpdate { balances: Vec<BalanceEntry>, positions: Vec<PositionEntry> },
    Unknown,
}

/// Member names of a balance entry.
pub struct BalanceKeys {
    pub asset: &'static str,
    pub balance: &'static str,
}

/// Member names of a position entry.
pub struct PositionKeys {
    pub symbol: &'static str,
    pub side: &'static str,
    pub amount: &'static str,
    pub entry: &'static str,
    pub pnl: &'static str,
}

/// The first error of balance entry `q`, if any.
pub open spec fn balance_error(t: Seq<char>, q: JsonPath, k: BalanceKeys) -> Option<DecodeError> {
    match str_at(t, member(q, k.asset@)) {
        Err(e) => Some(e),
        Ok(_) => match fixed_at(t, member(q, k.balance@)) {
            Err(e) => Some(e),
            Ok(_) => None,
        },
    }
}

pub open spec fn balance_matches(t: Seq<char>, q: JsonPath, k: BalanceKeys, b: BalanceEntry) -> bool {
    &&& str_at(t, member(q, k.asset@)) == Ok::<Seq<char>, DecodeError>(b.asset@)
    &&& fixed_at(t, member(q, k.balance@)) == Ok::<int, DecodeError>(b.wallet_balance as int)
}

/// The list at `p` decoded as balances: the first entry error, else every entry.
pub open spec fn balances_of(t: Seq<char>, p: JsonPath, k: BalanceKeys, r: Result<Vec<BalanceEntry>, DecodeError>) -> bool {
    let n = json_len_at(t, p) as int;
    let err = |i: int| balance_error(t, element(p, i), k);
    match r {
        Err(e) => first_error(n, err, e),
        Ok(v) => no_error(n, err) && v@.len() == n
            && forall|i: int| 0 <= i < n ==> balance_matches(t, element(p, i), k, #[trigger] v@[i]),
    }
}

/// The first error of position entry `q`, if any.
pub open spec fn position_error(t: Seq<char>, q: JsonPath, k: PositionKeys) -> Option<DecodeError> {
    if str_at(t, member(q, k.symbol@)) is Err || str_at(t, member(q, k.side@)) is Err {
        Some(DecodeError::MissingField)
    } else {
        match fixed_at(t, member(q, k.amount@)) {
            Err(e) => Some(e),
            Ok(_) => match fixed_at(t, member(q, k.entry@)) {
                Err(e) => Some(e),
                Ok(_) => match fixed_at(t, member(q, k.pnl@)) {
                    Err(e) => Some(e),
                    Ok(_) => None,
                },
            },
        }
    }
}

pub open spec fn position_matches(t: Seq<char>, q: JsonPath, k: PositionKeys, p: PositionEntry) -> bool {
    &&& str_at(t, member(q, k.symbol@)) == Ok::<Seq<char>, DecodeError>(p.symbol@)
    &&& str_at(t, member(q, k.side@)) == Ok::<Seq<char>, DecodeError>(p.side@)
    &&& fixed_at(t, member(q, k.amount@)) == Ok::<int, DecodeError>(p.amount as int)
    &&& fixed_at(t, member(q, k.entry@)) == Ok::<int, DecodeError>(p.entry_price as int)
    &&& fixed_at(t, member(q, k.pnl@)) == Ok::<int, DecodeError>(p.unrealized_pnl as int)
}

/// The list at `p` decoded as positions: the first entry error, else every entry.
pub open spec fn positions_of(t: Seq<char>, p: JsonPath, k: PositionKeys, r: Result<Vec<PositionEntry>, DecodeError>) -> bool {
    let n = json_len_at(t, p) as int;
    let err = |i: int| position_error(t, element(p, i), k);
    match r {
        Err(e) => first_error(n, err, e),
        Ok(v) => no_error(n, err) && v@.len() == n
            && forall|i: int| 0 <= i < n ==> position_matches(t, element(p, i), k, #[trigger] v@[i]),
    }
}

fn decode_balances(list: &JsonNode, k: &BalanceKeys) -> (r: Result<Vec<BalanceEntry>, DecodeError>)
    ensures
        balances_of(list.text(), list.path(), *k, r),
{
    let ghost t = list.text();
    let ghost p = list.path();
    let ghost err = |i: int| balance_error(t, element(p, i), *k);
    let n = json_len(list);
    let mut out: Vec<BalanceEntry> = Vec::new();
    let mut i: usize = 0;
    while i < n
        invariant
            t == list.text(),
            p == list.path(),
            err == (|i: int| balance_error(t, element(p, i), *k)),
            n == json_len_at(t, p),
            i <= n,
            out@.len() == i,
            forall|j: int| 0 <= j < i ==> (#[trigger] err(j)) is None,
            forall|j: int| 0 <= j < i ==> balance_matches(t, element(p, j), *k, #[trigger] out@[j]),
        decreases n - i,
    {
        let b = json_element(list, i);
        let asset = match str_field(&b, k.asset) {
            Ok(s) => s,
            Err(e) => {
                assert(err(i as int) == Some(e));
                return Err(e);
            },
        };
        let wallet_balance = match fixed_field(&b, k.balance) {
            Ok(x) => x,
            Err(e) => {
                assert(err(i as int) == Some(e));
                return Err(e);
            },
        };
        out.push(BalanceEntry { asset, wallet_balance });
        assert(err(i as int) is None);
        i = i + 1;
    }
    Ok(out)
}

fn decode_positions(list: &JsonNode, k: &PositionKeys) -> (r: Result<Vec<PositionEntry>, DecodeError>)
    ensures
        positions_of(list.text(), list.path(), *k, r),
{
    let ghost t = list.text();
    let ghost p = list.path();
    let ghost err = |i: int| position_error(t, element(p, i), *k);
    let n = json_len(list);
    let mut out: Vec<PositionEntry> = Vec::new();
    let mut i: usize = 0;
    while i < n
        invariant
            t == list.text(),
            p == list.path(),
            err == (|i: int| position_error(t, element(p, i), *k)),
            n == json_len_at(t, p),
            i <= n,
            out@.len() == i,
            forall|j: int| 0 <= j < i ==> (#[trigger] err(j)) is None,
            forall|j: int| 0 <= j < i ==> position_matches(t, element(p, j), *k, #[trigger] out@[j]),
        decreases n - i,
    {
        let e_node = json_element(list, i);
        let symbol = match str_field(&e_node, k.symbol) {
            Ok(s) => s,
            Err(e) => {
                assert(err(i as int) == Some(e));
                return Err(e);
            },
        };
        let side = match str_field(&e_node, k.side) {
            Ok(s) => s,
            Err(e) => {
                assert(err(i as int) == Some(e));
                return Err(e);
            },
        };
        let amount = match fixed_field(&e_node, k.amount) {
            Ok(x) => x,
            Err(e) => {
                assert(err(i as int) == Some(e));
                return Err(e);
            },
        };
        let entry_price = match fixed_field(&e_node, k.entry) {
            Ok(x) => x,
            Err(e) => {
                assert(err(i as int) == Some(e));
                return Err(e);
            },
        };
        let unrealized_pnl = match fixed_field(&e_node, k.pnl) {
            Ok(x) => x,
            Err(e) => {
                assert(err(i as int) == Some(e));
                return Err(e);
            },
        };
        out.push(PositionEntry { symbol, side, amount, entry_price, unrealized_pnl });
        assert(err(i as int) is None);
        i = i + 1;
    }
    Ok(out)
}


pub open spec fn stream_balance_keys() -> BalanceKeys {
    BalanceKeys { asset: "a", balance: "wb" }
}

pub open spec fn stream_position_keys() -> PositionKeys {
    PositionKeys { symbol: "s", side: "ps", amount: "pa", entry: "ep", pnl: "up" }
}

pub open spec fn account_balance_keys() -> BalanceKeys {
    BalanceKeys { asset: "asset", balance: "walletBalance" }
}

pub open spec fn account_position_keys() -> PositionKeys {
    PositionKeys { symbol: "symbol", side: "positionSide", amount: "positionAmt", entry: "entryPrice", pnl: "unrealizedProfit" }
}

/// Balances at `bp` then positions at `pp`: the first error of the two
/// lists, else both lists.
pub open spec fn two_lists_of(
    t: Seq<char>, bp: JsonPath, bk: BalanceKeys, pp: JsonPath, pk: PositionKeys,
    e: Option<DecodeError>, balances: Seq<BalanceEntry>, positions: Seq<PositionEntry>,
) -> bool {
    let berr = |i: int| balance_error(t, element(bp, i), bk);
    let perr = |i: int| position_error(t, element(pp, i), pk);
    let bn = json_len_at(t, bp) as int;
    let pn = json_len_at(t, pp) as int;
    match e {
        Some(e) => first_error(bn, berr, e) || (no_error(bn, berr) && first_error(pn, perr, e)),
        None => no_error(bn, berr) && no_error(pn, perr) && balances.len() == bn && positions.len() == pn
            && (forall|i: int| 0 <= i < bn ==> balance_matches(t, element(bp, i), bk, #[trigger] balances[i]))
            && (forall|i: int| 0 <= i < pn ==> position_matches(t, element(pp, i), pk, #[trigger] positions[i])),
    }
}

/// The fill figures of an order update at `o`, read in order.
pub open spec fn fill_of(t: Seq<char>, o: JsonPath, status: OrderStatus, is_long: bool, side: OrderSide, r: Result<StreamEvent, DecodeError>) -> bool {
    match fixed_at(t, member(o, "l"@)) {
        Err(e) => r == Err::<StreamEvent, DecodeError>(e),
        Ok(l) => match fixed_at(t, member(o, "L"@)) {
            Err(e) => r == Err::<StreamEvent, DecodeError>(e),
            Ok(lp) => match fixed_at(t, member(o, "n"@)) {
                Err(e) => r == Err::<StreamEvent, DecodeError>(e),
                Ok(n) => match fixed_at(t, member(o, "rp"@)) {
                    Err(e) => r == Err::<StreamEvent, DecodeError>(e),
                    Ok(rp) => r == Ok::<StreamEvent, DecodeError>(StreamEvent::OrderUpdate {
                        status, is_long, side,
                        last_quantity: l as i64, last_price: lp as i64, commission: n as i64, realized_profit: rp as i64,
                    }),
                },
            },
        },
    }
}

/// An order update at `o`: status word `X`, position side `ps` (long when
/// `LONG`), order side `S` (`BUY`, `SELL` or another word), and for fills
/// the figures.
pub open spec fn order_update_of(t: Seq<char>, o: JsonPath, r: Result<StreamEvent, DecodeError>) -> bool {
    match (str_at(t, member(o, "X"@)), str_at(t, member(o, "ps"@)), str_at(t, member(o, "S"@))) {
        (Ok(x), Ok(ps), Ok(word)) => {
            let status = status_of(x);
            let is_long = ps == "LONG"@;
            let side = side_of(word);
            if status == OrderStatus::Filled || status == OrderStatus::PartiallyFilled {
                fill_of(t, o, status, is_long, side, r)
            } else {
                r == Ok::<StreamEvent, DecodeError>(StreamEvent::OrderUpdate {
                    status, is_long, side, last_quantity: 0, last_price: 0, commission: 0, realized_profit: 0,
                })
            }
        },
        _ => r == Err::<StreamEvent, DecodeError>(DecodeError::MissingField),
    }
}

pub open spec fn account_update_of(t: Seq<char>, a: JsonPath, r: Result<StreamEvent, DecodeError>) -> bool {
    let bp = member(a, "B"@);
    let pp = member(a, "P"@);
    match r {
        Ok(StreamEvent::AccountUpdate { balances, positions }) =>
            two_lists_of(t, bp, stream_balance_keys(), pp, stream_position_keys(), None, balances@, positions@),
        Ok(_) => false,
        Err(e) => two_lists_of(t, bp, stream_balance_keys(), pp, stream_position_keys(), Some(e), Seq::empty(), Seq::empty()),
    }
}

/// One stream message. The `stream` name picks best prices (`a`, `b`) when
/// it is `book_ticker`; otherwise the event type `e` picks an order update,
/// an account update, or an event that is ignored.
pub open spec fn stream_event_of(t: Seq<char>, book_ticker: Seq<char>, r: Result<StreamEvent, DecodeError>) -> bool {
    let data = member(root(), "data"@);
    if !json_parses(t) {
        r == Err::<StreamEvent, DecodeError>(DecodeError::NotJson)
    } else {
        match str_at(t, member(root(), "stream"@)) {
            Err(e) => r == Err::<StreamEvent, DecodeError>(e),
            Ok(stream) => if stream == book_ticker {
                match fixed_at(t, member(data, "a"@)) {
                    Err(e) => r == Err::<StreamEvent, DecodeError>(e),
                    Ok(a) => match fixed_at(t, member(data, "b"@)) {
                        Err(e) => r == Err::<StreamEvent, DecodeError>(e),
                        Ok(b) => r == Ok::<StreamEvent, DecodeError>(StreamEvent::BookTicker { ask: a as i64, bid: b as i64 }),
                    },
                }
            } else {
                match str_at(t, member(data, "e"@)) {
                    Err(e) => r == Err::<StreamEvent, DecodeError>(e),
                    Ok(kind) => if kind == "ORDER_TRADE_UPDATE"@ {
                        order_update_of(t, member(data, "o"@), r)
                    } else if kind == "ACCOUNT_UPDATE"@ {
                        account_update_of(t, member(data, "a"@), r)
                    } else {
                        r == Ok::<StreamEvent, DecodeError>(StreamEvent::Unknown)
                    },
                }
            },
        }
    }
}

fn decode_order_update(o: &JsonNode) -> (r: Result<StreamEvent, DecodeError>)
    ensures
        order_update_of(o.text(), o.path(), r),
{
    let x = str_field(o, "X");
    let ps = str_field(o, "ps");
    let word = str_field(o, "S");
    let (x, ps, word) = match (x, ps, word) {
        (Ok(x), Ok(ps), Ok(side)) => (x, ps, side),
        _ => { return Err(DecodeError::MissingField); },
    };
    let status = if text_eq(&x, "EXPIRED") {
        OrderStatus::Expired
    } else if text_eq(&x, "FILLED") {
        OrderStatus::Filled
    } else if text_eq(&x, "PARTIALLY_FILLED") {
        OrderStatus::PartiallyFilled
    } else {
        OrderStatus::Other
    };
    let is_long = text_eq(&ps, "LONG");
    let side = if text_eq(&word, "BUY") {
        OrderSide::Buy
    } else if text_eq(&word, "SELL") {
        OrderSide::Sell
    } else {
        OrderSide::Other
    };
    if status == OrderStatus::Filled || status == OrderStatus::PartiallyFilled {
        let last_quantity = match fixed_field(o, "l") { Ok(v) => v, Err(e) => { return Err(e); } };
        let last_price = match fixed_field(o, "L") { Ok(v) => v, Err(e) => { return Err(e); } };
        let commission = match fixed_field(o, "n") { Ok(v) => v, Err(e) => { return Err(e); } };
        let realized_profit = match fixed_field(o, "rp") { Ok(v) => v, Err(e) => { return Err(e); } };
        Ok(StreamEvent::OrderUpdate { status, is_long, side, last_quantity, last_price, commission, realized_profit })
    } else {
        Ok(StreamEvent::OrderUpdate { status, is_long, side, last_quantity: 0, last_price: 0, commission: 0, realized_profit: 0 })
    }
}

/// Balances, then positions.
fn decode_two_lists(bl: &JsonNode, bk: &BalanceKeys, pl: &JsonNode, pk: &PositionKeys)
    -> (r: Result<(Vec<BalanceEntry>, Vec<PositionEntry>), DecodeError>)
    requires
        bl.text() == pl.text(),
    ensures
        r matches Ok(v) ==> two_lists_of(bl.text(), bl.path(), *bk, pl.path(), *pk, None, v.0@, v.1@),
        r matches Err(e) ==> two_lists_of(bl.text(), bl.path(), *bk, pl.path(), *pk, Some(e), Seq::empty(), Seq::empty()),
{
    let balances = match decode_balances(bl, bk) {
        Ok(b) => b,
        Err(e) => { return Err(e); },
    };
    let positions = match decode_positions(pl, pk) {
        Ok(p) => p,
        Err(e) => { return Err(e); },
    };
    Ok((balances, positions))
}

/// Reads one stream message.
pub fn decode_stream_event(text: &str, book_ticker: &str) -> (r: Result<StreamEvent, DecodeError>)
    ensures
        stream_event_of(text@, book_ticker@, r),
{
    let v = match json_parse(text) {
        Some(v) => v,
        None => { return Err(DecodeError::NotJson); },
    };
    let stream = match str_field(&v, "stream") {
        Ok(s) => s,
        Err(e) => { return Err(e); },
    };
    let data = node_at(&v, "data");
    if text_eq(&stream, book_ticker) {
        let ask = match fixed_field(&data, "a") { Ok(x) => x, Err(e) => { return Err(e); } };
        let bid = match fixed_field(&data, "b") { Ok(x) => x, Err(e) => { return Err(e); } };
        return Ok(StreamEvent::BookTicker { ask, bid });
    }
    let kind = match str_field(&data, "e") {
        Ok(s) => s,
        Err(e) => { return Err(e); },
    };
    if text_eq(&kind, "ORDER_TRADE_UPDATE") {
        decode_order_update(&node_at(&data, "o"))
    } else if text_eq(&kind, "ACCOUNT_UPDATE") {
        let a = node_at(&data, "a");
        let bk = BalanceKeys { asset: "a", balance: "wb" };
        let pk = PositionKeys { symbol: "s", side: "ps", amount: "pa", entry: "ep", pnl: "up" };
        match decode_two_lists(&node_at(&a, "B"), &bk, &node_at(&a, "P"), &pk) {
            Ok((balances, positions)) => Ok(StreamEvent::AccountUpdate { balances, positions }),
            Err(e) => Err(e),
        }
    } else {
        Ok(StreamEvent::Unknown)
    }
}

/// The account snapshot the control loop needs.
#[derive(Clone, Debug)]
pub struct AccountInfo {
    pub fee_tier: u64,
    pub can_trade: bool,
    pub assets: Vec<BalanceEntry>,
    pub positions: Vec<PositionEntry>,
}

/// The account snapshot a body holds; an absent `canTrade` counts as not allowed.
pub open spec fn account_info_of(t: Seq<char>, r: Result<AccountInfo, DecodeError>) -> bool {
    let ap = member(root(), "assets"@);
    let pp = member(root(), "positions"@);
    if !json_parses(t) {
        r == Err::<AccountInfo, DecodeError>(DecodeError::NotJson)
    } else {
        match json_u64_at(t, member(root(), "feeTier"@)) {
            None => r == Err::<AccountInfo, DecodeError>(DecodeError::MissingField),
            Some(fee) => match r {
                Ok(info) => {
                    &&& info.fee_tier == fee
                    &&& info.can_trade == (json_bool_at(t, member(root(), "canTrade"@)) == Some(true))
                    &&& two_lists_of(t, ap, account_balance_keys(), pp, account_position_keys(), None, info.assets@, info.positions@)
                },
                Err(e) => two_lists_of(t, ap, account_balance_keys(), pp, account_position_keys(), Some(e), Seq::empty(), Seq::empty()),
            },
        }
    }
}

/// Reads the account snapshot.
pub fn decode_account_info(text: &str) -> (r: Result<AccountInfo, DecodeError>)
    ensures
        account_info_of(text@, r),
{
    let v = match json_parse(text) {
        Some(v) => v,
        None => { return Err(DecodeError::NotJson); },
    };
    let fee_tier = match json_u64(&json_member(&v, "feeTier")) {
        Some(t) => t,
        None => { return Err(DecodeError::MissingField); },
    };
    let can_trade = match json_bool(&json_member(&v, "canTrade")) {
        Some(b) => b,
        None => false,
    };
    let bk = BalanceKeys { asset: "asset", balance: "walletBalance" };
    let pk = PositionKeys { symbol: "symbol", side: "positionSide", amount: "positionAmt", entry: "entryPrice", pnl: "unrealizedProfit" };
    match decode_two_lists(&node_at(&v, "assets"), &bk, &node_at(&v, "positions"), &pk) {
        Ok((assets, positions)) => Ok(AccountInfo { fee_tier, can_trade, assets, positions }),
        Err(e) => Err(e),
    }
}

/// Reads the `code` of a settings reply (leverage, position mode, margin mode).
pub fn decode_code(text: &str) -> (r: Result<i64, DecodeError>)
    ensures
        !json_parses(text@) ==> r == Err::<i64, DecodeError>(DecodeError::NotJson),
        json_parses(text@) ==> r == match json_i64_at(text@, member(root(), "code"@)) {
            Some(c) => Ok::<i64, DecodeError>(c),
            None => Err(DecodeError::MissingField),
        },
{
    let v = match json_parse(text) {
        Some(v) => v,
        None => { return Err(DecodeError::NotJson); },
    };
    match json_i64(&json_member(&v, "code")) {
        Some(c) => Ok(c),
        None => Err(DecodeError::MissingField),
    }
}

/// Reads an unsigned member of a reply, such as the `leverage` that was set.
pub fn decode_u64_member(text: &str, key: &str) -> (r: Result<u64, DecodeError>)
    ensures
        !json_parses(text@) ==> r == Err::<u64, DecodeError>(DecodeError::NotJson),
        json_parses(text@) ==> r == match json_u64_at(text@, member(root(), key@)) {
            Some(c) => Ok::<u64, DecodeError>(c),
            None => Err(DecodeError::MissingField),
        },
{
    let v = match json_parse(text) {
        Some(v) => v,
        None => { return Err(DecodeError::NotJson); },
    };
    match json_u64(&json_member(&v, key)) {
        Some(c) => Ok(c),
        None => Err(DecodeError::MissingField),
    }
}

/// Reads a string member of a reply, such as the stream `listenKey`.
pub fn decode_str_member(text: &str, key: &str) -> (r: Result<String, DecodeError>)
    ensures
        !json_parses(text@) ==> r == Err::<String, DecodeError>(DecodeError::NotJson),
        json_parses(text@) ==> (r is Ok <==> json_str_at(text@, member(root(), key@)) is Some),
        json_parses(text@) ==> (r matches Ok(s) ==> json_str_at(text@, member(root(), key@)) == Some(s@)),
        r matches Err(e) ==> (e == DecodeError::NotJson || e == DecodeError::MissingField),
{
    let v = match json_parse(text) {
        Some(v) => v,
        None => { return Err(DecodeError::NotJson); },
    };
    str_field(&v, key)
}


/// Trading rules of one symbol, as the exchange lists them.
#[derive(Clone, Debug)]
pub struct SymbolInfo {
    pub symbol: String,
    pub status: String,
    pub margin_asset: String,
    pub price_precision: i64,
    pub quantity_precision: i64,
    pub tick_size: i64,
    pub step_size: i64,
    pub min_quantity: i64,
    pub max_quantity: i64,
    pub max_num_orders: u64,
    pub order_types: Vec<String>,
    pub time_in_force: Vec<String>,
}

/// The array at `p` read as strings: the first non-string entry is an error.
pub open spec fn strings_of(t: Seq<char>, p: JsonPath, r: Result<Seq<String>, DecodeError>) -> bool {
    let n = json_len_at(t, p) as int;
    let err = |i: int| if json_str_at(t, element(p, i)) is Some { None } else { Some(DecodeError::MissingField) };
    match r {
        Err(e) => first_error(n, err, e),
        Ok(v) => no_error(n, err) && v.len() == n
            && forall|i: int| 0 <= i < n ==> json_str_at(t, element(p, i)) == Some((#[trigger] v[i])@),
    }
}

fn decode_strings(list: &JsonNode) -> (r: Result<Vec<String>, DecodeError>)
    ensures
        r matches Ok(v) ==> strings_of(list.text(), list.path(), Ok(v@)),
        r matches Err(e) ==> strings_of(list.text(), list.path(), Err(e)),
{
    let ghost t = list.text();
    let ghost p = list.path();
    let ghost err = |i: int| if json_str_at(t, element(p, i)) is Some { None } else { Some(DecodeError::MissingField) };
    let n = json_len(list);
    let mut out: Vec<String> = Vec::new();
    let mut i: usize = 0;
    while i < n
        invariant
            t == list.text(),
            p == list.path(),
            err == (|i: int| if json_str_at(t, element(p, i)) is Some { None } else { Some(DecodeError::MissingField) }),
            n == json_len_at(t, p),
            i <= n,
            out@.len() == i,
            forall|j: int| 0 <= j < i ==> (#[trigger] err(j)) is None,
            forall|j: int| 0 <= j < i ==> json_str_at(t, element(p, j)) == Some((#[trigger] out@[j])@),
        decreases n - i,
    {
        match json_str(&json_element(list, i)) {
            Some(s) => out.push(s),
            None => {
                assert(err(i as int) == Some(DecodeError::MissingField));
                return Err(DecodeError::MissingField);
            },
        }
        i = i + 1;
    }
    Ok(out)
}

/// Tick size, step size, minimum and maximum quantity, open-order limit.
pub type FilterState = (int, int, int, int, int);

/// One filter entry at `q` applied to the rules read so far; filters of
/// other types change nothing.
pub open spec fn filter_step(t: Seq<char>, q: JsonPath, st: FilterState) -> Result<FilterState, DecodeError> {
    match str_at(t, member(q, "filterType"@)) {
        Err(e) => Err(e),
        Ok(kind) => if kind == "PRICE_FILTER"@ {
            match fixed_at(t, member(q, "tickSize"@)) {
                Err(e) => Err(e),
                Ok(x) => Ok((x, st.1, st.2, st.3, st.4)),
            }
        } else if kind == "LOT_SIZE"@ {
            match fixed_at(t, member(q, "stepSize"@)) {
                Err(e) => Err(e),
                Ok(a) => match fixed_at(t, member(q, "minQty"@)) {
                    Err(e) => Err(e),
                    Ok(b) => match fixed_at(t, member(q, "maxQty"@)) {
                        Err(e) => Err(e),
                        Ok(c) => Ok((st.0, a, b, c, st.4)),
                    },
                },
            }
        } else if kind == "MAX_NUM_ORDERS"@ {
            match json_u64_at(t, member(q, "limit"@)) {
                None => Err(DecodeError::MissingField),
                Some(l) => Ok((st.0, st.1, st.2, st.3, l as int)),
            }
        } else {
            Ok(st)
        },
    }
}

/// The first `j` filter entries of the array at `fp`, in order.
pub open spec fn filters_fold(t: Seq<char>, fp: JsonPath, j: nat) -> Result<FilterState, DecodeError>
    decreases j,
{
    if j == 0 {
        Ok((0, 0, 0, 0, 0))
    } else {
        match filters_fold(t, fp, (j - 1) as nat) {
            Err(e) => Err(e),
            Ok(st) => filter_step(t, element(fp, j - 1), st),
        }
    }
}

/// The symbol entry at `q`, its members read in order.
pub open spec fn symbol_of(t: Seq<char>, q: JsonPath, r: Result<SymbolInfo, DecodeError>) -> bool {
    let strs_ok = str_at(t, member(q, "symbol"@)) is Ok && str_at(t, member(q, "status"@)) is Ok
        && str_at(t, member(q, "marginAsset"@)) is Ok;
    let prec_ok = json_i64_at(t, member(q, "pricePrecision"@)) is Some && json_i64_at(t, member(q, "quantityPrecision"@)) is Some;
    let ot = member(q, "orderTypes"@);
    let tif = member(q, "timeInForce"@);
    let fp = member(q, "filters"@);
    let fn_ = json_len_at(t, fp);
    match r {
        Ok(info) => {
            &&& strs_ok && prec_ok
            &&& str_at(t, member(q, "symbol"@)) == Ok::<Seq<char>, DecodeError>(info.symbol@)
            &&& str_at(t, member(q, "status"@)) == Ok::<Seq<char>, DecodeError>(info.status@)
            &&& str_at(t, member(q, "marginAsset"@)) == Ok::<Seq<char>, DecodeError>(info.margin_asset@)
            &&& json_i64_at(t, member(q, "pricePrecision"@)) == Some(info.price_precision)
            &&& json_i64_at(t, member(q, "quantityPrecision"@)) == Some(info.quantity_precision)
            &&& strings_of(t, ot, Ok(info.order_types@))
            &&& strings_of(t, tif, Ok(info.time_in_force@))
            &&& filters_fold(t, fp, fn_) == Ok::<FilterState, DecodeError>((info.tick_size as int, info.step_size as int,
                    info.min_quantity as int, info.max_quantity as int, info.max_num_orders as int))
        },
        Err(e) => {
            ||| !(strs_ok && prec_ok) && e == DecodeError::MissingField
            ||| strs_ok && prec_ok && strings_of(t, ot, Err(e))
            ||| strs_ok && prec_ok && (exists|v: Seq<String>| strings_of(t, ot, Ok(v))) && strings_of(t, tif, Err(e))
            ||| strs_ok && prec_ok && (exists|v: Seq<String>| strings_of(t, ot, Ok(v)))
                && (exists|v: Seq<String>| strings_of(t, tif, Ok(v))) && filters_fold(t, fp, fn_) == Err::<FilterState, DecodeError>(e)
        },
    }
}

pub open spec fn state_of(st: (i64, i64, i64, i64, u64)) -> FilterState {
    (st.0 as int, st.1 as int, st.2 as int, st.3 as int, st.4 as int)
}

fn apply_filter(f: &JsonNode, st: (i64, i64, i64, i64, u64)) -> (r: Result<(i64, i64, i64, i64, u64), DecodeError>)
    ensures
        r matches Ok(n) ==> filter_step(f.text(), f.path(), state_of(st)) == Ok::<FilterState, DecodeError>(state_of(n)),
        r matches Err(e) ==> filter_step(f.text(), f.path(), state_of(st)) == Err::<FilterState, DecodeError>(e),
{
    let kind = match str_field(f, "filterType") {
        Ok(k) => k,
        Err(e) => { return Err(e); },
    };
    if text_eq(&kind, "PRICE_FILTER") {
        let x = match fixed_field(f, "tickSize") { Ok(x) => x, Err(e) => { return Err(e); } };
        Ok((x, st.1, st.2, st.3, st.4))
    } else if text_eq(&kind, "LOT_SIZE") {
        let a = match fixed_field(f, "stepSize") { Ok(x) => x, Err(e) => { return Err(e); } };
        let b = match fixed_field(f, "minQty") { Ok(x) => x, Err(e) => { return Err(e); } };
        let c = match fixed_field(f, "maxQty") { Ok(x) => x, Err(e) => { return Err(e); } };
        Ok((st.0, a, b, c, st.4))
    } else if text_eq(&kind, "MAX_NUM_ORDERS") {
        match json_u64(&json_member(f, "limit")) {
            Some(l) => Ok((st.0, st.1, st.2, st.3, l)),
            None => Err(DecodeError::MissingField),
        }
    } else {
        Ok(st)
    }
}

proof fn lemma_fold_error_stays(t: Seq<char>, fp: JsonPath, j: nat, k: nat, e: DecodeError)
    requires
        j <= k,
        filters_fold(t, fp, j) == Err::<FilterState, DecodeError>(e),
    ensures
        filters_fold(t, fp, k) == Err::<FilterState, DecodeError>(e),
    decreases k - j,
{
    if j < k {
        lemma_fold_error_stays(t, fp, j, (k - 1) as nat, e);
    }
}

fn decode_symbol(s: &JsonNode) -> (r: Result<SymbolInfo, DecodeError>)
    ensures
        symbol_of(s.text(), s.path(), r),
{
    let symbol = str_field(s, "symbol");
    let status = str_field(s, "status");
    let margin_asset = str_field(s, "marginAsset");
    let pp = json_i64(&json_member(s, "pricePrecision"));
    let qp = json_i64(&json_member(s, "quantityPrecision"));
    let (symbol, status, margin_asset, price_precision, quantity_precision) = match (symbol, status, margin_asset, pp, qp) {
        (Ok(a), Ok(b), Ok(c), Some(d), Some(e)) => (a, b, c, d, e),
        _ => { return Err(DecodeError::MissingField); },
    };
    let order_types = match decode_strings(&node_at(s, "orderTypes")) {
        Ok(v) => v,
        Err(e) => { return Err(e); },
    };
    let time_in_force = match decode_strings(&node_at(s, "timeInForce")) {
        Ok(v) => v,
        Err(e) => { return Err(e); },
    };
    let filters = node_at(s, "filters");
    let ghost t = s.text();
    let ghost fp = filters.path();
    let n = json_len(&filters);
    let mut st: (i64, i64, i64, i64, u64) = (0, 0, 0, 0, 0);
    let mut j: usize = 0;
    proof {
        assert(strings_of(t, member(s.path(), "orderTypes"@), Ok(order_types@)));
        assert(strings_of(t, member(s.path(), "timeInForce"@), Ok(time_in_force@)));
    }
    let ghost q = s.path();
    proof {
        assert(exists|v: Seq<String>| strings_of(t, member(q, "orderTypes"@), Ok(v)));
        assert(exists|v: Seq<String>| strings_of(t, member(q, "timeInForce"@), Ok(v)));
    }
    while j < n
        invariant
            t == filters.text(),
            t == s.text(),
            q == s.path(),
            fp == filters.path(),
            fp == member(q, "filters"@),
            n == json_len_at(t, fp),
            j <= n,
            filters_fold(t, fp, j as nat) == Ok::<FilterState, DecodeError>(state_of(st)),
            str_at(t, member(q, "symbol"@)) == Ok::<Seq<char>, DecodeError>(symbol@),
            str_at(t, member(q, "status"@)) == Ok::<Seq<char>, DecodeError>(status@),
            str_at(t, member(q, "marginAsset"@)) == Ok::<Seq<char>, DecodeError>(margin_asset@),
            json_i64_at(t, member(q, "pricePrecision"@)) == Some(price_precision),
            json_i64_at(t, member(q, "quantityPrecision"@)) == Some(quantity_precision),
            strings_of(t, member(q, "orderTypes"@), Ok(order_types@)),
            strings_of(t, member(q, "timeInForce"@), Ok(time_in_force@)),
            exists|v: Seq<String>| strings_of(t, member(q, "orderTypes"@), Ok(v)),
            exists|v: Seq<String>| strings_of(t, member(q, "timeInForce"@), Ok(v)),
        decreases n - j,
    {
        let f = json_element(&filters, j);
        match apply_filter(&f, st) {
            Ok(next) => { st = next; },
            Err(e) => {
                proof {
                    lemma_fold_error_stays(t, fp, (j + 1) as nat, n as nat, e);
                }
                return Err(e);
            },
        }
        j = j + 1;
    }
    let (tick_size, step_size, min_quantity, max_quantity, max_num_orders) = st;
    Ok(SymbolInfo {
        symbol, status, margin_asset, price_precision, quantity_precision,
        tick_size, step_size, min_quantity, max_quantity, max_num_orders,
        order_types, time_in_force,
    })
}

/// Name of symbol entry `i`.
pub open spec fn symbol_name(t: Seq<char>, i: int) -> Result<Seq<char>, DecodeError> {
    str_at(t, member(element(member(root(), "symbols"@), i), "symbol"@))
}

/// Entries before `j` all have a name, none of them `pair`.
pub open spec fn passed_over(t: Seq<char>, pair: Seq<char>, j: int) -> bool {
    forall|i: int| 0 <= i < j ==> (#[trigger] symbol_name(t, i)) is Ok && symbol_name(t, i) != Ok::<Seq<char>, DecodeError>(pair)
}

/// The entry for `pair` from the exchange's symbol list, read up to the
/// first entry that is `pair` or has no name.
pub open spec fn exchange_info_of(t: Seq<char>, pair: Seq<char>, r: Result<Vec<SymbolInfo>, DecodeError>) -> bool {
    let sp = member(root(), "symbols"@);
    let n = json_len_at(t, sp) as int;
    if !json_parses(t) {
        r == Err::<Vec<SymbolInfo>, DecodeError>(DecodeError::NotJson)
    } else {
        match r {
            Ok(v) => (v@.len() == 0 && passed_over(t, pair, n))
                || (v@.len() == 1 && exists|j: int| 0 <= j < n && passed_over(t, pair, j)
                    && symbol_name(t, j) == Ok::<Seq<char>, DecodeError>(pair) && symbol_of(t, element(sp, j), Ok(v@[0]))),
            Err(e) => exists|j: int| 0 <= j < n && passed_over(t, pair, j) && (
                (symbol_name(t, j) is Err && e == DecodeError::MissingField)
                || (symbol_name(t, j) == Ok::<Seq<char>, DecodeError>(pair) && symbol_of(t, element(sp, j), Err(e)))),
        }
    }
}

/// Reads the entry for `pair` from the exchange's symbol list; the result
/// is empty when the pair is not listed.
pub fn decode_exchange_info(text: &str, pair: &str) -> (r: Result<Vec<SymbolInfo>, DecodeError>)
    ensures
        exchange_info_of(text@, pair@, r),
{
    let v = match json_parse(text) {
        Some(v) => v,
        None => { return Err(DecodeError::NotJson); },
    };
    let symbols = node_at(&v, "symbols");
    let n = json_len(&symbols);
    let mut out: Vec<SymbolInfo> = Vec::new();
    let mut i: usize = 0;
    while i < n
        invariant
            symbols.text() == text@,
            symbols.path() == member(root(), "symbols"@),
            n == json_len_at(text@, symbols.path()),
            json_parses(text@),
            out@.len() == 0,
            i <= n,
            passed_over(text@, pair@, i as int),
        decreases n - i,
    {
        let s = json_element(&symbols, i);
        let name = match str_field(&s, "symbol") {
            Ok(x) => x,
            Err(e) => {
                assert(symbol_name(text@, i as int) is Err);
                return Err(e);
            },
        };
        if text_eq(&name, pair) {
            match decode_symbol(&s) {
                Ok(info) => {
                    let ghost g = info;
                    out.push(info);
                    assert(out@[0] == g);
                    assert(symbol_name(text@, i as int) == Ok::<Seq<char>, DecodeError>(pair@));
                    return Ok(out);
                },
                Err(e) => {
                    assert(symbol_name(text@, i as int) == Ok::<Seq<char>, DecodeError>(pair@));
                    return Err(e);
                },
            }
        }
        i = i + 1;
    }
    Ok(out)
}

} // verus!
