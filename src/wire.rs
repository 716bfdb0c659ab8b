//! Text forms of orders as the exchange expects them.
use vstd::prelude::*;
use crate::order::Order;
use crate::text::{decimal_digits, decimal_text, digit_char, fixed_text, fixed_to_text};

verus! {

/// `SELL` when exactly one of open and long holds, else `BUY`.
pub open spec fn side_word(o: Order) -> Seq<char> {
    if o.is_open != o.is_long { "SELL"@ } else { "BUY"@ }
}

pub open spec fn position_word(o: Order) -> Seq<char> {
    if o.is_long { "LONG"@ } else { "SHORT"@ }
}

/// Query-string form of one order, for the single-order endpoint.
pub open spec fn order_query_text(o: Order, pair: Seq<char>, pd: nat, qd: nat) -> Seq<char> {
    "symbol="@ + pair + "&side="@ + side_word(o) + "&positionSide="@ + position_word(o)
        + "&type=LIMIT&price="@ + fixed_text(o.price as int, pd) + "&timeInForce=GTX&quantity="@
        + fixed_text(o.quantity as int, qd) + "&newClientOrderId="@ + decimal_digits(o.order_id as nat)
}

/// JSON object form of one order, for the batch endpoint.
pub open spec fn order_json_text(o: Order, pair: Seq<char>, pd: nat, qd: nat) -> Seq<char> {
    "{\"symbol\":\""@ + pair + "\",\"side\":\""@ + side_word(o) + "\",\"positionSide\":\""@ + position_word(o)
        + "\",\"type\":\"LIMIT\",\"price\":\""@ + fixed_text(o.price as int, pd) + "\",\"timeInForce\":\"GTX\",\"quantity\":\""@
        + fixed_text(o.quantity as int, qd) + "\",\"newClientOrderId\":\""@ + decimal_digits(o.order_id as nat) + "\"}"@
}

fn side_text(o: &Order) -> (r: &'static str)
    ensures
        r@ == side_word(*o),
{
    if o.is_open != o.is_long { "SELL" } else { "BUY" }
}

fn position_text(o: &Order) -> (r: &'static str)
    ensures
        r@ == position_word(*o),
{
    if o.is_long { "LONG" } else { "SHORT" }
}

impl Order {
    /// The order as a JSON object of the batch endpoint, prices and
    /// quantities written with the exchange's decimal counts.
    pub fn to_url_string(&self, pair: &str, price_decimal_count: i64, quantity_decimal_count: i64) -> (r: String)
        requires
            0 <= price_decimal_count <= usize::MAX,
            0 <= quantity_decimal_count <= usize::MAX,
        ensures
            r@ == order_json_text(*self, pair@, price_decimal_count as nat, quantity_decimal_count as nat),
    {
        let price = fixed_to_text(self.price, price_decimal_count as usize);
        let quantity = fixed_to_text(self.quantity, quantity_decimal_count as usize);
        let id = decimal_text(self.order_id as u128);
        let mut r = String::from_str("{\"symbol\":\"");
        r.append(pair);
        r.append("\",\"side\":\"");
        r.append(side_text(self));
        r.append("\",\"positionSide\":\"");
        r.append(position_text(self));
        r.append("\",\"type\":\"LIMIT\",\"price\":\"");
        r.append(price.as_str());
        r.append("\",\"timeInForce\":\"GTX\",\"quantity\":\"");
        r.append(quantity.as_str());
        r.append("\",\"newClientOrderId\":\"");
        r.append(id.as_str());
        r.append("\"}");
        r
    }

    /// The order as the query string of the single-order endpoint.
    pub fn to_single_url_string(&self, pair: &str, price_decimal_count: i64, quantity_decimal_count: i64) -> (r: String)
        requires
            0 <= price_decimal_count <= usize::MAX,
            0 <= quantity_decimal_count <= usize::MAX,
        ensures
            r@ == order_query_text(*self, pair@, price_decimal_count as nat, quantity_decimal_count as nat),
    {
        let price = fixed_to_text(self.price, price_decimal_count as usize);
        let quantity = fixed_to_text(self.quantity, quantity_decimal_count as usize);
        let id = decimal_text(self.order_id as u128);
        let mut r = String::from_str("symbol=");
        r.append(pair);
        r.append("&side=");
        r.append(side_text(self));
        r.append("&positionSide=");
        r.append(position_text(self));
        r.append("&type=LIMIT&price=");
        r.append(price.as_str());
        r.append("&timeInForce=GTX&quantity=");
        r.append(quantity.as_str());
        r.append("&newClientOrderId=");
        r.append(id.as_str());
        r
    }
}

} // verus!
