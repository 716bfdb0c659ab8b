//! Signed exchange requests: batching, payloads, signatures and the
//! classification of replies.
use vstd::prelude::*;
use hmac::Mac;
use crate::order::Order;
use crate::text::{decimal_digits, decimal_text, digit_char, fixed_text, text_eq};
use crate::wire::{order_json_text, order_query_text};

verus! {

/// Largest number of orders in one batch request.
pub const BATCH_LIMIT: usize = 5;

/// HMAC-SHA256 tag of `message` under `key`, both taken as UTF-8 bytes.
pub uninterp spec fn hmac_sha256_of(key: Seq<char>, message: Seq<char>) -> Seq<u8>;

/// Relies on hmac's `Hmac::<Sha256>::new_from_slice` (which accepts a key of
/// any length), `update` and `finalize`: the tag of the message, 32 bytes.
#[verifier::external_body]
fn hmac_sha256(key: &str, message: &str) -> (r: Vec<u8>)
    ensures
        r@ == hmac_sha256_of(key@, message@),
        r@.len() == 32,
{
    let mut mac = hmac::Hmac::<sha2::Sha256>::new_from_slice(key.as_bytes()).expect("any key length");
    mac.update(message.as_bytes());
    mac.finalize().into_bytes().to_vec()
}

pub open spec fn hex_digit_lower(n: nat) -> char {
    if n < 10 {
        digit_char(n)
    } else if n == 10 { 'a' } else if n == 11 { 'b' } else if n == 12 { 'c' }
    else if n == 13 { 'd' } else if n == 14 { 'e' } else { 'f' }
}

pub open spec fn hex_digit_upper(n: nat) -> char {
    if n < 10 {
        digit_char(n)
    } else if n == 10 { 'A' } else if n == 11 { 'B' } else if n == 12 { 'C' }
    else if n == 13 { 'D' } else if n == 14 { 'E' } else { 'F' }
}

/// Two lowercase hex digits per byte, high nibble first.
pub open spec fn hex_of(b: Seq<u8>) -> Seq<char>
    decreases b.len(),
{
    if b.len() == 0 {
        Seq::empty()
    } else {
        hex_of(b.drop_last()) + seq![hex_digit_lower((b.last() / 16) as nat), hex_digit_lower((b.last() % 16) as nat)]
    }
}

/// Relies on `hex::encode`: two lowercase hex digits per byte, in order.
#[verifier::external_body]
fn hex_encode(b: &[u8]) -> (r: String)
    ensures
        r@ == hex_of(b@),
{
    hex::encode(b)
}

pub open spec fn is_ascii_text(s: Seq<char>) -> bool {
    forall|i: int| 0 <= i < s.len() ==> (#[trigger] s[i] as u32) < 128
}

pub open spec fn is_unreserved(c: char) -> bool {
    ('0' <= c <= '9') || ('A' <= c <= 'Z') || ('a' <= c <= 'z') || c == '-' || c == '.' || c == '_' || c == '~'
}

/// Percent-encoding of ASCII text: unreserved characters stay, every other
/// one becomes `%` and two uppercase hex digits.
pub open spec fn url_encoded(s: Seq<char>) -> Seq<char>
    decreases s.len(),
{
    if s.len() == 0 {
        Seq::empty()
    } else {
        let c = s.last();
        url_encoded(s.drop_last()) + if is_unreserved(c) {
            seq![c]
        } else {
            seq!['%', hex_digit_upper(((c as u32) / 16) as nat), hex_digit_upper(((c as u32) % 16) as nat)]
        }
    }
}

/// Relies on `urlencoding::encode`: every byte but ASCII letters, digits and
/// `-._~` becomes `%` and two uppercase hex digits.
#[verifier::external_body]
fn url_encode(s: &str) -> (r: String)
    ensures
        is_ascii_text(s@) ==> r@ == url_encoded(s@),
{
    urlencoding::encode(s).into_owned()
}

/// Orders with a positive quantity, in order.
pub open spec fn real_orders(s: Seq<Order>) -> Seq<Order>
    decreases s.len(),
{
    if s.len() == 0 {
        s
    } else if s.last().quantity > 0 {
        real_orders(s.drop_last()).push(s.last())
    } else {
        real_orders(s.drop_last())
    }
}

/// Batch `j` of `s`: up to `BATCH_LIMIT` consecutive elements.
pub open spec fn batch_at(s: Seq<Order>, j: int) -> Seq<Order> {
    let end = if (j + 1) * 5 < s.len() { (j + 1) * 5 } else { s.len() as int };
    s.subrange(j * 5, end)
}

pub open spec fn batch_count(len: nat) -> nat {
    (len + 4) / 5
}

fn real_only(orders: &Vec<Order>) -> (r: Vec<Order>)
    ensures
        r@ == real_orders(orders@),
{
    let mut r: Vec<Order> = Vec::new();
    let mut i: usize = 0;
    while i < orders.len()
        invariant
            i <= orders@.len(),
            r@ == real_orders(orders@.take(i as int)),
        decreases orders@.len() - i,
    {
        assert(orders@.take(i as int + 1).drop_last() =~= orders@.take(i as int));
        if orders[i].quantity > 0 {
            r.push(orders[i]);
        }
        i = i + 1;
    }
    assert(orders@.take(orders@.len() as int) =~= orders@);
    r
}

/// The real orders of `orders` (virtual ones are never sent), split in order
/// into batches of at most `BATCH_LIMIT`.
pub fn batch_orders(orders: &Vec<Order>) -> (r: Vec<Vec<Order>>)
    ensures
        r@.len() == batch_count(real_orders(orders@).len()),
        forall|j: int| 0 <= j < r@.len() ==> (#[trigger] r@[j])@ == batch_at(real_orders(orders@), j),
{
    let sendable = real_only(orders);
    let n = sendable.len();
    let mut batches: Vec<Vec<Order>> = Vec::new();
    let mut start: usize = 0;
    while start < n
        invariant
            n == sendable@.len(),
            start as int == if (batches@.len() as int) * 5 < n as int { (batches@.len() as int) * 5 } else { n as int },
            batches@.len() <= batch_count(n as nat),
            start < n ==> (batches@.len() as int) * 5 < n as int,
            start >= n ==> batches@.len() == batch_count(n as nat),
            forall|j: int| 0 <= j < batches@.len() ==> (#[trigger] batches@[j])@ == batch_at(sendable@, j),
        decreases n - start,
    {
        let end: usize = if start + 5 < n { start + 5 } else { n };
        let mut batch: Vec<Order> = Vec::new();
        let mut k: usize = start;
        while k < end
            invariant
                start <= k <= end <= n,
                n == sendable@.len(),
                batch@ == sendable@.subrange(start as int, k as int),
            decreases end - k,
        {
            batch.push(sendable[k]);
            k = k + 1;
            assert(batch@ =~= sendable@.subrange(start as int, k as int));
        }
        assert(batch@ == batch_at(sendable@, batches@.len() as int));
        batches.push(batch);
        start = end;
    }
    batches
}

/// Signs a query string: the request URL carries the payload and then the
/// hex HMAC-SHA256 signature of exactly that payload.
pub open spec fn signed_url_text(base: Seq<char>, endpoint: Seq<char>, payload: Seq<char>, secret: Seq<char>) -> Seq<char> {
    base + endpoint + "?"@ + payload + "&signature="@ + hex_of(hmac_sha256_of(secret, payload))
}

/// Everything a request needs besides the transport.
pub struct Gateway {
    pub base_url: String,
    pub pair: String,
    pub secret: String,
    pub price_decimal_count: i64,
    pub quantity_decimal_count: i64,
}

pub open spec fn is_symbol_text(s: Seq<char>) -> bool {
    forall|i: int| 0 <= i < s.len() ==> ('0' <= #[trigger] s[i] <= '9') || ('A' <= s[i] <= 'Z') || ('a' <= s[i] <= 'z')
}

/// JSON array of the batch's orders.
pub open spec fn orders_json(b: Seq<Order>, pair: Seq<char>, pd: nat, qd: nat) -> Seq<char>
    decreases b.len(),
{
    if b.len() == 0 {
        Seq::empty()
    } else if b.len() == 1 {
        order_json_text(b[0], pair, pd, qd)
    } else {
        orders_json(b.drop_last(), pair, pd, qd) + ","@ + order_json_text(b.last(), pair, pd, qd)
    }
}

/// JSON array of the batch's client ids, as strings.
pub open spec fn ids_json(b: Seq<Order>) -> Seq<char>
    decreases b.len(),
{
    if b.len() == 0 {
        Seq::empty()
    } else if b.len() == 1 {
        "\""@ + decimal_digits(b[0].order_id as nat) + "\""@
    } else {
        ids_json(b.drop_last()) + ",\""@ + decimal_digits(b.last().order_id as nat) + "\""@
    }
}


proof fn lemma_ascii_concat(a: Seq<char>, b: Seq<char>)
    requires
        is_ascii_text(a),
        is_ascii_text(b),
    ensures
        is_ascii_text(a + b),
{
    assert forall|i: int| 0 <= i < (a + b).len() implies (#[trigger] (a + b)[i] as u32) < 128 by {
        if i < a.len() {
            assert((a + b)[i] == a[i]);
        } else {
            assert((a + b)[i] == b[i - a.len()]);
        }
    }
}

proof fn lemma_digit_ascii(d: nat)
    ensures
        (digit_char(d) as u32) < 128,
{
}

proof fn lemma_digits_ascii(n: nat)
    ensures
        is_ascii_text(decimal_digits(n)),
    decreases n,
{
    if n < 10 {
        lemma_digit_ascii(n);
    } else {
        lemma_digits_ascii(n / 10);
        lemma_digit_ascii(n % 10);
        lemma_ascii_concat(decimal_digits(n / 10), seq![digit_char(n % 10)]);
        assert(decimal_digits(n / 10).push(digit_char(n % 10)) =~= decimal_digits(n / 10) + seq![digit_char(n % 10)]);
    }
}

proof fn lemma_fixed_ascii(v: int, decimals: nat)
    ensures
        is_ascii_text(fixed_text(v, decimals)),
{
    let sign: Seq<char> = if v < 0 { seq!['-'] } else { Seq::empty() };
    let a: nat = if v < 0 { (-v) as nat } else { v as nat };
    let d = crate::text::shown_digits(decimals);
    let units = crate::text::fixed_units(a, decimals);
    let whole = units / crate::text::pow10(d);
    let frac = units % crate::text::pow10(d);
    lemma_digits_ascii(whole);
    lemma_digits_ascii(frac);
    lemma_ascii_concat(sign, decimal_digits(whole));
    if decimals > 0 {
        let z = crate::text::zeros((d - decimal_digits(frac).len()) as nat);
        let tail = crate::text::zeros((decimals - d) as nat);
        lemma_ascii_concat(z, decimal_digits(frac));
        lemma_ascii_concat(sign + decimal_digits(whole), seq!['.']);
        lemma_ascii_concat(sign + decimal_digits(whole) + seq!['.'], crate::text::padded_digits(frac, d));
        lemma_ascii_concat(sign + decimal_digits(whole) + seq!['.'] + crate::text::padded_digits(frac, d), tail);
    }
}

proof fn lemma_order_json_ascii(o: Order, pair: Seq<char>, pd: nat, qd: nat)
    requires
        is_symbol_text(pair),
    ensures
        is_ascii_text(order_json_text(o, pair, pd, qd)),
{
    reveal_strlit("{\"symbol\":\"");
    reveal_strlit("\",\"side\":\"");
    reveal_strlit("SELL");
    reveal_strlit("BUY");
    reveal_strlit("\",\"positionSide\":\"");
    reveal_strlit("LONG");
    reveal_strlit("SHORT");
    reveal_strlit("\",\"type\":\"LIMIT\",\"price\":\"");
    reveal_strlit("\",\"timeInForce\":\"GTX\",\"quantity\":\"");
    reveal_strlit("\",\"newClientOrderId\":\"");
    reveal_strlit("\"}");
    lemma_fixed_ascii(o.price as int, pd);
    lemma_fixed_ascii(o.quantity as int, qd);
    lemma_digits_ascii(o.order_id as nat);
    assert(is_ascii_text(pair));
    let parts = seq![
        "{\"symbol\":\""@, pair, "\",\"side\":\""@, crate::wire::side_word(o), "\",\"positionSide\":\""@,
        crate::wire::position_word(o), "\",\"type\":\"LIMIT\",\"price\":\""@, fixed_text(o.price as int, pd),
        "\",\"timeInForce\":\"GTX\",\"quantity\":\""@, fixed_text(o.quantity as int, qd), "\",\"newClientOrderId\":\""@,
        decimal_digits(o.order_id as nat), "\"}"@
    ];
    assert(is_ascii_text(crate::wire::side_word(o)));
    assert(is_ascii_text(crate::wire::position_word(o)));
    assert forall|i: int| 0 <= i < parts.len() implies is_ascii_text(#[trigger] parts[i]) by {}
    lemma_joined_ascii(parts);
    reveal_with_fuel(joined, 14);
    assert(joined(parts) =~= order_json_text(o, pair, pd, qd));
}

/// Parts written one after another.
pub open spec fn joined(parts: Seq<Seq<char>>) -> Seq<char>
    decreases parts.len(),
{
    if parts.len() == 0 { Seq::empty() } else { joined(parts.drop_last()) + parts.last() }
}

proof fn lemma_joined_ascii(parts: Seq<Seq<char>>)
    requires
        forall|i: int| 0 <= i < parts.len() ==> is_ascii_text(#[trigger] parts[i]),
    ensures
        is_ascii_text(joined(parts)),
    decreases parts.len(),
{
    if parts.len() > 0 {
        lemma_joined_ascii(parts.drop_last());
        lemma_ascii_concat(joined(parts.drop_last()), parts.last());
    }
}


proof fn lemma_orders_json_ascii(b: Seq<Order>, pair: Seq<char>, pd: nat, qd: nat)
    requires
        is_symbol_text(pair),
    ensures
        is_ascii_text(orders_json(b, pair, pd, qd)),
    decreases b.len(),
{
    if b.len() == 1 {
        lemma_order_json_ascii(b[0], pair, pd, qd);
    } else if b.len() > 1 {
        reveal_strlit(",");
        lemma_orders_json_ascii(b.drop_last(), pair, pd, qd);
        lemma_order_json_ascii(b.last(), pair, pd, qd);
        assert(is_ascii_text(","@));
        lemma_ascii_concat(orders_json(b.drop_last(), pair, pd, qd), ","@);
        lemma_ascii_concat(orders_json(b.drop_last(), pair, pd, qd) + ","@, order_json_text(b.last(), pair, pd, qd));
    }
}

proof fn lemma_ids_json_ascii(b: Seq<Order>)
    ensures
        is_ascii_text(ids_json(b)),
    decreases b.len(),
{
    reveal_strlit("\"");
    reveal_strlit(",\"");
    assert(is_ascii_text("\""@));
    assert(is_ascii_text(",\""@));
    if b.len() == 1 {
        lemma_digits_ascii(b[0].order_id as nat);
        lemma_ascii_concat("\""@, decimal_digits(b[0].order_id as nat));
        lemma_ascii_concat("\""@ + decimal_digits(b[0].order_id as nat), "\""@);
    } else if b.len() > 1 {
        lemma_ids_json_ascii(b.drop_last());
        lemma_digits_ascii(b.last().order_id as nat);
        lemma_ascii_concat(ids_json(b.drop_last()), ",\""@);
        lemma_ascii_concat(ids_json(b.drop_last()) + ",\""@, decimal_digits(b.last().order_id as nat));
        lemma_ascii_concat(ids_json(b.drop_last()) + ",\""@ + decimal_digits(b.last().order_id as nat), "\""@);
    }
}

proof fn lemma_bracketed_ascii(inner: Seq<char>)
    requires
        is_ascii_text(inner),
    ensures
        is_ascii_text("["@ + inner + "]"@),
{
    reveal_strlit("[");
    reveal_strlit("]");
    assert(is_ascii_text("["@));
    assert(is_ascii_text("]"@));
    lemma_ascii_concat("["@, inner);
    lemma_ascii_concat("["@ + inner, "]"@);
}

impl Gateway {
    pub open spec fn wf(&self) -> bool {
        &&& 0 <= self.price_decimal_count <= usize::MAX
        &&& 0 <= self.quantity_decimal_count <= usize::MAX
        &&& is_symbol_text(self.pair@)
    }

    /// Payload that places one batch: the single-order query when it holds
    /// one order, else the URL-encoded JSON array.
    pub open spec fn post_payload(&self, b: Seq<Order>, timestamp: nat) -> Seq<char> {
        let pd = self.price_decimal_count as nat;
        let qd = self.quantity_decimal_count as nat;
        if b.len() == 1 {
            order_query_text(b[0], self.pair@, pd, qd) + "&timestamp="@ + decimal_digits(timestamp)
        } else {
            "batchOrders="@ + url_encoded("["@ + orders_json(b, self.pair@, pd, qd) + "]"@) + "&timestamp="@ + decimal_digits(timestamp)
        }
    }

    pub open spec fn post_url(&self, b: Seq<Order>, timestamp: nat) -> Seq<char> {
        let endpoint = if b.len() == 1 { "/fapi/v1/order"@ } else { "/fapi/v1/batchOrders"@ };
        signed_url_text(self.base_url@, endpoint, self.post_payload(b, timestamp), self.secret@)
    }

    /// Payload that cancels one batch by client id.
    pub open spec fn cancel_payload(&self, b: Seq<Order>, timestamp: nat) -> Seq<char> {
        if b.len() == 1 {
            "symbol="@ + self.pair@ + "&origClientOrderId="@ + decimal_digits(b[0].order_id as nat) + "&timestamp="@ + decimal_digits(timestamp)
        } else {
            "symbol="@ + self.pair@ + "&origClientOrderIdList="@ + url_encoded("["@ + ids_json(b) + "]"@) + "&timestamp="@ + decimal_digits(timestamp)
        }
    }

    pub open spec fn cancel_url(&self, b: Seq<Order>, timestamp: nat) -> Seq<char> {
        let endpoint = if b.len() == 1 { "/fapi/v1/order"@ } else { "/fapi/v1/batchOrders"@ };
        signed_url_text(self.base_url@, endpoint, self.cancel_payload(b, timestamp), self.secret@)
    }

    /// The batch's orders as a bracketed JSON array.
    fn batch_json(&self, b: &Vec<Order>) -> (r: String)
        requires
            self.wf(),
        ensures
            r@ == "["@ + orders_json(b@, self.pair@, self.price_decimal_count as nat, self.quantity_decimal_count as nat) + "]"@,
    {
        let pd = self.price_decimal_count;
        let qd = self.quantity_decimal_count;
        let mut text = String::from_str("[");
        let mut j: usize = 0;
        while j < b.len()
            invariant
                j <= b@.len(),
                0 <= pd <= usize::MAX,
                0 <= qd <= usize::MAX,
                text@ == "["@ + orders_json(b@.take(j as int), self.pair@, pd as nat, qd as nat),
            decreases b@.len() - j,
        {
            let item = b[j].to_url_string(self.pair.as_str(), pd, qd);
            let ghost before = text@;
            if j > 0 {
                text.append(",");
            }
            text.append(item.as_str());
            proof {
                let t = b@.take(j as int + 1);
                assert(t.drop_last() =~= b@.take(j as int));
                if j == 0 {
                    assert(orders_json(b@.take(0), self.pair@, pd as nat, qd as nat) =~= Seq::<char>::empty());
                    assert(text@ =~= "["@ + orders_json(t, self.pair@, pd as nat, qd as nat));
                } else {
                    assert(text@ =~= "["@ + orders_json(t, self.pair@, pd as nat, qd as nat));
                }
            }
            j = j + 1;
        }
        text.append("]");
        assert(b@.take(b@.len() as int) =~= b@);
        text
    }

    /// The batch's client ids as a bracketed JSON array of strings.
    fn batch_ids(&self, b: &Vec<Order>) -> (r: String)
        ensures
            r@ == "["@ + ids_json(b@) + "]"@,
    {
        let mut text = String::from_str("[");
        let mut j: usize = 0;
        while j < b.len()
            invariant
                j <= b@.len(),
                text@ == "["@ + ids_json(b@.take(j as int)),
            decreases b@.len() - j,
        {
            let id = decimal_text(b[j].order_id as u128);
            if j > 0 {
                text.append(",\"");
            } else {
                text.append("\"");
            }
            text.append(id.as_str());
            text.append("\"");
            proof {
                let t = b@.take(j as int + 1);
                assert(t.drop_last() =~= b@.take(j as int));
                if j == 0 {
                    assert(ids_json(b@.take(0)) =~= Seq::<char>::empty());
                }
                assert(text@ =~= "["@ + ids_json(t));
            }
            j = j + 1;
        }
        text.append("]");
        assert(b@.take(b@.len() as int) =~= b@);
        text
    }

    fn timestamp_suffix(timestamp: u128) -> (r: String)
        ensures
            r@ == "&timestamp="@ + decimal_digits(timestamp as nat),
    {
        let mut t = String::from_str("&timestamp=");
        let ts = decimal_text(timestamp);
        t.append(ts.as_str());
        t
    }

    /// Signed request URLs that place the real orders of `orders`, one per
    /// batch of at most `BATCH_LIMIT`.
    pub fn post_urls(&self, orders: &Vec<Order>, timestamp: u128) -> (r: Vec<String>)
        requires
            self.wf(),
        ensures
            r@.len() == batch_count(real_orders(orders@).len()),
            forall|j: int| 0 <= j < r@.len() ==>
                (#[trigger] r@[j])@ == self.post_url(batch_at(real_orders(orders@), j), timestamp as nat),
    {
        let batches = batch_orders(orders);
        let mut urls: Vec<String> = Vec::new();
        let mut i: usize = 0;
        while i < batches.len()
            invariant
                self.wf(),
                i <= batches@.len(),
                batches@.len() == batch_count(real_orders(orders@).len()),
                forall|j: int| 0 <= j < batches@.len() ==> (#[trigger] batches@[j])@ == batch_at(real_orders(orders@), j),
                urls@.len() == i,
                forall|j: int| 0 <= j < i ==>
                    (#[trigger] urls@[j])@ == self.post_url(batch_at(real_orders(orders@), j), timestamp as nat),
            decreases batches@.len() - i,
        {
            let b = &batches[i];
            let suffix = Self::timestamp_suffix(timestamp);
            let url = if b.len() == 1 {
                let mut payload = b[0].to_single_url_string(self.pair.as_str(), self.price_decimal_count, self.quantity_decimal_count);
                payload.append(suffix.as_str());
                let u = self.sign("/fapi/v1/order", &payload);
                assert(payload@ == self.post_payload(b@, timestamp as nat));
                assert(u@ == self.post_url(b@, timestamp as nat));
                u
            } else {
                let json = self.batch_json(b);
                proof {
                    lemma_orders_json_ascii(b@, self.pair@, self.price_decimal_count as nat, self.quantity_decimal_count as nat);
                    lemma_bracketed_ascii(orders_json(b@, self.pair@, self.price_decimal_count as nat, self.quantity_decimal_count as nat));
                }
                let encoded = url_encode(json.as_str());
                let mut payload = String::from_str("batchOrders=");
                payload.append(encoded.as_str());
                payload.append(suffix.as_str());
                let u = self.sign("/fapi/v1/batchOrders", &payload);
                assert(payload@ == self.post_payload(b@, timestamp as nat));
                assert(u@ == self.post_url(b@, timestamp as nat));
                u
            };
            urls.push(url);
            i = i + 1;
        }
        urls
    }

    /// Signed request URLs that cancel the real orders of `orders` by client
    /// id, one per batch of at most `BATCH_LIMIT`.
    pub fn cancel_urls(&self, orders: &Vec<Order>, timestamp: u128) -> (r: Vec<String>)
        requires
            self.wf(),
        ensures
            r@.len() == batch_count(real_orders(orders@).len()),
            forall|j: int| 0 <= j < r@.len() ==>
                (#[trigger] r@[j])@ == self.cancel_url(batch_at(real_orders(orders@), j), timestamp as nat),
    {
        let batches = batch_orders(orders);
        let mut urls: Vec<String> = Vec::new();
        let mut i: usize = 0;
        while i < batches.len()
            invariant
                self.wf(),
                i <= batches@.len(),
                batches@.len() == batch_count(real_orders(orders@).len()),
                forall|j: int| 0 <= j < batches@.len() ==> (#[trigger] batches@[j])@ == batch_at(real_orders(orders@), j),
                urls@.len() == i,
                forall|j: int| 0 <= j < i ==>
                    (#[trigger] urls@[j])@ == self.cancel_url(batch_at(real_orders(orders@), j), timestamp as nat),
            decreases batches@.len() - i,
        {
            let b = &batches[i];
            let suffix = Self::timestamp_suffix(timestamp);
            let mut payload = String::from_str("symbol=");
            payload.append(self.pair.as_str());
            let url = if b.len() == 1 {
                payload.append("&origClientOrderId=");
                let id = decimal_text(b[0].order_id as u128);
                payload.append(id.as_str());
                payload.append(suffix.as_str());
                let u = self.sign("/fapi/v1/order", &payload);
                assert(payload@ =~= self.cancel_payload(b@, timestamp as nat));
                u
            } else {
                let ids = self.batch_ids(b);
                proof {
                    lemma_ids_json_ascii(b@);
                    lemma_bracketed_ascii(ids_json(b@));
                }
                let encoded = url_encode(ids.as_str());
                payload.append("&origClientOrderIdList=");
                payload.append(encoded.as_str());
                payload.append(suffix.as_str());
                let u = self.sign("/fapi/v1/batchOrders", &payload);
                assert(payload@ =~= self.cancel_payload(b@, timestamp as nat));
                u
            };
            urls.push(url);
            i = i + 1;
        }
        urls
    }

    /// A signed URL for `endpoint` whose payload is `params` followed by the timestamp.
    pub fn signed_url(&self, endpoint: &str, params: &str, timestamp: u128) -> (r: String)
        ensures
            r@ == signed_url_text(self.base_url@, endpoint@, params@ + "timestamp="@ + decimal_digits(timestamp as nat), self.secret@),
    {
        let mut payload = String::from_str(params);
        payload.append("timestamp=");
        let ts = decimal_text(timestamp);
        payload.append(ts.as_str());
        self.sign(endpoint, &payload)
    }

    fn sign(&self, endpoint: &str, payload: &String) -> (r: String)
        ensures
            r@ == signed_url_text(self.base_url@, endpoint@, payload@, self.secret@),
    {
        let tag = hmac_sha256(self.secret.as_str(), payload.as_str());
        let sig = hex_encode(tag.as_slice());
        let mut url = self.base_url.clone();
        url.append(endpoint);
        url.append("?");
        url.append(payload.as_str());
        url.append("&signature=");
        url.append(sig.as_str());
        url
    }
}

} // verus!

verus! {

use crate::decode::{OrderReply, ReplyItem};

pub open spec fn item_posted(i: ReplyItem) -> bool {
    match i {
        ReplyItem::Status(s) => s@ == "NEW"@,
        ReplyItem::Code(c) => c == WOULD_NOT_EXECUTE,
        ReplyItem::Neither => false,
    }
}

pub open spec fn item_canceled(i: ReplyItem) -> bool {
    match i {
        ReplyItem::Status(s) => s@ == "CANCELED"@,
        _ => false,
    }
}

pub open spec fn all_posted(v: Seq<ReplyItem>) -> bool {
    forall|i: int| 0 <= i < v.len() ==> item_posted(#[trigger] v[i])
}

pub open spec fn all_canceled(v: Seq<ReplyItem>) -> bool {
    forall|i: int| 0 <= i < v.len() ==> item_canceled(#[trigger] v[i])
}

/// Error code of a post-only order that would have crossed the book.
pub const WOULD_NOT_EXECUTE: i64 = -2022;

/// A placement reply is fine when every order was accepted or merely would
/// not have rested as a maker; anything else calls for an overflow reset.
pub open spec fn post_reply_ok_spec(r: OrderReply) -> bool {
    match r {
        OrderReply::Unparseable => false,
        OrderReply::Status(s) => s@ == "NEW"@,
        OrderReply::Code(c) => c == WOULD_NOT_EXECUTE,
        OrderReply::Items(v) => all_posted(v@),
    }
}

/// A cancel reply is fine only when every order reads as canceled.
pub open spec fn cancel_reply_ok_spec(r: OrderReply) -> bool {
    match r {
        OrderReply::Status(s) => s@ == "CANCELED"@,
        OrderReply::Items(v) => all_canceled(v@),
        _ => false,
    }
}


fn item_posted_exec(i: &ReplyItem) -> (r: bool)
    ensures
        r == item_posted(*i),
{
    match i {
        ReplyItem::Status(s) => text_eq(s, "NEW"),
        ReplyItem::Code(c) => *c == WOULD_NOT_EXECUTE,
        ReplyItem::Neither => false,
    }
}

fn item_canceled_exec(i: &ReplyItem) -> (r: bool)
    ensures
        r == item_canceled(*i),
{
    match i {
        ReplyItem::Status(s) => text_eq(s, "CANCELED"),
        _ => false,
    }
}

/// Whether a placement reply counts as success.
pub fn post_reply_ok(r: &OrderReply) -> (ok: bool)
    ensures
        ok == post_reply_ok_spec(*r),
{
    match r {
        OrderReply::Unparseable => false,
        OrderReply::Status(s) => text_eq(s, "NEW"),
        OrderReply::Code(c) => *c == WOULD_NOT_EXECUTE,
        OrderReply::Items(v) => {
            let mut i: usize = 0;
            while i < v.len()
                invariant
                    *r == OrderReply::Items(*v),
                    i <= v@.len(),
                    forall|j: int| 0 <= j < i ==> item_posted(#[trigger] v@[j]),
                decreases v@.len() - i,
            {
                if !item_posted_exec(&v[i]) {
                    assert(!item_posted(v@[i as int]));
                    assert(!all_posted(v@));
                    return false;
                }
                i = i + 1;
            }
            true
        },
    }
}

/// Whether a cancel reply counts as success.
pub fn cancel_reply_ok(r: &OrderReply) -> (ok: bool)
    ensures
        ok == cancel_reply_ok_spec(*r),
{
    match r {
        OrderReply::Status(s) => text_eq(s, "CANCELED"),
        OrderReply::Items(v) => {
            let mut i: usize = 0;
            while i < v.len()
                invariant
                    *r == OrderReply::Items(*v),
                    i <= v@.len(),
                    forall|j: int| 0 <= j < i ==> item_canceled(#[trigger] v@[j]),
                decreases v@.len() - i,
            {
                if !item_canceled_exec(&v[i]) {
                    assert(!item_canceled(v@[i as int]));
                    return false;
                }
                i = i + 1;
            }
            true
        },
        _ => false,
    }
}

} // verus!
