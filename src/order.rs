//! One resting limit order of the ladder.
use vstd::prelude::*;
use rand::Rng;

verus! {

/// A rung or close order. A quantity of zero marks a virtual order that is
/// never sent to the exchange; `order_id` is the client id used to cancel it.
#[derive(Clone, Copy, Debug)]
pub struct Order {
    pub price: i64,
    pub quantity: i64,
    pub is_open: bool,
    pub is_long: bool,
    pub order_id: u32,
}

/// Relies on rand's `thread_rng().gen_range(0..4294967295)`: a value inside the range.
#[verifier::external_body]
fn random_order_id() -> (r: u32)
    ensures
        r < 4294967295,
{
    rand::thread_rng().gen_range(0..4294967295)
}

impl Order {
    /// Same price, quantity and direction flags; the client id is ignored.
    pub open spec fn same_terms(&self, price: int, quantity: int, is_open: bool, is_long: bool) -> bool {
        &&& self.price == price
        &&& self.quantity == quantity
        &&& self.is_open == is_open
        &&& self.is_long == is_long
    }

    /// A new order with a fresh random client id.
    pub fn new(price: i64, quantity: i64, is_open: bool, is_long: bool) -> (r: Order)
        ensures
            r.same_terms(price as int, quantity as int, is_open, is_long),
    {
        Order { price, quantity, is_open, is_long, order_id: random_order_id() }
    }

    /// A new order with the given client id.
    pub fn with_id(price: i64, quantity: i64, is_open: bool, is_long: bool, order_id: u32) -> (r: Order)
        ensures
            r.same_terms(price as int, quantity as int, is_open, is_long),
            r.order_id == order_id,
    {
        Order { price, quantity, is_open, is_long, order_id }
    }

    pub fn get_price(&self) -> (r: i64)
        ensures
            r == self.price,
    {
        self.price
    }

    pub fn get_quantity(&self) -> (r: i64)
        ensures
            r == self.quantity,
    {
        self.quantity
    }

    pub fn set_quantity(&mut self, quantity: i64)
        ensures
            *final(self) == (Order { quantity, ..*old(self) }),
    {
        self.quantity = quantity;
    }

    /// An order is sent to the exchange only with a positive quantity.
    pub fn is_real(&self) -> (r: bool)
        ensures
            r == (self.quantity > 0),
    {
        self.quantity > 0
    }

    pub fn get_id(&self) -> (r: u32)
        ensures
            r == self.order_id,
    {
        self.order_id
    }

    pub fn is_open(&self) -> (r: bool)
        ensures
            r == self.is_open,
    {
        self.is_open
    }

    pub fn is_long(&self) -> (r: bool)
        ensures
            r == self.is_long,
    {
        self.is_long
    }
}

} // verus!
