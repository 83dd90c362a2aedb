//! The order value object: id, side, amount and price.
//!
//! Amounts and prices are carried as positive counts of a fixed minor unit,
//! so that every quantity the codec and the contracts speak of is a plain
//! integer.

use vstd::prelude::*;

verus! {

/// Side of an order.
#[derive(Clone, Copy, PartialEq, Eq, Structural, Debug)]
pub enum OrderType {
    Buy,
    Sell,
}

/// One trade order. Immutable once constructed; identity is its fields.
#[derive(Clone, Debug)]
pub struct Order {
    /// Caller-assigned identifier; uniqueness is not enforced here.
    pub order_id: String,
    pub order_type: OrderType,
    /// Quantity, in minor units; positive for a well-formed order.
    pub amount: u64,
    /// Price per unit, in minor units; positive for a well-formed order.
    pub price: u64,
}

/// Mathematical model of an order.
pub ghost struct OrderModel {
    pub id: Seq<char>,
    pub order_type: OrderType,
    pub amount: u64,
    pub price: u64,
}

impl View for Order {
    type V = OrderModel;

    open spec fn view(&self) -> OrderModel {
        OrderModel {
            id: self.order_id@,
            order_type: self.order_type,
            amount: self.amount,
            price: self.price,
        }
    }
}

/// Characters an order id may hold: printable ASCII, excluding the two
/// characters the wire encoding gives a meaning to.
pub open spec fn id_char_ok(c: char) -> bool {
    &&& ' ' <= c <= '~'
    &&& c != '"'
    &&& c != '\\'
}

pub open spec fn valid_id(s: Seq<char>) -> bool {
    forall|i: int| 0 <= i < s.len() ==> id_char_ok(#[trigger] s[i])
}

/// A well-formed order: encodable id, positive amount and price.
pub open spec fn wf_order(o: OrderModel) -> bool {
    &&& valid_id(o.id)
    &&& o.amount > 0
    &&& o.price > 0
}

impl Order {
    pub fn new(order_id: &str, order_type: OrderType, amount: u64, price: u64) -> (r: Order)
        ensures
            r@ == (OrderModel { id: order_id@, order_type, amount, price }),
    {
        Order { order_id: order_id.to_owned(), order_type, amount, price }
    }
}

} // verus!
