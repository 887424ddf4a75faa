use vstd::prelude::*;

use crate::levels::{Price, Quantity, QUANTITY_ZERO};
use crate::misc::DateTimeUTC;

verus! {

/// An order ID.
pub type OrderID = String;

/// A symbol.
pub type Symbol = String;

/// What an order asks for.
#[derive(Clone)]
pub enum OrderContent {
    /// A new limit order; a negative `quantity` sells.
    NewDirect { price: Price, quantity: Quantity },
    /// A new market order; a negative `quantity` sells.
    NewMarket { quantity: Quantity },
    /// A cancel of an earlier order.
    Cancel { original_client_order_id: OrderID },
}

/// How long an order stays in force.
#[derive(Clone)]
pub enum TimeInForce {
    /// Good until cancelled, or until `expiration_time`.
    GTC { expiration_time: DateTimeUTC },
    /// Immediate or cancel.
    IoC,
    /// Fill or kill: immediate, and all or none.
    FoK,
}

/// An order request.
#[derive(Clone)]
pub struct OrderRequest {
    /// What the order asks for.
    pub content: OrderContent,
    /// The instrument.
    pub symbol: Symbol,
    /// The ID the client gave the order.
    pub client_order_id: OrderID,
}

/// The outcome that an order response reports.
#[derive(Clone)]
pub enum OrderResponseStatus {
    /// The order was taken.
    Accepted,
    Filled { executed_price: Price, executed_quantity: Quantity },
    Rejected { code: Option<i32>, message: Option<String> },
}

/// An order response.
#[derive(Clone)]
pub struct OrderResponse {
    pub status: OrderResponseStatus,
    /// The `client_order_id` of the request answered.
    pub client_order_id: OrderID,
}

/// The notional value that a status reports: price times quantity when filled, else zero.
pub open spec fn notional_of(status: OrderResponseStatus) -> int {
    match status {
        OrderResponseStatus::Filled { executed_price, executed_quantity } => executed_price
            * executed_quantity,
        _ => 0,
    }
}

impl OrderResponse {
    /// The notional value of this execution.
    pub fn notional_value(&self) -> (r: Quantity)
        requires
            i128::MIN <= notional_of(self.status) <= i128::MAX,
        ensures
            r == notional_of(self.status),
    {
        match self.status {
            OrderResponseStatus::Filled { executed_price, executed_quantity } => executed_price
                * executed_quantity,
            _ => QUANTITY_ZERO,
        }
    }
}

} // verus!
