//! Venue-neutral order request handed to an adapter.
//!
//! Quantities and prices are fixed-point integers with six fractional
//! decimal digits (micro-units); timestamps are milliseconds since the
//! Unix epoch.
use vstd::prelude::*;

verus! {

/// Side of a venue order.
#[derive(Debug, Clone, Copy, PartialEq, Eq, Structural)]
pub enum OrderSide {
    Buy,
    Sell,
}

/// Kind of a venue order.
#[derive(Debug, Clone, Copy, PartialEq, Eq, Structural)]
pub enum OrderType {
    Market,
    Limit,
    StopLoss,
    TakeProfit,
}

/// A venue-neutral order request: what the pipeline hands to an adapter.
#[derive(Debug)]
pub struct OrderRequest {
    /// Server-minted order identifier.
    pub id: String,
    pub symbol: String,
    pub side: OrderSide,
    /// Quantity in micro-units.
    pub size: i64,
    /// Limit price in micro-units, where the order kind carries one.
    pub price: Option<i64>,
    pub order_type: OrderType,
    /// Milliseconds since the Unix epoch.
    pub timestamp: u64,
}

} // verus!
