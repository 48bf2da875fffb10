//! The request and response shapes of the control API. The HTTP transport
//! itself lives outside the library; these are the payloads it carries.
use vstd::prelude::*;

use crate::gateway::OrderExecutionStatus;
use crate::orders::{ExecutionResult, OrderDecision};

verus! {

/// Body of an order placement request.
#[derive(Debug)]
pub struct PlaceOrderRequest {
    pub order_decision: OrderDecision,
}

/// Body of a successful order placement response.
#[derive(Debug)]
pub struct PlaceOrderResponse {
    pub execution_result: ExecutionResult,
}

/// Body of an order status response.
#[derive(Debug)]
pub struct OrderStatusResponse {
    pub order_id: String,
    pub status: OrderExecutionStatus,
}

/// Body of a cancellation response.
#[derive(Debug)]
pub struct CancelOrderResponse {
    pub order_id: String,
    pub cancelled: bool,
}

/// Body of a health response.
#[derive(Debug)]
pub struct HealthResponse {
    pub status: String,
    pub active_orders: usize,
    /// Milliseconds since the Unix epoch.
    pub timestamp: u64,
}

/// Body of an error response: a stable machine code and a human message.
#[derive(Debug)]
pub struct ErrorResponse {
    pub error: String,
    pub code: String,
}

} // verus!
