//! Order execution gateway: an idempotent order-submission pipeline with a
//! per-venue circuit breaker, a retry engine with exponential backoff and
//! jitter, and an order lifecycle state machine that tracks partial fills.
//!
//! Prices, quantities and the derived scores are carried as fixed-point
//! integers with six fractional decimal digits ("micro-units"), so that the
//! arithmetic of the rules can be verified exactly.
pub mod api;
pub mod assoc;
pub mod circuit_breaker;
pub mod enums;
pub mod errors;
pub mod exchange_adapter;
pub mod external;
pub mod gateway;
pub mod market_data;
pub mod order_manager;
pub mod orders;
pub mod patterns;
pub mod retry;
pub mod signals;
pub mod text;
pub mod types;
