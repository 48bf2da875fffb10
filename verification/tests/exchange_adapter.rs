use execution_gateway::enums::OrderStatus;
use execution_gateway::exchange_adapter::{ExchangeAdapter, MockExchangeAdapter};
use execution_gateway::orders::MICRO;
use execution_gateway::types::{OrderRequest, OrderSide, OrderType};

fn make_request(size: i64, price: Option<i64>) -> OrderRequest {
    OrderRequest {
        id: "order-1".to_string(),
        symbol: "BTCUSD".to_string(),
        side: OrderSide::Buy,
        size,
        price,
        order_type: OrderType::Limit,
        timestamp: 1,
    }
}

#[test]
fn test_mock_adapter_successful_order() {
    let adapter = MockExchangeAdapter::new();
    let order = make_request(100_000, Some(50000 * MICRO));

    let result = adapter.place_order(&order);
    assert!(result.is_ok());

    let order_result = result.unwrap();
    assert_eq!(order_result.status, OrderStatus::Filled);
    assert_eq!(order_result.filled_quantity, 100_000);
}

#[test]
fn test_mock_adapter_failure() {
    let adapter = MockExchangeAdapter::new().with_failure(true);
    let order = make_request(100_000, Some(50000 * MICRO));

    let result = adapter.place_order(&order);
    assert!(result.is_err());
}

#[test]
fn test_mock_adapter_partial_fills() {
    let adapter = MockExchangeAdapter::new().with_partial_fills(500_000);
    let order = make_request(MICRO, Some(50000 * MICRO));

    let result = adapter.place_order(&order);
    assert!(result.is_ok());

    let order_result = result.unwrap();
    assert_eq!(order_result.status, OrderStatus::PartiallyFilled);
    assert_eq!(order_result.filled_quantity, 500_000);
    assert_eq!(order_result.partial_fills.len(), 1);
    assert_eq!(order_result.partial_fills[0].quantity, 500_000);
}

#[test]
fn test_price_rounding() {
    let adapter = MockExchangeAdapter::new();

    // A millicent tick: halves round up in the fixed-point model.
    assert_eq!(adapter.round_price(50000_123_000, 10_000), 50000_120_000);
    assert_eq!(adapter.round_price(50000_126_000, 10_000), 50000_130_000);
    assert_eq!(adapter.round_price(50000_125_000, 10_000), 50000_130_000);
    // A non-positive tick leaves the price alone.
    assert_eq!(adapter.round_price(50000_123_000, 0), 50000_123_000);
}

#[test]
fn test_quantity_rounding() {
    let adapter = MockExchangeAdapter::new();

    assert_eq!(adapter.round_quantity(123_400, 1_000), 123_000);
    assert_eq!(adapter.round_quantity(123_900, 1_000), 123_000);
    assert_eq!(adapter.round_quantity(1_500_000, 100_000), 1_500_000);
}

#[test]
fn test_order_validation() {
    let adapter = MockExchangeAdapter::new();

    let valid_order = make_request(100_000, Some(50000 * MICRO));
    assert!(adapter.validate_order(&valid_order).is_ok());

    // Below the venue's minimum size of 0.001 units.
    let small_order = make_request(100, Some(50000 * MICRO));
    assert!(adapter.validate_order(&small_order).is_err());
}

#[test]
fn test_mock_adapter_other_calls() {
    let adapter = MockExchangeAdapter::new();
    assert!(adapter.cancel_order("x").is_ok());
    assert_eq!(adapter.get_order_status("x").unwrap(), OrderStatus::Filled);
    assert!(adapter.amend_order("x", None, None).is_ok());
    assert!(adapter.get_account_info().is_ok());
    let info = adapter.get_exchange_info("BTCUSD").unwrap();
    assert_eq!(info.name, "MockExchange".to_string());

    let failing = MockExchangeAdapter::new().with_failure(true);
    assert!(failing.cancel_order("x").is_err());
    assert!(failing.get_order_status("x").is_err());
    assert!(failing.get_account_info().is_err());
    assert!(failing.get_exchange_info("BTCUSD").is_err());
}
