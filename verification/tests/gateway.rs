use execution_gateway::circuit_breaker::CircuitBreakerState;
use execution_gateway::enums::{Direction, OrderStatus, OrderType};
use execution_gateway::exchange_adapter::MockExchangeAdapter;
use execution_gateway::gateway::{apply_partial_fills, ExecutionGateway, GatewayConfig, OrderExecution, OrderExecutionStatus, PartialFill, SubmissionStep};
use execution_gateway::order_manager::OrderLifecycleState;
use execution_gateway::orders::{OrderDecision, MICRO};

/// A deterministic uuid-shaped decision id for test runs.
fn did(tag: u64) -> String {
    format!("00000000-0000-4000-8000-{:012x}", tag)
}

fn create_test_order_decision(decision_id: &str) -> OrderDecision {
    let mut decision = OrderDecision::new("test_signal".to_string(), "BTCUSD".to_string());
    decision.decision_id = decision_id.to_string();
    decision.direction = Direction::Long;
    decision.order_type = OrderType::Limit;
    decision.base_quantity = 100_000;
    decision.risk_adjusted_quantity = 100_000;
    decision.max_position_value = 10000 * MICRO;
    decision.entry_price = 50000 * MICRO;
    decision.stop_loss = 49000 * MICRO;
    decision.take_profit = Some(52000 * MICRO);
    decision.risk_amount = 100 * MICRO;
    decision.risk_percentage = MICRO;
    decision.leverage = MICRO;
    decision.portfolio_value = 10000 * MICRO;
    decision.available_margin = 5000 * MICRO;
    decision.current_exposure = 100_000;
    decision.confidence_score = 800_000;
    decision.confluence_score = 75 * MICRO;
    decision.risk_reward_ratio = 2 * MICRO;
    decision
}

#[test]
fn test_gateway_creation() {
    let gateway: ExecutionGateway<MockExchangeAdapter> =
        ExecutionGateway::new(GatewayConfig::default());
    assert_eq!(gateway.get_active_orders_count(), 0);
}

#[test]
fn test_register_exchange_adapter() {
    let mut gateway = ExecutionGateway::new(GatewayConfig::default());
    gateway.register_exchange_adapter("test_exchange".to_string(), MockExchangeAdapter::new());

    assert_eq!(
        gateway.circuit_breaker_state("test_exchange"),
        Some(CircuitBreakerState::Closed)
    );
}

#[test]
fn test_place_order_success() {
    // The happy path: an always-filling venue, one decision.
    let mut gateway = ExecutionGateway::new(GatewayConfig::default());
    gateway.register_exchange_adapter("default".to_string(), MockExchangeAdapter::new());

    let result = gateway.place_order(create_test_order_decision(&did(1)));
    assert!(result.is_ok());
    let execution_result = result.unwrap();
    assert_eq!(execution_result.status, OrderStatus::Filled);
    assert_eq!(execution_result.filled_quantity, 100_000);
    // The mock venue charges a tenth of a percent of the traded value:
    // 0.1 units at 50000 cost 5 whole units of commission.
    assert_eq!(execution_result.commission, 5 * MICRO);
    assert_eq!(gateway.get_active_orders_count(), 1);
    assert_eq!(gateway.adapter_call_count(), 1);
}

#[test]
fn test_place_order_idempotency() {
    let mut gateway = ExecutionGateway::new(GatewayConfig::default());
    gateway.register_exchange_adapter("default".to_string(), MockExchangeAdapter::new());

    let result1 = gateway.place_order(create_test_order_decision(&did(1)));
    let result2 = gateway.place_order(create_test_order_decision(&did(1)));

    assert!(result1.is_ok());
    assert!(result2.is_ok());

    // Only one tracked order, and only one adapter invocation: the second
    // call answered from the dedup table.
    assert_eq!(gateway.get_active_orders_count(), 1);
    assert_eq!(gateway.adapter_call_count(), 1);

    let first = result1.unwrap();
    let second = result2.unwrap();
    // The replay reconstructs the result the first caller saw, identity
    // and timestamps included.
    assert_eq!(first.execution_id, second.execution_id);
    assert_eq!(first.order_id, second.order_id);
    assert_eq!(first.status, second.status);
    assert_eq!(first.filled_quantity, second.filled_quantity);
    assert_eq!(first.commission, second.commission);
    assert_eq!(first.submitted_at, second.submitted_at);
    assert_eq!(first.filled_at, second.filled_at);
}

#[test]
fn test_place_order_with_retry() {
    let config = GatewayConfig {
        max_retries: 2,
        base_retry_delay_ms: 10,
        max_retry_delay_ms: 100,
        ..GatewayConfig::default()
    };
    let mut gateway = ExecutionGateway::new(config);
    gateway.register_exchange_adapter(
        "default".to_string(),
        MockExchangeAdapter::new().with_failure(true),
    );

    let result = gateway.place_order(create_test_order_decision(&did(1)));
    assert!(result.is_err());

    // Retry bound: exactly the three permitted attempts were made.
    assert_eq!(gateway.adapter_call_count(), 3);

    // The lifecycle ended terminal Failed.
    let lifecycle = gateway.order_manager().get_order_by_client_id(&did(1)).unwrap();
    assert_eq!(lifecycle.state, OrderLifecycleState::Failed);
}

#[test]
fn test_circuit_breaker_functionality() {
    let config = GatewayConfig {
        circuit_breaker_failure_threshold: 2,
        circuit_breaker_recovery_timeout_ms: 100,
        ..GatewayConfig::default()
    };
    let mut gateway = ExecutionGateway::new(config);
    gateway.register_exchange_adapter(
        "default".to_string(),
        MockExchangeAdapter::new().with_failure(true),
    );

    for i in 0..3 {
        let _ = gateway.place_order(create_test_order_decision(&did(i)));
    }

    assert_eq!(gateway.circuit_breaker_state("default"), Some(CircuitBreakerState::Open));
    // A further admission check within the recovery timeout is denied.
    assert_eq!(gateway.circuit_breaker_is_open("default"), Some(true));
}

#[test]
fn test_breaker_open_fails_fast() {
    // Once open, a new decision is refused without touching the adapter.
    let config = GatewayConfig { circuit_breaker_failure_threshold: 1, ..GatewayConfig::default() };
    let mut gateway = ExecutionGateway::new(config);
    gateway.register_exchange_adapter(
        "default".to_string(),
        MockExchangeAdapter::new().with_failure(true),
    );

    let _ = gateway.place_order(create_test_order_decision(&did(1)));
    assert_eq!(gateway.circuit_breaker_state("default"), Some(CircuitBreakerState::Open));
    let calls_before = gateway.adapter_call_count();

    let result = gateway.place_order(create_test_order_decision(&did(2)));
    assert!(result.is_err());
    assert_eq!(gateway.adapter_call_count(), calls_before);

    let lifecycle = gateway.order_manager().get_order_by_client_id(&did(2)).unwrap();
    assert_eq!(lifecycle.state, OrderLifecycleState::Failed);
}

#[test]
fn test_breaker_recovers_with_working_adapter() {
    // After the breaker opened, swapping in a working venue (which also
    // resets the breaker) lets a fresh decision through again.
    let config = GatewayConfig { circuit_breaker_failure_threshold: 2, ..GatewayConfig::default() };
    let mut gateway = ExecutionGateway::new(config);
    gateway.register_exchange_adapter(
        "default".to_string(),
        MockExchangeAdapter::new().with_failure(true),
    );

    for i in 0..3 {
        let _ = gateway.place_order(create_test_order_decision(&did(i)));
    }
    assert_eq!(gateway.circuit_breaker_state("default"), Some(CircuitBreakerState::Open));

    gateway.register_exchange_adapter("default".to_string(), MockExchangeAdapter::new());
    let result = gateway.place_order(create_test_order_decision(&did(9)));
    assert!(result.is_ok());
    assert_eq!(gateway.circuit_breaker_state("default"), Some(CircuitBreakerState::Closed));
}

#[test]
fn test_partial_fill_handling() {
    let mut gateway = ExecutionGateway::new(GatewayConfig::default());
    gateway.register_exchange_adapter(
        "default".to_string(),
        MockExchangeAdapter::new().with_partial_fills(500_000),
    );

    let mut decision = create_test_order_decision(&did(1));
    decision.base_quantity = MICRO;
    decision.risk_adjusted_quantity = MICRO;

    let result = gateway.place_order(decision);
    assert!(result.is_ok());
    let execution_result = result.unwrap();
    assert_eq!(execution_result.status, OrderStatus::PartiallyFilled);
    assert_eq!(execution_result.filled_quantity, 500_000);

    // Fill conservation on the tracked record: the total equals the sum
    // of the recorded fills.
    let record = gateway.get_active_order(&did(1)).unwrap();
    assert_eq!(record.partial_fills.len(), 1);
    assert_eq!(record.total_filled, 500_000);
    let sum: i64 = record.partial_fills.iter().map(|f| f.quantity).sum();
    assert_eq!(record.total_filled, sum);
    assert_eq!(record.average_price, Some(50000 * MICRO));

    let lifecycle = gateway.order_manager().get_order_by_client_id(&did(1)).unwrap();
    assert_eq!(lifecycle.state, OrderLifecycleState::PartiallyFilled);
}

#[test]
fn test_order_cancellation() {
    let mut gateway = ExecutionGateway::new(GatewayConfig::default());
    gateway.register_exchange_adapter(
        "default".to_string(),
        MockExchangeAdapter::new().with_partial_fills(500_000),
    );

    // Cancelling an unknown order reports it as not found.
    let missing = gateway.cancel_order("no_such_order");
    assert!(missing.is_err());

    let mut decision = create_test_order_decision(&did(1));
    decision.risk_adjusted_quantity = MICRO;
    decision.base_quantity = MICRO;
    let placed = gateway.place_order(decision).unwrap();

    // A partially filled order can still be cancelled.
    let cancelled = gateway.cancel_order(&placed.order_id);
    assert!(cancelled.is_ok());
    let lifecycle = gateway.order_manager().get_order(&placed.order_id).unwrap();
    assert_eq!(lifecycle.state, OrderLifecycleState::Cancelled);

    // A terminal order cannot be cancelled again.
    let again = gateway.cancel_order(&placed.order_id);
    assert!(again.is_err());
}

#[test]
fn test_order_status_query() {
    let mut gateway = ExecutionGateway::new(GatewayConfig::default());
    gateway.register_exchange_adapter("default".to_string(), MockExchangeAdapter::new());

    // An unknown order falls back to the venue, which reports it filled.
    let result = gateway.get_order_status("test_order_id");
    assert!(result.is_ok());
    assert_eq!(result.unwrap(), OrderExecutionStatus::Filled);

    // A known order answers from the lifecycle table.
    let placed = gateway.place_order(create_test_order_decision(&did(1))).unwrap();
    let status = gateway.get_order_status(&placed.order_id).unwrap();
    assert_eq!(status, OrderExecutionStatus::Filled);
}

#[test]
fn test_cleanup_completed_orders() {
    let mut gateway = ExecutionGateway::new(GatewayConfig::default());
    gateway.register_exchange_adapter("default".to_string(), MockExchangeAdapter::new());

    let _ = gateway.place_order(create_test_order_decision(&did(1)));
    assert_eq!(gateway.get_active_orders_count(), 1);

    // A recent order survives a sweep with a day of retention.
    let removed = gateway.cleanup_completed_orders(24);
    assert_eq!(removed, 0);
    assert_eq!(gateway.get_active_orders_count(), 1);

    // A sweep with the cutoff beyond every timestamp reaps the filled
    // order together with its dedup entry, so the id can be reused.
    let removed = gateway.cleanup_completed_orders_at(u64::MAX);
    assert_eq!(removed, 1);
    assert_eq!(gateway.get_active_orders_count(), 0);

    let result = gateway.place_order(create_test_order_decision(&did(1)));
    assert!(result.is_ok());
    assert_eq!(gateway.get_active_orders_count(), 1);
    assert_eq!(gateway.adapter_call_count(), 2);
}

#[test]
fn test_validation_rejects_negative_quantity() {
    // The control layer validates before the pipeline runs: a negative
    // risk-adjusted quantity is refused and no lifecycle is created.
    let gateway: ExecutionGateway<MockExchangeAdapter> =
        ExecutionGateway::new(GatewayConfig::default());
    let mut decision = create_test_order_decision(&did(1));
    decision.risk_adjusted_quantity = -MICRO;

    let validation = decision.validate();
    assert_eq!(
        validation.unwrap_err(),
        "Risk adjusted quantity must be positive".to_string()
    );
    assert_eq!(gateway.get_active_orders_count(), 0);
    assert!(gateway.order_manager().get_order_by_client_id(&did(1)).is_none());
}

#[test]
fn test_serial_decisions_each_tracked_once() {
    let mut gateway = ExecutionGateway::new(GatewayConfig::default());
    gateway.register_exchange_adapter("default".to_string(), MockExchangeAdapter::new());

    for i in 0..5 {
        let result = gateway.place_order(create_test_order_decision(&did(200 + i)));
        assert!(result.is_ok());
    }
    assert_eq!(gateway.get_active_orders_count(), 5);
    assert_eq!(gateway.adapter_call_count(), 5);
}

#[test]
fn test_replay_after_failure_repeats_the_error() {
    let config = GatewayConfig { max_retries: 0, ..GatewayConfig::default() };
    let mut gateway = ExecutionGateway::new(config);
    gateway.register_exchange_adapter(
        "default".to_string(),
        MockExchangeAdapter::new().with_failure(true),
    );

    let first = gateway.place_order(create_test_order_decision(&did(1)));
    assert!(first.is_err());
    let calls = gateway.adapter_call_count();

    // The replay reports the stored failure without touching the venue.
    let second = gateway.place_order(create_test_order_decision(&did(1)));
    assert!(second.is_err());
    assert_eq!(gateway.adapter_call_count(), calls);
    assert_eq!(gateway.get_active_orders_count(), 1);
}

#[test]
fn test_duplicate_fill_ids_are_discarded() {
    let mut exec = OrderExecution {
        order_id: "o1".to_string(),
        client_id: "c1".to_string(),
        execution_id: "e1".to_string(),
        exchange: "default".to_string(),
        status: OrderExecutionStatus::Pending,
        reported_status: OrderStatus::Pending,
        created_at: 1,
        updated_at: 1,
        filled_at: None,
        retry_count: 0,
        partial_fills: Vec::new(),
        total_filled: 0,
        average_price: None,
        commission: 0,
        reported_filled: 0,
        reported_price: None,
        quantity_cap: MICRO,
    };

    let batch = vec![
        PartialFill {
            fill_id: "f1".to_string(),
            quantity: 300_000,
            price: 50000 * MICRO,
            timestamp: 2,
            commission: 15 * MICRO,
        },
        PartialFill {
            fill_id: "f1".to_string(),
            quantity: 300_000,
            price: 50000 * MICRO,
            timestamp: 3,
            commission: 15 * MICRO,
        },
        PartialFill {
            fill_id: "f2".to_string(),
            quantity: 200_000,
            price: 51000 * MICRO,
            timestamp: 4,
            commission: 10 * MICRO,
        },
    ];

    apply_partial_fills(&mut exec, &batch, 5);

    // The repeated fill id was discarded; the totals reconcile the rest.
    assert_eq!(exec.partial_fills.len(), 2);
    assert_eq!(exec.total_filled, 500_000);
    // Volume-weighted average: (0.3 * 50000 + 0.2 * 51000) / 0.5 = 50400.
    assert_eq!(exec.average_price, Some(50400 * MICRO));
    assert_eq!(exec.updated_at, 5);

    // Re-reporting the same batch changes nothing.
    apply_partial_fills(&mut exec, &batch, 6);
    assert_eq!(exec.partial_fills.len(), 2);
    assert_eq!(exec.total_filled, 500_000);
}

#[test]
fn test_unsound_fills_are_refused() {
    let mut exec = OrderExecution {
        order_id: "o1".to_string(),
        client_id: "c1".to_string(),
        execution_id: "e1".to_string(),
        exchange: "default".to_string(),
        status: OrderExecutionStatus::Pending,
        reported_status: OrderStatus::Pending,
        created_at: 1,
        updated_at: 1,
        filled_at: None,
        retry_count: 0,
        partial_fills: Vec::new(),
        total_filled: 0,
        average_price: None,
        commission: 0,
        reported_filled: 0,
        reported_price: None,
        quantity_cap: MICRO,
    };

    let batch = vec![
        PartialFill {
            fill_id: "bad_qty".to_string(),
            quantity: 0,
            price: 50000 * MICRO,
            timestamp: 2,
            commission: 0,
        },
        PartialFill {
            fill_id: "bad_price".to_string(),
            quantity: 100_000,
            price: -1,
            timestamp: 2,
            commission: 0,
        },
        PartialFill {
            fill_id: "good".to_string(),
            quantity: 100_000,
            price: 50000 * MICRO,
            timestamp: 2,
            commission: 0,
        },
    ];

    apply_partial_fills(&mut exec, &batch, 3);
    assert_eq!(exec.partial_fills.len(), 1);
    assert_eq!(exec.total_filled, 100_000);
}

#[test]
fn test_unstable_venue_trips_breaker() {
    // A run of decisions against a failing venue: every submission fails,
    // and the breaker ends open.
    let config = GatewayConfig {
        max_retries: 3,
        base_retry_delay_ms: 10,
        circuit_breaker_failure_threshold: 5,
        circuit_breaker_recovery_timeout_ms: 100,
        ..GatewayConfig::default()
    };
    let mut gateway = ExecutionGateway::new(config);
    gateway.register_exchange_adapter(
        "default".to_string(),
        MockExchangeAdapter::new().with_failure(true).with_delay(50),
    );

    let mut failure_count = 0;
    for i in 0..10 {
        let result = gateway.place_order(create_test_order_decision(&did(300 + i)));
        if result.is_err() {
            failure_count += 1;
        }
    }

    assert!(failure_count > 0);
    assert_eq!(gateway.circuit_breaker_state("default"), Some(CircuitBreakerState::Open));
}

#[test]
fn test_malformed_decision_id_is_refused() {
    // The decision id is the idempotency key and must look like a UUID;
    // anything else is refused before any state is created.
    let mut gateway = ExecutionGateway::new(GatewayConfig::default());
    gateway.register_exchange_adapter("default".to_string(), MockExchangeAdapter::new());

    let result = gateway.place_order(create_test_order_decision("not-a-uuid"));
    assert!(result.is_err());
    assert_eq!(gateway.get_active_orders_count(), 0);
    assert_eq!(gateway.adapter_call_count(), 0);
    assert!(gateway.order_manager().get_order_by_client_id("not-a-uuid").is_none());
}

#[test]
fn test_fills_never_exceed_requested_quantity() {
    // A record's cap is the requested quantity: a batch reporting more
    // than the order asked for is only taken up to the cap.
    let mut exec = OrderExecution {
        order_id: "o1".to_string(),
        client_id: "c1".to_string(),
        execution_id: "e1".to_string(),
        exchange: "default".to_string(),
        status: OrderExecutionStatus::Pending,
        reported_status: OrderStatus::Pending,
        created_at: 1,
        updated_at: 1,
        filled_at: None,
        retry_count: 0,
        partial_fills: Vec::new(),
        total_filled: 0,
        average_price: None,
        commission: 0,
        reported_filled: 0,
        reported_price: None,
        quantity_cap: 500_000,
    };

    let batch = vec![
        PartialFill {
            fill_id: "f1".to_string(),
            quantity: 400_000,
            price: 50000 * MICRO,
            timestamp: 2,
            commission: 0,
        },
        PartialFill {
            fill_id: "f2".to_string(),
            quantity: 400_000,
            price: 50000 * MICRO,
            timestamp: 3,
            commission: 0,
        },
        PartialFill {
            fill_id: "f3".to_string(),
            quantity: 100_000,
            price: 50000 * MICRO,
            timestamp: 4,
            commission: 0,
        },
    ];

    apply_partial_fills(&mut exec, &batch, 5);
    // The second fill would push the total past the 0.5-unit request and
    // is refused; the third still fits exactly.
    assert_eq!(exec.partial_fills.len(), 2);
    assert_eq!(exec.total_filled, 500_000);
}


#[test]
fn test_host_paced_submission_steps() {
    // A host driving the submission attempt by attempt gets the proved
    // backoff window to sleep after each retryable failure.
    let config = GatewayConfig {
        max_retries: 2,
        base_retry_delay_ms: 10,
        max_retry_delay_ms: 100,
        ..GatewayConfig::default()
    };
    let mut gateway = ExecutionGateway::new(config);
    gateway.register_exchange_adapter(
        "default".to_string(),
        MockExchangeAdapter::new().with_failure(true),
    );
    let decision = create_test_order_decision(&did(1));

    match gateway.submit_order_step(&decision, 0) {
        SubmissionStep::RetryAfter(delay) => assert!(delay >= 8 && delay <= 12),
        SubmissionStep::Settled(_) => panic!("expected a retry step"),
    }
    match gateway.submit_order_step(&decision, 1) {
        SubmissionStep::RetryAfter(delay) => assert!(delay >= 15 && delay <= 25),
        SubmissionStep::Settled(_) => panic!("expected a retry step"),
    }
    match gateway.submit_order_step(&decision, 2) {
        SubmissionStep::Settled(out) => assert!(out.is_err()),
        SubmissionStep::RetryAfter(_) => panic!("expected the attempts to be exhausted"),
    }

    // Exactly one adapter call per attempt, one tracked order, terminal
    // Failed lifecycle.
    assert_eq!(gateway.adapter_call_count(), 3);
    assert_eq!(gateway.get_active_orders_count(), 1);
    let lifecycle = gateway.order_manager().get_order_by_client_id(&did(1)).unwrap();
    assert_eq!(lifecycle.state, OrderLifecycleState::Failed);

    // A fresh attempt-zero for the same id replays the stored failure
    // without touching the venue.
    match gateway.submit_order_step(&decision, 0) {
        SubmissionStep::Settled(out) => assert!(out.is_err()),
        SubmissionStep::RetryAfter(_) => panic!("expected a settled replay"),
    }
    assert_eq!(gateway.adapter_call_count(), 3);
}

#[test]
fn test_submission_step_success_and_unknown_continuation() {
    let mut gateway = ExecutionGateway::new(GatewayConfig::default());
    gateway.register_exchange_adapter("default".to_string(), MockExchangeAdapter::new());

    let decision = create_test_order_decision(&did(1));
    match gateway.submit_order_step(&decision, 0) {
        SubmissionStep::Settled(out) => {
            let result = out.unwrap();
            assert_eq!(result.status, OrderStatus::Filled);
            assert_eq!(result.retry_count, 0);
        }
        SubmissionStep::RetryAfter(_) => panic!("expected a settled fill"),
    }
    assert_eq!(gateway.get_active_orders_count(), 1);

    // Continuing a decision id that was never started settles with an
    // error and registers nothing.
    let unknown = create_test_order_decision(&did(2));
    match gateway.submit_order_step(&unknown, 1) {
        SubmissionStep::Settled(out) => assert!(out.is_err()),
        SubmissionStep::RetryAfter(_) => panic!("expected a settled error"),
    }
    assert_eq!(gateway.get_active_orders_count(), 1);
}
