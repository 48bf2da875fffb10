use execution_gateway::circuit_breaker::{CircuitBreaker, CircuitBreakerState};

#[test]
fn test_circuit_breaker_closed_initially() {
    let mut cb = CircuitBreaker::new(3, 1000);
    assert_eq!(cb.get_state(), CircuitBreakerState::Closed);
    assert!(!cb.is_open());
}

#[test]
fn test_circuit_breaker_opens_after_threshold() {
    let mut cb = CircuitBreaker::new(3, 1000);

    cb.record_failure();
    assert_eq!(cb.get_state(), CircuitBreakerState::Closed);

    cb.record_failure();
    assert_eq!(cb.get_state(), CircuitBreakerState::Closed);

    cb.record_failure();
    assert_eq!(cb.get_state(), CircuitBreakerState::Open);
    assert!(cb.is_open());
}

#[test]
fn test_circuit_breaker_success_resets_failures() {
    let mut cb = CircuitBreaker::new(3, 1000);

    cb.record_failure();
    cb.record_failure();
    assert_eq!(cb.get_failure_count(), 2);

    cb.record_success();
    assert_eq!(cb.get_failure_count(), 0);
    assert_eq!(cb.get_state(), CircuitBreakerState::Closed);
}

#[test]
fn test_circuit_breaker_recovery_timeout() {
    let mut cb = CircuitBreaker::new(2, 100);

    cb.record_failure_at(1000);
    cb.record_failure_at(1000);
    assert_eq!(cb.get_state(), CircuitBreakerState::Open);
    assert!(cb.is_open_at(1050));

    // 150 ms after the failure the recovery timeout has elapsed.
    assert!(!cb.is_open_at(1150));
    assert_eq!(cb.get_state(), CircuitBreakerState::HalfOpen);
}

#[test]
fn test_circuit_breaker_half_open_success() {
    let mut cb = CircuitBreaker::new(2, 100);

    cb.force_open_at(1000);
    let _ = cb.is_open_at(1150);
    assert_eq!(cb.get_state(), CircuitBreakerState::HalfOpen);

    cb.record_success();
    assert_eq!(cb.get_state(), CircuitBreakerState::Closed);
    assert_eq!(cb.get_failure_count(), 0);
}

#[test]
fn test_circuit_breaker_half_open_failure() {
    let mut cb = CircuitBreaker::new(2, 100);

    cb.force_open_at(1000);
    let _ = cb.is_open_at(1150);
    assert_eq!(cb.get_state(), CircuitBreakerState::HalfOpen);

    cb.record_failure_at(1200);
    assert_eq!(cb.get_state(), CircuitBreakerState::Open);
}

#[test]
fn test_circuit_breaker_open_denies_until_timeout() {
    let mut cb = CircuitBreaker::new(1, 1000);
    cb.record_failure_at(5000);
    assert_eq!(cb.get_state(), CircuitBreakerState::Open);
    // Every admission check before the timeout is denied.
    assert!(cb.is_open_at(5000));
    assert!(cb.is_open_at(5500));
    assert!(cb.is_open_at(5999));
    // At exactly the timeout the breaker half-opens.
    assert!(!cb.is_open_at(6000));
    assert_eq!(cb.get_state(), CircuitBreakerState::HalfOpen);
}

#[test]
fn test_circuit_breaker_force_close() {
    let mut cb = CircuitBreaker::new(1, 1000);
    cb.record_failure_at(10);
    assert_eq!(cb.get_state(), CircuitBreakerState::Open);
    cb.force_close();
    assert_eq!(cb.get_state(), CircuitBreakerState::Closed);
    assert_eq!(cb.get_failure_count(), 0);
}
