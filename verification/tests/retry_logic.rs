use execution_gateway::errors::TradingError;
use execution_gateway::retry::{determine_retry_policy, RetryLogic, RetryPolicy};
use execution_gateway::text::{contains_substring, contains_substring_ci, str_eq};

#[test]
fn test_retry_logic_creation() {
    let retry_logic = RetryLogic::new(3, 100, 5000);
    assert_eq!(retry_logic.max_retries(), 3);
}

#[test]
fn test_should_retry() {
    let retry_logic = RetryLogic::new(3, 100, 5000);

    assert!(retry_logic.should_retry(0));
    assert!(retry_logic.should_retry(1));
    assert!(retry_logic.should_retry(2));
    assert!(!retry_logic.should_retry(3));
    assert!(!retry_logic.should_retry(4));
}

#[test]
fn test_calculate_delay_exponential_backoff() {
    let retry_logic = RetryLogic::new(5, 100, 5000);

    assert_eq!(retry_logic.calculate_delay(0), 0);

    let delay1 = retry_logic.calculate_delay(1);
    let delay2 = retry_logic.calculate_delay(2);
    let delay3 = retry_logic.calculate_delay(3);

    assert!(delay1 >= 75 && delay1 <= 125);
    assert!(delay2 >= 150 && delay2 <= 250);
    assert!(delay3 >= 300 && delay3 <= 500);
}

#[test]
fn test_calculate_delay_max_cap() {
    let retry_logic = RetryLogic::new(10, 100, 1000);

    let delay = retry_logic.calculate_delay(10);
    assert!(delay <= 1250);
}

#[test]
fn test_calculate_max_total_time() {
    let retry_logic = RetryLogic::new(3, 100, 5000);
    let total_time = retry_logic.calculate_max_total_time();

    assert!(total_time > 0);
    assert!(total_time < 10000);
}

#[test]
fn test_retry_policy_network_error() {
    let error = TradingError::NetworkError { message: "connection refused".to_string() };
    assert!(matches!(determine_retry_policy(&error), RetryPolicy::ExponentialBackoff));
}

#[test]
fn test_retry_policy_execution_error_timeout() {
    let error = TradingError::ExecutionError { message: "Request timeout".to_string() };
    assert!(matches!(determine_retry_policy(&error), RetryPolicy::ExponentialBackoff));
}

#[test]
fn test_retry_policy_execution_error_insufficient_funds() {
    let error = TradingError::ExecutionError { message: "Insufficient funds".to_string() };
    assert!(matches!(determine_retry_policy(&error), RetryPolicy::NoRetry));
}

#[test]
fn test_retry_policy_vocabulary_is_case_insensitive() {
    let shouting = TradingError::ExecutionError { message: "MARKET CLOSED".to_string() };
    assert!(matches!(determine_retry_policy(&shouting), RetryPolicy::NoRetry));

    let mixed = TradingError::ExecutionError { message: "Request Timeout".to_string() };
    assert!(matches!(determine_retry_policy(&mixed), RetryPolicy::ExponentialBackoff));
}

#[test]
fn test_retry_policy_risk_limit_error() {
    let error = TradingError::RiskLimitError { limit: "Position size too large".to_string() };
    assert!(matches!(determine_retry_policy(&error), RetryPolicy::NoRetry));
}

#[test]
fn test_retry_policy_other_errors() {
    let data = TradingError::DataError { source: "missing candles".to_string() };
    assert!(matches!(determine_retry_policy(&data), RetryPolicy::ExponentialBackoff));

    let ser = TradingError::SerializationError { message: "bad json".to_string() };
    assert!(matches!(determine_retry_policy(&ser), RetryPolicy::NoRetry));

    let unknown = TradingError::ExecutionError { message: "mystery venue hiccup".to_string() };
    assert!(matches!(determine_retry_policy(&unknown), RetryPolicy::ExponentialBackoff));

    let closed = TradingError::ExecutionError { message: "market closed until Monday".to_string() };
    assert!(matches!(determine_retry_policy(&closed), RetryPolicy::NoRetry));
}

#[test]
fn test_contains_substring_matches() {
    assert!(contains_substring("request timeout reached", "timeout"));
    assert!(contains_substring("timeout", "timeout"));
    assert!(contains_substring("anything", ""));
    assert!(!contains_substring("time out", "timeout"));
    assert!(!contains_substring("tim", "timeout"));
}

#[test]
fn test_contains_substring_ci_matches() {
    assert!(contains_substring_ci("Insufficient Funds for account", "insufficient funds"));
    assert!(contains_substring_ci("TIMEOUT", "timeout"));
    assert!(contains_substring_ci("timeout", "timeout"));
    assert!(!contains_substring_ci("time out", "timeout"));
}

#[test]
fn test_str_eq_semantics() {
    assert!(str_eq("rate limit", "rate limit"));
    assert!(!str_eq("rate limit", "rate limits"));
    assert!(!str_eq("", "x"));
    assert!(str_eq("", ""));
}

#[test]
fn test_error_codes_and_statuses() {
    let execution = TradingError::ExecutionError { message: "boom".to_string() };
    assert_eq!(execution.code(), "EXECUTION_ERROR");
    assert_eq!(execution.http_status(), 500);
    assert_eq!(execution.describe(), "Order execution failed: boom".to_string());

    let risk = TradingError::RiskLimitError { limit: "too big".to_string() };
    assert_eq!(risk.code(), "RISK_LIMIT_ERROR");
    assert_eq!(risk.http_status(), 403);

    let network = TradingError::NetworkError { message: "down".to_string() };
    assert_eq!(network.code(), "NETWORK_ERROR");
    assert_eq!(network.http_status(), 502);

    let data = TradingError::DataError { source: "gap".to_string() };
    assert_eq!(data.code(), "DATA_ERROR");
    assert_eq!(data.http_status(), 422);

    let ser = TradingError::SerializationError { message: "bad".to_string() };
    assert_eq!(ser.code(), "SERIALIZATION_ERROR");
    assert_eq!(ser.http_status(), 400);
}
