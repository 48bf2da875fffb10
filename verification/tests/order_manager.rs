use execution_gateway::order_manager::{
    is_terminal_state, validate_state_transition, OrderLifecycleState, OrderManager,
};

#[test]
fn test_order_manager_creation() {
    let manager = OrderManager::new();
    let stats = manager.get_statistics();
    assert_eq!(stats.total_orders, 0);
}

#[test]
fn test_create_order() {
    let mut manager = OrderManager::new();
    let order_id = "test_order_1".to_string();
    let client_id = "client_1".to_string();

    let result = manager.create_order(order_id.clone(), client_id, "BTCUSD".to_string(), Some(3600));
    assert!(result.is_ok());

    let order = manager.get_order(&order_id);
    assert!(order.is_some());

    let order = order.unwrap();
    assert_eq!(order.state, OrderLifecycleState::Created);
    assert_eq!(order.symbol, "BTCUSD".to_string());
    assert!(order.expires_at.is_some());
}

#[test]
fn test_state_transition() {
    let mut manager = OrderManager::new();
    let order_id = "test_order_2".to_string();
    let client_id = "client_2".to_string();

    manager.create_order(order_id.clone(), client_id, "BTCUSD".to_string(), None).unwrap();

    let result = manager.transition_state(
        &order_id,
        OrderLifecycleState::Validated,
        "Order validated successfully".to_string(),
        None,
    );
    assert!(result.is_ok());

    let order = manager.get_order(&order_id).unwrap();
    assert_eq!(order.state, OrderLifecycleState::Validated);
    assert_eq!(order.state_history.len(), 1);
    assert_eq!(order.state_history[0].from_state, OrderLifecycleState::Created);
    assert_eq!(order.state_history[0].to_state, OrderLifecycleState::Validated);
}

#[test]
fn test_invalid_state_transition() {
    let mut manager = OrderManager::new();
    let order_id = "test_order_3".to_string();
    let client_id = "client_3".to_string();

    manager.create_order(order_id.clone(), client_id, "BTCUSD".to_string(), None).unwrap();

    // Created cannot jump straight to Filled.
    let result = manager.transition_state(
        &order_id,
        OrderLifecycleState::Filled,
        "Invalid transition".to_string(),
        None,
    );
    assert!(result.is_err());
}

#[test]
fn test_order_exists_by_client_id() {
    let mut manager = OrderManager::new();
    let order_id = "test_order_4".to_string();
    let client_id = "client_4".to_string();

    assert!(!manager.order_exists_by_client_id(&client_id));

    manager.create_order(order_id, client_id.clone(), "BTCUSD".to_string(), None).unwrap();

    assert!(manager.order_exists_by_client_id(&client_id));
}

#[test]
fn test_get_order_by_client_id() {
    let mut manager = OrderManager::new();
    let order_id = "test_order_5".to_string();
    let client_id = "client_5".to_string();

    manager.create_order(order_id.clone(), client_id.clone(), "BTCUSD".to_string(), None).unwrap();

    let order = manager.get_order_by_client_id(&client_id);
    assert!(order.is_some());
    assert_eq!(order.unwrap().order_id, order_id);
}

#[test]
fn test_get_orders_by_state() {
    let mut manager = OrderManager::new();

    for i in 0..3 {
        let order_id = format!("test_order_{}", i);
        let client_id = format!("client_{}", i);
        manager.create_order(order_id.clone(), client_id, "BTCUSD".to_string(), None).unwrap();

        if i > 0 {
            manager
                .transition_state(&order_id, OrderLifecycleState::Validated, "Validated".to_string(), None)
                .unwrap();
        }
    }

    let created_orders = manager.get_orders_by_state(OrderLifecycleState::Created);
    let validated_orders = manager.get_orders_by_state(OrderLifecycleState::Validated);

    assert_eq!(created_orders.len(), 1);
    assert_eq!(validated_orders.len(), 2);
}

#[test]
fn test_update_metadata() {
    let mut manager = OrderManager::new();
    let order_id = "test_order_6".to_string();
    let client_id = "client_6".to_string();

    manager.create_order(order_id.clone(), client_id, "BTCUSD".to_string(), None).unwrap();

    let result = manager.update_metadata(&order_id, "exchange".to_string(), "binance".to_string());
    assert!(result.is_ok());

    let order = manager.get_order(&order_id).unwrap();
    assert_eq!(order.metadata.len(), 1);
    assert_eq!(order.metadata[0].0, "exchange".to_string());
    assert_eq!(order.metadata[0].1, "binance".to_string());
}

#[test]
fn test_expired_orders() {
    let mut manager = OrderManager::new();
    let order_id = "test_order_7".to_string();
    let client_id = "client_7".to_string();

    // An order with a one-second deadline counts as expired once the
    // clock reads past it.
    manager.create_order(order_id, client_id, "BTCUSD".to_string(), Some(1)).unwrap();

    let expired_orders = manager.get_expired_orders_at(u64::MAX);
    assert_eq!(expired_orders.len(), 1);
}

#[test]
fn test_terminal_states_never_transition() {
    let mut manager = OrderManager::new();
    let order_id = "closure_order".to_string();
    manager.create_order(order_id.clone(), "closure_client".to_string(), "BTCUSD".to_string(), None).unwrap();
    manager.transition_state(&order_id, OrderLifecycleState::Validated, "v".to_string(), None).unwrap();
    manager.transition_state(&order_id, OrderLifecycleState::Rejected, "r".to_string(), None).unwrap();

    // Rejected is terminal: every further transition is refused.
    let targets = [
        OrderLifecycleState::Created,
        OrderLifecycleState::Validated,
        OrderLifecycleState::Submitted,
        OrderLifecycleState::Acknowledged,
        OrderLifecycleState::PartiallyFilled,
        OrderLifecycleState::Filled,
        OrderLifecycleState::Cancelled,
        OrderLifecycleState::Rejected,
        OrderLifecycleState::Expired,
        OrderLifecycleState::Failed,
    ];
    for target in targets.iter() {
        let r = manager.transition_state(&order_id, *target, "no".to_string(), None);
        assert!(r.is_err());
    }
    assert!(is_terminal_state(&OrderLifecycleState::Rejected));
    assert!(!validate_state_transition(&OrderLifecycleState::Rejected, &OrderLifecycleState::Failed));
}

#[test]
fn test_history_tracks_state() {
    let mut manager = OrderManager::new();
    let order_id = "history_order".to_string();
    manager.create_order(order_id.clone(), "history_client".to_string(), "ETHUSD".to_string(), None).unwrap();
    manager.transition_state(&order_id, OrderLifecycleState::Validated, "v".to_string(), None).unwrap();
    manager.transition_state(&order_id, OrderLifecycleState::Submitted, "s".to_string(), None).unwrap();
    manager.transition_state(&order_id, OrderLifecycleState::Acknowledged, "a".to_string(), None).unwrap();

    let order = manager.get_order(&order_id).unwrap();
    // History completeness: the last entry always ends at the current state.
    assert_eq!(order.state_history.last().unwrap().to_state, order.state);
    assert_eq!(order.state_history.len(), 3);
    // And the entries chain.
    assert_eq!(order.state_history[1].from_state, order.state_history[0].to_state);
    assert_eq!(order.state_history[2].from_state, order.state_history[1].to_state);
}

#[test]
fn test_cleanup_old_orders() {
    let mut manager = OrderManager::new();
    manager.create_order("old_done".to_string(), "c_a".to_string(), "BTCUSD".to_string(), None).unwrap();
    manager.transition_state(&"old_done".to_string(), OrderLifecycleState::Rejected, "r".to_string(), None).unwrap();
    manager.create_order("still_live".to_string(), "c_b".to_string(), "BTCUSD".to_string(), None).unwrap();

    // A sweep with the cutoff beyond every timestamp reaps the terminal
    // order and leaves the live one alone.
    let removed = manager.cleanup_old_orders_at(u64::MAX);
    assert_eq!(removed, 1);
    assert!(manager.get_order(&"old_done".to_string()).is_none());
    assert!(manager.get_order(&"still_live".to_string()).is_some());
    assert!(!manager.order_exists_by_client_id(&"c_a".to_string()));
    assert!(manager.order_exists_by_client_id(&"c_b".to_string()));
}

#[test]
fn test_statistics_by_state() {
    let mut manager = OrderManager::new();
    manager.create_order("s1".to_string(), "cs1".to_string(), "BTCUSD".to_string(), None).unwrap();
    manager.create_order("s2".to_string(), "cs2".to_string(), "BTCUSD".to_string(), None).unwrap();
    manager.transition_state(&"s2".to_string(), OrderLifecycleState::Validated, "v".to_string(), None).unwrap();

    let stats = manager.get_statistics();
    assert_eq!(stats.total_orders, 2);
    assert_eq!(stats.created, 1);
    assert_eq!(stats.validated, 1);
    assert_eq!(stats.filled, 0);
}
