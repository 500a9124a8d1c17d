use ldk_controller::clear_subscriptions;
use ldk_controller::state::subscription_store::{
    get_subscribers, is_subscribed, subscribe, unsubscribe, SubscriptionStore,
};

#[test]
fn test_clear_subscriptions_does_not_panic() {
    let mut store = SubscriptionStore::new();
    clear_subscriptions(&mut store);
    // Call twice to ensure repeated clearing is safe
    clear_subscriptions(&mut store);
}

#[test]
fn a_subscription_replaces_the_one_before() {
    let mut store = SubscriptionStore::new();
    subscribe(&mut store, "alice", &["payment_received".to_string(), "payment_sent".to_string()]);
    subscribe(&mut store, "bob", &["payment_sent".to_string()]);
    assert!(is_subscribed(&store, "alice", "payment_received"));
    assert_eq!(get_subscribers(&store, "payment_sent").len(), 2);

    subscribe(&mut store, "alice", &["hold_invoice_accepted".to_string()]);
    assert!(!is_subscribed(&store, "alice", "payment_received"));
    assert!(is_subscribed(&store, "alice", "hold_invoice_accepted"));
    assert_eq!(get_subscribers(&store, "payment_sent"), vec!["bob".to_string()]);
}

#[test]
fn unsubscribed_and_cleared_clients_are_told_nothing() {
    let mut store = SubscriptionStore::new();
    subscribe(&mut store, "alice", &["payment_sent".to_string()]);
    subscribe(&mut store, "bob", &["payment_sent".to_string()]);
    unsubscribe(&mut store, "alice");
    assert!(!is_subscribed(&store, "alice", "payment_sent"));
    assert_eq!(get_subscribers(&store, "payment_sent"), vec!["bob".to_string()]);
    clear_subscriptions(&mut store);
    assert!(get_subscribers(&store, "payment_sent").is_empty());
}
