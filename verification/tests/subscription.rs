use autogen_core::ids::{AgentId, SubscriptionId, TopicId};
use autogen_core::subscription::{Subscription, SubscriptionManager};

fn sub(topic: u64, agent: u64, id: u64) -> Subscription {
    Subscription {
        id: TopicId::new(topic),
        agent_id: AgentId::new(agent),
        subscription_id: SubscriptionId::new(id),
    }
}

#[test]
fn resolve_matches_in_registration_order_deduplicated() {
    let mut m = SubscriptionManager::new();
    m.add_subscription(sub(7, 1, 100));
    m.add_subscription(sub(7, 2, 101));
    m.add_subscription(sub(8, 3, 102));
    m.add_subscription(sub(7, 1, 103)); // same agent again under a new handle
    let r = m.get_subscribed_recipients(&TopicId::new(7));
    assert_eq!(r, vec![AgentId::new(1), AgentId::new(2)]);
}

#[test]
fn resolve_is_idempotent() {
    let mut m = SubscriptionManager::new();
    m.add_subscription(sub(7, 1, 100));
    m.add_subscription(sub(7, 2, 101));
    let first = m.get_subscribed_recipients(&TopicId::new(7));
    let second = m.get_subscribed_recipients(&TopicId::new(7));
    assert_eq!(first, second);
    assert_eq!(first, vec![AgentId::new(1), AgentId::new(2)]);
}

#[test]
fn adding_a_subscription_invalidates_the_cache() {
    let mut m = SubscriptionManager::new();
    m.add_subscription(sub(7, 1, 100));
    let before = m.get_subscribed_recipients(&TopicId::new(7));
    assert_eq!(before, vec![AgentId::new(1)]);
    m.add_subscription(sub(7, 9, 200));
    let after = m.get_subscribed_recipients(&TopicId::new(7));
    assert!(after.contains(&AgentId::new(9)));
    assert_eq!(after, vec![AgentId::new(1), AgentId::new(9)]);
}

#[test]
fn removal_by_handle_leaves_other_subscriptions_of_the_topic() {
    let mut m = SubscriptionManager::new();
    m.add_subscription(sub(7, 1, 100));
    m.add_subscription(sub(7, 2, 101));
    m.remove_subscription(SubscriptionId::new(100));
    let r = m.get_subscribed_recipients(&TopicId::new(7));
    assert_eq!(r, vec![AgentId::new(2)]);
}

#[test]
fn resolving_an_unsubscribed_topic_is_a_silent_no_op() {
    let mut m = SubscriptionManager::new();
    m.add_subscription(sub(7, 1, 100));
    let r = m.get_subscribed_recipients(&TopicId::new(42));
    assert!(r.is_empty());
}

#[test]
fn subscription_matching_is_exact() {
    let s = sub(7, 1, 100);
    assert!(s.is_match(&TopicId::new(7)));
    assert!(!s.is_match(&TopicId::new(8)));
    assert_eq!(s.map_to_agent(&TopicId::new(7)), AgentId::new(1));
}

#[test]
fn fresh_subscription_ids_can_be_minted() {
    let a = autogen_core::ids::new_subscription_id();
    let b = autogen_core::ids::new_subscription_id();
    // Random 64-bit handles; colliding twice in a row would be astonishing.
    assert_ne!(a, b);
}
