use autogen_core::agent_runtime::{AgentRuntime, StepOutcome};
use autogen_core::chat_msg_types::{ChatMessage, TextMessage};
use autogen_core::ids::{AgentId, SubscriptionId, TopicId};
use autogen_core::mailbox::Mailbox;
use autogen_core::msg_types::TextContent;
use autogen_core::subscription::Subscription;

// Register agents A and B; subscribe B to the "room" topic; publish "hello"
// to "room" from A: B's handler is invoked once with message "hello",
// sender A and a non-rpc context.  Publishing to a topic no one subscribed
// to is a silent no-op.
#[test]
fn publish_reaches_the_one_subscriber_with_the_right_context() {
    let mut rt = AgentRuntime::new();
    let a = AgentId::new(1);
    let b = AgentId::new(2);
    rt.register(a, Mailbox::new(4)).unwrap();
    rt.register(b, Mailbox::new(4)).unwrap();

    let room = TopicId::new(77);
    rt.subscription_manager.add_subscription(Subscription {
        id: room,
        agent_id: b,
        subscription_id: SubscriptionId::new(500),
    });

    let hello = ChatMessage::TextMessage(TextMessage {
        content: TextContent { text: "hello".to_string() },
        source: a,
    });
    rt.publish_message(hello, room, Some(a));

    match rt.process_next() {
        StepOutcome::Dispatched { tickets, failures, deferred } => {
            assert_eq!(tickets.len(), 1);
            assert!(failures.is_empty());
            assert!(deferred.is_empty());
        }
        _ => panic!("expected a dispatch"),
    }

    // B's one invocation.
    let d = rt.next_delivery(b).expect("b was invoked");
    match &d.message {
        ChatMessage::TextMessage(t) => assert_eq!(t.content.text, "hello"),
        _ => panic!("expected the text message"),
    }
    assert_eq!(d.context.sender, Some(a));
    assert_eq!(d.context.topic_id, Some(room));
    assert!(!d.context.is_rpc);
    assert!(rt.next_delivery(b).is_none());
    assert!(rt.next_delivery(a).is_none());

    // No second invocation: settle and drain.
    let reply = ChatMessage::TextMessage(TextMessage {
        content: TextContent { text: "hi a".to_string() },
        source: b,
    });
    assert!(rt.complete_delivery(d.ticket, reply));
    assert!(matches!(rt.process_next(), StepOutcome::Responded { .. }));
    assert!(rt.is_idle());

    // Publishing to a topic with no subscribers is a silent no-op.
    let empty_topic = TopicId::new(78);
    let x = ChatMessage::TextMessage(TextMessage {
        content: TextContent { text: "x".to_string() },
        source: a,
    });
    rt.publish_message(x, empty_topic, None);
    match rt.process_next() {
        StepOutcome::Dispatched { tickets, failures, deferred } => {
            assert!(tickets.is_empty());
            assert!(failures.is_empty());
            assert!(deferred.is_empty());
        }
        _ => panic!("expected the no-op dispatch"),
    }
    assert!(rt.is_idle());
}
