use autogen_core::agent_runtime::{AgentRuntime, RouterError, RunState, StepOutcome};
use autogen_core::chat_msg_types::ChatMessage;
use autogen_core::envelope::ChatMessageEnvelope;
use autogen_core::ids::{AgentId, SubscriptionId, TopicId};
use autogen_core::mailbox::Mailbox;
use autogen_core::msg_types::TextContent;
use autogen_core::subscription::Subscription;

fn text(msg: &str, source: u64) -> ChatMessage {
    ChatMessage::TextMessage(autogen_core::chat_msg_types::TextMessage {
        content: TextContent { text: msg.to_string() },
        source: AgentId::new(source),
    })
}

fn text_of(msg: &ChatMessage) -> String {
    match msg {
        ChatMessage::TextMessage(t) => t.content.text.clone(),
        _ => panic!("expected a text message"),
    }
}

#[test]
fn register_is_not_idempotent() {
    let mut rt = AgentRuntime::new();
    assert!(rt.register(AgentId::new(1), Mailbox::new(4)).is_ok());
    let again = rt.register(AgentId::new(1), Mailbox::new(4));
    assert_eq!(again, Err(RouterError::DuplicateAgent));
}

#[test]
fn send_to_unregistered_agent_is_rejected_and_enqueues_nothing() {
    let mut rt = AgentRuntime::new();
    let r = rt.send_message(text("hi", 5), AgentId::new(99), None);
    assert_eq!(r, Err(RouterError::UnknownAgent));
    assert!(rt.is_idle());
    assert!(rt.unprocessed_messages().is_empty());
}

#[test]
fn send_dispatch_complete_produces_exactly_one_response() {
    let mut rt = AgentRuntime::new();
    let a = AgentId::new(1);
    let b = AgentId::new(2);
    rt.register(a, Mailbox::new(4)).unwrap();
    rt.register(b, Mailbox::new(4)).unwrap();

    rt.send_message(text("ping", 1), b, Some(a)).unwrap();
    assert!(!rt.is_idle());

    let tickets = match rt.process_next() {
        StepOutcome::Dispatched { tickets, failures, deferred } => {
            assert!(failures.is_empty());
            assert!(deferred.is_empty());
            tickets
        }
        _ => panic!("expected a dispatch"),
    };
    assert_eq!(tickets.len(), 1);

    let d = rt.next_delivery(b).expect("a delivery waits for b");
    assert_eq!(d.ticket, tickets[0]);
    assert_eq!(text_of(&d.message), "ping");
    assert_eq!(d.context.sender, Some(a));
    assert_eq!(d.context.topic_id, None);
    assert!(d.context.is_rpc);

    assert!(rt.complete_delivery(d.ticket, text("pong", 2)));
    // Settling the same ticket a second time finds nothing.
    assert!(!rt.complete_delivery(d.ticket, text("pong again", 2)));
    assert!(rt.fail_delivery(d.ticket, RouterError::Timeout).is_none());

    // Exactly one response envelope re-entered the queue, addressed to a.
    match rt.process_next() {
        StepOutcome::Responded { response } => {
            assert_eq!(response.recipient, Some(a));
            assert_eq!(response.sender, b);
            assert_eq!(text_of(&response.message), "pong");
        }
        _ => panic!("expected the correlated response"),
    }
    assert!(rt.is_idle());
}

#[test]
fn publish_fans_out_to_all_subscribers_despite_one_failure() {
    let mut rt = AgentRuntime::new();
    let a = AgentId::new(1);
    let b = AgentId::new(2);
    let c = AgentId::new(3);
    rt.register(b, Mailbox::new(4)).unwrap();
    rt.register(c, Mailbox::new(4)).unwrap();
    let room = TopicId::new(10);
    rt.subscription_manager.add_subscription(Subscription {
        id: room,
        agent_id: b,
        subscription_id: SubscriptionId::new(1),
    });
    rt.subscription_manager.add_subscription(Subscription {
        id: room,
        agent_id: c,
        subscription_id: SubscriptionId::new(2),
    });

    rt.publish_message(text("news", 1), room, Some(a));
    let tickets = match rt.process_next() {
        StepOutcome::Dispatched { tickets, failures, deferred } => {
            assert!(failures.is_empty());
            assert!(deferred.is_empty());
            tickets
        }
        _ => panic!("expected a dispatch"),
    };
    assert_eq!(tickets.len(), 2);

    let db = rt.next_delivery(b).expect("b got the broadcast");
    let dc = rt.next_delivery(c).expect("c got the broadcast");
    assert_eq!(text_of(&db.message), "news");
    assert_eq!(text_of(&dc.message), "news");

    // b's handler fails; c's delivery is untouched and settles normally.
    let f = rt.fail_delivery(db.ticket, RouterError::HandlerFailure).expect("b's ticket was active");
    assert_eq!(f.recipient, b);
    assert_eq!(f.error, RouterError::HandlerFailure);
    assert!(rt.complete_delivery(dc.ticket, text("ack", 3)));

    match rt.process_next() {
        StepOutcome::Responded { response } => {
            assert_eq!(response.sender, c);
            assert_eq!(response.recipient, Some(a));
        }
        _ => panic!("expected c's response"),
    }
    assert!(rt.is_idle());
}

#[test]
fn publish_to_unregistered_subscriber_reports_recipient_gone() {
    let mut rt = AgentRuntime::new();
    let ghost_agent = AgentId::new(9);
    let room = TopicId::new(10);
    rt.subscription_manager.add_subscription(Subscription {
        id: room,
        agent_id: ghost_agent,
        subscription_id: SubscriptionId::new(1),
    });
    rt.publish_message(text("x", 1), room, None);
    match rt.process_next() {
        StepOutcome::Dispatched { tickets, failures, deferred } => {
            assert!(tickets.is_empty());
            assert!(deferred.is_empty());
            assert_eq!(failures.len(), 1);
            assert_eq!(failures[0].recipient, ghost_agent);
            assert_eq!(failures[0].error, RouterError::RecipientGone);
        }
        _ => panic!("expected a dispatch"),
    }
    assert!(rt.is_idle());
}

#[test]
fn outstanding_work_counter_reaches_zero_when_all_work_settles() {
    let mut rt = AgentRuntime::new();
    let a = AgentId::new(1);
    let b = AgentId::new(2);
    rt.register(a, Mailbox::new(4)).unwrap();
    rt.register(b, Mailbox::new(4)).unwrap();
    let room = TopicId::new(10);
    rt.subscription_manager.add_subscription(Subscription {
        id: room,
        agent_id: b,
        subscription_id: SubscriptionId::new(1),
    });

    rt.send_message(text("one", 1), b, Some(a)).unwrap();
    rt.publish_message(text("two", 1), room, Some(a));
    assert_eq!(rt.outstanding_tasks.value(), 0);

    // Dispatch both envelopes: two deliveries in flight.
    assert!(matches!(rt.process_next(), StepOutcome::Dispatched { .. }));
    assert!(matches!(rt.process_next(), StepOutcome::Dispatched { .. }));
    assert_eq!(rt.outstanding_tasks.value(), 2);
    assert!(!rt.is_idle());

    let d1 = rt.next_delivery(b).unwrap();
    let d2 = rt.next_delivery(b).unwrap();
    assert_eq!(rt.outstanding_tasks.value(), 2);
    assert!(rt.complete_delivery(d1.ticket, text("r1", 2)));
    assert_eq!(rt.outstanding_tasks.value(), 1);
    assert!(rt.complete_delivery(d2.ticket, text("r2", 2)));
    assert_eq!(rt.outstanding_tasks.value(), 0);

    // Drain the two response envelopes; the runtime is then idle.
    assert!(matches!(rt.process_next(), StepOutcome::Responded { .. }));
    assert!(matches!(rt.process_next(), StepOutcome::Responded { .. }));
    assert!(rt.is_idle());
    assert!(matches!(rt.process_next(), StepOutcome::Idle));
}

#[test]
fn mailbox_delivery_keeps_fifo_order() {
    let mut rt = AgentRuntime::new();
    let b = AgentId::new(2);
    rt.register(b, Mailbox::new(8)).unwrap();
    rt.send_message(text("first", 1), b, None).unwrap();
    rt.send_message(text("second", 1), b, None).unwrap();
    assert!(matches!(rt.process_next(), StepOutcome::Dispatched { .. }));
    assert!(matches!(rt.process_next(), StepOutcome::Dispatched { .. }));
    let d1 = rt.next_delivery(b).unwrap();
    let d2 = rt.next_delivery(b).unwrap();
    assert_eq!(text_of(&d1.message), "first");
    assert_eq!(text_of(&d2.message), "second");
    assert!(rt.next_delivery(b).is_none());
}

#[test]
fn full_mailbox_backpressures_a_send() {
    let mut rt = AgentRuntime::new();
    let b = AgentId::new(2);
    rt.register(b, Mailbox::new(1)).unwrap();
    rt.send_message(text("first", 1), b, None).unwrap();
    rt.send_message(text("second", 1), b, None).unwrap();
    assert!(matches!(rt.process_next(), StepOutcome::Dispatched { .. }));
    // The mailbox (capacity 1) is full: the second send stays queued.
    assert!(matches!(rt.process_next(), StepOutcome::Busy));
    // Draining the mailbox frees capacity; the queued envelope now goes out.
    let d = rt.next_delivery(b).unwrap();
    assert!(matches!(rt.process_next(), StepOutcome::Dispatched { .. }));
    assert!(rt.complete_delivery(d.ticket, text("r", 2)));
}

#[test]
fn full_mailbox_defers_a_publish_recipient() {
    let mut rt = AgentRuntime::new();
    let b = AgentId::new(2);
    let c = AgentId::new(3);
    rt.register(b, Mailbox::new(1)).unwrap();
    rt.register(c, Mailbox::new(4)).unwrap();
    let room = TopicId::new(10);
    rt.subscription_manager.add_subscription(Subscription {
        id: room,
        agent_id: b,
        subscription_id: SubscriptionId::new(1),
    });
    rt.subscription_manager.add_subscription(Subscription {
        id: room,
        agent_id: c,
        subscription_id: SubscriptionId::new(2),
    });
    rt.send_message(text("fill", 1), b, None).unwrap();
    assert!(matches!(rt.process_next(), StepOutcome::Dispatched { .. }));
    rt.publish_message(text("news", 1), room, None);
    match rt.process_next() {
        StepOutcome::Dispatched { tickets, failures, deferred } => {
            assert_eq!(tickets.len(), 1);
            assert!(failures.is_empty());
            assert_eq!(deferred, vec![b]);
        }
        _ => panic!("expected a dispatch"),
    }
    // c still received the broadcast.
    assert!(rt.next_delivery(c).is_some());
}

#[test]
fn deregister_closes_the_mailbox_and_aborts_waiting_deliveries() {
    let mut rt = AgentRuntime::new();
    let a = AgentId::new(1);
    let b = AgentId::new(2);
    rt.register(a, Mailbox::new(4)).unwrap();
    rt.register(b, Mailbox::new(4)).unwrap();
    rt.send_message(text("doomed", 1), b, Some(a)).unwrap();
    assert!(matches!(rt.process_next(), StepOutcome::Dispatched { .. }));
    assert_eq!(rt.outstanding_tasks.value(), 1);

    let aborted = rt.deregister(b).unwrap();
    assert_eq!(aborted.len(), 1);
    assert_eq!(aborted[0].recipient, b);
    assert_eq!(aborted[0].reply_to, Some(a));
    assert_eq!(aborted[0].error, RouterError::RecipientGone);
    assert_eq!(rt.outstanding_tasks.value(), 0);
    assert!(rt.is_idle());

    assert_eq!(rt.deregister(b), Err(RouterError::UnknownAgent));
    // A later send to the closed agent is rejected synchronously.
    assert_eq!(
        rt.send_message(text("late", 1), b, None),
        Err(RouterError::UnknownAgent)
    );
}

#[test]
fn cancelled_run_state_drops_queued_envelopes() {
    let mut rt = AgentRuntime::new();
    let b = AgentId::new(2);
    rt.register(b, Mailbox::new(4)).unwrap();
    rt.send_message(text("x", 1), b, None).unwrap();
    rt.send_message(text("y", 1), b, None).unwrap();
    rt.run_context.stop_when_cancel();
    assert_eq!(rt.run_context.run_state, RunState::Cancelled);
    match rt.process_next() {
        StepOutcome::Aborted { dropped } => assert_eq!(dropped, 2),
        _ => panic!("expected an abort"),
    }
    assert!(rt.is_idle());
    rt.run_context.run();
    assert_eq!(rt.run_context.run_state, RunState::Running);
    assert!(matches!(rt.process_next(), StepOutcome::Idle));
}

#[test]
fn run_context_lifecycle_controls() {
    let mut ctx = autogen_core::agent_runtime::RunContext { run_state: RunState::Running };
    ctx.stop_when_idle();
    assert_eq!(ctx.run_state, RunState::UntilIdle);
    ctx.stop();
    assert_eq!(ctx.run_state, RunState::Cancelled);
    ctx.run();
    assert_eq!(ctx.run_state, RunState::Running);
}

#[test]
fn counter_moves_by_one() {
    let mut c = autogen_core::agent_runtime::Counter::new();
    assert_eq!(c.value(), 0);
    c.increment();
    c.increment();
    assert_eq!(c.value(), 2);
    c.decrement();
    assert_eq!(c.value(), 1);
}

#[test]
fn a_driver_enforced_timeout_settles_the_ticket_once() {
    let mut rt = AgentRuntime::new();
    let a = AgentId::new(1);
    let b = AgentId::new(2);
    rt.register(a, Mailbox::new(4)).unwrap();
    rt.register(b, Mailbox::new(4)).unwrap();
    rt.send_message(text("slow", 1), b, Some(a)).unwrap();
    assert!(matches!(rt.process_next(), StepOutcome::Dispatched { .. }));
    let d = rt.next_delivery(b).unwrap();
    let f = rt.fail_delivery(d.ticket, RouterError::Timeout).expect("ticket was active");
    assert_eq!(f.error, RouterError::Timeout);
    assert_eq!(f.recipient, b);
    assert_eq!(f.reply_to, Some(a));
    // The abandoned handler cannot settle the ticket a second time.
    assert!(!rt.complete_delivery(d.ticket, text("too late", 2)));
    assert!(rt.is_idle());
}

#[test]
fn runtime_level_subscription_api_routes_and_unroutes() {
    let mut rt = AgentRuntime::new();
    let b = AgentId::new(2);
    rt.register(b, Mailbox::new(4)).unwrap();
    let room = TopicId::new(10);
    let handle = SubscriptionId::new(321);
    rt.add_subscription(Subscription { id: room, agent_id: b, subscription_id: handle });
    rt.publish_message(text("routed", 1), room, None);
    match rt.process_next() {
        StepOutcome::Dispatched { tickets, .. } => assert_eq!(tickets.len(), 1),
        _ => panic!("expected a dispatch"),
    }
    let d = rt.next_delivery(b).unwrap();
    assert!(rt.complete_delivery(d.ticket, text("ok", 2)));
    assert!(matches!(rt.process_next(), StepOutcome::Discarded));

    rt.remove_subscription(handle);
    rt.publish_message(text("unrouted", 1), room, None);
    match rt.process_next() {
        StepOutcome::Dispatched { tickets, failures, deferred } => {
            assert!(tickets.is_empty());
            assert!(failures.is_empty());
            assert!(deferred.is_empty());
        }
        _ => panic!("expected the no-op dispatch"),
    }
    assert!(rt.is_idle());
}

#[test]
fn response_with_no_recipient_is_discarded() {
    let mut rt = AgentRuntime::new();
    let b = AgentId::new(2);
    rt.register(b, Mailbox::new(4)).unwrap();
    // A send with no sender: the response has no one waiting.
    rt.send_message(text("fire and forget", 1), b, None).unwrap();
    assert!(matches!(rt.process_next(), StepOutcome::Dispatched { .. }));
    let d = rt.next_delivery(b).unwrap();
    assert!(rt.complete_delivery(d.ticket, text("done", 2)));
    assert!(matches!(rt.process_next(), StepOutcome::Discarded));
    assert!(rt.is_idle());
}

#[test]
fn known_agents_and_unprocessed_messages_report_state() {
    let mut rt = AgentRuntime::new();
    rt.register(AgentId::new(1), Mailbox::new(2)).unwrap();
    rt.register(AgentId::new(2), Mailbox::new(2)).unwrap();
    assert_eq!(rt.known_agent_names(), vec![AgentId::new(1), AgentId::new(2)]);
    rt.publish_message(text("queued", 1), TopicId::new(10), None);
    let queue = rt.unprocessed_messages();
    assert_eq!(queue.len(), 1);
    assert!(matches!(queue[0], ChatMessageEnvelope::PublishMessageEnvelope(_)));
}
