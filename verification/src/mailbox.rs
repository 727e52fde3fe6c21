//! Per-agent mailboxes: the exclusive inbound channel through which one
//! agent receives its deliveries, bounded by a capacity chosen at
//! registration and drained in first-in, first-out order.

use vstd::prelude::*;
use crate::chat_msg_types::ChatMessage;
use crate::ids::AgentId;
use crate::msg_types::ChatMessageContext;

verus! {

/// One delivery waiting for, or being handled by, an agent: the dispatch
/// ticket that correlates its eventual outcome, the message, the context
/// the agent is told, and where the response envelope is to be addressed.
#[derive(Debug)]
pub struct Delivery {
    pub ticket: u64,
    pub message: ChatMessage,
    pub context: ChatMessageContext,
    pub reply_to: Option<AgentId>,
}

/// A bounded inbound queue owned by one registered agent.
#[derive(Debug)]
pub struct Mailbox {
    pub inbox: Vec<Delivery>,
    pub capacity: usize,
}

impl Mailbox {
    /// A mailbox never holds more deliveries than its capacity, and a
    /// capacity is at least one.
    pub open spec fn wf(&self) -> bool {
        self.inbox@.len() <= self.capacity && self.capacity >= 1
    }

    /// An empty mailbox with the given capacity: 1 gives strict synchronous
    /// call semantics, larger values a queued actor.
    pub fn new(capacity: usize) -> (r: Mailbox)
        requires
            capacity >= 1,
        ensures
            r.inbox@ == Seq::<Delivery>::empty(),
            r.capacity == capacity,
            r.wf(),
    {
        Mailbox { inbox: Vec::new(), capacity }
    }

    /// How many deliveries are waiting.
    pub fn len(&self) -> (r: usize)
        ensures
            r == self.inbox@.len(),
    {
        self.inbox.len()
    }

    /// Whether another delivery fits.
    pub fn has_space(&self) -> (r: bool)
        ensures
            r == (self.inbox@.len() < self.capacity),
    {
        self.inbox.len() < self.capacity
    }
}

} // verus!
