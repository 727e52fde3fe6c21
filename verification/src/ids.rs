//! Identifier handles for agents, topics and subscriptions.
//!
//! All three are opaque, comparable, hashable handles with no behaviour of
//! their own: an `AgentId` names one live agent instance, a `TopicId` names a
//! broadcast channel, and a `SubscriptionId` names one subscription
//! registration so that exactly that registration can be removed later.

use vstd::prelude::*;

verus! {

/// Opaque handle uniquely identifying one live agent instance.
///
/// Two `AgentId`s are equal iff they stand for the same agent instance.
#[derive(Clone, Copy, PartialEq, Eq, Structural, Hash, Debug)]
pub struct AgentId {
    pub id: u64,
}

impl AgentId {
    pub fn new(id: u64) -> (r: AgentId)
        ensures
            r.id == id,
    {
        AgentId { id }
    }
}

/// Opaque handle identifying a broadcast channel.
///
/// A topic has no owner; many agents may subscribe to it.  It is purely a
/// matching key, never tied to message content.
#[derive(Clone, Copy, PartialEq, Eq, Structural, Hash, Debug)]
pub struct TopicId {
    pub id: u64,
}

impl TopicId {
    pub fn new(id: u64) -> (r: TopicId)
        ensures
            r.id == id,
    {
        TopicId { id }
    }
}

/// Unique handle for one subscription registration.
///
/// Removal by `SubscriptionId` must not affect other subscriptions that
/// happen to share the same `TopicId`.
#[derive(Clone, Copy, PartialEq, Eq, Structural, Hash, Debug)]
pub struct SubscriptionId {
    pub id: u64,
}

impl SubscriptionId {
    pub fn new(id: u64) -> (r: SubscriptionId)
        ensures
            r.id == id,
    {
        SubscriptionId { id }
    }
}

/// Relies on `uuid::Uuid::new_v4`, which draws a fresh random 128-bit
/// identifier; the low 64 bits are kept.  Nothing can be promised of a
/// random value, so this carries no postcondition.
#[verifier::external_body]
fn fresh_id_bits() -> u64 {
    uuid::Uuid::new_v4().as_u128() as u64
}

/// Mints a fresh `SubscriptionId` from random identifier material.
pub fn new_subscription_id() -> SubscriptionId {
    SubscriptionId { id: fresh_id_bits() }
}

} // verus!
