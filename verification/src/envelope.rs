//! The envelope model: three message shapes — directed send, topic-scoped
//! publish, and correlated response — unified under one sum type for
//! queuing.  Every envelope carries enough routing information to be
//! dispatched without consulting anything but the subscription manager (for
//! a publish) and the agent registry (for delivery).

use vstd::prelude::*;
use crate::chat_msg_types::ChatMessage;
use crate::ids::{AgentId, TopicId};

verus! {

/// A point-to-point message: addressed to one recipient, expecting exactly
/// one response.
#[derive(Debug)]
pub struct SendMessage {
    pub message: ChatMessage,
    pub sender: Option<AgentId>,
    pub recipient: AgentId,
    pub parent: Option<AgentId>,
}

impl SendMessage {
    /// Builds a send from its parts.
    pub fn from(
        message: ChatMessage,
        sender: Option<AgentId>,
        recipient: AgentId,
        parent: Option<AgentId>,
    ) -> (r: SendMessage)
        ensures
            r == (SendMessage { message, sender, recipient, parent }),
    {
        SendMessage { message, sender, recipient, parent }
    }

    /// Wraps this send for queuing.
    pub fn suit_up(self) -> (r: MessageWrapper)
        ensures
            r == MessageWrapper::SendMessage(self),
    {
        MessageWrapper::SendMessage(self)
    }
}

/// The result of handling a prior send or publish, addressed back toward
/// the original requester; `None` as recipient means no one is waiting.
#[derive(Debug)]
pub struct ResponseMessage {
    pub message: ChatMessage,
    pub sender: AgentId,
    pub recipient: Option<AgentId>,
}

impl ResponseMessage {
    /// Builds a response from its parts.
    pub fn from(message: ChatMessage, sender: AgentId, recipient: Option<AgentId>) -> (r:
        ResponseMessage)
        ensures
            r == (ResponseMessage { message, sender, recipient }),
    {
        ResponseMessage { message, sender, recipient }
    }

    /// Wraps this response for queuing.
    pub fn suit_up(self) -> (r: MessageWrapper)
        ensures
            r == MessageWrapper::ResponseMessage(self),
    {
        MessageWrapper::ResponseMessage(self)
    }
}

/// A broadcast: delivered to every agent subscribed to the topic at
/// dispatch time, expecting zero or more responses.
#[derive(Debug)]
pub struct PublishMessage {
    pub message: ChatMessage,
    pub sender: Option<AgentId>,
    pub topic_id: TopicId,
}

impl PublishMessage {
    /// Builds a publish from its parts.
    pub fn from(message: ChatMessage, sender: Option<AgentId>, topic_id: TopicId) -> (r:
        PublishMessage)
        ensures
            r == (PublishMessage { message, sender, topic_id }),
    {
        PublishMessage { message, sender, topic_id }
    }

    /// Wraps this publish for queuing.
    pub fn suit_up(self) -> (r: MessageWrapper)
        ensures
            r == MessageWrapper::PublishMessage(self),
    {
        MessageWrapper::PublishMessage(self)
    }
}

impl Clone for PublishMessage {
    fn clone(&self) -> (r: Self)
        ensures
            r.message@ == self.message@,
            r.sender == self.sender,
            r.topic_id == self.topic_id,
    {
        PublishMessage {
            message: self.message.clone(),
            sender: self.sender,
            topic_id: self.topic_id,
        }
    }
}

/// A message in one of its three shapes, before it is enclosed.
#[derive(Debug)]
pub enum MessageWrapper {
    SendMessage(SendMessage),
    ResponseMessage(ResponseMessage),
    PublishMessage(PublishMessage),
}

/// A queued unit of work: a message plus its routing metadata.
#[derive(Debug)]
pub enum ChatMessageEnvelope {
    SendMessageEnvelope(SendMessage),
    ResponseMessageEnvelope(ResponseMessage),
    PublishMessageEnvelope(PublishMessage),
}

impl ChatMessageEnvelope {
    /// Encloses a wrapped message as the queued envelope of the same shape.
    pub fn enclose(msg: MessageWrapper) -> (r: ChatMessageEnvelope)
        ensures
            match msg {
                MessageWrapper::SendMessage(sm) => r
                    == ChatMessageEnvelope::SendMessageEnvelope(sm),
                MessageWrapper::ResponseMessage(rm) => r
                    == ChatMessageEnvelope::ResponseMessageEnvelope(rm),
                MessageWrapper::PublishMessage(pm) => r
                    == ChatMessageEnvelope::PublishMessageEnvelope(pm),
            },
    {
        match msg {
            MessageWrapper::SendMessage(sm) => ChatMessageEnvelope::SendMessageEnvelope(sm),
            MessageWrapper::ResponseMessage(rm) => ChatMessageEnvelope::ResponseMessageEnvelope(rm),
            MessageWrapper::PublishMessage(pm) => ChatMessageEnvelope::PublishMessageEnvelope(pm),
        }
    }
}

} // verus!
