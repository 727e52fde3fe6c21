//! Agent-side support types: the capability contract a code-executing
//! agent implements, the signals an agent can be handed, what a model
//! client reports it can do, and the running context of model messages an
//! agent accumulates.

use vstd::prelude::*;
use crate::llm_msg_types::LlmMessage;
use crate::msg_types::{CodeBlock, CodeResult, FinishReason, RequestUsage, ResponseFormat, TextContent};
use crate::tool::FunctionCallInput;

verus! {

/// A tool schema handed to a model.
#[derive(Debug)]
pub struct Schema;

/// A code-execution engine an agent may own.
#[derive(Debug)]
pub struct Engine;

/// The capability a code-executing agent implements: run the given code
/// blocks and report the outcome.  Implementations live with the host, not
/// with the runtime.
pub trait CodeExecute {
    /// Runs the code blocks and reports the combined outcome.
    fn execute_code_blocks(&self, code_blocks: Vec<CodeBlock>) -> CodeResult;
}

/// What a model client can do.
#[derive(Clone, Copy, PartialEq, Eq, Structural, Debug)]
pub struct ModelCapabilities {
    pub function_calling: bool,
    pub json_output: bool,
    pub vision: bool,
}

/// A signal asking an agent to produce its response now, in the given
/// shape.
#[derive(Debug)]
pub struct ResponseNow {
    pub response_format: ResponseFormat,
}

/// A signal asking an agent to publish its response now, in the given
/// shape.
#[derive(Debug)]
pub struct PublishNow {
    pub response_format: ResponseFormat,
}

/// A signal asking an agent to clear its accumulated context.
#[derive(Debug)]
pub struct Reset;

/// What one model completion produced: text or a function call.
#[derive(Debug)]
pub enum ResultContent {
    TextContent(TextContent),
    FunctionCallContent(FunctionCallInput),
}

/// The outcome of one model completion.
#[derive(Debug)]
pub struct CreateResult {
    pub finish_reason: FinishReason,
    pub content: ResultContent,
    pub usage: RequestUsage,
}

/// The running context of model messages an agent accumulates, with saved
/// snapshots by name.
#[derive(Debug)]
pub struct ChatCompletionContext {
    pub messages: Vec<LlmMessage>,
    pub state: Vec<(String, Vec<LlmMessage>)>,
}

impl ChatCompletionContext {
    /// An empty context.
    pub fn new() -> (r: ChatCompletionContext)
        ensures
            r.messages@ == Seq::<LlmMessage>::empty(),
            r.state@ == Seq::<(String, Vec<LlmMessage>)>::empty(),
    {
        ChatCompletionContext { messages: Vec::new(), state: Vec::new() }
    }

    /// Appends one message to the context.
    pub fn add_message(&mut self, message: LlmMessage)
        ensures
            final(self).messages@ == old(self).messages@.push(message),
            final(self).state@ == old(self).state@,
    {
        self.messages.push(message);
    }

    /// Hands the accumulated messages out, consuming the context.
    pub fn get_message(self) -> (r: Vec<LlmMessage>)
        ensures
            r@ == self.messages@,
    {
        self.messages
    }

    /// Clears the accumulated messages.
    pub fn clear(&mut self)
        ensures
            final(self).messages@ == Seq::<LlmMessage>::empty(),
            final(self).state@ == old(self).state@,
    {
        self.messages.clear();
    }
}

} // verus!
