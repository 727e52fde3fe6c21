//! The message shapes exchanged with a language model: system, user and
//! assistant messages and function-execution results, with constructors
//! whose contracts pin the built value down exactly.

use vstd::prelude::*;
use crate::ids::AgentId;
use crate::msg_types::{FunctionExecutionResult, ImageContent, MultiModalContent, TextContent};
use crate::tool::FunctionCallInput;

verus! {

/// A system prompt with its author.
#[derive(Debug)]
pub struct SystemMessage {
    pub content: TextContent,
    pub source: AgentId,
}

/// A user turn: text or an image, with its author.
#[derive(Debug)]
pub struct UserMessage {
    pub content: MultiModalContent,
    pub source: AgentId,
}

/// What an assistant turn carries: a function call or plain text.
#[derive(Debug)]
pub enum AssistantMessageContent {
    FunctionCallInput(FunctionCallInput),
    TextContent(TextContent),
}

/// An assistant turn with its author.
#[derive(Debug)]
pub struct AssistantMessage {
    pub content: AssistantMessageContent,
    pub source: AgentId,
}

/// The results of executed function calls, with their author.
#[derive(Debug)]
pub struct FunctionExecutionResultMessage {
    pub content: Vec<FunctionExecutionResult>,
    pub source: AgentId,
}

/// One model-facing message, in any of its shapes.
#[derive(Debug)]
pub enum LlmMessage {
    SystemMessage(SystemMessage),
    UserMessage(UserMessage),
    AssistantMessage(AssistantMessage),
    FunctionExecutionResultMessage(FunctionExecutionResultMessage),
}

impl LlmMessage {
    /// A system prompt.
    pub fn system(content: String, source: AgentId) -> (r: LlmMessage)
        ensures
            r == (LlmMessage::SystemMessage(
                SystemMessage { content: TextContent { text: content }, source },
            )),
    {
        LlmMessage::SystemMessage(SystemMessage { content: TextContent { text: content }, source })
    }

    /// A user turn of plain text.
    pub fn user_text(content: String, source: AgentId) -> (r: LlmMessage)
        ensures
            r == (LlmMessage::UserMessage(
                UserMessage {
                    content: MultiModalContent::Text(TextContent { text: content }),
                    source,
                },
            )),
    {
        LlmMessage::UserMessage(
            UserMessage { content: MultiModalContent::Text(TextContent { text: content }), source },
        )
    }

    /// A user turn carrying image bytes.
    pub fn user_image(image_data: Vec<u8>, source: AgentId) -> (r: LlmMessage)
        ensures
            r == (LlmMessage::UserMessage(
                UserMessage {
                    content: MultiModalContent::Image(ImageContent { image: image_data }),
                    source,
                },
            )),
    {
        LlmMessage::UserMessage(
            UserMessage {
                content: MultiModalContent::Image(ImageContent { image: image_data }),
                source,
            },
        )
    }

    /// An assistant turn of plain text.
    pub fn assistant_text(content: String, source: AgentId) -> (r: LlmMessage)
        ensures
            r == (LlmMessage::AssistantMessage(
                AssistantMessage {
                    content: AssistantMessageContent::TextContent(TextContent { text: content }),
                    source,
                },
            )),
    {
        LlmMessage::AssistantMessage(
            AssistantMessage {
                content: AssistantMessageContent::TextContent(TextContent { text: content }),
                source,
            },
        )
    }

    /// An assistant turn requesting one function call.
    pub fn assistant_function_run(function_call: FunctionCallInput, source: AgentId) -> (r:
        LlmMessage)
        ensures
            r == (LlmMessage::AssistantMessage(
                AssistantMessage {
                    content: AssistantMessageContent::FunctionCallInput(function_call),
                    source,
                },
            )),
    {
        LlmMessage::AssistantMessage(
            AssistantMessage {
                content: AssistantMessageContent::FunctionCallInput(function_call),
                source,
            },
        )
    }

    /// The result of one executed function call.
    pub fn function_result(content: String, call_id: String, source: AgentId) -> (r: LlmMessage)
        ensures
            r matches LlmMessage::FunctionExecutionResultMessage(m) && m.source == source
                && m.content@.len() == 1 && m.content@[0].content == content && m.content@[0].call_id
                == call_id,
    {
        let mut results: Vec<FunctionExecutionResult> = Vec::new();
        results.push(FunctionExecutionResult { content, call_id });
        LlmMessage::FunctionExecutionResultMessage(
            FunctionExecutionResultMessage { content: results, source },
        )
    }
}

} // verus!
