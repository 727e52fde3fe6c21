//! The chat message shapes that agents exchange: plain text, multi-modal
//! content, tool calls, tool results and stop notices, unified under one sum
//! type for queuing and delivery.

use vstd::prelude::*;
use crate::ids::AgentId;
use crate::msg_types::{
    ContentView, FunctionExecutionResult, FunctionExecutionResultView, GetContent, MultiModalContent,
    TextContent,
};
use crate::text::{join_commas, join_with_commas};
use crate::tool::{FunctionCallInput, FunctionCallInputView};

verus! {

/// A plain text message with its author.
#[derive(Debug)]
pub struct TextMessage {
    pub content: TextContent,
    pub source: AgentId,
}

/// Mathematical image of a [`TextMessage`].
#[verifier::ext_equal]
pub struct TextMessageView {
    pub content: Seq<char>,
    pub source: AgentId,
}

impl View for TextMessage {
    type V = TextMessageView;

    open spec fn view(&self) -> TextMessageView {
        TextMessageView { content: self.content@, source: self.source }
    }
}

impl Clone for TextMessage {
    fn clone(&self) -> (r: Self)
        ensures
            r@ == self@,
    {
        TextMessage { content: self.content.clone(), source: self.source }
    }
}

/// A message whose content is text or an image, with its author.
#[derive(Debug)]
pub struct MultiModalMessage {
    pub content: MultiModalContent,
    pub source: AgentId,
}

/// Mathematical image of a [`MultiModalMessage`].
#[verifier::ext_equal]
pub struct MultiModalMessageView {
    pub content: ContentView,
    pub source: AgentId,
}

impl View for MultiModalMessage {
    type V = MultiModalMessageView;

    open spec fn view(&self) -> MultiModalMessageView {
        MultiModalMessageView { content: self.content@, source: self.source }
    }
}

impl Clone for MultiModalMessage {
    fn clone(&self) -> (r: Self)
        ensures
            r@ == self@,
    {
        MultiModalMessage { content: self.content.clone(), source: self.source }
    }
}

/// The calls requested by one tool-call message.
#[derive(Debug)]
pub struct ToolCallContent {
    pub content: Vec<FunctionCallInput>,
}

impl View for ToolCallContent {
    type V = Seq<FunctionCallInputView>;

    open spec fn view(&self) -> Seq<FunctionCallInputView> {
        self.content@.map_values(|c: FunctionCallInput| c@)
    }
}

impl Clone for ToolCallContent {
    fn clone(&self) -> (r: Self)
        ensures
            r@ == self@,
    {
        let mut out: Vec<FunctionCallInput> = Vec::new();
        let mut i: usize = 0;
        while i < self.content.len()
            invariant
                i <= self.content@.len(),
                out@.len() == i,
                forall|k: int| 0 <= k < i ==> out@[k]@ == #[trigger] self.content@[k]@,
            decreases self.content@.len() - i,
        {
            out.push(self.content[i].clone());
            i = i + 1;
        }
        let r = ToolCallContent { content: out };
        proof {
            assert(r@ =~= self@);
        }
        r
    }
}

/// A message asking for tool calls to be run, with its author.
#[derive(Debug)]
pub struct ToolCallMessage {
    pub content: ToolCallContent,
    pub source: AgentId,
}

/// Mathematical image of a [`ToolCallMessage`].
#[verifier::ext_equal]
pub struct ToolCallMessageView {
    pub content: Seq<FunctionCallInputView>,
    pub source: AgentId,
}

impl View for ToolCallMessage {
    type V = ToolCallMessageView;

    open spec fn view(&self) -> ToolCallMessageView {
        ToolCallMessageView { content: self.content@, source: self.source }
    }
}

impl Clone for ToolCallMessage {
    fn clone(&self) -> (r: Self)
        ensures
            r@ == self@,
    {
        ToolCallMessage { content: self.content.clone(), source: self.source }
    }
}

/// The results produced by a round of tool calls.
#[derive(Debug)]
pub struct ToolCallResultContent {
    pub content: Vec<FunctionExecutionResult>,
}

impl View for ToolCallResultContent {
    type V = Seq<FunctionExecutionResultView>;

    open spec fn view(&self) -> Seq<FunctionExecutionResultView> {
        self.content@.map_values(|c: FunctionExecutionResult| c@)
    }
}

impl Clone for ToolCallResultContent {
    fn clone(&self) -> (r: Self)
        ensures
            r@ == self@,
    {
        let mut out: Vec<FunctionExecutionResult> = Vec::new();
        let mut i: usize = 0;
        while i < self.content.len()
            invariant
                i <= self.content@.len(),
                out@.len() == i,
                forall|k: int| 0 <= k < i ==> out@[k]@ == #[trigger] self.content@[k]@,
            decreases self.content@.len() - i,
        {
            out.push(self.content[i].clone());
            i = i + 1;
        }
        let r = ToolCallResultContent { content: out };
        proof {
            assert(r@ =~= self@);
        }
        r
    }
}

/// A message reporting tool results, with its author.
#[derive(Debug)]
pub struct ToolCallResultMessage {
    pub content: ToolCallResultContent,
    pub source: AgentId,
}

/// Mathematical image of a [`ToolCallResultMessage`].
#[verifier::ext_equal]
pub struct ToolCallResultMessageView {
    pub content: Seq<FunctionExecutionResultView>,
    pub source: AgentId,
}

impl View for ToolCallResultMessage {
    type V = ToolCallResultMessageView;

    open spec fn view(&self) -> ToolCallResultMessageView {
        ToolCallResultMessageView { content: self.content@, source: self.source }
    }
}

impl Clone for ToolCallResultMessage {
    fn clone(&self) -> (r: Self)
        ensures
            r@ == self@,
    {
        ToolCallResultMessage { content: self.content.clone(), source: self.source }
    }
}

/// One chat message, in any of the shapes agents exchange.
#[derive(Debug)]
pub enum ChatMessage {
    TextMessage(TextMessage),
    MultiModalMessage(MultiModalMessage),
    ToolCallMessage(ToolCallMessage),
    ToolCallResultMessage(ToolCallResultMessage),
    StopMessage(String),
}

/// Mathematical image of a [`ChatMessage`].
#[verifier::ext_equal]
pub enum ChatMessageView {
    Text(TextMessageView),
    MultiModal(MultiModalMessageView),
    ToolCall(ToolCallMessageView),
    ToolCallResult(ToolCallResultMessageView),
    Stop(Seq<char>),
}

impl View for ChatMessage {
    type V = ChatMessageView;

    open spec fn view(&self) -> ChatMessageView {
        match self {
            ChatMessage::TextMessage(m) => ChatMessageView::Text(m@),
            ChatMessage::MultiModalMessage(m) => ChatMessageView::MultiModal(m@),
            ChatMessage::ToolCallMessage(m) => ChatMessageView::ToolCall(m@),
            ChatMessage::ToolCallResultMessage(m) => ChatMessageView::ToolCallResult(m@),
            ChatMessage::StopMessage(s) => ChatMessageView::Stop(s@),
        }
    }
}

impl Clone for ChatMessage {
    fn clone(&self) -> (r: Self)
        ensures
            r@ == self@,
    {
        match self {
            ChatMessage::TextMessage(m) => ChatMessage::TextMessage(m.clone()),
            ChatMessage::MultiModalMessage(m) => ChatMessage::MultiModalMessage(m.clone()),
            ChatMessage::ToolCallMessage(m) => ChatMessage::ToolCallMessage(m.clone()),
            ChatMessage::ToolCallResultMessage(m) => ChatMessage::ToolCallResultMessage(m.clone()),
            ChatMessage::StopMessage(s) => ChatMessage::StopMessage(s.clone()),
        }
    }
}

impl GetContent for ChatMessage {
    open spec fn content_view(&self) -> ContentView {
        match self {
            ChatMessage::TextMessage(m) => ContentView::Text(m.content@),
            ChatMessage::MultiModalMessage(m) => m.content@,
            ChatMessage::ToolCallMessage(m) => ContentView::Text(
                join_commas(m.content.content@.map_values(|c: FunctionCallInput| c.function_name@)),
            ),
            ChatMessage::ToolCallResultMessage(m) => ContentView::Text(
                join_commas(
                    m.content.content@.map_values(|c: FunctionExecutionResult| c.content@),
                ),
            ),
            ChatMessage::StopMessage(s) => ContentView::Text(s@),
        }
    }

    fn get_content(&self) -> (r: crate::msg_types::ContentData) {
        match self {
            ChatMessage::TextMessage(m) => m.content.get_content(),
            ChatMessage::MultiModalMessage(m) => m.content.get_content(),
            ChatMessage::ToolCallMessage(m) => {
                let names = collect_call_names(&m.content.content);
                crate::msg_types::ContentData::Text(join_with_commas(&names))
            },
            ChatMessage::ToolCallResultMessage(m) => {
                let texts = collect_result_texts(&m.content.content);
                crate::msg_types::ContentData::Text(join_with_commas(&texts))
            },
            ChatMessage::StopMessage(s) => crate::msg_types::ContentData::Text(s.clone()),
        }
    }
}

/// The names of the requested calls, in order.
fn collect_call_names(calls: &Vec<FunctionCallInput>) -> (r: Vec<String>)
    ensures
        r@.map_values(|s: String| s@) == calls@.map_values(
            |c: FunctionCallInput| c.function_name@,
        ),
{
    let mut r: Vec<String> = Vec::new();
    let mut i: usize = 0;
    while i < calls.len()
        invariant
            i <= calls@.len(),
            r@.len() == i,
            forall|k: int| 0 <= k < i ==> r@[k]@ == #[trigger] calls@[k].function_name@,
        decreases calls@.len() - i,
    {
        r.push(calls[i].function_name.clone());
        i = i + 1;
    }
    proof {
        assert(r@.map_values(|s: String| s@) =~= calls@.map_values(
            |c: FunctionCallInput| c.function_name@,
        ));
    }
    r
}

/// The result texts of the executed calls, in order.
fn collect_result_texts(results: &Vec<FunctionExecutionResult>) -> (r: Vec<String>)
    ensures
        r@.map_values(|s: String| s@) == results@.map_values(
            |c: FunctionExecutionResult| c.content@,
        ),
{
    let mut r: Vec<String> = Vec::new();
    let mut i: usize = 0;
    while i < results.len()
        invariant
            i <= results@.len(),
            r@.len() == i,
            forall|k: int| 0 <= k < i ==> r@[k]@ == #[trigger] results@[k].content@,
        decreases results@.len() - i,
    {
        r.push(results[i].content.clone());
        i = i + 1;
    }
    proof {
        assert(r@.map_values(|s: String| s@) =~= results@.map_values(
            |c: FunctionExecutionResult| c.content@,
        ));
    }
    r
}

} // verus!
