//! Content carried by messages: plain text, images, and the small record
//! types shared by the chat and model layers.  Each type has a mathematical
//! view so that contracts can speak about content without naming heap
//! values.

use vstd::prelude::*;
use crate::ids::{AgentId, TopicId};

verus! {

/// Plain text content.
#[derive(Debug)]
pub struct TextContent {
    pub text: String,
}

impl View for TextContent {
    type V = Seq<char>;

    open spec fn view(&self) -> Seq<char> {
        self.text@
    }
}

impl Clone for TextContent {
    fn clone(&self) -> (r: Self)
        ensures
            r == *self,
    {
        TextContent { text: self.text.clone() }
    }
}

/// Raw image bytes.
#[derive(Debug)]
pub struct ImageContent {
    pub image: Vec<u8>,
}

impl View for ImageContent {
    type V = Seq<u8>;

    open spec fn view(&self) -> Seq<u8> {
        self.image@
    }
}

impl Clone for ImageContent {
    fn clone(&self) -> (r: Self)
        ensures
            r@ == self@,
    {
        ImageContent { image: copy_bytes(&self.image) }
    }
}

/// Raw image bytes under their own name.
#[derive(Debug)]
pub struct Image {
    pub image: Vec<u8>,
}

impl View for Image {
    type V = Seq<u8>;

    open spec fn view(&self) -> Seq<u8> {
        self.image@
    }
}

/// An element-for-element copy of a byte vector.
pub fn copy_bytes(v: &Vec<u8>) -> (r: Vec<u8>)
    ensures
        r@ == v@,
{
    let mut r: Vec<u8> = Vec::new();
    let mut i: usize = 0;
    while i < v.len()
        invariant
            i <= v@.len(),
            r@ == v@.subrange(0, i as int),
        decreases v@.len() - i,
    {
        r.push(v[i]);
        proof {
            assert(r@ =~= v@.subrange(0, i + 1));
        }
        i = i + 1;
    }
    proof {
        assert(v@.subrange(0, v@.len() as int) =~= v@);
    }
    r
}

/// Mathematical image of a piece of content: its text or its bytes.
#[verifier::ext_equal]
pub enum ContentView {
    Text(Seq<char>),
    Image(Seq<u8>),
}

/// Content that is either text or an image.
#[derive(Debug)]
pub enum Content {
    Text(TextContent),
    Image(ImageContent),
}

impl View for Content {
    type V = ContentView;

    open spec fn view(&self) -> ContentView {
        match self {
            Content::Text(t) => ContentView::Text(t@),
            Content::Image(m) => ContentView::Image(m@),
        }
    }
}

impl Clone for Content {
    fn clone(&self) -> (r: Self)
        ensures
            r@ == self@,
    {
        match self {
            Content::Text(t) => Content::Text(t.clone()),
            Content::Image(m) => Content::Image(m.clone()),
        }
    }
}

/// Multi-modal content: text or an image.
#[derive(Debug)]
pub enum MultiModalContent {
    Text(TextContent),
    Image(ImageContent),
}

impl View for MultiModalContent {
    type V = ContentView;

    open spec fn view(&self) -> ContentView {
        match self {
            MultiModalContent::Text(t) => ContentView::Text(t@),
            MultiModalContent::Image(m) => ContentView::Image(m@),
        }
    }
}

impl Clone for MultiModalContent {
    fn clone(&self) -> (r: Self)
        ensures
            r@ == self@,
    {
        match self {
            MultiModalContent::Text(t) => MultiModalContent::Text(t.clone()),
            MultiModalContent::Image(m) => MultiModalContent::Image(m.clone()),
        }
    }
}

/// Owned content handed out by [`GetContent`]: text or image bytes.
#[derive(Debug)]
pub enum ContentData {
    Text(String),
    Image(Vec<u8>),
}

impl View for ContentData {
    type V = ContentView;

    open spec fn view(&self) -> ContentView {
        match self {
            ContentData::Text(t) => ContentView::Text(t@),
            ContentData::Image(m) => ContentView::Image(m@),
        }
    }
}

/// Read access to the content a value carries, as one owned piece.
pub trait GetContent {
    /// The content this value carries, mathematically.
    spec fn content_view(&self) -> ContentView;

    /// An owned copy of the content this value carries.
    fn get_content(&self) -> (r: ContentData)
        ensures
            r@ == self.content_view(),
    ;
}

impl GetContent for TextContent {
    open spec fn content_view(&self) -> ContentView {
        ContentView::Text(self.text@)
    }

    fn get_content(&self) -> (r: ContentData) {
        ContentData::Text(self.text.clone())
    }
}

impl GetContent for ImageContent {
    open spec fn content_view(&self) -> ContentView {
        ContentView::Image(self.image@)
    }

    fn get_content(&self) -> (r: ContentData) {
        ContentData::Image(copy_bytes(&self.image))
    }
}

impl GetContent for Content {
    open spec fn content_view(&self) -> ContentView {
        self@
    }

    fn get_content(&self) -> (r: ContentData) {
        match self {
            Content::Text(t) => t.get_content(),
            Content::Image(m) => m.get_content(),
        }
    }
}

impl GetContent for MultiModalContent {
    open spec fn content_view(&self) -> ContentView {
        self@
    }

    fn get_content(&self) -> (r: ContentData) {
        match self {
            MultiModalContent::Text(t) => t.get_content(),
            MultiModalContent::Image(m) => m.get_content(),
        }
    }
}

/// How a model is asked to shape its reply.
#[derive(Clone, Copy, PartialEq, Eq, Structural, Debug)]
pub enum ResponseFormat {
    Text,
    JsonObject,
}

/// Why a model stopped producing output.
#[derive(Clone, Copy, PartialEq, Eq, Structural, Debug)]
pub enum FinishReason {
    Stop,
    Length,
    FunctionCall,
    ContentFilter,
}

/// Token accounting for one model request.
#[derive(Clone, Copy, PartialEq, Eq, Structural, Debug)]
pub struct RequestUsage {
    pub prompt_tokens: i32,
    pub completion_tokens: i32,
}

/// A block of source code in some language.
#[derive(Debug)]
pub struct CodeBlock {
    pub code: String,
    pub language: String,
}

/// What running a block of code produced.
#[derive(Debug)]
pub struct CodeResult {
    pub exit_code: u8,
    pub output: String,
}

/// What one tool invocation produced, tied to the call it answers.
#[derive(Debug)]
pub struct FunctionExecutionResult {
    pub content: String,
    pub call_id: String,
}

/// Mathematical image of a [`FunctionExecutionResult`].
#[verifier::ext_equal]
pub struct FunctionExecutionResultView {
    pub content: Seq<char>,
    pub call_id: Seq<char>,
}

impl View for FunctionExecutionResult {
    type V = FunctionExecutionResultView;

    open spec fn view(&self) -> FunctionExecutionResultView {
        FunctionExecutionResultView { content: self.content@, call_id: self.call_id@ }
    }
}

impl Clone for FunctionExecutionResult {
    fn clone(&self) -> (r: Self)
        ensures
            r == *self,
    {
        FunctionExecutionResult { content: self.content.clone(), call_id: self.call_id.clone() }
    }
}

/// A raw function call record: an id, argument bytes and a name.
#[derive(Debug)]
pub struct FunctionCall {
    pub id: String,
    pub args: Vec<u8>,
    pub name: String,
}

/// A free-standing message between two named parties.
#[derive(Debug)]
pub struct Message {
    pub source: String,
    pub target: String,
    pub payload: String,
    pub content: Content,
}

/// What an agent is told about the delivery it is handling: who sent the
/// message, on which topic it arrived (broadcasts only), and whether a
/// direct reply is awaited.
#[derive(Clone, Copy, PartialEq, Eq, Structural, Debug)]
pub struct ChatMessageContext {
    pub sender: Option<AgentId>,
    pub topic_id: Option<TopicId>,
    pub is_rpc: bool,
}

} // verus!
