use autogen_core::agent::{ChatCompletionContext, ModelCapabilities};
use autogen_core::chat_msg_types::{
    ChatMessage, TextMessage, ToolCallContent, ToolCallMessage, ToolCallResultContent,
    ToolCallResultMessage,
};
use autogen_core::envelope::{
    ChatMessageEnvelope, MessageWrapper, PublishMessage, ResponseMessage, SendMessage,
};
use autogen_core::group_chat::GroupChat;
use autogen_core::agent_runtime::AgentRuntime;
use autogen_core::ids::{AgentId, TopicId};
use autogen_core::mailbox::Mailbox;
use autogen_core::msg_types::{
    Content, ContentData, FunctionExecutionResult, GetContent, MultiModalContent, TextContent,
};
use autogen_core::llm_msg_types::{AssistantMessageContent, LlmMessage};
use autogen_core::tool::FunctionCallInput;

fn text(msg: &str, source: u64) -> ChatMessage {
    ChatMessage::TextMessage(TextMessage {
        content: TextContent { text: msg.to_string() },
        source: AgentId::new(source),
    })
}

#[test]
fn envelopes_keep_their_shape_through_enclose() {
    let sm = SendMessage::from(text("s", 1), Some(AgentId::new(1)), AgentId::new(2), None);
    match ChatMessageEnvelope::enclose(sm.suit_up()) {
        ChatMessageEnvelope::SendMessageEnvelope(s) => {
            assert_eq!(s.recipient, AgentId::new(2));
            assert_eq!(s.sender, Some(AgentId::new(1)));
            assert_eq!(s.parent, None);
        }
        _ => panic!("expected a send envelope"),
    }

    let rm = ResponseMessage::from(text("r", 2), AgentId::new(2), Some(AgentId::new(1)));
    match ChatMessageEnvelope::enclose(rm.suit_up()) {
        ChatMessageEnvelope::ResponseMessageEnvelope(x) => {
            assert_eq!(x.sender, AgentId::new(2));
            assert_eq!(x.recipient, Some(AgentId::new(1)));
        }
        _ => panic!("expected a response envelope"),
    }

    let pm = PublishMessage::from(text("p", 1), None, TopicId::new(9));
    match ChatMessageEnvelope::enclose(MessageWrapper::PublishMessage(pm)) {
        ChatMessageEnvelope::PublishMessageEnvelope(x) => {
            assert_eq!(x.topic_id, TopicId::new(9));
            assert_eq!(x.sender, None);
        }
        _ => panic!("expected a publish envelope"),
    }
}

#[test]
fn llm_message_constructors_build_the_stated_shapes() {
    let a = AgentId::new(5);
    match LlmMessage::system("be brief".to_string(), a) {
        LlmMessage::SystemMessage(m) => {
            assert_eq!(m.content.text, "be brief");
            assert_eq!(m.source, a);
        }
        _ => panic!("expected a system message"),
    }
    match LlmMessage::user_text("hi".to_string(), a) {
        LlmMessage::UserMessage(m) => match m.content {
            MultiModalContent::Text(t) => assert_eq!(t.text, "hi"),
            _ => panic!("expected text"),
        },
        _ => panic!("expected a user message"),
    }
    match LlmMessage::user_image(vec![1, 2, 3], a) {
        LlmMessage::UserMessage(m) => match m.content {
            MultiModalContent::Image(i) => assert_eq!(i.image, vec![1, 2, 3]),
            _ => panic!("expected an image"),
        },
        _ => panic!("expected a user message"),
    }
    match LlmMessage::assistant_text("sure".to_string(), a) {
        LlmMessage::AssistantMessage(m) => match m.content {
            AssistantMessageContent::TextContent(t) => assert_eq!(t.text, "sure"),
            _ => panic!("expected text"),
        },
        _ => panic!("expected an assistant message"),
    }
    let call = FunctionCallInput {
        function_name: "f".to_string(),
        arguments_obj: vec![("x".to_string(), "1".to_string())],
        return_type: "String".to_string(),
    };
    match LlmMessage::assistant_function_run(call, a) {
        LlmMessage::AssistantMessage(m) => match m.content {
            AssistantMessageContent::FunctionCallInput(f) => assert_eq!(f.function_name, "f"),
            _ => panic!("expected a function call"),
        },
        _ => panic!("expected an assistant message"),
    }
    match LlmMessage::function_result("out".to_string(), "call-1".to_string(), a) {
        LlmMessage::FunctionExecutionResultMessage(m) => {
            assert_eq!(m.content.len(), 1);
            assert_eq!(m.content[0].content, "out");
            assert_eq!(m.content[0].call_id, "call-1");
        }
        _ => panic!("expected a function result"),
    }
}

#[test]
fn get_content_reads_each_message_shape() {
    match text("hello", 1).get_content() {
        ContentData::Text(t) => assert_eq!(t, "hello"),
        _ => panic!("expected text"),
    }
    match ChatMessage::StopMessage("bye".to_string()).get_content() {
        ContentData::Text(t) => assert_eq!(t, "bye"),
        _ => panic!("expected text"),
    }
    let tool_msg = ChatMessage::ToolCallMessage(ToolCallMessage {
        content: ToolCallContent {
            content: vec![
                FunctionCallInput {
                    function_name: "first".to_string(),
                    arguments_obj: vec![],
                    return_type: "".to_string(),
                },
                FunctionCallInput {
                    function_name: "second".to_string(),
                    arguments_obj: vec![],
                    return_type: "".to_string(),
                },
            ],
        },
        source: AgentId::new(1),
    });
    match tool_msg.get_content() {
        ContentData::Text(t) => assert_eq!(t, "first,second"),
        _ => panic!("expected text"),
    }
    let result_msg = ChatMessage::ToolCallResultMessage(ToolCallResultMessage {
        content: ToolCallResultContent {
            content: vec![FunctionExecutionResult {
                content: "42".to_string(),
                call_id: "c".to_string(),
            }],
        },
        source: AgentId::new(1),
    });
    match result_msg.get_content() {
        ContentData::Text(t) => assert_eq!(t, "42"),
        _ => panic!("expected text"),
    }
    let c = Content::Text(TextContent { text: "inner".to_string() });
    match c.get_content() {
        ContentData::Text(t) => assert_eq!(t, "inner"),
        _ => panic!("expected text"),
    }
}

#[test]
fn chat_message_clone_preserves_content() {
    let m = text("copy me", 3);
    let c = m.clone();
    match (m, c) {
        (ChatMessage::TextMessage(a), ChatMessage::TextMessage(b)) => {
            assert_eq!(a.content.text, b.content.text);
            assert_eq!(a.source, b.source);
        }
        _ => panic!("expected text messages"),
    }
}

#[test]
fn mailbox_reports_capacity_and_length() {
    let mb = Mailbox::new(2);
    assert_eq!(mb.len(), 0);
    assert!(mb.has_space());
    assert_eq!(mb.capacity, 2);
}

#[test]
fn chat_completion_context_accumulates_and_clears() {
    let mut ctx = ChatCompletionContext::new();
    ctx.add_message(LlmMessage::user_text("one".to_string(), AgentId::new(1)));
    ctx.add_message(LlmMessage::user_text("two".to_string(), AgentId::new(1)));
    let mut ctx2 = ChatCompletionContext::new();
    ctx2.add_message(LlmMessage::user_text("x".to_string(), AgentId::new(1)));
    ctx2.clear();
    assert_eq!(ctx2.get_message().len(), 0);
    assert_eq!(ctx.get_message().len(), 2);
}

#[test]
fn group_chat_assembles_its_parts() {
    let rt = AgentRuntime::new();
    let gc = GroupChat::new(
        vec![AgentId::new(1), AgentId::new(2)],
        rt,
        AgentId::new(3),
        "round_robin".to_string(),
        None,
        "team".to_string(),
        vec!["p1".to_string(), "p2".to_string()],
        vec!["first".to_string(), "second".to_string()],
    );
    assert_eq!(gc.participants.len(), 2);
    assert_eq!(gc.group_chat_manager, AgentId::new(3));
    assert_eq!(gc.group_topic_type, "round_robin");
    assert_eq!(gc.parent_topic_type, "team");
}

#[test]
fn model_capabilities_are_plain_data() {
    let caps = ModelCapabilities { function_calling: true, json_output: false, vision: false };
    assert!(caps.function_calling);
    assert!(!caps.vision);
}
