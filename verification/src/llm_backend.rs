//! Decoding of chat-completion replies: the response shapes a provider
//! hands back, extraction of a tool call that a model wrapped in
//! `<tool_call>` tags, and assembly of the resulting model-facing message.
//!
//! The JSON parsing itself is done by `serde_json` behind one trusted
//! wrapper; everything around it — tag search, trimming, entry filtering
//! and message assembly — is verified.

use vstd::prelude::*;
use crate::ids::AgentId;
use crate::llm_msg_types::{AssistantMessage, AssistantMessageContent, LlmMessage};
use crate::msg_types::{RequestUsage, TextContent};
use crate::text::{find_first, match_at, trim, trim_spec};
use crate::tool::FunctionCallInput;

verus! {

/// What a model deployment can do.
#[derive(Clone, Copy, PartialEq, Eq, Structural, Debug)]
pub enum AgentCapability {
    Text,
    Vision,
    Audio,
    ImageGeneration,
}

/// How to reach one model: its name, endpoint, context budget, the name of
/// the environment variable holding the key, and what it can do.
#[derive(Debug)]
pub struct LlmConfig {
    pub model: String,
    pub base_url: String,
    pub context_size: usize,
    pub api_key_str: String,
    pub capabilities: AgentCapability,
}

/// Why the model stopped, as providers report it.
#[derive(Clone, Copy, PartialEq, Eq, Structural, Debug)]
pub enum FinishReasonExt {
    Stop,
    Length,
    ToolCalls,
    ContentFilter,
    FunctionCall,
    Eos,
}

/// One message of a provider reply.
#[derive(Debug)]
pub struct MessageExt {
    pub role: String,
    pub content: Option<String>,
}

/// One choice of a provider reply.
#[derive(Debug)]
pub struct ChoiceExt {
    pub index: u32,
    pub message: MessageExt,
    pub finish_reason: Option<FinishReasonExt>,
}

/// Token accounting as providers report it.
#[derive(Clone, Copy, PartialEq, Eq, Structural, Debug)]
pub struct UsageExt {
    pub prompt_tokens: u64,
    pub completion_tokens: u64,
    pub total_tokens: u64,
}

/// A whole chat-completion reply.
#[derive(Debug)]
pub struct CreateChatCompletionResponseExt {
    pub id: String,
    pub object: String,
    pub created: u64,
    pub model: String,
    pub choices: Vec<ChoiceExt>,
    pub usage: Option<UsageExt>,
}

/// An image reference in a vision request.
#[derive(Debug)]
pub struct ImageUrl {
    pub url: String,
}

/// One content item of a vision request: text or an image reference.
#[derive(Debug)]
pub enum MessageContentItem {
    Text { text: String },
    ImageUrl { image_url: ImageUrl },
}

/// One message of a vision request.
#[derive(Debug)]
pub struct Message {
    pub role: String,
    pub content: Vec<MessageContentItem>,
}

/// A tool call as a model writes it: a name and string-valued arguments.
#[derive(Debug)]
pub struct LlamaToolCall {
    pub name: String,
    pub arguments: Option<Vec<(String, String)>>,
}

/// The usage record of a reply as plain token counts, zero where the
/// provider reported none.
pub fn request_usage_of(usage: &Option<UsageExt>) -> (r: RequestUsage)
    ensures
        match usage {
            Some(u) => r.prompt_tokens == u.prompt_tokens as i32 && r.completion_tokens
                == u.completion_tokens as i32,
            None => r.prompt_tokens == 0 && r.completion_tokens == 0,
        },
{
    match usage {
        Some(u) => RequestUsage {
            prompt_tokens: u.prompt_tokens as i32,
            completion_tokens: u.completion_tokens as i32,
        },
        None => RequestUsage { prompt_tokens: 0, completion_tokens: 0 },
    }
}

/// The position of the first occurrence of `n` in `h`, if it occurs.
pub open spec fn first_match(h: Seq<char>, n: Seq<char>) -> Option<int> {
    if exists|j: int| match_at(h, n, j) {
        Some(
            choose|j: int|
                match_at(h, n, j) && (forall|l: int| 0 <= l < j ==> !match_at(h, n, l)),
        )
    } else {
        None
    }
}

/// A match with nothing before it is the first match.
proof fn lemma_first_match_unique(h: Seq<char>, n: Seq<char>, i: int)
    requires
        match_at(h, n, i),
        forall|l: int| 0 <= l < i ==> !match_at(h, n, l),
    ensures
        first_match(h, n) == Some(i),
{
    assert(exists|j: int| match_at(h, n, j));
    let w = choose|j: int|
        match_at(h, n, j) && (forall|l: int| 0 <= l < j ==> !match_at(h, n, l));
    if w < i {
        assert(!match_at(h, n, w));
    }
    if w > i {
        assert(!match_at(h, n, i));
    }
}

/// The text between the first `<tool_call>` tag and the first
/// `</tool_call>` tag, trimmed; nothing if either tag is missing or the
/// closing tag starts before the opening tag's content does.
pub open spec fn extract_json_spec(s: Seq<char>) -> Option<Seq<char>> {
    let opening = "<tool_call>"@;
    let closing = "</tool_call>"@;
    match (first_match(s, opening), first_match(s, closing)) {
        (Some(b), Some(e)) => if b + opening.len() <= e {
            Some(trim_spec(s.subrange(b + opening.len(), e)))
        } else {
            None
        },
        _ => None,
    }
}

/// Extracts the tool-call payload a model wrapped in `<tool_call>` tags.
pub fn extract_json_from_xml_like(xml_like_data: &str) -> (r: Option<String>)
    ensures
        match r {
            Some(out) => extract_json_spec(xml_like_data@) == Some(out@),
            None => extract_json_spec(xml_like_data@) is None,
        },
{
    let start_tag = "<tool_call>";
    let end_tag = "</tool_call>";
    let b_opt = find_first(xml_like_data, start_tag);
    let e_opt = find_first(xml_like_data, end_tag);
    match (b_opt, e_opt) {
        (Some(b), Some(e)) => {
            proof {
                lemma_first_match_unique(xml_like_data@, start_tag@, b as int);
                lemma_first_match_unique(xml_like_data@, end_tag@, e as int);
            }
            let tag_len = start_tag.unicode_len();
            if e >= tag_len && b <= e - tag_len {
                let inner = xml_like_data.substring_char(b + tag_len, e);
                Some(trim(inner))
            } else {
                None
            }
        },
        _ => None,
    }
}

/// What `serde_json` reads out of a candidate tool call: the string under
/// `name` and, for each member of `arguments` in order, its key and its
/// value where the value is a string; nothing unless the text is a JSON
/// object with a string `name` and an `arguments` member.
pub uninterp spec fn tool_call_fields(s: Seq<char>) -> Option<
    (Seq<char>, Seq<(Seq<char>, Option<Seq<char>>)>),
>;

/// The abstract content of a parsed field record.
pub open spec fn fields_view(r: Option<(String, Vec<(String, Option<String>)>)>) -> Option<
    (Seq<char>, Seq<(Seq<char>, Option<Seq<char>>)>),
> {
    match r {
        None => None,
        Some((n, es)) => Some(
            (
                n@,
                es@.map_values(
                    |p: (String, Option<String>)|
                        (
                            p.0@,
                            match p.1 {
                                None => None,
                                Some(v) => Some(v@),
                            },
                        ),
                ),
            ),
        ),
    }
}

/// Relies on `serde_json::from_str` and the `serde_json::Value` accessors:
/// the input parses iff it is a JSON object whose `name` member is a string
/// and which has an `arguments` member; each member of an `arguments`
/// object comes back in order with its value where the value is a string,
/// and a non-object `arguments` yields no entries.
#[verifier::external_body]
fn parse_tool_call_json(input: &str) -> (r: Option<(String, Vec<(String, Option<String>)>)>)
    ensures
        fields_view(r) == tool_call_fields(input@),
{
    let value: serde_json::Value = serde_json::from_str(input).ok()?;
    let map = match value {
        serde_json::Value::Object(map) => map,
        _ => return None,
    };
    let name = map.get("name")?.as_str()?.to_string();
    let arguments = map.get("arguments")?;
    let entries: Vec<(String, Option<String>)> = match arguments {
        serde_json::Value::Object(args) => args.iter().map(
            |(k, v)| (k.clone(), v.as_str().map(|s| s.to_string())),
        ).collect(),
        _ => Vec::new(),
    };
    Some((name, entries))
}

/// The entries whose values are strings, in order.
pub open spec fn kept_arguments(entries: Seq<(Seq<char>, Option<Seq<char>>)>) -> Seq<
    (Seq<char>, Seq<char>),
>
    decreases entries.len(),
{
    if entries.len() == 0 {
        Seq::empty()
    } else {
        let prefix = kept_arguments(entries.drop_last());
        match entries.last().1 {
            Some(v) => prefix.push((entries.last().0, v)),
            None => prefix,
        }
    }
}

/// The view of a built argument list.
pub open spec fn arguments_view(args: Seq<(String, String)>) -> Seq<(Seq<char>, Seq<char>)> {
    args.map_values(|p: (String, String)| (p.0@, p.1@))
}

/// Builds the tool call a parsed field record describes, keeping exactly
/// the string-valued argument entries, in order.
pub fn tool_call_from_fields(name: String, entries: Vec<(String, Option<String>)>) -> (r:
    LlamaToolCall)
    ensures
        r.name == name,
        r.arguments matches Some(args) && arguments_view(args@) == kept_arguments(
            fields_view(Some((name, entries)))->Some_0.1,
        ),
{
    let ghost evs = fields_view(Some((name, entries)))->Some_0.1;
    let mut args: Vec<(String, String)> = Vec::new();
    let mut i: usize = 0;
    while i < entries.len()
        invariant
            i <= entries@.len(),
            evs == fields_view(Some((name, entries)))->Some_0.1,
            evs.len() == entries@.len(),
            forall|k: int|
                0 <= k < entries@.len() ==> #[trigger] evs[k] == (
                    entries@[k].0@,
                    match entries@[k].1 {
                        None => None::<Seq<char>>,
                        Some(v) => Some(v@),
                    },
                ),
            arguments_view(args@) == kept_arguments(evs.subrange(0, i as int)),
        decreases entries@.len() - i,
    {
        proof {
            assert(evs.subrange(0, i + 1).drop_last() =~= evs.subrange(0, i as int));
            assert(evs.subrange(0, i + 1).last() == evs[i as int]);
        }
        let e = &entries[i];
        match &e.1 {
            Some(v) => {
                args.push((e.0.clone(), v.clone()));
                proof {
                    assert(arguments_view(args@) =~= kept_arguments(evs.subrange(0, i + 1)));
                }
            },
            None => {
                proof {
                    assert(arguments_view(args@) =~= kept_arguments(evs.subrange(0, i + 1)));
                }
            },
        }
        i = i + 1;
    }
    proof {
        assert(evs.subrange(0, evs.len() as int) =~= evs);
    }
    LlamaToolCall { name, arguments: Some(args) }
}

/// Reads a tool call out of a JSON text: the object's `name`, and its
/// string-valued `arguments` entries in order.
pub fn extract_tool_call(input: &str) -> (r: Option<LlamaToolCall>)
    ensures
        match tool_call_fields(input@) {
            None => r is None,
            Some(fields) => r matches Some(tc) && tc.name@ == fields.0 && (tc.arguments matches Some(
                args,
            ) && arguments_view(args@) == kept_arguments(fields.1)),
        },
{
    match parse_tool_call_json(input) {
        None => None,
        Some((name, entries)) => {
            let ghost n0 = name@;
            let tc = tool_call_from_fields(name, entries);
            Some(tc)
        },
    }
}

/// The placeholder author carried by messages assembled from a provider
/// reply.
pub fn placeholder_source() -> (r: AgentId)
    ensures
        r.id == 0,
{
    AgentId { id: 0 }
}

/// Assembles the model-facing message a reply stands for.  The first
/// choice's content is read; a tool call wrapped in `<tool_call>` tags
/// becomes an assistant function-call message, anything else comes back as
/// assistant text; a reply without content yields nothing.
pub fn output_llmmessage(res_obj: CreateChatCompletionResponseExt) -> (r: Option<LlmMessage>)
    requires
        res_obj.choices@.len() > 0,
    ensures
        match res_obj.choices@[0].message.content {
            None => r is None,
            Some(data) => {
                let ex = extract_json_spec(data@);
                if ex is None {
                    r == Some(
                        LlmMessage::AssistantMessage(
                            AssistantMessage {
                                content: AssistantMessageContent::TextContent(
                                    TextContent { text: data },
                                ),
                                source: (AgentId { id: 0 }),
                            },
                        ),
                    )
                } else {
                    match tool_call_fields(ex->Some_0) {
                        None => r == Some(
                            LlmMessage::AssistantMessage(
                                AssistantMessage {
                                    content: AssistantMessageContent::TextContent(
                                        TextContent { text: data },
                                    ),
                                    source: (AgentId { id: 0 }),
                                },
                            ),
                        ),
                        Some(fields) => r matches Some(m) && (m matches LlmMessage::AssistantMessage(
                            am,
                        ) && am.source == (AgentId { id: 0 })
                            && (am.content matches AssistantMessageContent::FunctionCallInput(f)
                            && f.function_name@ == fields.0 && f.arguments_obj@.map_values(
                            |p: (String, String)| (p.0@, p.1@),
                        ) == kept_arguments(fields.1) && f.return_type@ == Seq::<char>::empty())),
                    }
                }
            },
        },
{
    let msg_content = &res_obj.choices[0].message.content;
    match msg_content {
        None => None,
        Some(data) => {
            match extract_json_from_xml_like(data.as_str()) {
                Some(json_str) => {
                    match extract_tool_call(json_str.as_str()) {
                        Some(tc) => {
                            let arguments_obj = match tc.arguments {
                                Some(args) => args,
                                None => Vec::new(),
                            };
                            let function_call_input = FunctionCallInput {
                                function_name: tc.name,
                                arguments_obj,
                                return_type: String::new(),
                            };
                            Some(
                                LlmMessage::assistant_function_run(
                                    function_call_input,
                                    placeholder_source(),
                                ),
                            )
                        },
                        None => Some(
                            LlmMessage::assistant_text(data.clone(), placeholder_source()),
                        ),
                    }
                },
                None => Some(LlmMessage::assistant_text(data.clone(), placeholder_source())),
            }
        },
    }
}

} // verus!
