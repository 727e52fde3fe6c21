use autogen_core::llm_backend::{
    extract_json_from_xml_like, extract_tool_call, output_llmmessage, request_usage_of, ChoiceExt,
    CreateChatCompletionResponseExt, MessageExt, UsageExt,
};
use autogen_core::llm_msg_types::{AssistantMessageContent, LlmMessage};
use autogen_core::tool::{
    find_argument, get_current_weather, order_arguments, parse_bool, parse_i32, parse_string,
};

#[test]
fn parse_i32_accepts_exactly_decimal_integers_in_range() {
    assert_eq!(parse_i32("17").unwrap(), 17);
    assert_eq!(parse_i32("+17").unwrap(), 17);
    assert_eq!(parse_i32("-17").unwrap(), -17);
    assert_eq!(parse_i32("0").unwrap(), 0);
    assert_eq!(parse_i32("-0").unwrap(), 0);
    assert_eq!(parse_i32("0000005").unwrap(), 5);
    assert_eq!(parse_i32("2147483647").unwrap(), i32::MAX);
    assert_eq!(parse_i32("-2147483648").unwrap(), i32::MIN);
    assert!(parse_i32("2147483648").is_err());
    assert!(parse_i32("-2147483649").is_err());
    assert!(parse_i32("99999999999999999999").is_err());
    assert!(parse_i32("").is_err());
    assert!(parse_i32("+").is_err());
    assert!(parse_i32("-").is_err());
    assert!(parse_i32("12a").is_err());
    assert!(parse_i32(" 12").is_err());
    assert!(parse_i32("1.5").is_err());
}

#[test]
fn parse_bool_accepts_exactly_true_and_false() {
    assert_eq!(parse_bool("true").unwrap(), true);
    assert_eq!(parse_bool("false").unwrap(), false);
    assert!(parse_bool("True").is_err());
    assert!(parse_bool("1").is_err());
    assert!(parse_bool("").is_err());
}

#[test]
fn parse_string_accepts_anything() {
    assert_eq!(parse_string("anything at all").unwrap(), "anything at all");
    assert_eq!(parse_string("").unwrap(), "");
}

#[test]
fn weather_tool_only_knows_new_york() {
    assert_eq!(
        get_current_weather("New York".to_string(), "celsius".to_string()).unwrap(),
        "Weather for New York in celsius"
    );
    assert_eq!(
        get_current_weather("Glasgow".to_string(), "celsius".to_string()).unwrap_err(),
        "I only forecast New York"
    );
}

#[test]
fn order_arguments_lines_values_up_with_declared_names() {
    let names = vec!["location".to_string(), "unit".to_string()];
    let provided = vec![
        ("unit".to_string(), "celsius".to_string()),
        ("location".to_string(), "New York".to_string()),
    ];
    let ordered = order_arguments(&names, &provided).unwrap();
    assert_eq!(ordered, vec!["New York".to_string(), "celsius".to_string()]);

    let missing = order_arguments(&names, &provided[..1].to_vec());
    let err = missing.unwrap_err();
    assert_eq!(err.message(), "Missing argument: location");
}

#[test]
fn find_argument_takes_the_first_match() {
    let provided = vec![
        ("k".to_string(), "first".to_string()),
        ("k".to_string(), "second".to_string()),
    ];
    assert_eq!(find_argument(&provided, "k").unwrap(), "first");
    assert!(find_argument(&provided, "other").is_none());
}

#[test]
fn extract_json_finds_the_tagged_payload_and_trims_it() {
    let s = "noise <tool_call>  {\"name\": \"f\"} \n</tool_call> tail";
    assert_eq!(extract_json_from_xml_like(s).unwrap(), "{\"name\": \"f\"}");
    assert!(extract_json_from_xml_like("no tags here").is_none());
    assert!(extract_json_from_xml_like("<tool_call> only opened").is_none());
    assert!(extract_json_from_xml_like("only closed </tool_call>").is_none());
    assert!(extract_json_from_xml_like("</tool_call> backwards <tool_call>").is_none());
    assert_eq!(extract_json_from_xml_like("<tool_call></tool_call>").unwrap(), "");
}

#[test]
fn extract_tool_call_reads_name_and_string_arguments() {
    let tc = extract_tool_call(
        "{\"name\": \"get_current_weather\", \"arguments\": {\"location\": \"New York\", \"unit\": \"celsius\"}}",
    )
    .unwrap();
    assert_eq!(tc.name, "get_current_weather");
    let args = tc.arguments.unwrap();
    assert_eq!(args.len(), 2);
    assert!(args.contains(&("location".to_string(), "New York".to_string())));
    assert!(args.contains(&("unit".to_string(), "celsius".to_string())));

    // Non-string argument values are dropped; non-object arguments give none.
    let tc = extract_tool_call("{\"name\": \"f\", \"arguments\": {\"n\": 3, \"s\": \"ok\"}}").unwrap();
    assert_eq!(tc.arguments.unwrap(), vec![("s".to_string(), "ok".to_string())]);
    let tc = extract_tool_call("{\"name\": \"f\", \"arguments\": 7}").unwrap();
    assert_eq!(tc.arguments.unwrap(), vec![]);

    assert!(extract_tool_call("{\"arguments\": {}}").is_none());
    assert!(extract_tool_call("{\"name\": \"f\"}").is_none());
    assert!(extract_tool_call("{\"name\": 3, \"arguments\": {}}").is_none());
    assert!(extract_tool_call("not json").is_none());
    assert!(extract_tool_call("[1, 2]").is_none());
}

fn reply_with(content: Option<&str>) -> CreateChatCompletionResponseExt {
    CreateChatCompletionResponseExt {
        id: "r1".to_string(),
        object: "chat.completion".to_string(),
        created: 0,
        model: "m".to_string(),
        choices: vec![ChoiceExt {
            index: 0,
            message: MessageExt {
                role: "assistant".to_string(),
                content: content.map(|s| s.to_string()),
            },
            finish_reason: None,
        }],
        usage: None,
    }
}

#[test]
fn output_llmmessage_assembles_a_function_call_from_tagged_content() {
    let reply = reply_with(Some(
        "<tool_call> {\"name\": \"get_current_weather\", \"arguments\": {\"location\": \"New York\"}} </tool_call>",
    ));
    let m = output_llmmessage(reply).unwrap();
    match m {
        LlmMessage::AssistantMessage(am) => match am.content {
            AssistantMessageContent::FunctionCallInput(f) => {
                assert_eq!(f.function_name, "get_current_weather");
                assert_eq!(
                    f.arguments_obj,
                    vec![("location".to_string(), "New York".to_string())]
                );
                assert_eq!(f.return_type, "");
            }
            _ => panic!("expected the function call"),
        },
        _ => panic!("expected an assistant message"),
    }
}

#[test]
fn output_llmmessage_falls_back_to_assistant_text() {
    let m = output_llmmessage(reply_with(Some("just prose"))).unwrap();
    match m {
        LlmMessage::AssistantMessage(am) => match am.content {
            AssistantMessageContent::TextContent(t) => assert_eq!(t.text, "just prose"),
            _ => panic!("expected plain text"),
        },
        _ => panic!("expected an assistant message"),
    }

    // Tagged but unparsable content also falls back to text.
    let m = output_llmmessage(reply_with(Some("<tool_call> not json </tool_call>"))).unwrap();
    match m {
        LlmMessage::AssistantMessage(am) => match am.content {
            AssistantMessageContent::TextContent(t) => {
                assert_eq!(t.text, "<tool_call> not json </tool_call>")
            }
            _ => panic!("expected plain text"),
        },
        _ => panic!("expected an assistant message"),
    }

    assert!(output_llmmessage(reply_with(None)).is_none());
}

#[test]
fn request_usage_reads_provider_counts() {
    let u = request_usage_of(&Some(UsageExt {
        prompt_tokens: 11,
        completion_tokens: 22,
        total_tokens: 33,
    }));
    assert_eq!(u.prompt_tokens, 11);
    assert_eq!(u.completion_tokens, 22);
    let z = request_usage_of(&None);
    assert_eq!(z.prompt_tokens, 0);
    assert_eq!(z.completion_tokens, 0);
}
