use llm_mux::chat::ChatCompletionsCodec;
use llm_mux::codec::Codec;
use llm_mux::ir::IrResponse;
use llm_mux::messages::MessagesCodec;
use llm_mux::types::{
    ContentBlock, ContentType, RedactedThinkingContent, RefusalContent, StopReason, TextContent,
    ThinkingContent,
};

#[test]
fn test_thinking_config_anthropic_roundtrip() {
    let codec = MessagesCodec;
    let body = r#"{
        "model": "sonnet-4-6",
        "max_tokens": 100,
        "thinking": {"type": "consumed", "budget_tokens": 2048},
        "messages": [{"role": "user", "content": [{"type": "text", "text": "hello"}]}]
    }"#;
    let ir = codec.decode_request(body.as_bytes()).unwrap();
    let thinking = ir.thinking.as_ref().expect("thinking should be present");
    assert_eq!(thinking.mode.as_deref(), Some("consumed"));
    assert_eq!(thinking.budget_tokens, Some(2048));
    let re_encoded = codec.encode_request(&ir).unwrap();
    let re_decoded: serde_json::Value = serde_json::from_slice(&re_encoded).unwrap();
    assert_eq!(re_decoded["thinking"]["type"], "consumed");
    assert_eq!(re_decoded["thinking"]["budget_tokens"], 2048);
}

#[test]
fn test_thinking_cross_protocol_no_panic() {
    let anthropic_body = r#"{
        "model": "sonnet-4-6",
        "thinking": {"type": "consumed", "budget_tokens": 1024},
        "messages": [{"role": "user", "content": [{"type": "text", "text": "hi"}]}],
        "max_tokens": 100
    }"#;
    let anthropic_codec = MessagesCodec;
    let ir = anthropic_codec
        .decode_request(anthropic_body.as_bytes())
        .unwrap();
    let chat_codec = ChatCompletionsCodec;
    let encoded = chat_codec.encode_request(&ir).unwrap();
    let chat_req: serde_json::Value = serde_json::from_slice(&encoded).unwrap();
    assert_eq!(chat_req["model"], "sonnet-4-6");
}

#[test]
fn test_thinking_content_block_roundtrip() {
    let ir = IrResponse {
        id: Some("msg_1".into()),
        model: Some("sonnet-4-6".into()),
        content: vec![
            ContentBlock {
                content_type: ContentType::Thinking,
                thinking: Some(ThinkingContent {
                    thinking: "Let me analyze...".into(),
                    signature: Some("sig_abc123".to_string()),
                }),
                ..Default::default()
            },
            ContentBlock {
                content_type: ContentType::Text,
                text: Some(TextContent {
                    text: "The answer is 42".into(),
                }),
                ..Default::default()
            },
        ],
        stop_reason: Some(StopReason::EndTurn),
        stop_sequence: None,
        usage: Default::default(),
        provider_extensions: Default::default(),
    };
    let codec = MessagesCodec;
    let encoded = codec.encode_response(&ir).unwrap();
    let resp: serde_json::Value = serde_json::from_slice(&encoded).unwrap();
    assert_eq!(resp["content"][0]["type"], "thinking");
    assert_eq!(resp["content"][0]["thinking"], "Let me analyze...");
    assert_eq!(resp["content"][0]["signature"], "sig_abc123");
}

#[test]
fn test_redacted_thinking_roundtrip() {
    let ir = IrResponse {
        id: Some("msg_2".into()),
        model: Some("sonnet-4-6".into()),
        content: vec![ContentBlock {
            content_type: ContentType::RedactedThinking,
            redacted_thinking: Some(RedactedThinkingContent {
                data: "redacted_data_xyz".into(),
            }),
            ..Default::default()
        }],
        stop_reason: Some(StopReason::EndTurn),
        stop_sequence: None,
        usage: Default::default(),
        provider_extensions: Default::default(),
    };
    let codec = MessagesCodec;
    let encoded = codec.encode_response(&ir).unwrap();
    let resp: serde_json::Value = serde_json::from_slice(&encoded).unwrap();
    assert_eq!(resp["content"][0]["type"], "redacted_thinking");
    assert_eq!(resp["content"][0]["data"], "redacted_data_xyz");
}

#[test]
fn test_response_format_roundtrip() {
    let codec = ChatCompletionsCodec;
    let body = r#"{
        "model": "gpt-4o",
        "messages": [{"role": "user", "content": "list colors as JSON"}],
        "response_format": {"type": "json_object"},
        "max_tokens": 50
    }"#;
    let ir = codec.decode_request(body.as_bytes()).unwrap();
    let fmt = ir
        .response_format
        .as_ref()
        .expect("response_format should be present");
    assert_eq!(fmt.format_type, "json_object");
    let re_encoded = codec.encode_request(&ir).unwrap();
    let req: serde_json::Value = serde_json::from_slice(&re_encoded).unwrap();
    assert_eq!(req["response_format"]["type"], "json_object");
}

#[test]
fn test_refusal_block_roundtrip() {
    let ir = IrResponse {
        id: Some("resp_3".into()),
        model: Some("gpt-4o".into()),
        content: vec![ContentBlock {
            content_type: ContentType::Refusal,
            refusal: Some(RefusalContent {
                refusal: "I cannot provide that information.".into(),
            }),
            ..Default::default()
        }],
        stop_reason: Some(StopReason::ContentFilter),
        stop_sequence: None,
        usage: Default::default(),
        provider_extensions: Default::default(),
    };
    // Test Anthropic roundtrip
    let anthropic_codec = MessagesCodec;
    let encoded = anthropic_codec.encode_response(&ir).unwrap();
    let resp: serde_json::Value = serde_json::from_slice(&encoded).unwrap();
    assert_eq!(resp["stop_reason"], "refusal");
}
