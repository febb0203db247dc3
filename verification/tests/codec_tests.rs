use llm_mux::chat::{is_anthropic_only_field, ChatCompletionsCodec};
use llm_mux::codec::{
    AdapterError, Authenticator, Codec, CodecError, ConfigAuthenticator, ConfigurableRouter, FixedRouter,
    ProviderConfig, RouteInfo, RouteRule, Router,
};
use llm_mux::ir::{IrResponse, IrStreamEvent, IrUsage, StreamEventType};
use llm_mux::json::Json;
use llm_mux::messages::{
    MessagesCodec,
    block_type_to_ir, delta_type_to_ir, ir_block_type_to_anthropic_str, redacted_thinking_block,
    thinking_block, tool_result_inner, tool_use_start,
};
use llm_mux::responses::ResponsesCodec;
use llm_mux::types::{ContentBlock, ContentType, Protocol, StopReason, TextContent};
use llm_mux::wildcard::wildcard_match;

/// A JSON value written as text, in the library's form.
fn json(text: &str) -> Json {
    from_value(serde_json::from_str(text).unwrap())
}

fn from_value(v: serde_json::Value) -> Json {
    match v {
        serde_json::Value::Null => Json::Null,
        serde_json::Value::Bool(b) => Json::Bool(b),
        serde_json::Value::Number(n) => Json::Number(n.to_string()),
        serde_json::Value::String(s) => Json::Str(s),
        serde_json::Value::Array(a) => Json::Array(a.into_iter().map(from_value).collect()),
        serde_json::Value::Object(m) => Json::Object(m.into_iter().map(|(k, x)| (k, from_value(x))).collect()),
    }
}

fn info(model: &str) -> RouteInfo {
    RouteInfo {
        request_id: "r".to_string(),
        model: model.to_string(),
        inbound_protocol: Protocol::OpenAiChat,
        stream: false,
        has_tools: false,
        has_media: false,
        api_key: None,
    }
}

fn value(bytes: &[u8]) -> serde_json::Value {
    serde_json::from_slice(bytes).unwrap()
}

#[test]
fn wildcard_patterns() {
    assert!(wildcard_match("*", ""));
    assert!(wildcard_match("gpt-*", "gpt-4o"));
    assert!(!wildcard_match("gpt-*", "o1"));
    assert!(wildcard_match("*-mini", "gpt-4o-mini"));
    assert!(wildcard_match("a*b*c", "aXbYc"));
    assert!(!wildcard_match("a*b*c", "aXbY"));
    assert!(wildcard_match("exact", "exact"));
    assert!(!wildcard_match("exact", "exactly"));
}

#[test]
fn the_first_matching_rule_decides() {
    let p = |url: &str| ProviderConfig {
        protocol: Protocol::Anthropic,
        base_url: url.to_string(),
        api_key: "k".to_string(),
        headers: Vec::new(),
        model_mapping: vec![
            ("gpt-*".to_string(), "short".to_string()),
            ("gpt-4*".to_string(), "longer".to_string()),
            ("gpt-4o".to_string(), "exact".to_string()),
        ],
    };
    let mut streaming = RouteRule {
        models: vec!["gpt-*".to_string()],
        protocol: None,
        stream: Some(true),
        has_tools: None,
        has_media: None,
        provider: "first".to_string(),
    };
    let fallback = RouteRule {
        models: vec!["*".to_string()],
        protocol: None,
        stream: None,
        has_tools: None,
        has_media: None,
        provider: "second".to_string(),
    };
    streaming.has_tools = None;
    let router = ConfigurableRouter::new(
        vec![streaming, fallback],
        vec![("first".to_string(), p("http://1")), ("second".to_string(), p("http://2"))],
    );
    let mut i = info("gpt-4o");
    assert_eq!(router.route(&i).unwrap().base_url, "http://2");
    i.stream = true;
    let r = router.route(&i).unwrap();
    assert_eq!(r.base_url, "http://1");
    assert_eq!(r.model, "exact");
    assert_eq!(router.route(&info("gpt-4-turbo")).unwrap().model, "longer");
    assert_eq!(router.route(&info("gpt-3")).unwrap().model, "short");
    assert_eq!(router.route(&info("o1")).unwrap().model, "o1");
}

#[test]
fn a_fixed_router_sends_everything_to_one_place() {
    let router = FixedRouter {
        protocol: Protocol::OpenAiChat,
        base_url: "http://x".to_string(),
        api_key: "k".to_string(),
        model: "m".to_string(),
    };
    let r = router.route(&info("anything")).unwrap();
    assert_eq!(r.base_url, "http://x");
    assert_eq!(r.model, "m");
    match router.on_error(&info("anything"), &r, &CodecError::Stream("cut".into())) {
        Err(e) => assert_eq!(e.describe(), "failed to decode request: routing error: stream event error: cut"),
        Ok(_) => panic!("no fallback expected"),
    }
}

#[test]
fn authenticator_errors_name_the_reason() {
    let auth = ConfigAuthenticator::new(vec!["a".to_string(), "b".to_string()]);
    assert!(auth.authenticate("b").is_ok());
    match auth.authenticate("c") {
        Err(e) => assert_eq!(e.describe(), "authentication failed: invalid API key"),
        Ok(()) => panic!("key accepted"),
    }
}

#[test]
fn error_texts() {
    assert_eq!(CodecError::Decode("x".into()).describe(), "failed to decode request: x");
    assert_eq!(CodecError::Encode("x".into()).describe(), "failed to encode response: x");
    assert_eq!(
        CodecError::UnsupportedProtocol(Protocol::OpenAiResponses).describe(),
        "unsupported protocol: OpenAiResponses"
    );
    assert_eq!(CodecError::RouteNotFound("m".into()).describe(), "no route matched for model: m");
    assert_eq!(CodecError::Stream("s".into()).describe(), "stream event error: s");
    assert_eq!(CodecError::Json("j".into()).describe(), "JSON error: j");
    assert_eq!(AdapterError::Decode("d".into()).describe(), "decode error: d");
    assert_eq!(AdapterError::Encode("e".into()).describe(), "encode error: e");
    assert_eq!(AdapterError::Unsupported("u".into()).describe(), "unsupported: u");
}

#[test]
fn anthropic_only_fields() {
    assert!(is_anthropic_only_field("metadata"));
    assert!(is_anthropic_only_field("display_text"));
    assert!(!is_anthropic_only_field("model"));
    assert!(!is_anthropic_only_field("Metadata"));
}

#[test]
fn messages_block_helpers() {
    assert_eq!(block_type_to_ir("tool_use"), ContentType::ToolUse);
    assert_eq!(block_type_to_ir("redacted_thinking"), ContentType::RedactedThinking);
    assert_eq!(block_type_to_ir("server_tool_use"), ContentType::Text);
    assert_eq!(delta_type_to_ir("input_json_delta"), ContentType::ToolUse);
    assert_eq!(delta_type_to_ir("thinking_delta"), ContentType::Thinking);
    assert_eq!(delta_type_to_ir("signature_delta"), ContentType::Text);
    assert_eq!(ir_block_type_to_anthropic_str(&ContentBlock::empty(ContentType::Image)), "image");
    assert_eq!(ir_block_type_to_anthropic_str(&ContentBlock::empty(ContentType::Refusal)), "text");

    let tu = json(r#"{"type":"tool_use","id":"t1","name":"n"}"#);
    let start = tool_use_start(&tu).unwrap();
    assert_eq!(start.id, "t1");
    assert_eq!(start.name, "n");
    assert!(start.arguments.is_none());
    assert!(thinking_block(&tu).is_none());

    let th = json(r#"{"type":"thinking","thinking":"hmm","signature":"sig"}"#);
    let t = thinking_block(&th).unwrap();
    assert_eq!(t.thinking, "hmm");
    assert_eq!(t.signature.as_deref(), Some("sig"));
    assert!(tool_use_start(&th).is_none());

    let rd = json(r#"{"type":"redacted_thinking","data":"xyz"}"#);
    assert_eq!(redacted_thinking_block(&rd).unwrap().data, "xyz");
    assert!(redacted_thinking_block(&th).is_none());

    let text = json(r#"{"type":"tool_result","content":"72F"}"#);
    let inner = tool_result_inner(&text);
    assert_eq!(inner.len(), 1);
    assert_eq!(inner[0].text.as_ref().unwrap().text, "72F");
    let list = json(r#"{"content":[{"type":"text","text":"a"},{"no":"type"},{"type":"image","source":{"type":"url","url":"u"}},{"type":"image","source":{"url":"no type"}}]}"#);
    let inner = tool_result_inner(&list);
    assert_eq!(inner.len(), 2);
    assert_eq!(inner[1].content_type, ContentType::Image);
    assert!(tool_result_inner(&json(r#"{"content":5}"#)).is_empty());
}

#[test]
fn json_text_is_read_and_written_by_serde_json() {
    let body = r#"{"model":"m","messages":[],"x":{"b":[1,2.5,"x",null,true],"a":{}}}"#;
    let ir = ChatCompletionsCodec.decode_request(body.as_bytes()).unwrap();
    let out = ChatCompletionsCodec.encode_request(&ir).unwrap();
    assert_eq!(
        String::from_utf8(out).unwrap(),
        r#"{"model":"m","messages":[],"x":{"b":[1,2.5,"x",null,true],"a":{}}}"#
    );
    match ChatCompletionsCodec.decode_stream_event(None, "{") {
        Err(e) => assert_eq!(
            e.describe(),
            "failed to decode request: invalid stream chunk: EOF while parsing an object at line 1 column 1"
        ),
        Ok(_) => panic!("decoded"),
    }
}

#[test]
fn responses_request_decodes_and_keeps_extras() {
    let codec = ResponsesCodec;
    let body = r#"{"model":"gpt-4o","instructions":"Be brief.","input":[{"type":"text","text":"Hi"}],"previous_response_id":"resp_1","x-trace":"t","max_output_tokens":50}"#;
    let ir = codec.decode_request(body.as_bytes()).unwrap();
    assert_eq!(ir.model, "gpt-4o");
    assert_eq!(ir.system_prompt.len(), 1);
    assert_eq!(ir.system_prompt[0].text.as_ref().unwrap().text, "Be brief.");
    assert_eq!(ir.max_tokens, Some(50));
    let keys: Vec<&str> = ir.provider_extensions.iter().map(|(k, _)| k.as_str()).collect();
    assert_eq!(keys, vec!["previous_response_id", "x-trace"]);

    let out = value(&codec.encode_request(&ir).unwrap());
    assert_eq!(out["previous_response_id"], "resp_1");
    assert_eq!(out["x-trace"], "t");
    assert_eq!(out["instructions"], "Be brief.");
    assert_eq!(out["max_output_tokens"], 50);
}

#[test]
fn responses_status_names_other_stop_reasons() {
    let codec = ResponsesCodec;
    let mut resp = IrResponse {
        id: Some("resp_9".into()),
        model: Some("m".into()),
        content: vec![ContentBlock {
            content_type: ContentType::Text,
            text: Some(TextContent { text: "ok".into() }),
            ..Default::default()
        }],
        stop_reason: Some(StopReason::Other("weird \"one\"".into())),
        stop_sequence: None,
        usage: IrUsage::default(),
        provider_extensions: Vec::new(),
    };
    let v = value(&codec.encode_response(&resp).unwrap());
    assert_eq!(v["status"], "Other(\"weird \\\"one\\\"\")");
    assert_eq!(v["output"][0]["content"][0]["text"], "ok");
    assert_eq!(v["usage"]["total_tokens"], 0);
    resp.stop_reason = Some(StopReason::MaxTokens);
    assert_eq!(value(&codec.encode_response(&resp).unwrap())["status"], "incomplete");
    resp.stop_reason = Some(StopReason::ToolUse);
    assert_eq!(value(&codec.encode_response(&resp).unwrap())["status"], "ToolUse");
}

#[test]
fn responses_response_decodes() {
    let codec = ResponsesCodec;
    let body = r#"{"id":"resp_2","object":"response","model":"m","status":"incomplete","output":[{"type":"message","id":"msg_0","role":"assistant","content":[{"type":"output_text","text":"part","annotations":[]}]},{"type":"function_call","id":"fc","call_id":"c1","name":"f","arguments":"{\"a\":1}"}],"usage":{"input_tokens":1,"output_tokens":2,"total_tokens":3}}"#;
    let r = codec.decode_response(body.as_bytes()).unwrap();
    assert_eq!(r.id.as_deref(), Some("resp_2"));
    assert_eq!(r.stop_reason, Some(StopReason::MaxTokens));
    assert_eq!(r.content.len(), 2);
    assert_eq!(r.content[1].tool_use.as_ref().unwrap().id, "c1");
    assert_eq!(r.usage.total_tokens, Some(3));
    match codec.decode_response(b"[") {
        Err(e) => assert_eq!(e.describe(), "JSON error: EOF while parsing a list at line 1 column 1"),
        Ok(_) => panic!("decoded"),
    }
}

#[test]
fn responses_stream_events() {
    let codec = ResponsesCodec;
    let e = codec
        .decode_stream_event(None, r#"{"type":"response.output_text.delta","item_id":"i","output_index":0,"content_index":0,"delta":"Hel"}"#)
        .unwrap();
    assert_eq!(e.event_type, StreamEventType::Delta);
    assert_eq!(e.delta.as_ref().unwrap().text.as_ref().unwrap().text, "Hel");
    let out = codec.encode_stream_event(&e).unwrap();
    assert!(out.contains("response.output_text.delta"));
    assert!(out.contains("Hel"));
    let err = codec.write_error(404, "missing");
    let v = value(&err);
    assert_eq!(v["error"]["message"], "missing");
    assert_eq!(v["error"]["code"], "404");
}

#[test]
fn adapter_errors_in_each_protocol() {
    let e = AdapterError::Unsupported("images".into());
    let chat = value(&ChatCompletionsCodec.encode_error(&e));
    assert_eq!(chat["error"]["message"], "unsupported: images");
    assert_eq!(chat["error"]["type"], "invalid_request_error");
    assert_eq!(chat["error"]["code"], "500");
    let anth = value(&MessagesCodec.encode_error(&e));
    assert_eq!(anth["type"], "error");
    assert_eq!(anth["error"]["type"], "invalid_request_error");
    assert_eq!(anth["error"]["message"], "unsupported: images");
    let resp = value(&ResponsesCodec.encode_error(&AdapterError::Decode("bad".into())));
    assert_eq!(resp["error"]["message"], "decode error: bad");
    assert_eq!(resp["error"]["code"], "500");
}

#[test]
fn known_fields_list_each_protocol() {
    let chat = ChatCompletionsCodec.known_fields();
    assert!(chat.iter().any(|f| f == "messages"));
    assert!(!chat.iter().any(|f| f == "x-custom"));
    let anth = MessagesCodec.known_fields();
    assert!(anth.iter().any(|f| f == "system"));
    let resp = ResponsesCodec.known_fields();
    assert!(resp.iter().any(|f| f == "previous_response_id"));
}

#[test]
fn responses_text_delta_reads_back() {
    let codec = ResponsesCodec;
    let ev = IrStreamEvent {
        event_type: StreamEventType::Delta,
        response: None,
        index: 3,
        delta: Some(ContentBlock {
            content_type: ContentType::Text,
            text: Some(TextContent { text: "h\u{e9}llo \"w\"\n".into() }),
            ..Default::default()
        }),
        stop_reason: None,
        usage: None,
        error: None,
    };
    let s = codec.encode_stream_event(&ev).unwrap();
    assert!(s.ends_with("\n\n"));
    let d = s.strip_prefix("data: ").unwrap().trim_end();
    let r = codec.decode_stream_event(None, d).unwrap();
    assert_eq!(r.event_type, StreamEventType::Delta);
    assert_eq!(r.index, 3);
    let block = r.delta.unwrap();
    assert_eq!(block.content_type, ContentType::Text);
    assert_eq!(block.text.unwrap().text, "h\u{e9}llo \"w\"\n");
}

#[test]
fn responses_request_members_read_back() {
    let codec = ResponsesCodec;
    for choice in ["auto", "none", "required"] {
        let body = format!(
            r#"{{"model":"gpt-4o","instructions":"Be brief.","input":[],"tool_choice":"{}","previous_response_id":"resp_7"}}"#,
            choice
        );
        let ir = codec.decode_request(body.as_bytes()).unwrap();
        let out = value(&codec.encode_request(&ir).unwrap());
        assert_eq!(out["tool_choice"], choice);
        assert_eq!(out["previous_response_id"], "resp_7");
        assert_eq!(out["instructions"], "Be brief.");
        assert_eq!(out["model"], "gpt-4o");
    }
}

fn round_trip_response() -> IrResponse {
    IrResponse {
        id: Some("resp_3".into()),
        model: Some("gpt-4o".into()),
        content: vec![
            ContentBlock {
                content_type: ContentType::Text,
                text: Some(TextContent { text: "First \"part\"".into() }),
                ..Default::default()
            },
            ContentBlock {
                content_type: ContentType::Text,
                text: Some(TextContent { text: "second".into() }),
                ..Default::default()
            },
            ContentBlock {
                content_type: ContentType::ToolUse,
                tool_use: Some(llm_mux::types::ToolUseContent {
                    id: "call_1".into(),
                    name: "weather".into(),
                    arguments: Some(json(r#"{"city":"Paris","days":[1,2]}"#)),
                }),
                ..Default::default()
            },
        ],
        stop_reason: Some(StopReason::MaxTokens),
        stop_sequence: None,
        usage: IrUsage {
            input_tokens: Some(12),
            output_tokens: Some(7),
            total_tokens: Some(19),
            ..IrUsage::default()
        },
        provider_extensions: Vec::new(),
    }
}

#[test]
fn responses_response_reads_back() {
    let codec = ResponsesCodec;
    let r = round_trip_response();
    let bytes = codec.encode_response(&r).unwrap();
    let back = codec.decode_response(&bytes).unwrap();
    assert_eq!(format!("{:?}", back), format!("{:?}", r));
    let mut r2 = round_trip_response();
    r2.stop_reason = Some(StopReason::EndTurn);
    r2.content.truncate(2);
    let back2 = codec.decode_response(&codec.encode_response(&r2).unwrap()).unwrap();
    assert_eq!(format!("{:?}", back2), format!("{:?}", r2));
}

fn text_delta(index: i32, text: &str) -> IrStreamEvent {
    IrStreamEvent {
        event_type: StreamEventType::Delta,
        response: None,
        index,
        delta: Some(ContentBlock {
            content_type: ContentType::Text,
            text: Some(TextContent { text: text.into() }),
            ..Default::default()
        }),
        stop_reason: None,
        usage: None,
        error: None,
    }
}

#[test]
fn chat_text_delta_reads_back() {
    let codec = ChatCompletionsCodec;
    let ev = text_delta(2, "a \"quoted\" \u{4e16}");
    let s = codec.encode_stream_event(&ev).unwrap();
    let d = s.strip_prefix("data: ").unwrap().strip_suffix("\n\n").unwrap();
    let r = codec.decode_stream_event(None, d).unwrap();
    assert_eq!(format!("{:?}", r), format!("{:?}", ev));
}

#[test]
fn anthropic_text_delta_reads_back() {
    let codec = MessagesCodec;
    let ev = text_delta(5, "line\nnext");
    let s = codec.encode_stream_event(&ev).unwrap();
    let d = s.strip_prefix("data: ").unwrap().strip_suffix("\n\n").unwrap();
    let r = codec.decode_stream_event(Some("content_block_delta"), d).unwrap();
    assert_eq!(format!("{:?}", r), format!("{:?}", ev));
}
