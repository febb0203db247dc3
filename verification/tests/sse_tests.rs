use llm_mux::sse::{
    connection_error_event, relay_chunk, relay_event, relay_line, relay_text, sse_str_to_event, trim,
    trim_newlines_end, white_space,
};
use llm_mux::types::Protocol;

const ANTHROPIC_TEXT: &str =
    r#"data: {"type":"content_block_delta","index":0,"delta":{"type":"text_delta","text":"Hi"}}"#;
const CHAT_TEXT: &str = r#"data: {"id":"c1","object":"chat.completion.chunk","created":0,"model":"m","choices":[{"index":0,"delta":{"content":"Yo"},"finish_reason":null}]}"#;

#[test]
fn trim_removes_unicode_white_space() {
    assert_eq!(trim("  a b \n"), "a b");
    assert_eq!(trim("\u{3000}x\u{a0}\t"), "x");
    assert_eq!(trim(" \r\n "), "");
    assert_eq!(trim("x"), "x");
    assert!(white_space('\u{2028}'));
    assert!(!white_space('\u{200b}'));
}

#[test]
fn trailing_line_feeds_are_removed() {
    assert_eq!(trim_newlines_end("abc\n\n"), "abc");
    assert_eq!(trim_newlines_end("a\nb"), "a\nb");
    assert_eq!(trim_newlines_end("\n"), "");
}

#[test]
fn a_text_delta_is_rewritten_for_a_chat_client() {
    let out = relay_line(Protocol::OpenAiChat, Protocol::Anthropic, ANTHROPIC_TEXT).unwrap();
    assert!(!out.starts_with("data: "));
    let v: serde_json::Value = serde_json::from_str(&out).unwrap();
    assert_eq!(v["choices"][0]["delta"]["content"], "Hi");
}

#[test]
fn data_of_the_client_protocol_is_accepted_too() {
    let out = relay_line(Protocol::OpenAiChat, Protocol::Anthropic, CHAT_TEXT).unwrap();
    let v: serde_json::Value = serde_json::from_str(&out).unwrap();
    assert_eq!(v["choices"][0]["delta"]["content"], "Yo");
}

#[test]
fn other_lines_are_dropped() {
    assert_eq!(relay_line(Protocol::OpenAiChat, Protocol::Anthropic, "event: message_start"), None);
    assert_eq!(relay_line(Protocol::OpenAiChat, Protocol::Anthropic, "data: garbage"), None);
    assert_eq!(relay_line(Protocol::OpenAiChat, Protocol::Anthropic, "   "), None);
}

#[test]
fn done_becomes_a_stop_event() {
    let out = relay_line(Protocol::Anthropic, Protocol::OpenAiChat, "data: [DONE]").unwrap();
    assert_eq!(out, "[DONE]");
    let chat = relay_line(Protocol::OpenAiChat, Protocol::Anthropic, "  data:[DONE]  ").unwrap();
    assert!(chat.contains("[DONE]"));
}

#[test]
fn incomplete_lines_wait_for_more_text() {
    let mut buffer = String::new();
    let first = relay_text(Protocol::Anthropic, Protocol::OpenAiChat, &mut buffer, "data: [DONE]\ndata: [DO");
    assert_eq!(first.len(), 1);
    assert_eq!(buffer, "data: [DO");
    let second = relay_text(Protocol::Anthropic, Protocol::OpenAiChat, &mut buffer, "NE]\n");
    assert_eq!(second.len(), 1);
    assert_eq!(buffer, "");

    let mut whole = String::new();
    let all = relay_text(
        Protocol::Anthropic,
        Protocol::OpenAiChat,
        &mut whole,
        "data: [DONE]\ndata: [DONE]\n",
    );
    let mut pieces = first.clone();
    pieces.extend(second);
    assert_eq!(all, pieces);
    assert_eq!(whole, buffer);
}

#[test]
fn chunks_are_read_as_utf8_with_replacement() {
    let mut buffer = String::new();
    let out = relay_chunk(Protocol::OpenAiChat, Protocol::Anthropic, &mut buffer, &[0xff, b'\n', b'd']);
    assert!(out.is_empty());
    assert_eq!(buffer, "d");
    let line = format!("{}\n", ANTHROPIC_TEXT);
    let out = relay_chunk(Protocol::OpenAiChat, Protocol::Anthropic, &mut String::new(), line.as_bytes());
    assert_eq!(out.len(), 1);
}

#[test]
fn a_connection_error_reaches_the_client() {
    let e = connection_error_event("boom");
    let chat = relay_event(Protocol::OpenAiChat, &e);
    assert!(chat.contains("boom"));
    assert!(chat.ends_with("data: [DONE]"));
    let anth = relay_event(Protocol::Anthropic, &e);
    assert!(anth.contains("boom"));
}

#[test]
fn sse_strings_give_their_data() {
    assert_eq!(sse_str_to_event("  data: hello  "), Ok("hello".to_string()));
    assert_eq!(sse_str_to_event("data: [DONE]\n"), Ok("[DONE]".to_string()));
    assert_eq!(sse_str_to_event("data:x"), Ok("x".to_string()));
    assert_eq!(
        sse_str_to_event("event: x"),
        Err("invalid SSE string: event: x".to_string())
    );
}

#[test]
fn chunks_cut_between_characters_relay_as_the_whole() {
    let text = ANTHROPIC_TEXT.replace("Hi", "H\u{e9}\u{4e16}");
    let body = format!("{}\n{}\n", text, text);
    let bytes = body.as_bytes();
    let mut whole = String::new();
    let all = relay_chunk(Protocol::OpenAiChat, Protocol::Anthropic, &mut whole, bytes);
    assert_eq!(all.len(), 2);
    let v: serde_json::Value = serde_json::from_str(&all[0]).unwrap();
    assert_eq!(v["choices"][0]["delta"]["content"], "H\u{e9}\u{4e16}");
    for cut in 0..=bytes.len() {
        if !body.is_char_boundary(cut) {
            continue;
        }
        let mut buffer = String::new();
        let mut out = relay_chunk(Protocol::OpenAiChat, Protocol::Anthropic, &mut buffer, &bytes[..cut]);
        out.extend(relay_chunk(Protocol::OpenAiChat, Protocol::Anthropic, &mut buffer, &bytes[cut..]));
        assert_eq!(out, all);
        assert_eq!(buffer, whole);
    }
}
