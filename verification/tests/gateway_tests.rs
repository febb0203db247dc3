use llm_mux::codec::{ConfigAuthenticator, ConfigurableRouter, ProviderConfig, RouteResult, RouteRule};
use llm_mux::gateway::{
    codec_error_response, extract_api_key_anthropic, extract_api_key_chat, extract_api_key_responses,
    finish_response, plan_request, stream_refusal, upstream_url, validate_auth, write_error_as, RequestId,
};
use llm_mux::types::Protocol;

fn value(bytes: &[u8]) -> serde_json::Value {
    serde_json::from_slice(bytes).unwrap()
}

fn rule(models: &[&str], provider: &str) -> RouteRule {
    RouteRule {
        models: models.iter().map(|m| m.to_string()).collect(),
        protocol: None,
        stream: None,
        has_tools: None,
        has_media: None,
        provider: provider.to_string(),
    }
}

fn provider(protocol: Protocol, base_url: &str, api_key: &str) -> ProviderConfig {
    ProviderConfig {
        protocol,
        base_url: base_url.to_string(),
        api_key: api_key.to_string(),
        headers: Vec::new(),
        model_mapping: Vec::new(),
    }
}

fn two_provider_router() -> ConfigurableRouter {
    let mut openai = provider(Protocol::OpenAiChat, "http://o.example", "ko");
    openai.model_mapping = vec![("gpt-4o".to_string(), "gpt-4o-2024".to_string())];
    let mut anth = provider(Protocol::Anthropic, "http://a.example", "ka");
    anth.headers = vec![("anthropic-version".to_string(), "2023-06-01".to_string())];
    ConfigurableRouter::new(
        vec![rule(&["gpt-*"], "openai"), rule(&["*"], "anth")],
        vec![("openai".to_string(), openai), ("anth".to_string(), anth)],
    )
}

#[test]
fn chat_key_is_the_bearer_token() {
    assert_eq!(extract_api_key_chat(Some("Bearer sk-1")), Some("sk-1".to_string()));
    assert_eq!(extract_api_key_chat(Some("sk-1")), None);
    assert_eq!(extract_api_key_chat(Some("Bearer ")), Some(String::new()));
    assert_eq!(extract_api_key_chat(None), None);
}

#[test]
fn messages_key_prefers_x_api_key() {
    assert_eq!(
        extract_api_key_anthropic(Some(Some("sk-a")), Some(Some("Bearer sk-b"))),
        Some("sk-a".to_string())
    );
    assert_eq!(
        extract_api_key_anthropic(None, Some(Some("Bearer sk-b"))),
        Some("sk-b".to_string())
    );
    assert_eq!(extract_api_key_anthropic(None, Some(Some("sk-c"))), Some("sk-c".to_string()));
    assert_eq!(extract_api_key_anthropic(Some(None), Some(Some("sk-d"))), None);
    assert_eq!(extract_api_key_anthropic(None, None), None);
}

#[test]
fn responses_key_falls_back_to_x_api_key() {
    assert_eq!(
        extract_api_key_responses(Some("Bearer k"), Some("x")),
        Some("k".to_string())
    );
    assert_eq!(extract_api_key_responses(Some("Basic k"), Some("x")), Some("x".to_string()));
    assert_eq!(extract_api_key_responses(None, None), None);
}

#[test]
fn listed_keys_pass_and_others_get_401() {
    let auth = ConfigAuthenticator::new(vec!["k1".to_string()]);
    assert!(validate_auth(&auth, &Some("k1".to_string())).is_none());
    let refused = validate_auth(&auth, &Some("k2".to_string())).unwrap();
    assert_eq!(refused.status, 401);
    assert_eq!(
        String::from_utf8(refused.body).unwrap(),
        r#"{"error":{"message":"Invalid or missing API key","type":"authentication_error"}}"#
    );
    assert_eq!(validate_auth(&auth, &None).unwrap().status, 401);
}

#[test]
fn an_empty_key_list_accepts_any_key_but_not_none() {
    let auth = ConfigAuthenticator::new(Vec::new());
    assert!(validate_auth(&auth, &Some("anything".to_string())).is_none());
    assert_eq!(validate_auth(&auth, &None).unwrap().status, 401);
}

#[test]
fn upstream_url_per_protocol() {
    let mut route = RouteResult {
        protocol: Protocol::Anthropic,
        base_url: "https://api.example.com".to_string(),
        api_key: "k".to_string(),
        model: "m".to_string(),
        proxy_url: None,
        headers: Vec::new(),
    };
    assert_eq!(upstream_url(&route), "https://api.example.com/v1/messages");
    route.protocol = Protocol::OpenAiChat;
    assert_eq!(upstream_url(&route), "https://api.example.com/v1/chat/completions");
    route.protocol = Protocol::OpenAiResponses;
    assert_eq!(upstream_url(&route), "https://api.example.com/v1/responses");
}

#[test]
fn a_base_url_ending_in_v1_gets_no_second_v1() {
    let mut route = RouteResult {
        protocol: Protocol::OpenAiChat,
        base_url: "https://api.openai.com/v1".to_string(),
        api_key: "k".to_string(),
        model: "m".to_string(),
        proxy_url: None,
        headers: Vec::new(),
    };
    assert_eq!(upstream_url(&route), "https://api.openai.com/v1/chat/completions");
    route.protocol = Protocol::OpenAiResponses;
    assert_eq!(upstream_url(&route), "https://api.openai.com/v1/responses");
    route.base_url = "https://proxy.example/api/v12".to_string();
    assert_eq!(upstream_url(&route), "https://proxy.example/api/v12/v1/responses");
    route.base_url = "/v1".to_string();
    route.protocol = Protocol::Anthropic;
    assert_eq!(upstream_url(&route), "/v1/messages");
}

#[test]
fn error_replies_keep_valid_statuses() {
    let r = codec_error_response(Protocol::OpenAiChat, 400, "bad");
    assert_eq!(r.status, 400);
    assert_eq!(value(&r.body)["error"]["message"], "bad");
    let r = codec_error_response(Protocol::Anthropic, 42, "odd");
    assert_eq!(r.status, 500);
    assert_eq!(value(&r.body)["type"], "error");
    assert_eq!(
        write_error_as(Protocol::Anthropic, 429, "slow"),
        codec_error_response(Protocol::Anthropic, 429, "slow").body
    );
}

#[test]
fn plan_routes_by_model_and_maps_it() {
    let router = two_provider_router();
    let body = r#"{"model":"gpt-4o","messages":[{"role":"user","content":"Hi"}]}"#;
    let call = plan_request(&router, Protocol::OpenAiChat, Some("k".to_string()), body.as_bytes(), "r1".to_string())
        .unwrap();
    assert_eq!(call.protocol, Protocol::OpenAiChat);
    assert_eq!(call.url, "http://o.example/v1/chat/completions");
    assert_eq!(
        call.headers,
        vec![
            ("Authorization".to_string(), "Bearer ko".to_string()),
            ("Content-Type".to_string(), "application/json".to_string()),
        ]
    );
    assert!(!call.stream);
    let sent = value(&call.body);
    assert_eq!(sent["model"], "gpt-4o-2024");
    assert_eq!(sent["messages"][0]["content"], "Hi");
}

#[test]
fn plan_converts_for_the_fallback_provider() {
    let router = two_provider_router();
    let body = r#"{"model":"sonnet-x","stream":true,"messages":[{"role":"user","content":"Hi"}]}"#;
    let call = plan_request(&router, Protocol::OpenAiChat, None, body.as_bytes(), "r2".to_string()).unwrap();
    assert_eq!(call.protocol, Protocol::Anthropic);
    assert_eq!(call.url, "http://a.example/v1/messages");
    assert_eq!(call.headers.len(), 3);
    assert_eq!(call.headers[0], ("anthropic-version".to_string(), "2023-06-01".to_string()));
    assert_eq!(call.headers[1], ("Authorization".to_string(), "Bearer ka".to_string()));
    assert!(call.stream);
    let sent = value(&call.body);
    assert_eq!(sent["model"], "sonnet-x");
    assert_eq!(sent["stream"], true);
    assert_eq!(sent["messages"][0]["content"][0]["text"], "Hi");
}

#[test]
fn plan_refuses_a_body_that_does_not_decode() {
    let router = two_provider_router();
    let reply = plan_request(&router, Protocol::OpenAiChat, None, b"", "r3".to_string()).unwrap_err();
    assert_eq!(reply.status, 400);
    assert_eq!(
        value(&reply.body)["error"]["message"],
        "failed to decode request: invalid chat request: EOF while parsing a value at line 1 column 0"
    );
    let reply = plan_request(&router, Protocol::Anthropic, None, b"{\"model\":1}", "r3".to_string()).unwrap_err();
    assert_eq!(reply.status, 400);
    assert_eq!(
        value(&reply.body)["error"]["message"],
        "failed to decode request: invalid messages request: unexpected shape"
    );
}

#[test]
fn plan_answers_502_when_no_route_matches() {
    let router = ConfigurableRouter::new(
        vec![rule(&["gpt-*"], "openai")],
        vec![("openai".to_string(), provider(Protocol::OpenAiChat, "http://o", "k"))],
    );
    let body = r#"{"model":"other","max_tokens":5,"messages":[{"role":"user","content":"Hi"}]}"#;
    let reply = plan_request(&router, Protocol::Anthropic, None, body.as_bytes(), "r4".to_string()).unwrap_err();
    assert_eq!(reply.status, 502);
    let v = value(&reply.body);
    assert_eq!(v["type"], "error");
    assert_eq!(
        v["error"]["message"],
        "no route matched for model: no route matched for model 'other'"
    );
}

#[test]
fn plan_answers_502_when_the_provider_is_missing() {
    let router = ConfigurableRouter::new(vec![rule(&["*"], "ghost")], Vec::new());
    let body = r#"{"model":"m","messages":[]}"#;
    let reply = plan_request(&router, Protocol::OpenAiChat, None, body.as_bytes(), "r5".to_string()).unwrap_err();
    assert_eq!(reply.status, 502);
    assert_eq!(
        value(&reply.body)["error"]["message"],
        "no route matched for model: provider 'ghost' not found for model 'm'"
    );
}

#[test]
fn upstream_reply_is_rewritten_for_the_client() {
    let upstream = r#"{"id":"msg_1","type":"message","role":"assistant","model":"m","content":[{"type":"text","text":"Hello"}],"stop_reason":"end_turn","usage":{"input_tokens":3,"output_tokens":4}}"#;
    let reply = finish_response(Protocol::OpenAiChat, Protocol::Anthropic, 200, upstream.as_bytes());
    assert_eq!(reply.status, 200);
    let v = value(&reply.body);
    assert_eq!(v["id"], "msg_1");
    assert_eq!(v["choices"][0]["message"]["content"], "Hello");
    assert_eq!(v["choices"][0]["finish_reason"], "stop");
}

#[test]
fn undecodable_upstream_errors_pass_through() {
    let reply = finish_response(Protocol::OpenAiChat, Protocol::Anthropic, 503, b"overloaded");
    assert_eq!(reply.status, 503);
    assert_eq!(reply.body, b"overloaded".to_vec());
}

#[test]
fn undecodable_upstream_success_becomes_502() {
    let reply = finish_response(Protocol::OpenAiChat, Protocol::Anthropic, 200, b"overloaded");
    assert_eq!(reply.status, 502);
    assert_eq!(
        value(&reply.body)["error"]["message"],
        "JSON error: expected value at line 1 column 1"
    );
}

#[test]
fn refused_streams_keep_the_upstream_status() {
    assert!(stream_refusal(200, b"").is_none());
    let r = stream_refusal(429, b"slow down").unwrap();
    assert_eq!(r.status, 429);
    assert_eq!(r.body, b"slow down".to_vec());
    assert_eq!(stream_refusal(42, b"").unwrap().status, 502);
}

#[test]
fn request_ids_carry_their_text() {
    let id = RequestId("0190-abc".to_string());
    assert_eq!(id.clone().0, "0190-abc");
}

#[test]
fn unknown_fields_reach_every_upstream_protocol() {
    let body = r#"{"model":"m","messages":[{"role":"user","content":"Hi"}],"x-trace":"t1","x-tenant":{"id":7}}"#;
    for protocol in [Protocol::OpenAiChat, Protocol::Anthropic, Protocol::OpenAiResponses] {
        let router = ConfigurableRouter::new(
            vec![rule(&["*"], "p")],
            vec![("p".to_string(), provider(protocol, "http://p", "k"))],
        );
        let call = plan_request(&router, Protocol::OpenAiChat, None, body.as_bytes(), "r".to_string()).unwrap();
        let sent = value(&call.body);
        assert_eq!(sent["model"], "m");
        assert_eq!(sent["x-trace"], "t1");
        assert_eq!(sent["x-tenant"]["id"], 7);
        let keys: Vec<String> = sent.as_object().unwrap().keys().cloned().collect();
        assert_eq!(&keys[keys.len() - 2..], &["x-trace".to_string(), "x-tenant".to_string()]);
    }
}

#[test]
fn requests_with_images_follow_media_rules() {
    let mut media = rule(&["*"], "vision");
    media.has_media = Some(true);
    let router = ConfigurableRouter::new(
        vec![media, rule(&["*"], "text")],
        vec![
            ("vision".to_string(), provider(Protocol::Anthropic, "http://vision", "kv")),
            ("text".to_string(), provider(Protocol::OpenAiChat, "http://text", "kt")),
        ],
    );
    let plain = r#"{"model":"m","messages":[{"role":"user","content":"Hi"}]}"#;
    let call = plan_request(&router, Protocol::OpenAiChat, None, plain.as_bytes(), "r".to_string()).unwrap();
    assert_eq!(call.url, "http://text/v1/chat/completions");
    let image = r#"{"model":"m","messages":[{"role":"user","content":[{"type":"image_url","image_url":{"url":"https://x/y.png"}}]}]}"#;
    let call = plan_request(&router, Protocol::OpenAiChat, None, image.as_bytes(), "r".to_string()).unwrap();
    assert_eq!(call.url, "http://vision/v1/messages");
}
