use llm_mux::codec::Router;
use llm_mux::config::{
    default_drain_timeout, default_host, default_log_level, default_port, expand_env, mask_secret,
    parse_pid, parse_protocol, Config, ProviderDef, RouteDef,
};
use llm_mux::types::Protocol;

fn provider(protocol: &str) -> ProviderDef {
    ProviderDef {
        protocol: protocol.to_string(),
        base_url: "http://up".to_string(),
        api_key: "sk-1234567890".to_string(),
        headers: vec![("x-secret".to_string(), "abcdefghijk".to_string()), ("v".to_string(), "1".to_string())],
        model_mapping: vec![("a".to_string(), "b".to_string())],
    }
}

fn route(models: &[&str], provider: &str) -> RouteDef {
    RouteDef {
        models: models.iter().map(|m| m.to_string()).collect(),
        protocol: None,
        stream: None,
        has_tools: None,
        has_media: None,
        provider: provider.to_string(),
    }
}

fn config(providers: Vec<(String, ProviderDef)>, routes: Vec<RouteDef>) -> Config {
    Config {
        host: default_host(),
        port: default_port(),
        log_level: default_log_level(),
        drain_timeout_secs: default_drain_timeout(),
        api_keys: Vec::new(),
        providers,
        routes,
    }
}

#[test]
fn defaults() {
    assert_eq!(default_host(), "127.0.0.1");
    assert_eq!(default_port(), 8080);
    assert_eq!(default_log_level(), "info");
    assert_eq!(default_drain_timeout(), 30);
}

#[test]
fn protocol_names() {
    assert_eq!(parse_protocol("openai-chat"), Ok(Protocol::OpenAiChat));
    assert_eq!(parse_protocol("openai-responses"), Ok(Protocol::OpenAiResponses));
    assert_eq!(parse_protocol("anthropic"), Ok(Protocol::Anthropic));
    assert_eq!(parse_protocol("Anthropic"), Err("unknown protocol: Anthropic".to_string()));
}

#[test]
fn variables_are_expanded() {
    let env = vec![("A".to_string(), "1".to_string()), ("KEY".to_string(), "sk".to_string())];
    assert_eq!(expand_env("key=${A}!", &env), "key=1!");
    assert_eq!(expand_env("${KEY}${A}", &env), "sk1");
    assert_eq!(expand_env("x${MISSING}y", &env), "xy");
    assert_eq!(expand_env("$A and {A}", &env), "$A and {A}");
    assert_eq!(expand_env("tail ${A", &env), "tail 1");
    assert_eq!(expand_env("no placeholders", &env), "no placeholders");
}

#[test]
fn validation_reports_the_first_problem() {
    let ok = config(
        vec![("p".to_string(), provider("openai-chat"))],
        vec![route(&["gpt-*"], "p"), route(&["*"], "p")],
    );
    assert_eq!(ok.validate(), Ok(()));

    let none = config(Vec::new(), vec![route(&["*"], "p")]);
    assert_eq!(none.validate(), Err("at least one provider is required".to_string()));

    let no_routes = config(vec![("p".to_string(), provider("openai-chat"))], Vec::new());
    assert_eq!(no_routes.validate(), Err("at least one route is required".to_string()));

    let bad = config(vec![("p".to_string(), provider("bogus"))], vec![route(&["*"], "p")]);
    assert_eq!(bad.validate(), Err("provider 'p': unknown protocol: bogus".to_string()));

    let orphan = config(
        vec![("p".to_string(), provider("anthropic"))],
        vec![route(&["a"], "p"), route(&["*"], "nope")],
    );
    assert_eq!(orphan.validate(), Err("route[1]: provider 'nope' not found in providers".to_string()));

    let no_fallback = config(vec![("p".to_string(), provider("anthropic"))], vec![route(&["gpt-*"], "p")]);
    assert_eq!(
        no_fallback.validate(),
        Err("last route must be models: [\"*\"] as fallback".to_string())
    );

    let mut conditional = route(&["*"], "p");
    conditional.stream = Some(true);
    let cond = config(vec![("p".to_string(), provider("anthropic"))], vec![conditional]);
    assert_eq!(cond.validate(), Err("fallback route must not have extra conditions".to_string()));
}

#[test]
fn a_valid_config_routes_every_model() {
    let c = config(
        vec![("a".to_string(), provider("anthropic")), ("o".to_string(), provider("openai-chat"))],
        vec![route(&["gpt-*"], "o"), route(&["*"], "a")],
    );
    assert_eq!(c.validate(), Ok(()));
    let router = c.to_router().unwrap();
    for model in ["gpt-4o", "anything", ""] {
        let info = llm_mux::codec::RouteInfo {
            request_id: "r".to_string(),
            model: model.to_string(),
            inbound_protocol: Protocol::OpenAiResponses,
            stream: true,
            has_tools: true,
            has_media: false,
            api_key: None,
        };
        let r = router.route(&info).unwrap();
        assert_eq!(r.headers.len(), 2);
        if model == "gpt-4o" {
            assert_eq!(r.protocol, Protocol::OpenAiChat);
        } else {
            assert_eq!(r.protocol, Protocol::Anthropic);
        }
    }
}

#[test]
fn an_unknown_route_protocol_stops_the_router() {
    let mut r = route(&["x"], "p");
    r.protocol = Some("bogus".to_string());
    let c = config(vec![("p".to_string(), provider("anthropic"))], vec![r, route(&["*"], "p")]);
    assert_eq!(c.validate(), Ok(()));
    assert_eq!(c.to_router().err(), Some("unknown protocol: bogus".to_string()));
}

#[test]
fn secrets_are_masked() {
    assert_eq!(mask_secret("sk-1234567890"), "sk-12345***");
    assert_eq!(mask_secret("12345678"), "12345678");
    assert_eq!(mask_secret(""), "");
    let mut c = config(vec![("p".to_string(), provider("anthropic"))], vec![route(&["*"], "p")]);
    c.mask_secrets();
    let p = &c.providers[0].1;
    assert_eq!(p.api_key, "sk-12345***");
    assert_eq!(
        p.headers,
        vec![("x-secret".to_string(), "abcdefgh***".to_string()), ("v".to_string(), "1".to_string())]
    );
    assert_eq!(p.model_mapping, vec![("a".to_string(), "b".to_string())]);
    assert_eq!(p.base_url, "http://up");
}

#[test]
fn the_template_names_providers_and_routes() {
    let t = Config::generate_default();
    assert!(t.contains("providers:"));
    assert!(t.contains("routes:"));
    assert!(t.contains("models: [\"*\"]"));
}

#[test]
fn process_ids_are_read_as_std_parses_them() {
    assert_eq!(parse_pid(" 123\n"), Some(123));
    assert_eq!(parse_pid("+7"), Some(7));
    assert_eq!(parse_pid("4294967295"), Some(4294967295));
    assert_eq!(parse_pid("4294967296"), None);
    assert_eq!(parse_pid("99999999999999999999"), None);
    assert_eq!(parse_pid(""), None);
    assert_eq!(parse_pid("+"), None);
    assert_eq!(parse_pid("-1"), None);
    assert_eq!(parse_pid("12a"), None);
    for text in ["0", " 42 ", "+0010", "abc", "1 2"] {
        assert_eq!(parse_pid(text), text.trim().parse::<u32>().ok());
    }
}
