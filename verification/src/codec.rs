//! The interfaces between the gateway and the protocols (codec, router,
//! authenticator, converter), and the configured router and authenticator.

use vstd::prelude::*;
use vstd::utf8::encode_utf8;
use crate::ir::{IrRequest, IrResponse, IrStreamEvent};
use crate::text::{concat, str_eq};
use crate::types::Protocol;
use crate::wildcard::{wildcard_match, wildcard_matches_str};

verus! {

/// Errors of the codecs, the router and the authenticator.
#[derive(Debug)]
pub enum CodecError {
    Decode(String),
    Encode(String),
    UnsupportedProtocol(Protocol),
    Auth(String),
    RouteNotFound(String),
    Stream(String),
    Json(String),
}

/// The name of a protocol as `Debug` writes it.
pub open spec fn protocol_debug_name(p: Protocol) -> Seq<char> {
    match p {
        Protocol::OpenAiChat => "OpenAiChat"@,
        Protocol::OpenAiResponses => "OpenAiResponses"@,
        Protocol::Anthropic => "Anthropic"@,
    }
}

/// The human-readable text of an error.
pub open spec fn error_text(e: &CodecError) -> Seq<char> {
    match e {
        CodecError::Decode(m) => "failed to decode request: "@ + m@,
        CodecError::Encode(m) => "failed to encode response: "@ + m@,
        CodecError::UnsupportedProtocol(p) => "unsupported protocol: "@ + protocol_debug_name(*p),
        CodecError::Auth(m) => "authentication failed: "@ + m@,
        CodecError::RouteNotFound(m) => "no route matched for model: "@ + m@,
        CodecError::Stream(m) => "stream event error: "@ + m@,
        CodecError::Json(m) => "JSON error: "@ + m@,
    }
}

/// The name of a protocol as `Debug` writes it.
pub fn protocol_debug(p: Protocol) -> (r: &'static str)
    ensures
        r@ == protocol_debug_name(p),
{
    match p {
        Protocol::OpenAiChat => "OpenAiChat",
        Protocol::OpenAiResponses => "OpenAiResponses",
        Protocol::Anthropic => "Anthropic",
    }
}

impl CodecError {
    /// The human-readable text of this error.
    pub fn describe(&self) -> (r: String)
        ensures
            r@ == error_text(self),
    {
        match self {
            CodecError::Decode(m) => concat("failed to decode request: ", m),
            CodecError::Encode(m) => concat("failed to encode response: ", m),
            CodecError::UnsupportedProtocol(p) => concat("unsupported protocol: ", protocol_debug(*p)),
            CodecError::Auth(m) => concat("authentication failed: ", m),
            CodecError::RouteNotFound(m) => concat("no route matched for model: ", m),
            CodecError::Stream(m) => concat("stream event error: ", m),
            CodecError::Json(m) => concat("JSON error: ", m),
        }
    }
}

/// Errors of the adapter layer.
#[derive(Debug)]
pub enum AdapterError {
    Decode(String),
    Encode(String),
    Unsupported(String),
}

/// The human-readable text of an adapter error.
pub open spec fn adapter_error_text(e: &AdapterError) -> Seq<char> {
    match e {
        AdapterError::Decode(m) => "decode error: "@ + m@,
        AdapterError::Encode(m) => "encode error: "@ + m@,
        AdapterError::Unsupported(m) => "unsupported: "@ + m@,
    }
}

impl AdapterError {
    /// The human-readable text of this error.
    pub fn describe(&self) -> (r: String)
        ensures
            r@ == adapter_error_text(self),
    {
        match self {
            AdapterError::Decode(m) => concat("decode error: ", m),
            AdapterError::Encode(m) => concat("encode error: ", m),
            AdapterError::Unsupported(m) => concat("unsupported: ", m),
        }
    }
}

/// An inbound codec decodes external protocol requests into the
/// intermediate representation, and encodes it back to the protocol.
pub trait Codec {
    /// The protocol this codec handles.
    fn protocol(&self) -> Protocol;

    /// Decode a raw request body into the intermediate representation.
    fn decode_request(&self, body: &[u8]) -> Result<IrRequest, CodecError>;

    /// Encode a request into the protocol's format.
    fn encode_request(&self, request: &IrRequest) -> Result<Vec<u8>, CodecError>;

    /// Decode a raw response body of the protocol.
    fn decode_response(&self, body: &[u8]) -> Result<IrResponse, CodecError>;

    /// Encode a response back to the protocol's format.
    fn encode_response(&self, response: &IrResponse) -> Result<Vec<u8>, CodecError>;

    /// Decode one server-sent event of the protocol.
    fn decode_stream_event(&self, event_type: Option<&str>, data: &str) -> Result<
        IrStreamEvent,
        CodecError,
    >;

    /// Encode one stream event as server-sent event text.
    fn encode_stream_event(&self, event: &IrStreamEvent) -> Result<String, CodecError>;

    /// The top-level request fields the protocol defines; the others are
    /// carried along as extra fields.
    fn known_fields(&self) -> Vec<String>;

    /// An error body in the protocol's native format.
    fn write_error(&self, status_code: u16, message: &str) -> Vec<u8>;
}

/// Routing information provided to the router for its decision.
#[derive(Debug)]
pub struct RouteInfo {
    pub request_id: String,
    pub model: String,
    pub inbound_protocol: Protocol,
    pub stream: bool,
    pub has_tools: bool,
    pub has_media: bool,
    pub api_key: Option<String>,
}

/// The outbound target decided by the router.
#[derive(Debug)]
pub struct RouteResult {
    pub protocol: Protocol,
    pub base_url: String,
    pub api_key: String,
    pub model: String,
    pub proxy_url: Option<String>,
    pub headers: Vec<(String, String)>,
}

/// A copy of a list of string pairs.
pub fn copy_pairs(v: &Vec<(String, String)>) -> (r: Vec<(String, String)>)
    ensures
        r.deep_view() == v.deep_view(),
{
    let mut out: Vec<(String, String)> = Vec::new();
    let mut i: usize = 0;
    while i < v.len()
        invariant
            i <= v@.len(),
            out@.len() == i,
            forall|j: int| 0 <= j < i ==> (#[trigger] out@[j]).0@ == v@[j].0@ && out@[j].1@ == v@[j].1@,
        decreases v.len() - i,
    {
        out.push((v[i].0.clone(), v[i].1.clone()));
        i = i + 1;
    }
    assert(out.deep_view() =~= v.deep_view());
    out
}

/// The error a router gives back by default when a send attempt failed.
pub open spec fn default_on_error_text(err: &CodecError) -> Seq<char> {
    "routing error: "@ + error_text(err)
}

/// The router determines the outbound target of each request.
pub trait Router {
    /// Decide where to route this request.
    fn route(&self, info: &RouteInfo) -> Result<RouteResult, CodecError>;

    /// Called when a send attempt fails: a fallback route, or the error.
    fn on_error(&self, info: &RouteInfo, target: &RouteResult, err: &CodecError) -> (r: Result<
        RouteResult,
        CodecError,
    >)
        default_ensures
            r matches Err(CodecError::Decode(m)) && m@ == default_on_error_text(err),
    {
        Err(CodecError::Decode(concat("routing error: ", &err.describe())))
    }

    /// Called after a successful send.
    fn on_success(&self, info: &RouteInfo, target: &RouteResult) {
    }
}

/// A router that sends every request to the same target.
pub struct FixedRouter {
    pub protocol: Protocol,
    pub base_url: String,
    pub api_key: String,
    pub model: String,
}

impl Router for FixedRouter {
    fn route(&self, info: &RouteInfo) -> (r: Result<RouteResult, CodecError>)
        ensures
            r matches Ok(res) && res.protocol == self.protocol && res.base_url@ == self.base_url@
                && res.api_key@ == self.api_key@ && res.model@ == self.model@ && res.proxy_url
                is None && res.headers@.len() == 0,
    {
        Ok(
            RouteResult {
                protocol: self.protocol,
                base_url: self.base_url.clone(),
                api_key: self.api_key.clone(),
                model: self.model.clone(),
                proxy_url: None,
                headers: Vec::new(),
            },
        )
    }
}

/// The authenticator validates inbound API keys.
pub trait Authenticator {
    fn authenticate(&self, api_key: &str) -> Result<(), CodecError>;
}

/// A converter adjusts requests and responses between the inbound and the
/// outbound protocol.
pub trait Converter {
    /// Adjust a request for the outbound target, after routing and before
    /// encoding.
    fn convert_request(&self, request: &mut IrRequest, target: &RouteResult);

    /// Adjust a response from the outbound protocol for the inbound one.
    fn convert_response(
        &self,
        response: &mut IrResponse,
        source_protocol: Protocol,
        target_protocol: Protocol,
    );

    /// Adjust one stream event.
    fn convert_stream_event(
        &self,
        event: &mut IrStreamEvent,
        source_protocol: Protocol,
        target_protocol: Protocol,
    );
}

/// A converter that passes everything through unchanged.
pub struct NoopConverter;

impl Converter for NoopConverter {
    fn convert_request(&self, request: &mut IrRequest, target: &RouteResult)
        ensures
            *final(request) == *old(request),
    {
    }

    fn convert_response(
        &self,
        response: &mut IrResponse,
        source_protocol: Protocol,
        target_protocol: Protocol,
    )
        ensures
            *final(response) == *old(response),
    {
    }

    fn convert_stream_event(
        &self,
        event: &mut IrStreamEvent,
        source_protocol: Protocol,
        target_protocol: Protocol,
    )
        ensures
            *final(event) == *old(event),
    {
    }
}

/// An authenticator that accepts the configured API keys, or every key when
/// none is configured.
pub struct ConfigAuthenticator {
    pub keys: Vec<String>,
}

/// Whether `key` is one of `keys`.
pub open spec fn key_listed(keys: Seq<String>, key: Seq<char>) -> bool {
    exists|i: int| 0 <= i < keys.len() && (#[trigger] keys[i])@ == key
}

impl ConfigAuthenticator {
    /// An authenticator for the API keys `keys`.
    pub fn new(keys: Vec<String>) -> (r: ConfigAuthenticator)
        ensures
            r.keys.deep_view() == keys.deep_view(),
    {
        ConfigAuthenticator { keys }
    }
}

impl Authenticator for ConfigAuthenticator {
    fn authenticate(&self, api_key: &str) -> (r: Result<(), CodecError>)
        ensures
            (self.keys@.len() == 0 || key_listed(self.keys@, api_key@)) ==> r is Ok,
            !(self.keys@.len() == 0 || key_listed(self.keys@, api_key@)) ==> (r matches Err(
                CodecError::Auth(m),
            ) && m@ == "invalid API key"@),
    {
        if self.keys.len() == 0 {
            return Ok(());
        }
        let mut i: usize = 0;
        while i < self.keys.len()
            invariant
                i <= self.keys@.len(),
                forall|j: int| 0 <= j < i ==> (#[trigger] self.keys@[j])@ != api_key@,
            decreases self.keys.len() - i,
        {
            if str_eq(self.keys[i].as_str(), api_key) {
                return Ok(());
            }
            i = i + 1;
        }
        Err(CodecError::Auth("invalid API key".to_string()))
    }
}

/// A provider: where requests routed to it go, and how model names are
/// mapped for it.
#[derive(Debug)]
pub struct ProviderConfig {
    pub protocol: Protocol,
    pub base_url: String,
    pub api_key: String,
    pub headers: Vec<(String, String)>,
    pub model_mapping: Vec<(String, String)>,
}

/// A route rule: every condition that is set must hold (the model must
/// match one of the patterns).
#[derive(Debug)]
pub struct RouteRule {
    pub models: Vec<String>,
    pub protocol: Option<Protocol>,
    pub stream: Option<bool>,
    pub has_tools: Option<bool>,
    pub has_media: Option<bool>,
    pub provider: String,
}

/// A router that tries its rules top to bottom; the first rule that matches
/// wins.
pub struct ConfigurableRouter {
    pub rules: Vec<RouteRule>,
    pub providers: Vec<(String, ProviderConfig)>,
}

/// Whether some pattern of `models` matches `model`.
pub open spec fn some_pattern_matches(models: Seq<String>, model: Seq<char>) -> bool {
    exists|i: int| 0 <= i < models.len() && wildcard_matches_str((#[trigger] models[i])@, model)
}

/// Whether `rule` matches the request described by `info`.
pub open spec fn rule_matches(rule: RouteRule, info: RouteInfo) -> bool {
    &&& some_pattern_matches(rule.models@, info.model@)
    &&& (rule.protocol matches Some(p) ==> p == info.inbound_protocol)
    &&& (rule.stream matches Some(s) ==> s == info.stream)
    &&& (rule.has_tools matches Some(t) ==> t == info.has_tools)
    &&& (rule.has_media matches Some(m) ==> m == info.has_media)
}

/// The first rule from position `i` on that matches.
pub open spec fn first_rule_from(rules: Seq<RouteRule>, info: RouteInfo, i: nat) -> Option<nat>
    decreases rules.len() - i,
{
    if i >= rules.len() {
        None
    } else if rule_matches(rules[i as int], info) {
        Some(i)
    } else {
        first_rule_from(rules, info, i + 1)
    }
}

/// The first entry from position `i` on whose key is `key`.
pub open spec fn first_key_from<V>(entries: Seq<(String, V)>, key: Seq<char>, i: nat) -> Option<nat>
    decreases entries.len() - i,
{
    if i >= entries.len() {
        None
    } else if entries[i as int].0@ == key {
        Some(i)
    } else {
        first_key_from(entries, key, i + 1)
    }
}

/// Among the first `n` entries of `mapping`, the last of the longest keys
/// (in bytes) that match `model` as a pattern.
pub open spec fn best_pattern(mapping: Seq<(String, String)>, model: Seq<char>, n: nat) -> Option<nat>
    decreases n,
{
    if n == 0 || n > mapping.len() {
        None
    } else {
        let prev = best_pattern(mapping, model, (n - 1) as nat);
        let k = (n - 1) as nat;
        if wildcard_matches_str(mapping[k as int].0@, model) && (match prev {
            Some(b) => encode_utf8(mapping[b as int].0@).len() <= encode_utf8(mapping[k as int].0@).len(),
            None => true,
        }) {
            Some(k)
        } else {
            prev
        }
    }
}

/// The model name a provider is asked for: the value of the key equal to
/// `model`; else the value of the longest key that matches `model` as a
/// pattern; else `model` itself.
pub open spec fn mapped_model(mapping: Seq<(String, String)>, model: Seq<char>) -> Seq<char> {
    match first_key_from(mapping, model, 0) {
        Some(i) => mapping[i as int].1@,
        None => match best_pattern(mapping, model, mapping.len()) {
            Some(b) => mapping[b as int].1@,
            None => model,
        },
    }
}

/// The text of the error for a request that no rule matches.
pub open spec fn no_route_text(model: Seq<char>) -> Seq<char> {
    "no route matched for model '"@ + model + "'"@
}

/// The text of the error for a rule whose provider is not configured.
pub open spec fn missing_provider_text(provider: Seq<char>, model: Seq<char>) -> Seq<char> {
    "provider '"@ + provider + "' not found for model '"@ + model + "'"@
}

/// Whether `res` is the route to `prov` for `model`.
pub open spec fn is_route_to(res: RouteResult, prov: ProviderConfig, model: Seq<char>) -> bool {
    &&& res.protocol == prov.protocol
    &&& res.base_url@ == prov.base_url@
    &&& res.api_key@ == prov.api_key@
    &&& res.model@ == mapped_model(prov.model_mapping@, model)
    &&& res.proxy_url is None
    &&& res.headers.deep_view() == prov.headers.deep_view()
}

/// What routing `info` with `rules` and `providers` gives.
pub open spec fn route_outcome(
    rules: Seq<RouteRule>,
    providers: Seq<(String, ProviderConfig)>,
    info: RouteInfo,
    r: Result<RouteResult, CodecError>,
) -> bool {
    match first_rule_from(rules, info, 0) {
        None => r matches Err(CodecError::RouteNotFound(m)) && m@ == no_route_text(info.model@),
        Some(k) => match first_key_from(providers, rules[k as int].provider@, 0) {
            None => r matches Err(CodecError::RouteNotFound(m)) && m@ == missing_provider_text(
                rules[k as int].provider@,
                info.model@,
            ),
            Some(p) => r matches Ok(res) && is_route_to(res, providers[p as int].1, info.model@),
        },
    }
}

fn any_pattern_matches(models: &Vec<String>, model: &str) -> (r: bool)
    ensures
        r == some_pattern_matches(models@, model@),
{
    let mut i: usize = 0;
    while i < models.len()
        invariant
            i <= models@.len(),
            forall|j: int| 0 <= j < i ==> !wildcard_matches_str((#[trigger] models@[j])@, model@),
        decreases models.len() - i,
    {
        if wildcard_match(models[i].as_str(), model) {
            return true;
        }
        i = i + 1;
    }
    false
}

fn matches_rule(rule: &RouteRule, info: &RouteInfo) -> (r: bool)
    ensures
        r == rule_matches(*rule, *info),
{
    if !any_pattern_matches(&rule.models, info.model.as_str()) {
        return false;
    }
    if let Some(p) = rule.protocol {
        if p != info.inbound_protocol {
            return false;
        }
    }
    if let Some(s) = rule.stream {
        if s != info.stream {
            return false;
        }
    }
    if let Some(t) = rule.has_tools {
        if t != info.has_tools {
            return false;
        }
    }
    if let Some(m) = rule.has_media {
        if m != info.has_media {
            return false;
        }
    }
    true
}

fn find_provider<'a>(providers: &'a Vec<(String, ProviderConfig)>, name: &str) -> (r: Option<
    &'a ProviderConfig,
>)
    ensures
        match first_key_from(providers@, name@, 0) {
            None => r is None,
            Some(p) => r == Some(&providers@[p as int].1),
        },
{
    let mut i: usize = 0;
    while i < providers.len()
        invariant
            i <= providers@.len(),
            first_key_from(providers@, name@, 0) == first_key_from(providers@, name@, i as nat),
        decreases providers.len() - i,
    {
        if str_eq(providers[i].0.as_str(), name) {
            return Some(&providers[i].1);
        }
        i = i + 1;
    }
    None
}

fn map_model(mapping: &Vec<(String, String)>, model: &str) -> (r: String)
    ensures
        r@ == mapped_model(mapping@, model@),
{
    let mut i: usize = 0;
    while i < mapping.len()
        invariant
            i <= mapping@.len(),
            first_key_from(mapping@, model@, 0) == first_key_from(mapping@, model@, i as nat),
        decreases mapping.len() - i,
    {
        if str_eq(mapping[i].0.as_str(), model) {
            return mapping[i].1.clone();
        }
        i = i + 1;
    }
    let mut best: Option<usize> = None;
    let mut n: usize = 0;
    while n < mapping.len()
        invariant
            n <= mapping@.len(),
            best matches Some(b) ==> b < n,
            first_key_from(mapping@, model@, 0) is None,
            match best {
                Some(b) => best_pattern(mapping@, model@, n as nat) == Some(b as nat),
                None => best_pattern(mapping@, model@, n as nat) is None,
            },
        decreases mapping.len() - n,
    {
        let ghost prev = best_pattern(mapping@, model@, n as nat);
        assert(best_pattern(mapping@, model@, (n + 1) as nat) == if wildcard_matches_str(
            mapping@[n as int].0@,
            model@,
        ) && (match prev {
            Some(b) => encode_utf8(mapping@[b as int].0@).len() <= encode_utf8(
                mapping@[n as int].0@,
            ).len(),
            None => true,
        }) {
            Some(n as nat)
        } else {
            prev
        });
        if wildcard_match(mapping[n].0.as_str(), model) {
            match best {
                Some(b) => {
                    let lb = mapping[b].0.as_str().as_bytes().len();
                    let ln = mapping[n].0.as_str().as_bytes().len();
                    if lb <= ln {
                        best = Some(n);
                    }
                },
                None => {
                    best = Some(n);
                },
            }
        }
        n = n + 1;
    }
    match best {
        Some(b) => mapping[b].1.clone(),
        None => model.to_string(),
    }
}

impl ConfigurableRouter {
    /// A router over `rules`, tried in order, and the named `providers`.
    pub fn new(rules: Vec<RouteRule>, providers: Vec<(String, ProviderConfig)>) -> (r:
        ConfigurableRouter)
        ensures
            r.rules@ == rules@,
            r.providers@ == providers@,
    {
        ConfigurableRouter { rules, providers }
    }

    /// Whether `pattern` matches `value` (see [`wildcard_match`]).
    pub fn wildcard_match(pattern: &str, value: &str) -> (r: bool)
        ensures
            r == wildcard_matches_str(pattern@, value@),
    {
        wildcard_match(pattern, value)
    }
}

impl Router for ConfigurableRouter {
    fn route(&self, info: &RouteInfo) -> (r: Result<RouteResult, CodecError>)
        ensures
            route_outcome(self.rules@, self.providers@, *info, r),
    {
        let mut i: usize = 0;
        while i < self.rules.len()
            invariant
                i <= self.rules@.len(),
                first_rule_from(self.rules@, *info, 0) == first_rule_from(self.rules@, *info, i as nat),
            decreases self.rules.len() - i,
        {
            let rule = &self.rules[i];
            if matches_rule(rule, info) {
                let provider = match find_provider(&self.providers, rule.provider.as_str()) {
                    Some(p) => p,
                    None => {
                        let msg = concat(
                            &concat(
                                &concat(&concat("provider '", rule.provider.as_str()), "' not found for model '"),
                                info.model.as_str(),
                            ),
                            "'",
                        );
                        return Err(CodecError::RouteNotFound(msg));
                    },
                };
                let model = map_model(&provider.model_mapping, info.model.as_str());
                return Ok(
                    RouteResult {
                        protocol: provider.protocol,
                        base_url: provider.base_url.clone(),
                        api_key: provider.api_key.clone(),
                        model,
                        proxy_url: None,
                        headers: copy_pairs(&provider.headers),
                    },
                );
            }
            i = i + 1;
        }
        let msg = concat(&concat("no route matched for model '", info.model.as_str()), "'");
        Err(CodecError::RouteNotFound(msg))
    }
}

/// A rule whose patterns include `"*"` and that sets no other condition
/// matches every request.
pub proof fn law_catch_all_rule_matches(rule: RouteRule, info: RouteInfo, i: int)
    requires
        0 <= i < rule.models@.len(),
        encode_utf8(rule.models@[i]@) == seq![42u8],
        rule.protocol is None,
        rule.stream is None,
        rule.has_tools is None,
        rule.has_media is None,
    ensures
        rule_matches(rule, info),
{
    assert(wildcard_matches_str(rule.models@[i]@, info.model@));
}

/// Rules after the first matching rule are never consulted: putting any
/// rules behind a list does not change where a request it routes goes.
pub proof fn law_first_match_wins(rules: Seq<RouteRule>, more: Seq<RouteRule>, info: RouteInfo)
    requires
        first_rule_from(rules, info, 0) is Some,
    ensures
        first_rule_from(rules + more, info, 0) == first_rule_from(rules, info, 0),
{
    lemma_first_rule_prefix(rules, more, info, 0);
}

proof fn lemma_first_rule_prefix(rules: Seq<RouteRule>, more: Seq<RouteRule>, info: RouteInfo, i: nat)
    requires
        first_rule_from(rules, info, i) is Some,
    ensures
        first_rule_from(rules + more, info, i) == first_rule_from(rules, info, i),
    decreases rules.len() - i,
{
    if i < rules.len() {
        assert((rules + more)[i as int] == rules[i as int]);
        if !rule_matches(rules[i as int], info) {
            lemma_first_rule_prefix(rules, more, info, i + 1);
        }
    }
}

/// The first entry with key `key` is found from any position before it.
proof fn lemma_first_key_at<V>(entries: Seq<(String, V)>, key: Seq<char>, i: nat, k: int)
    requires
        i <= k < entries.len(),
        entries[k].0@ == key,
        forall|j: int| i <= j < k ==> (#[trigger] entries[j]).0@ != key,
    ensures
        first_key_from(entries, key, i) == Some(k as nat),
    decreases k - i,
{
    if i < k {
        lemma_first_key_at(entries, key, i + 1, k);
    }
}

/// A model named exactly in a provider's mapping is sent under the value
/// of its first such entry, whatever patterns the mapping also holds.
pub proof fn law_exact_mapping_wins(mapping: Seq<(String, String)>, model: Seq<char>, k: int)
    requires
        0 <= k < mapping.len(),
        mapping[k].0@ == model,
        forall|j: int| 0 <= j < k ==> (#[trigger] mapping[j]).0@ != model,
    ensures
        mapped_model(mapping, model) == mapping[k].1@,
{
    lemma_first_key_at(mapping, model, 0, k);
}

/// A model that no key of the mapping names or matches is sent unchanged.
pub proof fn law_unmapped_model_kept(mapping: Seq<(String, String)>, model: Seq<char>)
    requires
        forall|j: int|
            0 <= j < mapping.len() ==> (#[trigger] mapping[j]).0@ != model && !wildcard_matches_str(
                mapping[j].0@,
                model,
            ),
    ensures
        mapped_model(mapping, model) == model,
{
    lemma_no_key(mapping, model, 0);
    lemma_no_pattern(mapping, model, mapping.len());
}

proof fn lemma_no_key(mapping: Seq<(String, String)>, model: Seq<char>, i: nat)
    requires
        forall|j: int| 0 <= j < mapping.len() ==> (#[trigger] mapping[j]).0@ != model,
    ensures
        first_key_from(mapping, model, i) is None,
    decreases mapping.len() - i,
{
    if i < mapping.len() {
        lemma_no_key(mapping, model, i + 1);
    }
}

proof fn lemma_no_pattern(mapping: Seq<(String, String)>, model: Seq<char>, n: nat)
    requires
        n <= mapping.len(),
        forall|j: int| 0 <= j < mapping.len() ==> !wildcard_matches_str((#[trigger] mapping[j]).0@, model),
    ensures
        best_pattern(mapping, model, n) is None,
    decreases n,
{
    if n > 0 {
        lemma_no_pattern(mapping, model, (n - 1) as nat);
    }
}

/// The first rule from `i` that matches, when there is one, is one that
/// matches, and no rule before it from `i` does.
proof fn lemma_first_rule_matches(rules: Seq<RouteRule>, info: RouteInfo, i: nat)
    ensures
        first_rule_from(rules, info, i) matches Some(k) ==> i <= k < rules.len() && rule_matches(
            rules[k as int],
            info,
        ) && forall|j: int| i <= j < k ==> !rule_matches(#[trigger] rules[j], info),
    decreases rules.len() - i,
{
    if i < rules.len() && !rule_matches(rules[i as int], info) {
        lemma_first_rule_matches(rules, info, i + 1);
    }
}

/// The rule a request is routed by agrees with the request on every
/// condition it sets: one of its model patterns matches the model, and its
/// protocol, streaming, tools and media conditions, where set, equal the
/// request's. Every rule before it fails one of these.
pub proof fn law_chosen_rule_conditions_hold(rules: Seq<RouteRule>, info: RouteInfo)
    ensures
        first_rule_from(rules, info, 0) matches Some(k) ==> {
            let chosen = rules[k as int];
            &&& some_pattern_matches(chosen.models@, info.model@)
            &&& (chosen.protocol matches Some(want) ==> want == info.inbound_protocol)
            &&& (chosen.stream matches Some(want) ==> want == info.stream)
            &&& (chosen.has_tools matches Some(want) ==> want == info.has_tools)
            &&& (chosen.has_media matches Some(want) ==> want == info.has_media)
        },
{
    lemma_first_rule_matches(rules, info, 0);
}

/// A rule that sets a tools, media, streaming or protocol condition the
/// request does not meet is never the rule the request is routed by.
pub proof fn law_unmet_condition_skips_rule(rules: Seq<RouteRule>, info: RouteInfo, k: int)
    requires
        0 <= k < rules.len(),
        (rules[k].has_tools matches Some(t) && t != info.has_tools) || (rules[k].has_media matches Some(
            m,
        ) && m != info.has_media) || (rules[k].stream matches Some(s) && s != info.stream) || (
        rules[k].protocol matches Some(p) && p != info.inbound_protocol),
    ensures
        first_rule_from(rules, info, 0) != Some(k as nat),
{
    lemma_first_rule_matches(rules, info, 0);
}

} // verus!
