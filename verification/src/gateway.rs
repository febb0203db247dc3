//! The gateway's decisions: which key a request carries, whether it may
//! pass, what is sent upstream, what the client gets back, and how the
//! upstream event stream is relayed.

use vstd::prelude::*;
use vstd::utf8::encode_utf8;
use crate::chat::{ChatCompletionsCodec, chat_error_json};
use crate::codec::{
    Authenticator, Codec, CodecError, ConfigAuthenticator, ConfigurableRouter, RouteInfo,
    RouteResult, Router, copy_pairs, error_text, key_listed, route_outcome,
};
use crate::ir::{IrRequest, IrResponse};
use crate::json::{JsonV, MemberV, obj_members, printed_json, unknown_members};
use crate::messages::{MessagesCodec, messages_error_json};
use crate::responses::{ResponsesCodec, responses_error_json};
use crate::sse::{strip_prefix, strip_prefix_of};
use crate::text::{bytes_of, concat};
use crate::types::Protocol;

verus! {

// ---------------------------------------------------------------------------
// API keys
// ---------------------------------------------------------------------------

/// The key of a chat request: the `Authorization` header's value after
/// `Bearer `.
pub open spec fn chat_key(authorization: Option<Seq<char>>) -> Option<Seq<char>> {
    match authorization {
        Some(v) => strip_prefix(v, "Bearer "@),
        None => None,
    }
}

/// The key of a chat request (see [`chat_key`]); `authorization` is the
/// header's text, absent when there is no such header or it is not text.
pub fn extract_api_key_chat(authorization: Option<&str>) -> (r: Option<String>)
    ensures
        r.deep_view() == chat_key(match authorization {
            Some(v) => Some(v@),
            None => None,
        }),
{
    match authorization {
        Some(v) => strip_prefix_of(v, "Bearer "),
        None => None,
    }
}

/// The key of a messages request: the `x-api-key` header when there is
/// one, else `Authorization`; its text after `Bearer ` when it starts so,
/// else all of it.
pub open spec fn anthropic_key(
    x_api_key: Option<Option<Seq<char>>>,
    authorization: Option<Option<Seq<char>>>,
) -> Option<Seq<char>> {
    let header = match x_api_key {
        Some(h) => Some(h),
        None => authorization,
    };
    match header {
        Some(Some(v)) => match strip_prefix(v, "Bearer "@) {
            Some(k) => Some(k),
            None => Some(v),
        },
        _ => None,
    }
}

/// The view of a header: absent, present but not text, or its text.
pub open spec fn header_view(h: Option<Option<&str>>) -> Option<Option<Seq<char>>> {
    match h {
        Some(Some(v)) => Some(Some(v@)),
        Some(None) => Some(None),
        None => None,
    }
}

/// The key of a messages request (see [`anthropic_key`]); each header is
/// absent, present but not text, or its text.
pub fn extract_api_key_anthropic(x_api_key: Option<Option<&str>>, authorization: Option<Option<&str>>) -> (r:
    Option<String>)
    ensures
        r.deep_view() == anthropic_key(header_view(x_api_key), header_view(authorization)),
{
    let header = match x_api_key {
        Some(h) => Some(h),
        None => authorization,
    };
    match header {
        Some(Some(v)) => match strip_prefix_of(v, "Bearer ") {
            Some(k) => Some(k),
            None => Some(v.to_string()),
        },
        _ => None,
    }
}

/// The key of a responses request: the `Authorization` header's value
/// after `Bearer `, else the `x-api-key` header.
pub open spec fn responses_key(authorization: Option<Seq<char>>, x_api_key: Option<Seq<char>>) -> Option<
    Seq<char>,
> {
    match chat_key(authorization) {
        Some(k) => Some(k),
        None => x_api_key,
    }
}

/// The key of a responses request (see [`responses_key`]); each header is
/// its text, absent when there is no such header or it is not text.
pub fn extract_api_key_responses(authorization: Option<&str>, x_api_key: Option<&str>) -> (r: Option<
    String,
>)
    ensures
        r.deep_view() == responses_key(
            match authorization {
                Some(v) => Some(v@),
                None => None,
            },
            match x_api_key {
                Some(v) => Some(v@),
                None => None,
            },
        ),
{
    match extract_api_key_chat(authorization) {
        Some(k) => Some(k),
        None => match x_api_key {
            Some(v) => Some(v.to_string()),
            None => None,
        },
    }
}

// ---------------------------------------------------------------------------
// Replies
// ---------------------------------------------------------------------------

/// A reply to the client: an HTTP status and a body.
#[derive(Debug)]
pub struct Reply {
    pub status: u16,
    pub body: Vec<u8>,
}

/// The body of the reply to a request without an accepted key.
pub open spec fn unauthorized_body() -> Seq<char> {
    "{\"error\":{\"message\":\"Invalid or missing API key\",\"type\":\"authentication_error\"}}"@
}

/// Whether a request carrying `api_key` may pass.
pub open spec fn key_accepted(keys: Seq<String>, api_key: Option<Seq<char>>) -> bool {
    match api_key {
        Some(k) => keys.len() == 0 || key_listed(keys, k),
        None => false,
    }
}

/// Nothing when the request may pass; else the 401 reply.
pub fn validate_auth(auth: &ConfigAuthenticator, api_key: &Option<String>) -> (r: Option<Reply>)
    ensures
        key_accepted(auth.keys@, api_key.deep_view()) ==> r is None,
        !key_accepted(auth.keys@, api_key.deep_view()) ==> (r matches Some(reply) && reply.status
            == 401 && reply.body@ == encode_utf8(unauthorized_body())),
{
    match api_key {
        Some(k) => {
            if auth.authenticate(k.as_str()).is_ok() {
                return None;
            }
        },
        None => {},
    }
    Some(
        Reply {
            status: 401,
            body: bytes_of(
                "{\"error\":{\"message\":\"Invalid or missing API key\",\"type\":\"authentication_error\"}}",
            ),
        },
    )
}

/// The error body a protocol writes.
pub open spec fn error_body(p: Protocol, status_code: u16, message: Seq<char>) -> Seq<u8> {
    encode_utf8(
        printed_json(
            match p {
                Protocol::OpenAiChat => chat_error_json(status_code, message),
                Protocol::Anthropic => messages_error_json(status_code, message),
                Protocol::OpenAiResponses => responses_error_json(status_code, message),
            },
        ),
    )
}

/// The error body a protocol writes (see [`error_body`]).
pub fn write_error_as(p: Protocol, status_code: u16, message: &str) -> (r: Vec<u8>)
    ensures
        r@ == error_body(p, status_code, message@),
{
    match p {
        Protocol::OpenAiChat => ChatCompletionsCodec.write_error(status_code, message),
        Protocol::Anthropic => MessagesCodec.write_error(status_code, message),
        Protocol::OpenAiResponses => ResponsesCodec.write_error(status_code, message),
    }
}

/// The status a reply is sent with: `code` when it is a valid HTTP status
/// (100 to 999), else 500.
pub open spec fn reply_status(code: u16) -> u16 {
    reply_status_or(code, 500)
}

/// An error reply in the protocol `p`.
pub fn codec_error_response(p: Protocol, code: u16, message: &str) -> (r: Reply)
    ensures
        r.status == reply_status(code),
        r.body@ == error_body(p, code, message@),
{
    let status = if 100 <= code && code <= 999 {
        code
    } else {
        500
    };
    Reply { status, body: write_error_as(p, code, message) }
}

// ---------------------------------------------------------------------------
// Upstream calls
// ---------------------------------------------------------------------------

/// `base_url` without a final `/v1`, which every endpoint path brings.
pub open spec fn api_base(base_url: Seq<char>) -> Seq<char> {
    if base_url.len() >= 3 && base_url.skip(base_url.len() - 3) == "/v1"@ {
        base_url.take(base_url.len() - 3)
    } else {
        base_url
    }
}

/// The endpoint of a route: its base URL, without a final `/v1`, followed
/// by the protocol's `/v1/...` path.
pub open spec fn upstream_url_v(p: Protocol, base_url: Seq<char>) -> Seq<char> {
    api_base(base_url) + match p {
        Protocol::OpenAiChat => "/v1/chat/completions"@,
        Protocol::Anthropic => "/v1/messages"@,
        Protocol::OpenAiResponses => "/v1/responses"@,
    }
}

/// `base_url` without a final `/v1` (see [`api_base`]).
fn api_base_of(base_url: &str) -> (r: String)
    ensures
        r@ == api_base(base_url@),
{
    let cs = crate::text::chars_of(base_url);
    let n = cs.len();
    proof {
        reveal_strlit("/v1");
    }
    if n >= 3 && cs[n - 3] == '/' && cs[n - 2] == 'v' && cs[n - 1] == '1' {
        assert(base_url@.skip(n - 3) =~= "/v1"@);
        crate::text::string_of_chars(&cs, 0, n - 3)
    } else {
        assert(n >= 3 ==> base_url@.skip(n - 3) != "/v1"@) by {
            if n >= 3 && base_url@.skip(n - 3) == "/v1"@ {
                assert(base_url@.skip(n - 3)[0] == cs@[n - 3]);
                assert(base_url@.skip(n - 3)[1] == cs@[n - 2]);
                assert(base_url@.skip(n - 3)[2] == cs@[n - 1]);
            }
        }
        assert(cs@.subrange(0, n as int) =~= base_url@);
        crate::text::string_of_chars(&cs, 0, n)
    }
}

/// The endpoint of a route (see [`upstream_url_v`]).
pub fn upstream_url(route: &RouteResult) -> (r: String)
    ensures
        r@ == upstream_url_v(route.protocol, route.base_url@),
{
    let base = api_base_of(route.base_url.as_str());
    match route.protocol {
        Protocol::OpenAiChat => concat(base.as_str(), "/v1/chat/completions"),
        Protocol::Anthropic => concat(base.as_str(), "/v1/messages"),
        Protocol::OpenAiResponses => concat(base.as_str(), "/v1/responses"),
    }
}

/// A request to send upstream.
#[derive(Debug)]
pub struct UpstreamCall {
    pub protocol: Protocol,
    pub url: String,
    pub headers: Vec<(String, String)>,
    pub body: Vec<u8>,
    pub stream: bool,
}

/// The start of the error text that a protocol's request decoder gives
/// for a body that is not JSON; serde_json's message follows.
pub open spec fn not_json_request_text(p: Protocol) -> Seq<char> {
    match p {
        Protocol::OpenAiChat => "invalid chat request: "@,
        Protocol::Anthropic => "invalid messages request: "@,
        Protocol::OpenAiResponses => "invalid responses request: "@,
    }
}

/// What decoding a request body as protocol `p` gives.
pub open spec fn decode_request_ok(p: Protocol, body: Seq<u8>, r: Result<IrRequest, CodecError>) -> bool {
    match crate::json::parsed_json_bytes(body) {
        Err(e) => r matches Err(CodecError::Decode(m)) && m@ == not_json_request_text(p) + e,
        Ok(j) => match p {
            Protocol::OpenAiChat => crate::chat::chat_decode_outcome(j, r),
            Protocol::Anthropic => crate::messages::messages_decode_outcome(j, r),
            Protocol::OpenAiResponses => crate::responses::responses_decode_outcome(j, r),
        },
    }
}

/// Decodes a request body as protocol `p`.
pub fn decode_request_as(p: Protocol, body: &[u8]) -> (r: Result<IrRequest, CodecError>)
    ensures
        decode_request_ok(p, body@, r),
{
    match p {
        Protocol::OpenAiChat => ChatCompletionsCodec.decode_request(body),
        Protocol::Anthropic => MessagesCodec.decode_request(body),
        Protocol::OpenAiResponses => ResponsesCodec.decode_request(body),
    }
}

/// The body a request is written as in protocol `p`.
pub open spec fn request_body(p: Protocol, r: crate::ir::IrRequestV) -> Seq<u8> {
    encode_utf8(
        printed_json(
            match p {
                Protocol::OpenAiChat => crate::chat::chat_request_json(r),
                Protocol::Anthropic => crate::messages::messages_request_json(r),
                Protocol::OpenAiResponses => crate::responses::responses_request_json(r),
            },
        ),
    )
}

/// Writes a request in protocol `p` (see [`request_body`]).
pub fn encode_request_as(p: Protocol, request: &IrRequest) -> (r: Vec<u8>)
    ensures
        r@ == request_body(p, request@),
{
    let res = match p {
        Protocol::OpenAiChat => ChatCompletionsCodec.encode_request(request),
        Protocol::Anthropic => MessagesCodec.encode_request(request),
        Protocol::OpenAiResponses => ResponsesCodec.encode_request(request),
    };
    match res {
        Ok(b) => b,
        Err(_) => Vec::new(),
    }
}

/// The request with its model replaced by `model`.
pub open spec fn with_model(r: crate::ir::IrRequestV, model: Seq<char>) -> crate::ir::IrRequestV {
    crate::ir::IrRequestV { model, ..r }
}

/// The headers sent upstream: the route's own, then the bearer key and the
/// content type.
pub open spec fn upstream_headers(route: RouteResult) -> Seq<(Seq<char>, Seq<char>)> {
    route.headers.deep_view().push(("Authorization"@, "Bearer "@ + route.api_key@)).push(
        ("Content-Type"@, "application/json"@),
    )
}

/// What the gateway makes of a client request received as `inbound`:
/// a 400 reply when the body does not decode, a 502 reply when no route
/// takes it, else the call to send upstream.
pub open spec fn plan_outcome(
    router: ConfigurableRouter,
    inbound: Protocol,
    api_key: Option<Seq<char>>,
    body: Seq<u8>,
    r: Result<UpstreamCall, Reply>,
) -> bool {
    ||| (exists|e: CodecError|
        decode_request_ok(inbound, body, Err(e)) && (r matches Err(reply) && reply.status == 400
            && reply.body@ == error_body(inbound, 400, error_text(&e))))
    ||| (exists|ir: IrRequest, info: RouteInfo, res: Result<RouteResult, CodecError>|
        #![trigger decode_request_ok(inbound, body, Ok(ir)), route_outcome(router.rules@, router.providers@, info, res)]
        {
            &&& decode_request_ok(inbound, body, Ok(ir))
            &&& info.model@ == ir.model@
            &&& info.inbound_protocol == inbound
            &&& info.stream == (ir.stream == Some(true))
            &&& info.has_tools == (ir.tools@.len() > 0)
            &&& info.has_media == (crate::ir::blocks_have_media(ir@.system_prompt) || exists|m: int|
                0 <= m < ir@.messages.len() && crate::ir::blocks_have_media(
                    #[trigger] ir@.messages[m].content,
                ))
            &&& info.api_key.deep_view() == api_key
            &&& route_outcome(router.rules@, router.providers@, info, res)
            &&& match res {
                Err(e) => (r matches Err(reply) && reply.status == 502 && reply.body@ == error_body(
                    inbound,
                    502,
                    error_text(&e),
                )),
                Ok(route) => (r matches Ok(call) && call.protocol == route.protocol && call.url@
                    == upstream_url_v(route.protocol, route.base_url@) && call.headers.deep_view()
                    == upstream_headers(route) && call.body@ == request_body(
                    route.protocol,
                    with_model(ir@, route.model@),
                ) && call.stream == (ir.stream == Some(true))),
            }
        })
}

/// Decides what to do with a client request received as `inbound`
/// carrying `api_key`: decode it, route it, and write it for the chosen
/// provider (see [`plan_outcome`]).
pub fn plan_request(
    router: &ConfigurableRouter,
    inbound: Protocol,
    api_key: Option<String>,
    body: &[u8],
    request_id: String,
) -> (r: Result<UpstreamCall, Reply>)
    ensures
        plan_outcome(*router, inbound, api_key.deep_view(), body@, r),
{
    let ir = match decode_request_as(inbound, body) {
        Ok(ir) => ir,
        Err(e) => {
            let reply = codec_error_response(inbound, 400, e.describe().as_str());
            assert(decode_request_ok(inbound, body@, Err(e)));
            return Err(reply);
        },
    };
    let stream = ir.is_streaming();
    let ghost ak = api_key.deep_view();
    let info = RouteInfo {
        request_id,
        model: ir.model.clone(),
        inbound_protocol: inbound,
        stream,
        has_tools: ir.has_tools(),
        has_media: ir.has_media(),
        api_key,
    };
    let res = router.route(&info);
    let ghost gres = res;
    match res {
        Err(e) => {
            let reply = codec_error_response(inbound, 502, e.describe().as_str());
            let r: Result<UpstreamCall, Reply> = Err(reply);
            assert(route_outcome(router.rules@, router.providers@, info, gres));
            assert(decode_request_ok(inbound, body@, Ok(ir)));
            r
        },
        Ok(route) => {
            let mut out_ir = ir;
            let ghost ir0 = out_ir;
            out_ir.model = route.model.clone();
            assert(out_ir@ =~= with_model(ir0@, route.model@));
            let out_body = encode_request_as(route.protocol, &out_ir);
            let mut headers = copy_pairs(&route.headers);
            let ghost h0 = headers.deep_view();
            headers.push(("Authorization".to_string(), concat("Bearer ", route.api_key.as_str())));
            headers.push(("Content-Type".to_string(), "application/json".to_string()));
            assert(headers.deep_view() =~= upstream_headers(route));
            let call = UpstreamCall {
                protocol: route.protocol,
                url: upstream_url(&route),
                headers,
                body: out_body,
                stream,
            };
            assert(route_outcome(router.rules@, router.providers@, info, gres));
            assert(decode_request_ok(inbound, body@, Ok(ir0)));
            Ok(call)
        },
    }
}

// ---------------------------------------------------------------------------
// Upstream replies
// ---------------------------------------------------------------------------

/// What decoding a response body as protocol `p` gives.
pub open spec fn decode_response_ok(p: Protocol, body: Seq<u8>, r: Result<IrResponse, CodecError>) -> bool {
    match crate::json::parsed_json_bytes(body) {
        Err(e) => r matches Err(CodecError::Json(m)) && m@ == e,
        Ok(j) => match p {
            Protocol::OpenAiChat => crate::chat::chat_response_outcome(j, r),
            Protocol::Anthropic => crate::messages::messages_response_outcome(j, r),
            Protocol::OpenAiResponses => crate::responses::responses_response_outcome(j, r),
        },
    }
}

/// Decodes a response body as protocol `p`.
pub fn decode_response_as(p: Protocol, body: &[u8]) -> (r: Result<IrResponse, CodecError>)
    ensures
        decode_response_ok(p, body@, r),
{
    match p {
        Protocol::OpenAiChat => ChatCompletionsCodec.decode_response(body),
        Protocol::Anthropic => MessagesCodec.decode_response(body),
        Protocol::OpenAiResponses => ResponsesCodec.decode_response(body),
    }
}

/// The body a response is written as in protocol `p`.
pub open spec fn response_body(p: Protocol, r: crate::ir::IrResponseV) -> Seq<u8> {
    encode_utf8(
        printed_json(
            match p {
                Protocol::OpenAiChat => crate::chat::chat_response_json(r),
                Protocol::Anthropic => crate::messages::messages_response_json(r),
                Protocol::OpenAiResponses => crate::responses::responses_response_json(r),
            },
        ),
    )
}

/// Writes a response in protocol `p` (see [`response_body`]).
pub fn encode_response_as(p: Protocol, response: &IrResponse) -> (r: Vec<u8>)
    ensures
        r@ == response_body(p, response@),
{
    let res = match p {
        Protocol::OpenAiChat => ChatCompletionsCodec.encode_response(response),
        Protocol::Anthropic => MessagesCodec.encode_response(response),
        Protocol::OpenAiResponses => ResponsesCodec.encode_response(response),
    };
    match res {
        Ok(b) => b,
        Err(_) => Vec::new(),
    }
}

/// What the client of protocol `inbound` gets for an upstream reply of
/// protocol `outbound` with `status` and `body`: the reply rewritten in
/// its protocol with status 200 when it decodes; else the upstream's own
/// status and body when that status is an error (400 to 599); else a 502
/// error naming why it did not decode.
pub open spec fn reply_outcome(
    inbound: Protocol,
    outbound: Protocol,
    status: u16,
    body: Seq<u8>,
    r: Reply,
) -> bool {
    exists|d: Result<IrResponse, CodecError>|
        #![trigger decode_response_ok(outbound, body, d)]
        {
            &&& decode_response_ok(outbound, body, d)
            &&& match d {
                Ok(resp) => r.status == 200 && r.body@ == response_body(inbound, resp@),
                Err(e) => if 400 <= status <= 599 {
                    r.status == status && r.body@ == body
                } else {
                    r.status == 502 && r.body@ == error_body(inbound, 502, error_text(&e))
                },
            }
        }
}

/// The reply to the client for an upstream reply (see [`reply_outcome`]).
pub fn finish_response(inbound: Protocol, outbound: Protocol, status: u16, body: &[u8]) -> (r: Reply)
    ensures
        reply_outcome(inbound, outbound, status, body@, r),
{
    let d = decode_response_as(outbound, body);
    let ghost gd = d;
    match d {
        Ok(resp) => {
            let out = encode_response_as(inbound, &resp);
            Reply { status: 200, body: out }
        },
        Err(e) => {
            if 400 <= status && status <= 599 {
                Reply { status, body: vstd::slice::slice_to_vec(body) }
            } else {
                codec_error_response(inbound, 502, e.describe().as_str())
            }
        },
    }
}

/// The reply to a client whose streamed request the upstream refused:
/// nothing when the upstream's status is a success (200 to 299); else its
/// status and body, or 502 when its status is no valid HTTP status.
pub fn stream_refusal(status: u16, body: &[u8]) -> (r: Option<Reply>)
    ensures
        200 <= status <= 299 ==> r is None,
        !(200 <= status <= 299) ==> (r matches Some(reply) && reply.status == reply_status_or(
            status,
            502,
        ) && reply.body@ == body@),
{
    if 200 <= status && status <= 299 {
        None
    } else {
        let code = if 100 <= status && status <= 999 {
            status
        } else {
            502
        };
        Some(Reply { status: code, body: vstd::slice::slice_to_vec(body) })
    }
}

/// `code` when it is a valid HTTP status (100 to 999), else `fallback`.
pub open spec fn reply_status_or(code: u16, fallback: u16) -> u16 {
    if 100 <= code <= 999 {
        code
    } else {
        fallback
    }
}

/// The identifier of one request, as the request-id layer hands it on.
#[derive(Debug, Clone)]
pub struct RequestId(pub String);

// ---------------------------------------------------------------------------
// Fields that no protocol knows
// ---------------------------------------------------------------------------

/// The intermediate form that the parsed request `j` of protocol `p` has.
pub open spec fn request_ir_of(p: Protocol, j: JsonV) -> crate::ir::IrRequestV {
    match p {
        Protocol::OpenAiChat => crate::chat::chat_request_ir(j),
        Protocol::Anthropic => crate::messages::messages_request_ir(j),
        Protocol::OpenAiResponses => crate::responses::responses_request_ir(j),
    }
}

/// The JSON that protocol `p` writes for the request `r`.
pub open spec fn request_json_of(p: Protocol, r: crate::ir::IrRequestV) -> JsonV {
    match p {
        Protocol::OpenAiChat => crate::chat::chat_request_json(r),
        Protocol::Anthropic => crate::messages::messages_request_json(r),
        Protocol::OpenAiResponses => crate::responses::responses_request_json(r),
    }
}

/// The top-level request fields that protocol `p` defines.
pub open spec fn known_fields_of(p: Protocol) -> Seq<Seq<char>> {
    match p {
        Protocol::OpenAiChat => crate::chat::chat_known_fields(),
        Protocol::Anthropic => crate::messages::messages_known_fields(),
        Protocol::OpenAiResponses => crate::responses::responses_known_fields(),
    }
}

/// The members that protocol `p` writes for the extra fields `ext`: all of
/// them, except that the responses protocol writes `previous_response_id`
/// in its own place.
pub open spec fn written_extensions(p: Protocol, ext: Seq<MemberV>) -> Seq<MemberV> {
    match p {
        Protocol::OpenAiResponses => unknown_members(ext, seq!["previous_response_id"@]),
        _ => ext,
    }
}

/// Whether `s` ends with `t`.
pub open spec fn ends_with<A>(s: Seq<A>, t: Seq<A>) -> bool {
    t.len() <= s.len() && s.skip(s.len() - t.len()) == t
}

/// A sequence that ends with `b + c` ends with `c`.
proof fn lemma_ends_with_tail<A>(s: Seq<A>, b: Seq<A>, c: Seq<A>)
    requires
        ends_with(s, b + c),
    ensures
        ends_with(s, c),
{
    let t = s.skip(s.len() - (b + c).len());
    assert(t == b + c);
    assert forall|i: int| 0 <= i < c.len() implies s.skip(s.len() - c.len())[i] == c[i] by {
        assert(s.skip(s.len() - c.len())[i] == s[s.len() - c.len() + i]);
        assert(t[b.len() + i] == s[s.len() - (b + c).len() + b.len() + i]);
        assert((b + c)[b.len() + i] == c[i]);
    }
    assert(s.skip(s.len() - c.len()) =~= c);
}

/// Filtering a concatenation filters each part.
pub proof fn lemma_unknown_members_concat(a: Seq<MemberV>, b: Seq<MemberV>, known: Seq<Seq<char>>)
    ensures
        unknown_members(a + b, known) == unknown_members(a, known) + unknown_members(b, known),
    decreases b.len(),
{
    if b.len() == 0 {
        assert(a + b =~= a);
        assert(unknown_members(a, known) + unknown_members(b, known) =~= unknown_members(a, known));
    } else {
        lemma_unknown_members_concat(a, b.drop_last(), known);
        assert((a + b).drop_last() =~= a + b.drop_last());
        assert((a + b).last() == b.last());
        if !known.contains(b.last().key) {
            assert(unknown_members(a, known) + unknown_members(b.drop_last(), known).push(b.last())
                =~= (unknown_members(a, known) + unknown_members(b.drop_last(), known)).push(
                b.last(),
            ));
        }
    }
}

/// The extra fields that the responses protocol keeps besides those it
/// does not define: its `previous_response_id`, when it is a string.
pub open spec fn kept_extensions(p: Protocol, j: JsonV) -> Seq<MemberV> {
    match p {
        Protocol::OpenAiResponses => match crate::json::str_of(j, "previous_response_id"@) {
            Some(id) => seq![crate::json::mv("previous_response_id"@, JsonV::Str(id))],
            None => Seq::empty(),
        },
        _ => Seq::empty(),
    }
}

/// The extra fields of a decoded request: those its protocol keeps,
/// then those it does not define.
proof fn lemma_decoded_extensions(p: Protocol, j: JsonV)
    ensures
        request_ir_of(p, j).provider_extensions == kept_extensions(p, j) + unknown_members(
            obj_members(j),
            known_fields_of(p),
        ),
{
    let u = unknown_members(obj_members(j), known_fields_of(p));
    match p {
        Protocol::OpenAiChat => {
            assert(crate::chat::chat_request_ir(j).provider_extensions == u);
            assert(Seq::<MemberV>::empty() + u =~= u);
        },
        Protocol::Anthropic => {
            assert(crate::messages::messages_request_ir(j).provider_extensions == u);
            assert(Seq::<MemberV>::empty() + u =~= u);
        },
        Protocol::OpenAiResponses => {
            assert(crate::responses::responses_request_ir(j).provider_extensions
                == crate::responses::resp_extensions(j));
        },
    }
}

/// A written request ends with the extra fields it carries.
proof fn lemma_written_extensions(p: Protocol, r: crate::ir::IrRequestV)
    ensures
        ends_with(obj_members(request_json_of(p, r)), written_extensions(p, r.provider_extensions)),
{
    let ms = obj_members(request_json_of(p, r));
    let w = written_extensions(p, r.provider_extensions);
    match p {
        Protocol::OpenAiChat => {
            let js = crate::chat::chat_request_json(r);
            assert(ms.skip(ms.len() - w.len()) =~= w);
        },
        Protocol::Anthropic => {
            let js = crate::messages::messages_request_json(r);
            assert(ms.skip(ms.len() - w.len()) =~= w);
        },
        Protocol::OpenAiResponses => {
            let js = crate::responses::responses_request_json(r);
            assert(ms.skip(ms.len() - w.len()) =~= w);
        },
    }
}

/// Fields of a client request that its protocol does not define reach the
/// upstream: decoding a request of protocol `inbound` and writing it in
/// protocol `outbound` gives an object that ends with those fields, in
/// their order (the responses protocol writes `previous_response_id` in its
/// own place).
pub proof fn law_unknown_fields_pass_through(inbound: Protocol, outbound: Protocol, j: JsonV)
    ensures
        ends_with(
            obj_members(request_json_of(outbound, request_ir_of(inbound, j))),
            written_extensions(outbound, unknown_members(obj_members(j), known_fields_of(inbound))),
        ),
{
    let u = unknown_members(obj_members(j), known_fields_of(inbound));
    let pre = kept_extensions(inbound, j);
    let r = request_ir_of(inbound, j);
    lemma_decoded_extensions(inbound, j);
    lemma_written_extensions(outbound, r);
    let ms = obj_members(request_json_of(outbound, r));
    if outbound == Protocol::OpenAiResponses {
        let k = seq!["previous_response_id"@];
        lemma_unknown_members_concat(pre, u, k);
        lemma_ends_with_tail(ms, unknown_members(pre, k), unknown_members(u, k));
    } else {
        lemma_ends_with_tail(ms, pre, u);
    }
}

/// A written request's first member is its model.
proof fn lemma_model_written_first(p: Protocol, r: crate::ir::IrRequestV)
    ensures
        obj_members(request_json_of(p, r)).len() > 0,
        obj_members(request_json_of(p, r))[0] == crate::json::mv("model"@, JsonV::Str(r.model)),
{
    match p {
        Protocol::OpenAiChat => {
            let js = crate::chat::chat_request_json(r);
        },
        Protocol::Anthropic => {
            let js = crate::messages::messages_request_json(r);
        },
        Protocol::OpenAiResponses => {
            let js = crate::responses::responses_request_json(r);
        },
    }
}

/// The model a client asks for is the model the converted request names,
/// whichever protocols the request is read and written in.
pub proof fn law_model_carried_across_protocols(inbound: Protocol, outbound: Protocol, j: JsonV)
    ensures
        crate::json::member(request_json_of(outbound, request_ir_of(inbound, j)), "model"@) == Some(
            JsonV::Str(crate::json::str_or_empty(j, "model"@)),
        ),
{
    let r = request_ir_of(inbound, j);
    lemma_model_written_first(outbound, r);
    assert(r.model == crate::json::str_or_empty(j, "model"@));
    let ms = obj_members(request_json_of(outbound, r));
    assert(request_json_of(outbound, r) == JsonV::Object(ms));
}

} // verus!
