//! The Anthropic Messages protocol.

use vstd::prelude::*;
use crate::json::{
    json_canonical, reads_back,
    Json, JsonV, Kind, MemberV, mv, obj, or_empty, or_empty_of, opt_member, opt_str_v, opt_bool_v,
    opt_num_v, opt_int_v, nonempty, object, array, string, push_member, push_opt_member, push_item,
    opt_string, opt_number, opt_int, opt_copy, opt_boolean, append_members, opt_json, no_members,
    no_items, count_or_zero, count_or_zero_of, num, int_json, opt_view, printed_json, print_json,
    parsed_json_text, parse_json_text, parsed_json_bytes, parse_json_bytes, bool_of, check_opt_strings, collect_strings, collect_unknown,
    int_of, items, items_of, items_view, lemma_item_decreases, lemma_member_decreases, member,
    member_or_null, num_of, obj_members, opt_kind, opt_strings, present, req_kind, str_of,
    str_or_empty, strings_of, unknown_members,
};
use crate::ir::{
    IrMessage, IrMessageV, IrRequest, IrRequestV, IrThinkingConfig, IrThinkingConfigV, IrTool,
    IrToolChoice, IrToolChoiceV, IrToolV, IrUsage, choice_v, no_usage, IrResponse, IrResponseV,
    IrStreamEvent, IrStreamEventV, StreamError, StreamErrorV, StreamEventType, bare_event_v,
};
use crate::seqs::{lemma_map_values_succ, lemma_take_succ};
use crate::text::{bytes_of, concat, str_eq};
use crate::codec::{AdapterError, Codec, CodecError, adapter_error_text};
use vstd::utf8::encode_utf8;
use crate::chat::any_text;
use crate::types::{
    ContentBlock, ContentBlockV, ContentType, ImageContent, ImageContentV, Protocol, Role,
    ToolResultContent, ToolResultV, lemma_blocks_vec, StopReason, StopReasonV, TextContent,
    ToolUseContent, ToolUseV, ThinkingContent, ThinkingV, RedactedThinkingContent,
    empty_block_v, image_block_v, redacted_block_v, text_block_v, thinking_block_v,
    tool_result_block_v, tool_use_block_v,
};

verus! {

/// Codec for the Anthropic Messages protocol.
pub struct MessagesCodec;

/// The top-level request fields that the protocol defines.
pub open spec fn messages_known_fields() -> Seq<Seq<char>> {
    seq![
        "model"@,
        "messages"@,
        "system"@,
        "max_tokens"@,
        "stop_sequences"@,
        "stream"@,
        "temperature"@,
        "top_p"@,
        "top_k"@,
        "tools"@,
        "tool_choice"@,
        "thinking"@,
        "metadata"@,
    ]
}

/// The top-level request fields of the protocol, as strings.
pub fn messages_known_field_names() -> (r: Vec<String>)
    ensures
        r.deep_view() == messages_known_fields(),
{
    let mut v: Vec<String> = Vec::new();
    v.push("model".to_string());
    v.push("messages".to_string());
    v.push("system".to_string());
    v.push("max_tokens".to_string());
    v.push("stop_sequences".to_string());
    v.push("stream".to_string());
    v.push("temperature".to_string());
    v.push("top_p".to_string());
    v.push("top_k".to_string());
    v.push("tools".to_string());
    v.push("tool_choice".to_string());
    v.push("thinking".to_string());
    v.push("metadata".to_string());
    assert(v.deep_view() =~= messages_known_fields());
    v
}

// ---------------------------------------------------------------------------
// The shape of blocks, messages and requests
// ---------------------------------------------------------------------------

/// An image source: `{"type", "media_type"?, "data"?, "url"?}`.
pub open spec fn source_ok(s: JsonV) -> bool {
    &&& s is Object
    &&& req_kind(s, "type"@, Kind::Str)
    &&& opt_kind(s, "media_type"@, Kind::Str)
    &&& opt_kind(s, "data"@, Kind::Str)
    &&& opt_kind(s, "url"@, Kind::Str)
}

/// A content block: `{"type", "text"?, "id"?, "name"?, "input"?,
/// "tool_use_id"?, "content"?, "is_error"?, "thinking"?, "signature"?,
/// "data"?, "source"?}`.
pub open spec fn block_ok(b: JsonV) -> bool {
    &&& b is Object
    &&& req_kind(b, "type"@, Kind::Str)
    &&& opt_kind(b, "text"@, Kind::Str)
    &&& opt_kind(b, "id"@, Kind::Str)
    &&& opt_kind(b, "name"@, Kind::Str)
    &&& opt_kind(b, "tool_use_id"@, Kind::Str)
    &&& opt_kind(b, "is_error"@, Kind::Bool)
    &&& opt_kind(b, "thinking"@, Kind::Str)
    &&& opt_kind(b, "signature"@, Kind::Str)
    &&& opt_kind(b, "data"@, Kind::Str)
    &&& (present(b, "source"@) matches Some(s) ==> source_ok(s))
}

/// Whether every item of `xs` is a content block.
pub open spec fn all_blocks_ok(xs: Seq<JsonV>) -> bool {
    forall|i: int| 0 <= i < xs.len() ==> block_ok(#[trigger] xs[i])
}

/// Message content: a string, or a list of content blocks.
pub open spec fn content_ok(c: JsonV) -> bool {
    match c {
        JsonV::Str(_) => true,
        JsonV::Array(bs) => all_blocks_ok(bs),
        _ => false,
    }
}

/// A message: `{"role", "content"}`.
pub open spec fn message_ok(m: JsonV) -> bool {
    &&& m is Object
    &&& req_kind(m, "role"@, Kind::Str)
    &&& member(m, "content"@) matches Some(c) && content_ok(c)
}

/// A system prompt: a string, or a list of `{"type"?, "text"}` blocks.
pub open spec fn system_ok(s: JsonV) -> bool {
    match s {
        JsonV::Str(_) => true,
        JsonV::Array(bs) => forall|i: int|
            0 <= i < bs.len() ==> (#[trigger] bs[i]) is Object && req_kind(bs[i], "text"@, Kind::Str)
                && opt_kind(bs[i], "type"@, Kind::Str),
        _ => false,
    }
}

/// A tool: `{"name", "description"?, "input_schema"}`.
pub open spec fn tool_ok(t: JsonV) -> bool {
    &&& t is Object
    &&& req_kind(t, "name"@, Kind::Str)
    &&& opt_kind(t, "description"@, Kind::Str)
    &&& member(t, "input_schema"@) is Some
}

/// A thinking configuration: `{"type", "budget_tokens"?}`.
pub open spec fn thinking_ok(t: JsonV) -> bool {
    &&& t is Object
    &&& req_kind(t, "type"@, Kind::Str)
    &&& opt_kind(t, "budget_tokens"@, Kind::Int)
}

/// Whether `j` has the shape of a messages request.
pub open spec fn messages_request_ok(j: JsonV) -> bool {
    &&& j is Object
    &&& req_kind(j, "model"@, Kind::Str)
    &&& req_kind(j, "messages"@, Kind::Array)
    &&& (forall|i: int|
        0 <= i < items_of(j, "messages"@).len() ==> message_ok(#[trigger] items_of(j, "messages"@)[i]))
    &&& (present(j, "system"@) matches Some(s) ==> system_ok(s))
    &&& opt_kind(j, "max_tokens"@, Kind::Int)
    &&& opt_strings(j, "stop_sequences"@)
    &&& opt_kind(j, "stream"@, Kind::Bool)
    &&& opt_kind(j, "temperature"@, Kind::Number)
    &&& opt_kind(j, "top_p"@, Kind::Number)
    &&& opt_kind(j, "top_k"@, Kind::Int)
    &&& opt_kind(j, "tools"@, Kind::Array)
    &&& (forall|i: int|
        0 <= i < items_of(j, "tools"@).len() ==> tool_ok(#[trigger] items_of(j, "tools"@)[i]))
    &&& (present(j, "thinking"@) matches Some(t) ==> thinking_ok(t))
}

// ---------------------------------------------------------------------------
// What blocks and requests mean
// ---------------------------------------------------------------------------

/// The image a source describes.
pub open spec fn source_image(s: JsonV) -> ImageContentV {
    ImageContentV {
        data: str_of(s, "data"@),
        url: str_of(s, "url"@),
        media_type: str_of(s, "media_type"@),
        detail: None,
    }
}

/// The block a content block stands for, by its type; a block of an
/// unknown type is an empty text block.
pub open spec fn anth_block_ir(b: JsonV) -> ContentBlockV
    decreases b, 1nat, 0nat,
{
    let t = str_or_empty(b, "type"@);
    if t == "text"@ {
        text_block_v(str_or_empty(b, "text"@))
    } else if t == "tool_use"@ {
        tool_use_block_v(str_or_empty(b, "id"@), str_or_empty(b, "name"@), present(b, "input"@))
    } else if t == "tool_result"@ {
        tool_result_block_v(
            str_or_empty(b, "tool_use_id"@),
            None,
            result_blocks(b, tool_result_items(b).len()),
            bool_of(b, "is_error"@),
        )
    } else if t == "thinking"@ {
        thinking_block_v(str_or_empty(b, "thinking"@), str_of(b, "signature"@))
    } else if t == "redacted_thinking"@ {
        redacted_block_v(str_or_empty(b, "data"@))
    } else if t == "image"@ {
        image_block_v(
            match present(b, "source"@) {
                Some(s) => Some(source_image(s)),
                None => None,
            },
        )
    } else {
        empty_block_v(ContentType::Text)
    }
}

/// The blocks of a tool result's content (see [`result_blocks`]).
pub open spec fn tool_result_inner_v(b: JsonV) -> Seq<ContentBlockV> {
    result_blocks(b, tool_result_items(b).len())
}

/// The list a tool result's content holds, when it is a list.
pub open spec fn tool_result_items(b: JsonV) -> Seq<JsonV> {
    match present(b, "content"@) {
        Some(JsonV::Array(xs)) => xs,
        _ => Seq::empty(),
    }
}

/// The blocks of a tool result, from its first `n` content items when the
/// content is a list (items that are not content blocks are left out), or
/// one text block when it is a string.
pub open spec fn result_blocks(b: JsonV, n: nat) -> Seq<ContentBlockV>
    decreases b, 0nat, n,
{
    match present(b, "content"@) {
        Some(JsonV::Str(s)) => seq![text_block_v(s)],
        Some(JsonV::Array(xs)) => if n == 0 || n > xs.len() {
            Seq::empty()
        } else {
            let rest = result_blocks(b, (n - 1) as nat);
            let v = xs[n - 1];
            if block_ok(v) {
                proof {
                    lemma_member_decreases(b, "content"@);
                    lemma_item_decreases(member(b, "content"@)->0, n - 1);
                }
                rest.push(anth_block_ir(v))
            } else {
                rest
            }
        },
        _ => Seq::empty(),
    }
}

/// The blocks of message content: a non-empty string is one text block; a
/// list gives one block per item.
pub open spec fn anth_content_blocks(c: JsonV) -> Seq<ContentBlockV> {
    match c {
        JsonV::Str(s) => if s.len() == 0 {
            Seq::empty()
        } else {
            seq![text_block_v(s)]
        },
        JsonV::Array(bs) => bs.map_values(|b: JsonV| anth_block_ir(b)),
        _ => Seq::empty(),
    }
}

/// The message a `user` or `assistant` message becomes; a message of any
/// other role becomes none.
pub open spec fn anth_ir_message(m: JsonV) -> Option<IrMessageV> {
    let role = str_or_empty(m, "role"@);
    let content = anth_content_blocks(member_or_null(m, "content"@));
    if role == "user"@ {
        Some(IrMessageV { role: Role::User, content })
    } else if role == "assistant"@ {
        Some(IrMessageV { role: Role::Assistant, content })
    } else {
        None
    }
}

/// The system prompt: one text block for a string, one per block of a list.
pub open spec fn anth_system_blocks(j: JsonV) -> Seq<ContentBlockV> {
    match present(j, "system"@) {
        Some(JsonV::Str(s)) => seq![text_block_v(s)],
        Some(JsonV::Array(bs)) => bs.map_values(|b: JsonV| text_block_v(str_or_empty(b, "text"@))),
        _ => Seq::empty(),
    }
}

/// A tool definition.
pub open spec fn anth_tool_ir(t: JsonV) -> IrToolV {
    IrToolV {
        tool_type: Some("custom"@),
        name: str_or_empty(t, "name"@),
        description: str_of(t, "description"@),
        parameters: Some(member_or_null(t, "input_schema"@)),
        strict: None,
        extra_fields: Seq::empty(),
    }
}

/// The tool choice a `tool_choice` value stands for: `"auto"`, `"any"` or
/// `"none"`, or an object with a `type` (default `"tool"`), a `name` and
/// `disable_parallel_tool_use`.
pub open spec fn anth_tool_choice(v: JsonV) -> Option<IrToolChoiceV> {
    match v {
        JsonV::Str(s) => if s == "auto"@ || s == "any"@ || s == "none"@ {
            Some(choice_v(s, None))
        } else {
            None
        },
        JsonV::Object(_) => Some(
            IrToolChoiceV {
                allow_parallel_calls: match bool_of(v, "disable_parallel_tool_use"@) {
                    Some(d) => Some(!d),
                    None => None,
                },
                ..choice_v(
                    match str_of(v, "type"@) {
                        Some(t) => t,
                        None => "tool"@,
                    },
                    str_of(v, "name"@),
                )
            },
        ),
        _ => None,
    }
}

/// The intermediate form of a messages request `j`.
pub open spec fn messages_request_ir(j: JsonV) -> IrRequestV {
    let extra = unknown_members(obj_members(j), messages_known_fields());
    IrRequestV {
        model: str_or_empty(j, "model"@),
        messages: items_of(j, "messages"@).filter_map(|m: JsonV| anth_ir_message(m)),
        system_prompt: anth_system_blocks(j),
        tools: items_of(j, "tools"@).map_values(|t: JsonV| anth_tool_ir(t)),
        tool_choice: match present(j, "tool_choice"@) {
            Some(v) => anth_tool_choice(v),
            None => None,
        },
        max_tokens: int_of(j, "max_tokens"@),
        temperature: num_of(j, "temperature"@),
        top_p: num_of(j, "top_p"@),
        top_k: int_of(j, "top_k"@),
        stop_sequences: strings_of(items_of(j, "stop_sequences"@)),
        stream: bool_of(j, "stream"@),
        thinking: match present(j, "thinking"@) {
            Some(t) => Some(
                IrThinkingConfigV {
                    mode: Some(str_or_empty(t, "type"@)),
                    budget_tokens: int_of(t, "budget_tokens"@),
                    effort: None,
                    include_thoughts: None,
                    level: None,
                },
            ),
            None => None,
        },
        response_format: None,
        provider_extensions: extra,
        inbound_protocol: Protocol::Anthropic,
        original_model: None,
        raw_extra: extra,
        outbound_extra: Seq::empty(),
    }
}

// ---------------------------------------------------------------------------
// Checking and reading a request
// ---------------------------------------------------------------------------

fn check_source(s: &Json) -> (r: bool)
    ensures
        r == source_ok(s@),
{
    s.is_kind(Kind::Object) && s.req_kind("type", Kind::Str) && s.opt_kind("media_type", Kind::Str)
        && s.opt_kind("data", Kind::Str) && s.opt_kind("url", Kind::Str)
}

/// Whether `b` has the shape of a content block.
pub fn check_block(b: &Json) -> (r: bool)
    ensures
        r == block_ok(b@),
{
    if !(b.is_kind(Kind::Object) && b.req_kind("type", Kind::Str) && b.opt_kind("text", Kind::Str)
        && b.opt_kind("id", Kind::Str) && b.opt_kind("name", Kind::Str) && b.opt_kind(
        "tool_use_id",
        Kind::Str,
    ) && b.opt_kind("is_error", Kind::Bool) && b.opt_kind("thinking", Kind::Str) && b.opt_kind(
        "signature",
        Kind::Str,
    ) && b.opt_kind("data", Kind::Str)) {
        return false;
    }
    match b.present("source") {
        Some(s) => check_source(s),
        None => true,
    }
}

fn check_blocks(xs: &[Json]) -> (r: bool)
    ensures
        r == all_blocks_ok(items_view(xs@)),
{
    let mut i: usize = 0;
    while i < xs.len()
        invariant
            i <= xs@.len(),
            forall|k: int| 0 <= k < i ==> block_ok(#[trigger] items_view(xs@)[k]),
        decreases xs.len() - i,
    {
        assert(items_view(xs@)[i as int] == xs@[i as int]@);
        if !check_block(&xs[i]) {
            return false;
        }
        i = i + 1;
    }
    true
}

fn check_message(m: &Json) -> (r: bool)
    ensures
        r == message_ok(m@),
{
    if !(m.is_kind(Kind::Object) && m.req_kind("role", Kind::Str)) {
        return false;
    }
    match m.member("content") {
        Some(c) => match c {
            Json::Str(_) => true,
            Json::Array(_) => check_blocks(c.items()),
            _ => false,
        },
        None => false,
    }
}

fn check_system(s: &Json) -> (r: bool)
    ensures
        r == system_ok(s@),
{
    match s {
        Json::Str(_) => true,
        Json::Array(_) => {
            let bs = s.items();
            let mut i: usize = 0;
            while i < bs.len()
                invariant
                    i <= bs@.len(),
                    items_view(bs@) == s@->Array_0,
                    s@ is Array,
                    forall|k: int|
                        0 <= k < i ==> (#[trigger] s@->Array_0[k]) is Object && req_kind(
                            s@->Array_0[k],
                            "text"@,
                            Kind::Str,
                        ) && opt_kind(s@->Array_0[k], "type"@, Kind::Str),
                decreases bs.len() - i,
            {
                assert(items_view(bs@)[i as int] == bs@[i as int]@);
                let b = &bs[i];
                if !(b.is_kind(Kind::Object) && b.req_kind("text", Kind::Str) && b.opt_kind(
                    "type",
                    Kind::Str,
                )) {
                    return false;
                }
                i = i + 1;
            }
            true
        },
        _ => false,
    }
}

fn check_tool(t: &Json) -> (r: bool)
    ensures
        r == tool_ok(t@),
{
    t.is_kind(Kind::Object) && t.req_kind("name", Kind::Str) && t.opt_kind("description", Kind::Str)
        && t.member("input_schema").is_some()
}

/// Whether `j` has the shape of a messages request.
pub fn check_messages_request(j: &Json) -> (r: bool)
    ensures
        r == messages_request_ok(j@),
{
    if !(j.is_kind(Kind::Object) && j.req_kind("model", Kind::Str) && j.req_kind(
        "messages",
        Kind::Array,
    ) && j.opt_kind("max_tokens", Kind::Int) && check_opt_strings(j, "stop_sequences") && j.opt_kind(
        "stream",
        Kind::Bool,
    ) && j.opt_kind("temperature", Kind::Number) && j.opt_kind("top_p", Kind::Number) && j.opt_kind(
        "top_k",
        Kind::Int,
    ) && j.opt_kind("tools", Kind::Array)) {
        return false;
    }
    match j.present("system") {
        Some(s) => {
            if !check_system(s) {
                return false;
            }
        },
        None => {},
    }
    match j.present("thinking") {
        Some(t) => {
            if !(t.is_kind(Kind::Object) && t.req_kind("type", Kind::Str) && t.opt_kind(
                "budget_tokens",
                Kind::Int,
            )) {
                return false;
            }
        },
        None => {},
    }
    let msgs = j.items_of("messages");
    let mut i: usize = 0;
    while i < msgs.len()
        invariant
            i <= msgs@.len(),
            items_view(msgs@) == items_of(j@, "messages"@),
            forall|k: int| 0 <= k < i ==> message_ok(#[trigger] items_of(j@, "messages"@)[k]),
        decreases msgs.len() - i,
    {
        assert(items_view(msgs@)[i as int] == msgs@[i as int]@);
        if !check_message(&msgs[i]) {
            return false;
        }
        i = i + 1;
    }
    let tools = j.items_of("tools");
    let mut i: usize = 0;
    while i < tools.len()
        invariant
            i <= tools@.len(),
            items_view(tools@) == items_of(j@, "tools"@),
            forall|k: int| 0 <= k < i ==> tool_ok(#[trigger] items_of(j@, "tools"@)[k]),
        decreases tools.len() - i,
    {
        assert(items_view(tools@)[i as int] == tools@[i as int]@);
        if !check_tool(&tools[i]) {
            return false;
        }
        i = i + 1;
    }
    true
}

/// The block a content block stands for (see [`anth_block_ir`]).
pub fn m_block_to_ir(b: &Json) -> (r: ContentBlock)
    ensures
        r@ == anth_block_ir(b@),
    decreases b@, 1nat,
{
    let t = b.str_or_empty("type");
    if str_eq(t.as_str(), "text") {
        ContentBlock::text_block(b.str_or_empty("text"))
    } else if str_eq(t.as_str(), "tool_use") {
        ContentBlock::tool_use_block(b.str_or_empty("id"), b.str_or_empty("name"), b.read_opt_value("input"))
    } else if str_eq(t.as_str(), "tool_result") {
        let inner = tool_result_inner(b);
        ContentBlock::tool_result_block(b.str_or_empty("tool_use_id"), None, inner, b.bool_of("is_error"))
    } else if str_eq(t.as_str(), "thinking") {
        ContentBlock::thinking_block(b.str_or_empty("thinking"), b.str_of("signature"))
    } else if str_eq(t.as_str(), "redacted_thinking") {
        ContentBlock::redacted_block(b.str_or_empty("data"))
    } else if str_eq(t.as_str(), "image") {
        let img = match b.present("source") {
            Some(s) => Some(
                ImageContent {
                    data: s.str_of("data"),
                    url: s.str_of("url"),
                    media_type: s.str_of("media_type"),
                    detail: None,
                },
            ),
            None => None,
        };
        ContentBlock::image_block(img)
    } else {
        ContentBlock::empty(ContentType::Text)
    }
}

/// The blocks of a tool result's content: one text block for a string; for
/// a list, the blocks of the items that are content blocks (see
/// [`result_blocks`]).
pub fn tool_result_inner(b: &Json) -> (r: Vec<ContentBlock>)
    ensures
        r.deep_view() == tool_result_inner_v(b@),
    decreases b@, 0nat,
{
    let mut inner: Vec<ContentBlock> = Vec::new();
    match b.present("content") {
        Some(Json::Str(s)) => {
            inner.push(ContentBlock::text_block(s.clone()));
            assert(inner.deep_view() =~= tool_result_inner_v(b@));
        },
        Some(c) => {
            let xs = c.items();
            let ghost v = items_view(xs@);
            let mut i: usize = 0;
            assert(inner.deep_view() =~= result_blocks(b@, 0));
            while i < xs.len()
                invariant
                    i <= xs@.len(),
                    v == items_view(xs@),
                    v == tool_result_items(b@),
                    v == items(c@),
                    present(b@, "content"@) == Some(c@),
                    inner.deep_view() == result_blocks(b@, i as nat),
                decreases xs.len() - i,
            {
                assert(v[i as int] == xs@[i as int]@);
                if check_block(&xs[i]) {
                    assert(items(c@).len() > 0);
                    assert(c@ is Array);
                    proof {
                        lemma_member_decreases(b@, "content"@);
                        lemma_item_decreases(c@, i as int);
                    }
                    let x = m_block_to_ir(&xs[i]);
                    let ghost before = inner.deep_view();
                    inner.push(x);
                    assert(inner.deep_view() =~= before.push(x@));
                }
                i = i + 1;
            }
            assert(inner.deep_view() =~= tool_result_inner_v(b@));
        },
        None => {
            assert(inner.deep_view() =~= tool_result_inner_v(b@));
        },
    }
    inner
}

/// The blocks of message content (see [`anth_content_blocks`]).
pub fn anthropic_content_to_blocks(c: &Json) -> (r: Vec<ContentBlock>)
    ensures
        r.deep_view() == anth_content_blocks(c@),
{
    let mut out: Vec<ContentBlock> = Vec::new();
    match c {
        Json::Str(s) => {
            if s.as_str().as_bytes().len() > 0 {
                out.push(ContentBlock::text_block(s.clone()));
            } else {
                assert(s@.len() == 0) by {
                    if s@.len() > 0 {
                        vstd::utf8::encode_utf8_first_scalar(s@);
                    }
                }
            }
            assert(out.deep_view() =~= anth_content_blocks(c@));
        },
        Json::Array(_) => {
            let bs = c.items();
            let ghost v = items_view(bs@);
            let mut i: usize = 0;
            while i < bs.len()
                invariant
                    i <= bs@.len(),
                    v == items_view(bs@),
                    out.deep_view() == v.take(i as int).map_values(|b: JsonV| anth_block_ir(b)),
                decreases bs.len() - i,
            {
                proof {
                    lemma_take_succ(v, i as int);
                    lemma_map_values_succ(v, i as int, |b: JsonV| anth_block_ir(b));
                }
                assert(v[i as int] == bs@[i as int]@);
                let x = m_block_to_ir(&bs[i]);
                let ghost before = out.deep_view();
                out.push(x);
                assert(out.deep_view() =~= before.push(x@));
                i = i + 1;
            }
            assert(v.take(i as int) =~= v);
        },
        _ => {
            assert(out.deep_view() =~= anth_content_blocks(c@));
        },
    }
    out
}

fn message_to_ir(m: &Json) -> (r: Option<IrMessage>)
    ensures
        r.deep_view() == anth_ir_message(m@),
{
    let role = m.str_or_empty("role");
    let role = if str_eq(role.as_str(), "user") {
        Role::User
    } else if str_eq(role.as_str(), "assistant") {
        Role::Assistant
    } else {
        return None;
    };
    let content = match m.member("content") {
        Some(c) => anthropic_content_to_blocks(c),
        None => anthropic_content_to_blocks(&Json::Null),
    };
    Some(IrMessage::new(role, content))
}

fn system_blocks(j: &Json) -> (r: Vec<ContentBlock>)
    ensures
        r.deep_view() == anth_system_blocks(j@),
{
    let mut out: Vec<ContentBlock> = Vec::new();
    match j.present("system") {
        Some(Json::Str(s)) => {
            out.push(ContentBlock::text_block(s.clone()));
            assert(out.deep_view() =~= anth_system_blocks(j@));
        },
        Some(sys) => {
            let bs = sys.items();
            let ghost v = items_view(bs@);
            let mut i: usize = 0;
            while i < bs.len()
                invariant
                    i <= bs@.len(),
                    v == items_view(bs@),
                    out.deep_view() == v.take(i as int).map_values(
                        |b: JsonV| text_block_v(str_or_empty(b, "text"@)),
                    ),
                decreases bs.len() - i,
            {
                proof {
                    lemma_map_values_succ(v, i as int, |b: JsonV| text_block_v(str_or_empty(b, "text"@)));
                }
                assert(v[i as int] == bs@[i as int]@);
                let x = ContentBlock::text_block(bs[i].str_or_empty("text"));
                let ghost before = out.deep_view();
                out.push(x);
                assert(out.deep_view() =~= before.push(x@));
                i = i + 1;
            }
            assert(v.take(i as int) =~= v);
            assert(out.deep_view() =~= anth_system_blocks(j@));
        },
        None => {
            assert(out.deep_view() =~= anth_system_blocks(j@));
        },
    }
    out
}

fn tool_to_ir(t: &Json) -> (r: IrTool)
    ensures
        r@ == anth_tool_ir(t@),
{
    let schema = match t.member("input_schema") {
        Some(s) => s.duplicate(),
        None => Json::Null,
    };
    let r = IrTool {
        tool_type: Some("custom".to_string()),
        name: t.str_or_empty("name"),
        description: t.str_of("description"),
        parameters: Some(schema),
        strict: None,
        extra_fields: Vec::new(),
    };
    assert(r@.extra_fields =~= Seq::<MemberV>::empty());
    r
}

/// The tool choice a `tool_choice` value stands for (see
/// [`anth_tool_choice`]).
pub fn parse_anthropic_tool_choice(v: &Json) -> (r: Option<IrToolChoice>)
    ensures
        r.deep_view() == anth_tool_choice(v@),
{
    match v {
        Json::Str(s) => {
            if str_eq(s.as_str(), "auto") || str_eq(s.as_str(), "any") || str_eq(s.as_str(), "none") {
                Some(IrToolChoice::of(s.clone(), None))
            } else {
                None
            }
        },
        Json::Object(_) => {
            let t = match v.str_of("type") {
                Some(t) => t,
                None => "tool".to_string(),
            };
            let mut c = IrToolChoice::of(t, v.str_of("name"));
            c.allow_parallel_calls = match v.bool_of("disable_parallel_tool_use") {
                Some(d) => Some(!d),
                None => None,
            };
            Some(c)
        },
        _ => None,
    }
}

/// The intermediate form of a request that has the shape of a messages
/// request (see [`messages_request_ir`]).
pub fn messages_request_to_ir(j: &Json) -> (r: IrRequest)
    ensures
        r@ == messages_request_ir(j@),
{
    let mut ir = IrRequest::new(j.str_or_empty("model"), Protocol::Anthropic);
    let msgs = j.items_of("messages");
    let ghost v = items_view(msgs@);
    let mut messages: Vec<IrMessage> = Vec::new();
    let mut i: usize = 0;
    while i < msgs.len()
        invariant
            i <= msgs@.len(),
            v == items_view(msgs@),
            messages.deep_view() == v.take(i as int).filter_map(|m: JsonV| anth_ir_message(m)),
        decreases msgs.len() - i,
    {
        proof {
            v.lemma_filter_map_take_succ(|m: JsonV| anth_ir_message(m), i as int);
        }
        assert(v[i as int] == msgs@[i as int]@);
        match message_to_ir(&msgs[i]) {
            Some(x) => {
                messages.push(x);
            },
            None => {},
        }
        assert(messages.deep_view() =~= v.take(i + 1).filter_map(|m: JsonV| anth_ir_message(m)));
        i = i + 1;
    }
    assert(v.take(i as int) =~= v);
    ir.messages = messages;
    ir.system_prompt = system_blocks(j);
    let tools = j.items_of("tools");
    let ghost tv = items_view(tools@);
    let mut irtools: Vec<IrTool> = Vec::new();
    let mut i: usize = 0;
    while i < tools.len()
        invariant
            i <= tools@.len(),
            tv == items_view(tools@),
            irtools.deep_view() == tv.take(i as int).map_values(|t: JsonV| anth_tool_ir(t)),
        decreases tools.len() - i,
    {
        proof {
            lemma_map_values_succ(tv, i as int, |t: JsonV| anth_tool_ir(t));
        }
        assert(tv[i as int] == tools@[i as int]@);
        let t = tool_to_ir(&tools[i]);
        let ghost before = irtools.deep_view();
        irtools.push(t);
        assert(irtools.deep_view() =~= before.push(t@));
        i = i + 1;
    }
    assert(tv.take(i as int) =~= tv);
    ir.tools = irtools;
    ir.tool_choice = match j.present("tool_choice") {
        Some(v) => parse_anthropic_tool_choice(v),
        None => None,
    };
    ir.max_tokens = j.int_of("max_tokens");
    ir.temperature = j.num_of("temperature");
    ir.top_p = j.num_of("top_p");
    ir.top_k = j.int_of("top_k");
    ir.stop_sequences = collect_strings(j.items_of("stop_sequences"));
    ir.stream = j.bool_of("stream");
    ir.thinking = match j.present("thinking") {
        Some(t) => Some(
            IrThinkingConfig {
                mode: Some(t.str_or_empty("type")),
                budget_tokens: t.int_of("budget_tokens"),
                effort: None,
                include_thoughts: None,
                level: None,
            },
        ),
        None => None,
    };
    let known = messages_known_field_names();
    ir.provider_extensions = collect_unknown(j, &known);
    ir.raw_extra = collect_unknown(j, &known);
    assert(ir@ =~= messages_request_ir(j@));
    ir
}

// ---------------------------------------------------------------------------
// Writing a request
// ---------------------------------------------------------------------------

/// A `{"type": "text", "text": t}` block.
pub open spec fn text_obj(t: Seq<char>) -> JsonV {
    obj(seq![mv("type"@, JsonV::Str("text"@))].push(mv("text"@, JsonV::Str(t))))
}

/// The system prompt as the protocol writes it: nothing when there is no
/// system block, the lone text as a string, else one text block per text.
pub open spec fn anth_system_json(sp: Seq<ContentBlockV>) -> Option<JsonV> {
    if sp.len() == 0 {
        None
    } else {
        let texts = sp.filter_map(|b: ContentBlockV| any_text(b));
        if texts.len() == 1 {
            Some(JsonV::Str(texts[0]))
        } else {
            Some(JsonV::Array(texts.map_values(|t: Seq<char>| text_obj(t))))
        }
    }
}

/// A tool result's content: the empty string when there is none, the text
/// of a lone text block, else one text block per block.
pub open spec fn anth_tool_result_content(tr: ToolResultV) -> JsonV {
    if tr.content.len() == 0 {
        JsonV::Str(Seq::empty())
    } else if tr.content.len() == 1 && tr.content[0].content_type == ContentType::Text {
        JsonV::Str(or_empty(tr.content[0].text))
    } else {
        JsonV::Array(tr.content.map_values(|cb: ContentBlockV| text_obj(or_empty(cb.text))))
    }
}

/// The content block a block is written as; none for the types the
/// protocol's requests do not carry.
pub open spec fn anth_block_json(b: ContentBlockV) -> Option<JsonV> {
    if b.content_type == ContentType::Text {
        Some(obj(seq![mv("type"@, JsonV::Str("text"@))] + opt_member("text"@, opt_str_v(b.text))))
    } else if b.content_type == ContentType::ToolUse {
        match b.tool_use {
            Some(tu) => Some(
                obj(
                    seq![mv("type"@, JsonV::Str("tool_use"@))].push(mv("id"@, JsonV::Str(tu.id))).push(
                        mv("name"@, JsonV::Str(tu.name)),
                    ) + opt_member("input"@, tu.arguments),
                ),
            ),
            None => None,
        }
    } else if b.content_type == ContentType::ToolResult {
        match b.tool_result {
            Some(tr) => Some(
                obj(
                    seq![mv("type"@, JsonV::Str("tool_result"@))].push(
                        mv("tool_use_id"@, JsonV::Str(tr.tool_use_id)),
                    ).push(mv("content"@, anth_tool_result_content(tr))) + opt_member(
                        "is_error"@,
                        opt_bool_v(tr.is_error),
                    ),
                ),
            ),
            None => None,
        }
    } else if b.content_type == ContentType::Image {
        match b.image {
            Some(img) => Some(
                obj(
                    seq![mv("type"@, JsonV::Str("image"@))].push(
                        mv(
                            "source"@,
                            obj(
                                seq![
                                    mv(
                                        "type"@,
                                        JsonV::Str(
                                            if img.url is Some {
                                                "url"@
                                            } else {
                                                "base64"@
                                            },
                                        ),
                                    ),
                                ] + opt_member("media_type"@, opt_str_v(img.media_type)) + opt_member(
                                    "data"@,
                                    opt_str_v(img.data),
                                ) + opt_member("url"@, opt_str_v(img.url)),
                            ),
                        ),
                    ),
                ),
            ),
            None => None,
        }
    } else {
        None
    }
}

/// The message a user or assistant message becomes; a user message left
/// without blocks, and a message of another role, become none.
pub open spec fn anth_message_json(m: IrMessageV) -> Option<JsonV> {
    let blocks = m.content.filter_map(|b: ContentBlockV| anth_block_json(b));
    let role: Seq<char> = if m.role == Role::User {
        "user"@
    } else {
        "assistant"@
    };
    if m.role != Role::User && m.role != Role::Assistant {
        None
    } else if blocks.len() == 0 && m.role != Role::Assistant {
        None
    } else {
        Some(obj(seq![mv("role"@, JsonV::Str(role))].push(mv("content"@, JsonV::Array(blocks)))))
    }
}

/// `{"type": "object"}`, the schema of a tool without parameters.
pub open spec fn object_schema() -> JsonV {
    obj(seq![mv("type"@, JsonV::Str("object"@))])
}

/// A tool definition.
pub open spec fn anth_tool_json(t: IrToolV) -> JsonV {
    obj(
        (seq![mv("name"@, JsonV::Str(t.name))] + opt_member("description"@, opt_str_v(t.description))).push(
            mv(
                "input_schema"@,
                match t.parameters {
                    Some(p) => p,
                    None => object_schema(),
                },
            ),
        ),
    )
}

/// A tool choice: `"auto"`, `"any"` and `"none"` as strings, any other
/// choice as the named tool.
pub open spec fn anth_tool_choice_json(c: IrToolChoiceV) -> JsonV {
    if c.choice_type == "auto"@ || c.choice_type == "any"@ || c.choice_type == "none"@ {
        JsonV::Str(c.choice_type)
    } else {
        obj(seq![mv("type"@, JsonV::Str("tool"@))].push(mv("name"@, JsonV::Str(or_empty(c.tool_name)))))
    }
}

/// A thinking configuration.
pub open spec fn anth_thinking_json(t: IrThinkingConfigV) -> JsonV {
    obj(
        seq![
            mv(
                "type"@,
                JsonV::Str(
                    match t.mode {
                        Some(m) => m,
                        None => "enabled"@,
                    },
                ),
            ),
        ] + opt_member("budget_tokens"@, opt_int_v(t.budget_tokens)),
    )
}

/// The messages request for `r`.
pub open spec fn messages_request_json(r: IrRequestV) -> JsonV {
    obj(
        seq![mv("model"@, JsonV::Str(r.model))].push(
            mv("messages"@, JsonV::Array(r.messages.filter_map(|m: IrMessageV| anth_message_json(m)))),
        ) + opt_member("system"@, anth_system_json(r.system_prompt)) + opt_member(
            "max_tokens"@,
            opt_int_v(r.max_tokens),
        ) + opt_member(
            "stop_sequences"@,
            nonempty(r.stop_sequences.map_values(|s: Seq<char>| JsonV::Str(s))),
        ) + opt_member("stream"@, opt_bool_v(r.stream)) + opt_member(
            "temperature"@,
            opt_num_v(r.temperature),
        ) + opt_member("top_p"@, opt_num_v(r.top_p)) + opt_member("top_k"@, opt_int_v(r.top_k))
            + opt_member("tools"@, nonempty(r.tools.map_values(|t: IrToolV| anth_tool_json(t))))
            + opt_member(
            "tool_choice"@,
            match r.tool_choice {
                Some(c) => Some(anth_tool_choice_json(c)),
                None => None,
            },
        ) + opt_member(
            "thinking"@,
            match r.thinking {
                Some(t) => Some(anth_thinking_json(t)),
                None => None,
            },
        ) + r.provider_extensions,
    )
}

fn text_obj_of(t: String) -> (r: Json)
    ensures
        r@ == text_obj(t@),
{
    let mut es = no_members();
    push_member(&mut es, "type", string("text"));
    push_member(&mut es, "text", Json::Str(t));
    object(es)
}

fn system_json(sp: &Vec<ContentBlock>) -> (r: Option<Json>)
    ensures
        opt_json(r) == anth_system_json(sp.deep_view()),
{
    if sp.len() == 0 {
        return None;
    }
    let ghost v = sp.deep_view();
    let mut texts: Vec<String> = Vec::new();
    let mut i: usize = 0;
    while i < sp.len()
        invariant
            i <= sp@.len(),
            v == sp.deep_view(),
            texts.deep_view() == v.take(i as int).filter_map(|b: ContentBlockV| any_text(b)),
        decreases sp.len() - i,
    {
        proof {
            v.lemma_filter_map_take_succ(|b: ContentBlockV| any_text(b), i as int);
        }
        match &sp[i].text {
            Some(t) => {
                texts.push(t.text.clone());
            },
            None => {},
        }
        assert(texts.deep_view() =~= v.take(i + 1).filter_map(|b: ContentBlockV| any_text(b)));
        i = i + 1;
    }
    assert(v.take(i as int) =~= v);
    if texts.len() == 1 {
        return Some(Json::Str(texts[0].clone()));
    }
    let ghost tv = texts.deep_view();
    let mut items = no_items();
    let mut i: usize = 0;
    while i < texts.len()
        invariant
            i <= texts@.len(),
            tv == texts.deep_view(),
            items_view(items@) == tv.take(i as int).map_values(|t: Seq<char>| text_obj(t)),
        decreases texts.len() - i,
    {
        proof {
            lemma_map_values_succ(tv, i as int, |t: Seq<char>| text_obj(t));
        }
        push_item(&mut items, text_obj_of(texts[i].clone()));
        i = i + 1;
    }
    assert(tv.take(i as int) =~= tv);
    Some(array(items))
}

fn tool_result_content(tr: &ToolResultContent) -> (r: Json)
    ensures
        r@ == anth_tool_result_content(tr@),
{
    proof {
        lemma_blocks_vec(&tr.content);
    }
    if tr.content.len() == 0 {
        return Json::Str(String::new());
    }
    if tr.content.len() == 1 && tr.content[0].content_type == ContentType::Text {
        let t = match &tr.content[0].text {
            Some(t) => t.text.clone(),
            None => String::new(),
        };
        return Json::Str(t);
    }
    let ghost v = tr.content.deep_view();
    let mut items = no_items();
    let mut i: usize = 0;
    while i < tr.content.len()
        invariant
            i <= tr.content@.len(),
            v == tr.content.deep_view(),
            items_view(items@) == v.take(i as int).map_values(
                |cb: ContentBlockV| text_obj(or_empty(cb.text)),
            ),
        decreases tr.content.len() - i,
    {
        proof {
            lemma_map_values_succ(v, i as int, |cb: ContentBlockV| text_obj(or_empty(cb.text)));
        }
        let t = match &tr.content[i].text {
            Some(t) => t.text.clone(),
            None => String::new(),
        };
        push_item(&mut items, text_obj_of(t));
        i = i + 1;
    }
    assert(v.take(i as int) =~= v);
    array(items)
}

fn block_json(b: &ContentBlock) -> (r: Option<Json>)
    ensures
        opt_json(r) == anth_block_json(b@),
{
    if b.content_type == ContentType::Text {
        let mut es = no_members();
        push_member(&mut es, "type", string("text"));
        push_opt_member(&mut es, "text", match &b.text {
            Some(t) => Some(Json::Str(t.text.clone())),
            None => None,
        });
        Some(object(es))
    } else if b.content_type == ContentType::ToolUse {
        match &b.tool_use {
            Some(tu) => {
                let mut es = no_members();
                push_member(&mut es, "type", string("tool_use"));
                push_member(&mut es, "id", Json::Str(tu.id.clone()));
                push_member(&mut es, "name", Json::Str(tu.name.clone()));
                push_opt_member(&mut es, "input", opt_copy(&tu.arguments));
                Some(object(es))
            },
            None => None,
        }
    } else if b.content_type == ContentType::ToolResult {
        match &b.tool_result {
            Some(tr) => {
                proof {
                    lemma_blocks_vec(&tr.content);
                }
                let mut es = no_members();
                push_member(&mut es, "type", string("tool_result"));
                push_member(&mut es, "tool_use_id", Json::Str(tr.tool_use_id.clone()));
                push_member(&mut es, "content", tool_result_content(tr));
                push_opt_member(&mut es, "is_error", opt_boolean(tr.is_error));
                Some(object(es))
            },
            None => None,
        }
    } else if b.content_type == ContentType::Image {
        match &b.image {
            Some(img) => {
                let mut ses = no_members();
                push_member(&mut ses, "type", string(if img.url.is_some() { "url" } else { "base64" }));
                push_opt_member(&mut ses, "media_type", opt_string(&img.media_type));
                push_opt_member(&mut ses, "data", opt_string(&img.data));
                push_opt_member(&mut ses, "url", opt_string(&img.url));
                let mut es = no_members();
                push_member(&mut es, "type", string("image"));
                push_member(&mut es, "source", object(ses));
                Some(object(es))
            },
            None => None,
        }
    } else {
        None
    }
}

fn message_json(m: &IrMessage) -> (r: Option<Json>)
    ensures
        opt_json(r) == anth_message_json(m@),
{
    if m.role != Role::User && m.role != Role::Assistant {
        return None;
    }
    let ghost v = m.content.deep_view();
    let mut blocks = no_items();
    let mut i: usize = 0;
    while i < m.content.len()
        invariant
            i <= m.content@.len(),
            v == m.content.deep_view(),
            items_view(blocks@) == v.take(i as int).filter_map(|b: ContentBlockV| anth_block_json(b)),
        decreases m.content.len() - i,
    {
        proof {
            v.lemma_filter_map_take_succ(|b: ContentBlockV| anth_block_json(b), i as int);
        }
        match block_json(&m.content[i]) {
            Some(x) => {
                push_item(&mut blocks, x);
            },
            None => {},
        }
        assert(items_view(blocks@) =~= v.take(i + 1).filter_map(|b: ContentBlockV| anth_block_json(b)));
        i = i + 1;
    }
    assert(v.take(i as int) =~= v);
    if blocks.len() == 0 && m.role != Role::Assistant {
        return None;
    }
    let mut es = no_members();
    push_member(&mut es, "role", string(if m.role == Role::User { "user" } else { "assistant" }));
    push_member(&mut es, "content", array(blocks));
    Some(object(es))
}

fn tool_json(t: &IrTool) -> (r: Json)
    ensures
        r@ == anth_tool_json(t@),
{
    let schema = match &t.parameters {
        Some(p) => p.duplicate(),
        None => {
            let mut ses = no_members();
            push_member(&mut ses, "type", string("object"));
            object(ses)
        },
    };
    let mut es = no_members();
    push_member(&mut es, "name", Json::Str(t.name.clone()));
    push_opt_member(&mut es, "description", opt_string(&t.description));
    push_member(&mut es, "input_schema", schema);
    object(es)
}

fn tool_choice_json(c: &IrToolChoice) -> (r: Json)
    ensures
        r@ == anth_tool_choice_json(c@),
{
    let t = c.choice_type.as_str();
    if str_eq(t, "auto") || str_eq(t, "any") || str_eq(t, "none") {
        Json::Str(c.choice_type.clone())
    } else {
        let mut es = no_members();
        push_member(&mut es, "type", string("tool"));
        push_member(&mut es, "name", Json::Str(or_empty_of(&c.tool_name)));
        object(es)
    }
}

fn thinking_json(t: &IrThinkingConfig) -> (r: Json)
    ensures
        r@ == anth_thinking_json(t@),
{
    let mode = match &t.mode {
        Some(m) => m.clone(),
        None => "enabled".to_string(),
    };
    let mut es = no_members();
    push_member(&mut es, "type", Json::Str(mode));
    push_opt_member(&mut es, "budget_tokens", opt_int(t.budget_tokens));
    object(es)
}

/// The messages request for `r` (see [`messages_request_json`]).
pub fn messages_request_to_json(r: &IrRequest) -> (j: Json)
    ensures
        j@ == messages_request_json(r@),
{
    let ghost rv = r@;
    let mut msgs = no_items();
    let mut i: usize = 0;
    while i < r.messages.len()
        invariant
            i <= r.messages@.len(),
            rv == r@,
            items_view(msgs@) == rv.messages.take(i as int).filter_map(
                |m: IrMessageV| anth_message_json(m),
            ),
        decreases r.messages.len() - i,
    {
        proof {
            rv.messages.lemma_filter_map_take_succ(|m: IrMessageV| anth_message_json(m), i as int);
        }
        match message_json(&r.messages[i]) {
            Some(x) => {
                push_item(&mut msgs, x);
            },
            None => {},
        }
        assert(items_view(msgs@) =~= rv.messages.take(i + 1).filter_map(
            |m: IrMessageV| anth_message_json(m),
        ));
        i = i + 1;
    }
    assert(rv.messages.take(i as int) =~= rv.messages);
    let mut stops = no_items();
    let mut i: usize = 0;
    while i < r.stop_sequences.len()
        invariant
            i <= r.stop_sequences@.len(),
            rv == r@,
            items_view(stops@) == rv.stop_sequences.take(i as int).map_values(
                |s: Seq<char>| JsonV::Str(s),
            ),
        decreases r.stop_sequences.len() - i,
    {
        push_item(&mut stops, Json::Str(r.stop_sequences[i].clone()));
        assert(items_view(stops@) =~= rv.stop_sequences.take(i + 1).map_values(
            |s: Seq<char>| JsonV::Str(s),
        ));
        i = i + 1;
    }
    assert(rv.stop_sequences.take(i as int) =~= rv.stop_sequences);
    let mut tools = no_items();
    let mut i: usize = 0;
    while i < r.tools.len()
        invariant
            i <= r.tools@.len(),
            rv == r@,
            items_view(tools@) == rv.tools.take(i as int).map_values(|t: IrToolV| anth_tool_json(t)),
        decreases r.tools.len() - i,
    {
        push_item(&mut tools, tool_json(&r.tools[i]));
        assert(items_view(tools@) =~= rv.tools.take(i + 1).map_values(|t: IrToolV| anth_tool_json(t)));
        i = i + 1;
    }
    assert(rv.tools.take(i as int) =~= rv.tools);
    let mut es = no_members();
    push_member(&mut es, "model", Json::Str(r.model.clone()));
    push_member(&mut es, "messages", array(msgs));
    push_opt_member(&mut es, "system", system_json(&r.system_prompt));
    push_opt_member(&mut es, "max_tokens", opt_int(r.max_tokens));
    let stop = if stops.len() > 0 {
        Some(array(stops))
    } else {
        None
    };
    push_opt_member(&mut es, "stop_sequences", stop);
    push_opt_member(&mut es, "stream", opt_boolean(r.stream));
    push_opt_member(&mut es, "temperature", opt_number(&r.temperature));
    push_opt_member(&mut es, "top_p", opt_number(&r.top_p));
    push_opt_member(&mut es, "top_k", opt_int(r.top_k));
    let tl = if tools.len() > 0 {
        Some(array(tools))
    } else {
        None
    };
    push_opt_member(&mut es, "tools", tl);
    let tc = match &r.tool_choice {
        Some(c) => Some(tool_choice_json(c)),
        None => None,
    };
    push_opt_member(&mut es, "tool_choice", tc);
    let th = match &r.thinking {
        Some(t) => Some(thinking_json(t)),
        None => None,
    };
    push_opt_member(&mut es, "thinking", th);
    append_members(&mut es, &r.provider_extensions);
    object(es)
}

// ---------------------------------------------------------------------------
// Responses
// ---------------------------------------------------------------------------

/// Token counts: `{"input_tokens"?, "output_tokens"?,
/// "cache_read_input_tokens"?, "cache_creation_input_tokens"?}`.
pub open spec fn anth_usage_ok(u: JsonV) -> bool {
    &&& u is Object
    &&& opt_kind(u, "input_tokens"@, Kind::Int)
    &&& opt_kind(u, "output_tokens"@, Kind::Int)
    &&& opt_kind(u, "cache_read_input_tokens"@, Kind::Int)
    &&& opt_kind(u, "cache_creation_input_tokens"@, Kind::Int)
}

/// The counts of a usage object; the total is the sum of the four counts
/// (absent ones count 0), wrapped to 64 bits.
pub open spec fn anth_usage_ir(u: JsonV) -> IrUsage {
    IrUsage {
        input_tokens: int_of(u, "input_tokens"@),
        output_tokens: int_of(u, "output_tokens"@),
        total_tokens: Some(
            (count_or_zero(int_of(u, "input_tokens"@)) + count_or_zero(int_of(u, "output_tokens"@))
                + count_or_zero(int_of(u, "cache_read_input_tokens"@)) + count_or_zero(
                int_of(u, "cache_creation_input_tokens"@),
            )) as i64,
        ),
        cache_read_tokens: int_of(u, "cache_read_input_tokens"@),
        cache_creation_tokens: int_of(u, "cache_creation_input_tokens"@),
        thinking_tokens: None,
    }
}

/// Whether `j` has the shape of a messages response.
pub open spec fn messages_response_ok(j: JsonV) -> bool {
    &&& j is Object
    &&& req_kind(j, "id"@, Kind::Str)
    &&& req_kind(j, "model"@, Kind::Str)
    &&& opt_kind(j, "type"@, Kind::Str)
    &&& opt_kind(j, "role"@, Kind::Str)
    &&& req_kind(j, "content"@, Kind::Array)
    &&& all_blocks_ok(items_of(j, "content"@))
    &&& opt_kind(j, "stop_reason"@, Kind::Str)
    &&& opt_kind(j, "stop_sequence"@, Kind::Str)
    &&& member(j, "usage"@) matches Some(u) && anth_usage_ok(u)
}

/// The stop reason a protocol stop reason stands for.
pub open spec fn anth_stop_of(s: Seq<char>) -> StopReasonV {
    if s == "end_turn"@ {
        StopReasonV::EndTurn
    } else if s == "max_tokens"@ {
        StopReasonV::MaxTokens
    } else if s == "tool_use"@ {
        StopReasonV::ToolUse
    } else if s == "stop_sequence"@ {
        StopReasonV::StopSequence
    } else {
        StopReasonV::Other(s)
    }
}

/// The intermediate form of a messages response.
pub open spec fn messages_response_ir(j: JsonV) -> IrResponseV {
    IrResponseV {
        id: Some(str_or_empty(j, "id"@)),
        model: Some(str_or_empty(j, "model"@)),
        content: items_of(j, "content"@).map_values(|b: JsonV| anth_block_ir(b)),
        stop_reason: match str_of(j, "stop_reason"@) {
            Some(s) => Some(anth_stop_of(s)),
            None => None,
        },
        stop_sequence: str_of(j, "stop_sequence"@),
        usage: anth_usage_ir(member_or_null(j, "usage"@)),
        provider_extensions: Seq::empty(),
    }
}

/// The content block a response block is written as; none for the types a
/// response does not carry.
pub open spec fn anth_response_block(b: ContentBlockV) -> Option<JsonV> {
    if b.content_type == ContentType::Text {
        match b.text {
            Some(t) => Some(text_obj(t)),
            None => None,
        }
    } else if b.content_type == ContentType::ToolUse {
        match b.tool_use {
            Some(tu) => Some(
                obj(
                    seq![mv("type"@, JsonV::Str("tool_use"@))].push(mv("id"@, JsonV::Str(tu.id))).push(
                        mv("name"@, JsonV::Str(tu.name)),
                    ) + opt_member("input"@, tu.arguments),
                ),
            ),
            None => None,
        }
    } else if b.content_type == ContentType::Thinking {
        match b.thinking {
            Some(th) => Some(
                obj(
                    seq![mv("type"@, JsonV::Str("thinking"@))].push(
                        mv("thinking"@, JsonV::Str(th.thinking)),
                    ) + opt_member("signature"@, opt_str_v(th.signature)),
                ),
            ),
            None => None,
        }
    } else if b.content_type == ContentType::RedactedThinking {
        match b.redacted_thinking {
            Some(d) => Some(
                obj(seq![mv("type"@, JsonV::Str("redacted_thinking"@))].push(mv("data"@, JsonV::Str(d)))),
            ),
            None => None,
        }
    } else {
        None
    }
}

/// The protocol's stop reason for a response's stop reason.
pub open spec fn anth_stop_json(r: StopReasonV) -> Seq<char> {
    match r {
        StopReasonV::EndTurn => "end_turn"@,
        StopReasonV::MaxTokens => "max_tokens"@,
        StopReasonV::ToolUse => "tool_use"@,
        StopReasonV::StopSequence => "stop_sequence"@,
        StopReasonV::ContentFilter => "refusal"@,
        _ => "end_turn"@,
    }
}

/// Token counts as the protocol writes them.
pub open spec fn anth_usage_json(u: IrUsage) -> JsonV {
    obj(
        Seq::<MemberV>::empty() + opt_member("input_tokens"@, opt_int_v(u.input_tokens)) + opt_member(
            "output_tokens"@,
            opt_int_v(u.output_tokens),
        ) + opt_member("cache_read_input_tokens"@, opt_int_v(u.cache_read_tokens)) + opt_member(
            "cache_creation_input_tokens"@,
            opt_int_v(u.cache_creation_tokens),
        ),
    )
}

/// A JSON string for the string that is there, `null` otherwise.
pub open spec fn str_or_null(o: Option<Seq<char>>) -> JsonV {
    match o {
        Some(s) => JsonV::Str(s),
        None => JsonV::Null,
    }
}

/// A message object with the given content blocks and stop reason.
pub open spec fn anth_message_obj(
    id: Seq<char>,
    model: Seq<char>,
    content: Seq<JsonV>,
    stop_reason: Option<Seq<char>>,
    stop_sequence: Option<Seq<char>>,
    usage: JsonV,
) -> JsonV {
    obj(
        seq![mv("id"@, JsonV::Str(id))].push(mv("type"@, JsonV::Str("message"@))).push(
            mv("role"@, JsonV::Str("assistant"@)),
        ).push(mv("model"@, JsonV::Str(model))).push(mv("content"@, JsonV::Array(content))).push(
            mv("stop_reason"@, str_or_null(stop_reason)),
        ).push(mv("stop_sequence"@, str_or_null(stop_sequence))).push(mv("usage"@, usage)),
    )
}

/// The messages response for `r`.
pub open spec fn messages_response_json(r: IrResponseV) -> JsonV {
    anth_message_obj(
        or_empty(r.id),
        or_empty(r.model),
        r.content.filter_map(|b: ContentBlockV| anth_response_block(b)),
        match r.stop_reason {
            Some(s) => Some(anth_stop_json(s)),
            None => None,
        },
        r.stop_sequence,
        anth_usage_json(r.usage),
    )
}

/// The protocol's error type for an HTTP status.
pub open spec fn anth_error_type(status_code: u16) -> Seq<char> {
    if status_code == 400 {
        "invalid_request_error"@
    } else if status_code == 401 {
        "authentication_error"@
    } else if status_code == 403 {
        "permission_error"@
    } else if status_code == 404 {
        "not_found_error"@
    } else if status_code == 429 {
        "rate_limit_error"@
    } else {
        "api_error"@
    }
}

/// The protocol's error body.
pub open spec fn messages_error_json(status_code: u16, message: Seq<char>) -> JsonV {
    obj(
        seq![mv("type"@, JsonV::Str("error"@))].push(
            mv(
                "error"@,
                obj(
                    seq![mv("type"@, JsonV::Str(anth_error_type(status_code)))].push(
                        mv("message"@, JsonV::Str(message)),
                    ),
                ),
            ),
        ),
    )
}

fn check_usage(u: &Json) -> (r: bool)
    ensures
        r == anth_usage_ok(u@),
{
    u.is_kind(Kind::Object) && u.opt_kind("input_tokens", Kind::Int) && u.opt_kind(
        "output_tokens",
        Kind::Int,
    ) && u.opt_kind("cache_read_input_tokens", Kind::Int) && u.opt_kind(
        "cache_creation_input_tokens",
        Kind::Int,
    )
}

/// Whether `j` has the shape of a messages response.
pub fn check_messages_response(j: &Json) -> (r: bool)
    ensures
        r == messages_response_ok(j@),
{
    if !(j.is_kind(Kind::Object) && j.req_kind("id", Kind::Str) && j.req_kind("model", Kind::Str)
        && j.opt_kind("type", Kind::Str) && j.opt_kind("role", Kind::Str) && j.req_kind(
        "content",
        Kind::Array,
    ) && j.opt_kind("stop_reason", Kind::Str) && j.opt_kind("stop_sequence", Kind::Str)) {
        return false;
    }
    if !check_blocks(j.items_of("content")) {
        return false;
    }
    match j.member("usage") {
        Some(u) => check_usage(u),
        None => false,
    }
}

/// The counts of a usage object (see [`anth_usage_ir`]).
pub fn m_usage_to_ir(u: &Json) -> (r: IrUsage)
    ensures
        r == anth_usage_ir(u@),
{
    let i = u.int_of("input_tokens");
    let o = u.int_of("output_tokens");
    let cr = u.int_of("cache_read_input_tokens");
    let cc = u.int_of("cache_creation_input_tokens");
    let sum: i128 = count_or_zero_of(i) as i128 + count_or_zero_of(o) as i128
        + count_or_zero_of(cr) as i128 + count_or_zero_of(cc) as i128;
    let mut r = IrUsage::none();
    r.input_tokens = i;
    r.output_tokens = o;
    r.total_tokens = Some(sum as i64);
    r.cache_read_tokens = cr;
    r.cache_creation_tokens = cc;
    r
}

/// The stop reason a protocol stop reason stands for.
pub fn stop_of(s: &str) -> (r: StopReason)
    ensures
        r@ == anth_stop_of(s@),
{
    if str_eq(s, "end_turn") {
        StopReason::EndTurn
    } else if str_eq(s, "max_tokens") {
        StopReason::MaxTokens
    } else if str_eq(s, "tool_use") {
        StopReason::ToolUse
    } else if str_eq(s, "stop_sequence") {
        StopReason::StopSequence
    } else {
        StopReason::Other(s.to_string())
    }
}

fn blocks_of(xs: &[Json]) -> (r: Vec<ContentBlock>)
    ensures
        r.deep_view() == items_view(xs@).map_values(|b: JsonV| anth_block_ir(b)),
{
    let ghost v = items_view(xs@);
    let mut out: Vec<ContentBlock> = Vec::new();
    let mut i: usize = 0;
    while i < xs.len()
        invariant
            i <= xs@.len(),
            v == items_view(xs@),
            out.deep_view() == v.take(i as int).map_values(|b: JsonV| anth_block_ir(b)),
        decreases xs.len() - i,
    {
        proof {
            lemma_map_values_succ(v, i as int, |b: JsonV| anth_block_ir(b));
        }
        assert(v[i as int] == xs@[i as int]@);
        let x = m_block_to_ir(&xs[i]);
        let ghost before = out.deep_view();
        out.push(x);
        assert(out.deep_view() =~= before.push(x@));
        i = i + 1;
    }
    assert(v.take(i as int) =~= v);
    out
}

/// The intermediate form of a messages response (see
/// [`messages_response_ir`]).
pub fn messages_response_to_ir(j: &Json) -> (r: IrResponse)
    ensures
        r@ == messages_response_ir(j@),
{
    let usage = match j.member("usage") {
        Some(u) => m_usage_to_ir(u),
        None => m_usage_to_ir(&Json::Null),
    };
    let r = IrResponse {
        id: Some(j.str_or_empty("id")),
        model: Some(j.str_or_empty("model")),
        content: blocks_of(j.items_of("content")),
        stop_reason: match j.str_of("stop_reason") {
            Some(s) => Some(stop_of(s.as_str())),
            None => None,
        },
        stop_sequence: j.str_of("stop_sequence"),
        usage,
        provider_extensions: no_members(),
    };
    assert(r@ =~= messages_response_ir(j@));
    r
}

fn response_block(b: &ContentBlock) -> (r: Option<Json>)
    ensures
        opt_json(r) == anth_response_block(b@),
{
    if b.content_type == ContentType::Text {
        match &b.text {
            Some(t) => Some(text_obj_of(t.text.clone())),
            None => None,
        }
    } else if b.content_type == ContentType::ToolUse {
        match &b.tool_use {
            Some(tu) => {
                let mut es = no_members();
                push_member(&mut es, "type", string("tool_use"));
                push_member(&mut es, "id", Json::Str(tu.id.clone()));
                push_member(&mut es, "name", Json::Str(tu.name.clone()));
                push_opt_member(&mut es, "input", opt_copy(&tu.arguments));
                Some(object(es))
            },
            None => None,
        }
    } else if b.content_type == ContentType::Thinking {
        match &b.thinking {
            Some(th) => {
                let mut es = no_members();
                push_member(&mut es, "type", string("thinking"));
                push_member(&mut es, "thinking", Json::Str(th.thinking.clone()));
                push_opt_member(&mut es, "signature", opt_string(&th.signature));
                Some(object(es))
            },
            None => None,
        }
    } else if b.content_type == ContentType::RedactedThinking {
        match &b.redacted_thinking {
            Some(d) => {
                let mut es = no_members();
                push_member(&mut es, "type", string("redacted_thinking"));
                push_member(&mut es, "data", Json::Str(d.data.clone()));
                Some(object(es))
            },
            None => None,
        }
    } else {
        None
    }
}

fn stop_json(r: &StopReason) -> (s: &'static str)
    ensures
        s@ == anth_stop_json(r@),
{
    match r {
        StopReason::EndTurn => "end_turn",
        StopReason::MaxTokens => "max_tokens",
        StopReason::ToolUse => "tool_use",
        StopReason::StopSequence => "stop_sequence",
        StopReason::ContentFilter => "refusal",
        _ => "end_turn",
    }
}

/// Token counts as the protocol writes them (see [`anth_usage_json`]).
pub fn ir_usage_to_m(u: &IrUsage) -> (r: Json)
    ensures
        r@ == anth_usage_json(*u),
{
    let mut es = no_members();
    push_opt_member(&mut es, "input_tokens", opt_int(u.input_tokens));
    push_opt_member(&mut es, "output_tokens", opt_int(u.output_tokens));
    push_opt_member(&mut es, "cache_read_input_tokens", opt_int(u.cache_read_tokens));
    push_opt_member(&mut es, "cache_creation_input_tokens", opt_int(u.cache_creation_tokens));
    object(es)
}

fn str_or_null_of(o: Option<String>) -> (r: Json)
    ensures
        r@ == str_or_null(o.deep_view()),
{
    match o {
        Some(s) => Json::Str(s),
        None => Json::Null,
    }
}

fn message_obj(
    id: String,
    model: String,
    content: Vec<Json>,
    stop_reason: Option<String>,
    stop_sequence: Option<String>,
    usage: Json,
) -> (r: Json)
    ensures
        r@ == anth_message_obj(
            id@,
            model@,
            items_view(content@),
            stop_reason.deep_view(),
            stop_sequence.deep_view(),
            usage@,
        ),
{
    let mut es = no_members();
    push_member(&mut es, "id", Json::Str(id));
    push_member(&mut es, "type", string("message"));
    push_member(&mut es, "role", string("assistant"));
    push_member(&mut es, "model", Json::Str(model));
    push_member(&mut es, "content", array(content));
    push_member(&mut es, "stop_reason", str_or_null_of(stop_reason));
    push_member(&mut es, "stop_sequence", str_or_null_of(stop_sequence));
    push_member(&mut es, "usage", usage);
    object(es)
}

/// The messages response for `r` (see [`messages_response_json`]).
pub fn messages_response_to_json(r: &IrResponse) -> (j: Json)
    ensures
        j@ == messages_response_json(r@),
{
    let ghost v = r.content.deep_view();
    let mut blocks = no_items();
    let mut i: usize = 0;
    while i < r.content.len()
        invariant
            i <= r.content@.len(),
            v == r.content.deep_view(),
            items_view(blocks@) == v.take(i as int).filter_map(|b: ContentBlockV| anth_response_block(b)),
        decreases r.content.len() - i,
    {
        proof {
            v.lemma_filter_map_take_succ(|b: ContentBlockV| anth_response_block(b), i as int);
        }
        match response_block(&r.content[i]) {
            Some(x) => {
                push_item(&mut blocks, x);
            },
            None => {},
        }
        assert(items_view(blocks@) =~= v.take(i + 1).filter_map(
            |b: ContentBlockV| anth_response_block(b),
        ));
        i = i + 1;
    }
    assert(v.take(i as int) =~= v);
    let stop = match &r.stop_reason {
        Some(s) => Some(stop_json(s).to_string()),
        None => None,
    };
    message_obj(
        or_empty_of(&r.id),
        or_empty_of(&r.model),
        blocks,
        stop,
        r.stop_sequence.clone(),
        ir_usage_to_m(&r.usage),
    )
}

fn error_type_of(status_code: u16) -> (r: &'static str)
    ensures
        r@ == anth_error_type(status_code),
{
    if status_code == 400 {
        "invalid_request_error"
    } else if status_code == 401 {
        "authentication_error"
    } else if status_code == 403 {
        "permission_error"
    } else if status_code == 404 {
        "not_found_error"
    } else if status_code == 429 {
        "rate_limit_error"
    } else {
        "api_error"
    }
}

/// The protocol's error body (see [`messages_error_json`]).
pub fn messages_error_to_json(status_code: u16, message: &str) -> (j: Json)
    ensures
        j@ == messages_error_json(status_code, message@),
{
    let mut ees = no_members();
    push_member(&mut ees, "type", string(error_type_of(status_code)));
    push_member(&mut ees, "message", string(message));
    let mut es = no_members();
    push_member(&mut es, "type", string("error"));
    push_member(&mut es, "error", object(ees));
    object(es)
}

// ---------------------------------------------------------------------------
// Stream events
// ---------------------------------------------------------------------------

/// A stream delta: `{"type"?, "text"?, "stop_reason"?, "stop_sequence"?,
/// "partial_json"?}`.
pub open spec fn stream_delta_ok(d: JsonV) -> bool {
    &&& d is Object
    &&& opt_kind(d, "type"@, Kind::Str)
    &&& opt_kind(d, "text"@, Kind::Str)
    &&& opt_kind(d, "stop_reason"@, Kind::Str)
    &&& opt_kind(d, "stop_sequence"@, Kind::Str)
    &&& opt_kind(d, "partial_json"@, Kind::Str)
}

/// Whether `j` has the shape of a stream event: `{"type", "message"?,
/// "index"?, "content_block"?, "delta"?, "usage"?}`.
pub open spec fn anth_event_ok(j: JsonV) -> bool {
    &&& j is Object
    &&& req_kind(j, "type"@, Kind::Str)
    &&& (present(j, "message"@) matches Some(m) ==> messages_response_ok(m))
    &&& opt_kind(j, "index"@, Kind::Int)
    &&& (present(j, "content_block"@) matches Some(b) ==> block_ok(b))
    &&& (present(j, "delta"@) matches Some(d) ==> stream_delta_ok(d))
    &&& (present(j, "usage"@) matches Some(u) ==> anth_usage_ok(u))
}

/// The block type a protocol block type stands for.
pub open spec fn block_type_v(bt: Seq<char>) -> ContentType {
    if bt == "tool_use"@ {
        ContentType::ToolUse
    } else if bt == "thinking"@ {
        ContentType::Thinking
    } else if bt == "redacted_thinking"@ {
        ContentType::RedactedThinking
    } else if bt == "image"@ {
        ContentType::Image
    } else {
        ContentType::Text
    }
}

/// The block type a protocol delta type stands for.
pub open spec fn delta_type_v(dt: Seq<char>) -> ContentType {
    if dt == "input_json_delta"@ {
        ContentType::ToolUse
    } else if dt == "thinking_delta"@ {
        ContentType::Thinking
    } else {
        ContentType::Text
    }
}

/// The event's `index` as an `i32` (truncated), 0 when absent.
pub open spec fn event_index(j: JsonV) -> i32 {
    match int_of(j, "index"@) {
        Some(i) => i as i32,
        None => 0,
    }
}

/// The block a `content_block_start` event opens.
pub open spec fn start_block(cb: Option<JsonV>) -> ContentBlockV {
    match cb {
        Some(b) => ContentBlockV {
            tool_use: tool_use_start_v(b),
            thinking: thinking_start_v(b),
            redacted_thinking: redacted_thinking_block_v(b),
            ..empty_block_v(block_type_v(str_or_empty(b, "type"@)))
        },
        None => empty_block_v(ContentType::Text),
    }
}

/// The tool call a `tool_use` block starts: its id and name, with no
/// arguments yet; nothing for other blocks.
pub open spec fn tool_use_start_v(b: JsonV) -> Option<ToolUseV> {
    if str_or_empty(b, "type"@) == "tool_use"@ {
        Some(ToolUseV { id: str_or_empty(b, "id"@), name: str_or_empty(b, "name"@), arguments: None })
    } else {
        None
    }
}

/// The reasoning of a `thinking` block; nothing for other blocks.
pub open spec fn thinking_start_v(b: JsonV) -> Option<ThinkingV> {
    if str_or_empty(b, "type"@) == "thinking"@ {
        Some(ThinkingV { thinking: str_or_empty(b, "thinking"@), signature: str_of(b, "signature"@) })
    } else {
        None
    }
}

/// The data of a `redacted_thinking` block; nothing for other blocks.
pub open spec fn redacted_thinking_block_v(b: JsonV) -> Option<Seq<char>> {
    if str_or_empty(b, "type"@) == "redacted_thinking"@ {
        Some(str_or_empty(b, "data"@))
    } else {
        None
    }
}

/// The block a `content_block_delta` event carries: its text, or the
/// tool input its partial JSON parses to.
pub open spec fn delta_block(d: Option<JsonV>) -> ContentBlockV {
    match d {
        Some(dv) => ContentBlockV {
            text: str_of(dv, "text"@),
            tool_use: match str_of(dv, "partial_json"@) {
                Some(pj) => match parsed_json_text(pj) {
                    Ok(v) => Some(ToolUseV { id: Seq::empty(), name: Seq::empty(), arguments: Some(v) }),
                    Err(_) => None,
                },
                None => None,
            },
            ..empty_block_v(
                match str_of(dv, "type"@) {
                    Some(t) => delta_type_v(t),
                    None => ContentType::Text,
                },
            )
        },
        None => empty_block_v(ContentType::Text),
    }
}

/// The error an `error` event reports.
pub open spec fn event_error(j: JsonV) -> StreamErrorV {
    let err = member_or_null(j, "error"@);
    StreamErrorV {
        error_type: match present(j, "message"@) {
            Some(m) => if items_of(m, "content"@).len() > 0 {
                Some(str_or_empty(items_of(m, "content"@)[0], "text"@))
            } else {
                str_of(err, "type"@)
            },
            None => str_of(err, "type"@),
        },
        code: None,
        message: str_of(err, "message"@),
        param: None,
    }
}

/// The event a stream event stands for, by its type.
pub open spec fn anth_stream_event(j: JsonV) -> IrStreamEventV {
    let t = str_or_empty(j, "type"@);
    let idx = event_index(j);
    if t == "message_start"@ {
        IrStreamEventV {
            response: match present(j, "message"@) {
                Some(m) => Some(
                    IrResponseV {
                        id: Some(str_or_empty(m, "id"@)),
                        model: Some(str_or_empty(m, "model"@)),
                        content: Seq::empty(),
                        stop_reason: None,
                        stop_sequence: None,
                        usage: anth_usage_ir(member_or_null(m, "usage"@)),
                        provider_extensions: Seq::empty(),
                    },
                ),
                None => None,
            },
            usage: match present(j, "usage"@) {
                Some(u) => Some(anth_usage_ir(u)),
                None => None,
            },
            ..bare_event_v(StreamEventType::Start, 0)
        }
    } else if t == "content_block_start"@ {
        IrStreamEventV {
            delta: Some(start_block(present(j, "content_block"@))),
            ..bare_event_v(StreamEventType::ContentBlockStart, idx)
        }
    } else if t == "content_block_delta"@ {
        IrStreamEventV {
            delta: Some(delta_block(present(j, "delta"@))),
            ..bare_event_v(StreamEventType::Delta, idx)
        }
    } else if t == "content_block_stop"@ {
        bare_event_v(StreamEventType::ContentBlockStop, idx)
    } else if t == "message_delta"@ {
        IrStreamEventV {
            stop_reason: match present(j, "delta"@) {
                Some(d) => match str_of(d, "stop_reason"@) {
                    Some(s) => Some(anth_stop_of(s)),
                    None => None,
                },
                None => None,
            },
            usage: match present(j, "usage"@) {
                Some(u) => Some(anth_usage_ir(u)),
                None => None,
            },
            ..bare_event_v(StreamEventType::Delta, 0)
        }
    } else if t == "message_stop"@ {
        bare_event_v(StreamEventType::Stop, 0)
    } else if t == "error"@ {
        IrStreamEventV { error: Some(event_error(j)), ..bare_event_v(StreamEventType::Error, 0) }
    } else {
        bare_event_v(StreamEventType::Delta, 0)
    }
}

/// The protocol's block type for a block.
pub open spec fn anth_block_type_str(b: ContentBlockV) -> Seq<char> {
    if b.content_type == ContentType::ToolUse {
        "tool_use"@
    } else if b.content_type == ContentType::Thinking {
        "thinking"@
    } else if b.content_type == ContentType::RedactedThinking {
        "redacted_thinking"@
    } else if b.content_type == ContentType::Image {
        "image"@
    } else {
        "text"@
    }
}

/// The protocol's delta type for a block.
pub open spec fn anth_delta_type_str(b: ContentBlockV) -> Seq<char> {
    if b.content_type == ContentType::ToolUse {
        "input_json_delta"@
    } else if b.content_type == ContentType::Thinking {
        "thinking_delta"@
    } else {
        "text_delta"@
    }
}

/// The protocol's stop reason in a stream delta.
pub open spec fn anth_stream_stop_str(r: StopReasonV) -> Seq<char> {
    match r {
        StopReasonV::Other(s) => s,
        _ => anth_stop_json(r),
    }
}

/// The content block a `content_block_start` event opens.
pub open spec fn start_block_json(d: ContentBlockV) -> JsonV {
    obj(
        seq![mv("type"@, JsonV::Str(anth_block_type_str(d)))] + opt_member("text"@, opt_str_v(d.text))
            + opt_member(
            "id"@,
            match d.tool_use {
                Some(tu) => Some(JsonV::Str(tu.id)),
                None => None,
            },
        ) + opt_member(
            "name"@,
            match d.tool_use {
                Some(tu) => Some(JsonV::Str(tu.name)),
                None => None,
            },
        ) + opt_member(
            "input"@,
            match d.tool_use {
                Some(tu) => tu.arguments,
                None => None,
            },
        ) + opt_member(
            "thinking"@,
            match d.thinking {
                Some(th) => Some(JsonV::Str(th.thinking)),
                None => None,
            },
        ) + opt_member(
            "signature"@,
            match d.thinking {
                Some(th) => opt_str_v(th.signature),
                None => None,
            },
        ) + opt_member("data"@, opt_str_v(d.redacted_thinking)),
    )
}

/// The delta a `content_block_delta` event carries.
pub open spec fn stream_delta_json(e: IrStreamEventV) -> JsonV {
    obj(
        Seq::<MemberV>::empty() + opt_member(
            "type"@,
            match e.delta {
                Some(d) => Some(JsonV::Str(anth_delta_type_str(d))),
                None => None,
            },
        ) + opt_member(
            "text"@,
            match e.delta {
                Some(d) => opt_str_v(d.text),
                None => None,
            },
        ) + opt_member(
            "stop_reason"@,
            match e.stop_reason {
                Some(s) => Some(JsonV::Str(anth_stream_stop_str(s))),
                None => None,
            },
        ) + opt_member(
            "partial_json"@,
            match e.delta {
                Some(d) => match d.tool_use {
                    Some(tu) => match tu.arguments {
                        Some(a) => Some(JsonV::Str(printed_json(a))),
                        None => None,
                    },
                    None => None,
                },
                None => None,
            },
        ),
    )
}

/// The JSON of a stream event, for the event types written as JSON.
pub open spec fn anth_event_json(e: IrStreamEventV) -> JsonV {
    let index = num(e.index as int);
    match e.event_type {
        StreamEventType::Start => obj(
            seq![mv("type"@, JsonV::Str("message_start"@))] + opt_member(
                "message"@,
                match e.response {
                    Some(r) => Some(
                        anth_message_obj(
                            or_empty(r.id),
                            or_empty(r.model),
                            Seq::empty(),
                            None,
                            None,
                            obj(Seq::empty()),
                        ),
                    ),
                    None => None,
                },
            ) + opt_member(
                "usage"@,
                match e.usage {
                    Some(u) => Some(anth_usage_json(u)),
                    None => None,
                },
            ),
        ),
        StreamEventType::ContentBlockStart => obj(
            seq![mv("type"@, JsonV::Str("content_block_start"@))].push(mv("index"@, index))
                + opt_member(
                "content_block"@,
                match e.delta {
                    Some(d) => Some(start_block_json(d)),
                    None => None,
                },
            ),
        ),
        StreamEventType::Delta => obj(
            seq![mv("type"@, JsonV::Str("content_block_delta"@))].push(mv("index"@, index)).push(
                mv("delta"@, stream_delta_json(e)),
            ) + opt_member(
                "usage"@,
                match e.usage {
                    Some(u) => Some(anth_usage_json(u)),
                    None => None,
                },
            ),
        ),
        _ => obj(seq![mv("type"@, JsonV::Str("content_block_stop"@))].push(mv("index"@, index))),
    }
}

/// The server-sent event text for `e`.
pub open spec fn anth_stream_text(e: IrStreamEventV) -> Seq<char> {
    match e.event_type {
        StreamEventType::Stop => "data: [DONE]\n\n"@,
        StreamEventType::Error => "data: {\"type\":\"error\",\"error\":{\"type\":\"api_error\",\"message\":\""@
            + (match e.error {
            Some(er) => match er.message {
                Some(m) => m,
                None => "unknown error"@,
            },
            None => "unknown error"@,
        }) + "\"}}\n\ndata: [DONE]\n\n"@,
        _ => "data: "@ + printed_json(anth_event_json(e)) + "\n\n"@,
    }
}

fn check_stream_delta(d: &Json) -> (r: bool)
    ensures
        r == stream_delta_ok(d@),
{
    d.is_kind(Kind::Object) && d.opt_kind("type", Kind::Str) && d.opt_kind("text", Kind::Str)
        && d.opt_kind("stop_reason", Kind::Str) && d.opt_kind("stop_sequence", Kind::Str) && d.opt_kind(
        "partial_json",
        Kind::Str,
    )
}

/// Whether `j` has the shape of a stream event.
pub fn check_anthropic_event(j: &Json) -> (r: bool)
    ensures
        r == anth_event_ok(j@),
{
    if !(j.is_kind(Kind::Object) && j.req_kind("type", Kind::Str) && j.opt_kind("index", Kind::Int)) {
        return false;
    }
    let m_ok = match j.present("message") {
        Some(m) => check_messages_response(m),
        None => true,
    };
    let b_ok = match j.present("content_block") {
        Some(b) => check_block(b),
        None => true,
    };
    let d_ok = match j.present("delta") {
        Some(d) => check_stream_delta(d),
        None => true,
    };
    let u_ok = match j.present("usage") {
        Some(u) => check_usage(u),
        None => true,
    };
    m_ok && b_ok && d_ok && u_ok
}

/// The block type a protocol block type stands for (see [`block_type_v`]).
pub fn block_type_to_ir(bt: &str) -> (r: ContentType)
    ensures
        r == block_type_v(bt@),
{
    if str_eq(bt, "tool_use") {
        ContentType::ToolUse
    } else if str_eq(bt, "thinking") {
        ContentType::Thinking
    } else if str_eq(bt, "redacted_thinking") {
        ContentType::RedactedThinking
    } else if str_eq(bt, "image") {
        ContentType::Image
    } else {
        ContentType::Text
    }
}

/// The block type a protocol delta type stands for (see [`delta_type_v`]).
pub fn delta_type_to_ir(dt: &str) -> (r: ContentType)
    ensures
        r == delta_type_v(dt@),
{
    if str_eq(dt, "input_json_delta") {
        ContentType::ToolUse
    } else if str_eq(dt, "thinking_delta") {
        ContentType::Thinking
    } else {
        ContentType::Text
    }
}

/// The tool call a `tool_use` block starts (see [`tool_use_start_v`]).
pub fn tool_use_start(b: &Json) -> (r: Option<ToolUseContent>)
    ensures
        r.deep_view() == tool_use_start_v(b@),
{
    if str_eq(b.str_or_empty("type").as_str(), "tool_use") {
        Some(ToolUseContent { id: b.str_or_empty("id"), name: b.str_or_empty("name"), arguments: None })
    } else {
        None
    }
}

/// The reasoning of a `thinking` block (see [`thinking_start_v`]).
pub fn thinking_block(b: &Json) -> (r: Option<ThinkingContent>)
    ensures
        r.deep_view() == thinking_start_v(b@),
{
    if str_eq(b.str_or_empty("type").as_str(), "thinking") {
        Some(ThinkingContent { thinking: b.str_or_empty("thinking"), signature: b.str_of("signature") })
    } else {
        None
    }
}

/// The data of a `redacted_thinking` block (see
/// [`redacted_thinking_block_v`]).
pub fn redacted_thinking_block(b: &Json) -> (r: Option<RedactedThinkingContent>)
    ensures
        r.deep_view() == redacted_thinking_block_v(b@),
{
    if str_eq(b.str_or_empty("type").as_str(), "redacted_thinking") {
        Some(RedactedThinkingContent { data: b.str_or_empty("data") })
    } else {
        None
    }
}

fn start_block_of(cb: Option<&Json>) -> (r: ContentBlock)
    ensures
        r@ == start_block(opt_view(cb)),
{
    match cb {
        Some(b) => {
            let t = b.str_or_empty("type");
            let mut r = ContentBlock::empty(block_type_to_ir(t.as_str()));
            r.tool_use = tool_use_start(b);
            r.thinking = thinking_block(b);
            r.redacted_thinking = redacted_thinking_block(b);
            r
        },
        None => ContentBlock::empty(ContentType::Text),
    }
}

fn delta_block_of(d: Option<&Json>) -> (r: ContentBlock)
    ensures
        r@ == delta_block(opt_view(d)),
{
    match d {
        Some(dv) => {
            let ct = match dv.str_of("type") {
                Some(t) => delta_type_to_ir(t.as_str()),
                None => ContentType::Text,
            };
            let mut r = ContentBlock::empty(ct);
            r.text = match dv.str_of("text") {
                Some(t) => Some(TextContent { text: t }),
                None => None,
            };
            r.tool_use = match dv.str_of("partial_json") {
                Some(pj) => match parse_json_text(pj.as_str()) {
                    Ok(v) => Some(ToolUseContent { id: String::new(), name: String::new(), arguments: Some(v) }),
                    Err(_) => None,
                },
                None => None,
            };
            r
        },
        None => ContentBlock::empty(ContentType::Text),
    }
}

fn event_error_of(j: &Json) -> (r: StreamError)
    ensures
        r@ == event_error(j@),
{
    let (etype, emsg) = match j.member("error") {
        Some(e) => (e.str_of("type"), e.str_of("message")),
        None => (None, None),
    };
    let error_type = match j.present("message") {
        Some(m) => {
            let content = m.items_of("content");
            if content.len() > 0 {
                assert(items_view(content@)[0] == content@[0]@);
                Some(content[0].str_or_empty("text"))
            } else {
                etype
            }
        },
        None => etype,
    };
    StreamError { error_type, code: None, message: emsg, param: None }
}

/// The event a parsed stream event stands for (see [`anth_stream_event`]).
pub fn anthropic_event_to_ir(j: &Json) -> (r: IrStreamEvent)
    ensures
        r@ == anth_stream_event(j@),
{
    let t = j.str_or_empty("type");
    let idx: i32 = match j.int_of("index") {
        Some(i) => i as i32,
        None => 0,
    };
    if str_eq(t.as_str(), "message_start") {
        let mut e = IrStreamEvent::bare(StreamEventType::Start, 0);
        e.response = match j.present("message") {
            Some(m) => {
                let usage = match m.member("usage") {
                    Some(u) => m_usage_to_ir(u),
                    None => m_usage_to_ir(&Json::Null),
                };
                let r = IrResponse {
                    id: Some(m.str_or_empty("id")),
                    model: Some(m.str_or_empty("model")),
                    content: Vec::new(),
                    stop_reason: None,
                    stop_sequence: None,
                    usage,
                    provider_extensions: no_members(),
                };
                assert(r@.content =~= Seq::<ContentBlockV>::empty());
                Some(r)
            },
            None => None,
        };
        e.usage = match j.present("usage") {
            Some(u) => Some(m_usage_to_ir(u)),
            None => None,
        };
        e
    } else if str_eq(t.as_str(), "content_block_start") {
        let mut e = IrStreamEvent::bare(StreamEventType::ContentBlockStart, idx);
        e.delta = Some(start_block_of(j.present("content_block")));
        e
    } else if str_eq(t.as_str(), "content_block_delta") {
        let mut e = IrStreamEvent::bare(StreamEventType::Delta, idx);
        e.delta = Some(delta_block_of(j.present("delta")));
        e
    } else if str_eq(t.as_str(), "content_block_stop") {
        IrStreamEvent::bare(StreamEventType::ContentBlockStop, idx)
    } else if str_eq(t.as_str(), "message_delta") {
        let mut e = IrStreamEvent::bare(StreamEventType::Delta, 0);
        e.stop_reason = match j.present("delta") {
            Some(d) => match d.str_of("stop_reason") {
                Some(s) => Some(stop_of(s.as_str())),
                None => None,
            },
            None => None,
        };
        e.usage = match j.present("usage") {
            Some(u) => Some(m_usage_to_ir(u)),
            None => None,
        };
        e
    } else if str_eq(t.as_str(), "message_stop") {
        IrStreamEvent::bare(StreamEventType::Stop, 0)
    } else if str_eq(t.as_str(), "error") {
        let mut e = IrStreamEvent::bare(StreamEventType::Error, 0);
        e.error = Some(event_error_of(j));
        e
    } else {
        IrStreamEvent::bare(StreamEventType::Delta, 0)
    }
}

/// The protocol's name for the type of a block (see
/// [`anth_block_type_str`]).
pub fn ir_block_type_to_anthropic_str(b: &ContentBlock) -> (r: String)
    ensures
        r@ == anth_block_type_str(b@),
{
    if b.content_type == ContentType::ToolUse {
        "tool_use".to_string()
    } else if b.content_type == ContentType::Thinking {
        "thinking".to_string()
    } else if b.content_type == ContentType::RedactedThinking {
        "redacted_thinking".to_string()
    } else if b.content_type == ContentType::Image {
        "image".to_string()
    } else {
        "text".to_string()
    }
}

fn start_block_to_json(d: &ContentBlock) -> (r: Json)
    ensures
        r@ == start_block_json(d@),
{
    let mut es = no_members();
    push_member(&mut es, "type", string(ir_block_type_to_anthropic_str(d).as_str()));
    push_opt_member(&mut es, "text", match &d.text {
        Some(t) => Some(Json::Str(t.text.clone())),
        None => None,
    });
    push_opt_member(&mut es, "id", match &d.tool_use {
        Some(tu) => Some(Json::Str(tu.id.clone())),
        None => None,
    });
    push_opt_member(&mut es, "name", match &d.tool_use {
        Some(tu) => Some(Json::Str(tu.name.clone())),
        None => None,
    });
    push_opt_member(&mut es, "input", match &d.tool_use {
        Some(tu) => opt_copy(&tu.arguments),
        None => None,
    });
    push_opt_member(&mut es, "thinking", match &d.thinking {
        Some(th) => Some(Json::Str(th.thinking.clone())),
        None => None,
    });
    push_opt_member(&mut es, "signature", match &d.thinking {
        Some(th) => opt_string(&th.signature),
        None => None,
    });
    push_opt_member(&mut es, "data", match &d.redacted_thinking {
        Some(rt) => Some(Json::Str(rt.data.clone())),
        None => None,
    });
    object(es)
}

fn stream_stop_str(r: &StopReason) -> (s: String)
    ensures
        s@ == anth_stream_stop_str(r@),
{
    match r {
        StopReason::Other(s) => s.clone(),
        _ => stop_json(r).to_string(),
    }
}

fn stream_delta_to_json(e: &IrStreamEvent) -> (r: Json)
    ensures
        r@ == stream_delta_json(e@),
{
    let mut es = no_members();
    push_opt_member(&mut es, "type", match &e.delta {
        Some(d) => Some(
            string(
                if d.content_type == ContentType::ToolUse {
                    "input_json_delta"
                } else if d.content_type == ContentType::Thinking {
                    "thinking_delta"
                } else {
                    "text_delta"
                },
            ),
        ),
        None => None,
    });
    push_opt_member(&mut es, "text", match &e.delta {
        Some(d) => match &d.text {
            Some(t) => Some(Json::Str(t.text.clone())),
            None => None,
        },
        None => None,
    });
    push_opt_member(&mut es, "stop_reason", match &e.stop_reason {
        Some(s) => Some(Json::Str(stream_stop_str(s))),
        None => None,
    });
    push_opt_member(&mut es, "partial_json", match &e.delta {
        Some(d) => match &d.tool_use {
            Some(tu) => match &tu.arguments {
                Some(a) => Some(Json::Str(print_json(a))),
                None => None,
            },
            None => None,
        },
        None => None,
    });
    object(es)
}

fn usage_opt_json(u: &Option<IrUsage>) -> (r: Option<Json>)
    ensures
        opt_json(r) == match *u {
            Some(x) => Some(anth_usage_json(x)),
            None => None,
        },
{
    match u {
        Some(x) => Some(ir_usage_to_m(x)),
        None => None,
    }
}

/// The JSON of a stream event (see [`anth_event_json`]).
pub fn anthropic_event_to_json(e: &IrStreamEvent) -> (r: Json)
    ensures
        r@ == anth_event_json(e@),
{
    let index = int_json(e.index as i64);
    match e.event_type {
        StreamEventType::Start => {
            let msg = match &e.response {
                Some(r) => Some(
                    message_obj(or_empty_of(&r.id), or_empty_of(&r.model), no_items(), None, None, object(no_members())),
                ),
                None => None,
            };
            let mut es = no_members();
            push_member(&mut es, "type", string("message_start"));
            push_opt_member(&mut es, "message", msg);
            push_opt_member(&mut es, "usage", usage_opt_json(&e.usage));
            object(es)
        },
        StreamEventType::ContentBlockStart => {
            let mut es = no_members();
            push_member(&mut es, "type", string("content_block_start"));
            push_member(&mut es, "index", index);
            push_opt_member(&mut es, "content_block", match &e.delta {
                Some(d) => Some(start_block_to_json(d)),
                None => None,
            });
            object(es)
        },
        StreamEventType::Delta => {
            let mut es = no_members();
            push_member(&mut es, "type", string("content_block_delta"));
            push_member(&mut es, "index", index);
            push_member(&mut es, "delta", stream_delta_to_json(e));
            push_opt_member(&mut es, "usage", usage_opt_json(&e.usage));
            object(es)
        },
        _ => {
            let mut es = no_members();
            push_member(&mut es, "type", string("content_block_stop"));
            push_member(&mut es, "index", index);
            object(es)
        },
    }
}

/// The server-sent event text for `e` (see [`anth_stream_text`]).
pub fn anthropic_event_to_text(e: &IrStreamEvent) -> (r: String)
    ensures
        r@ == anth_stream_text(e@),
        e.event_type != StreamEventType::Stop && e.event_type != StreamEventType::Error && json_canonical(
            anth_event_json(e@),
            100,
        ) ==> reads_back(printed_json(anth_event_json(e@)), anth_event_json(e@)),
        e.event_type != StreamEventType::Stop && e.event_type != StreamEventType::Error ==> crate::sse::trim_end(
            printed_json(anth_event_json(e@)) + "\n\n"@,
        ) == printed_json(anth_event_json(e@)),
{
    match e.event_type {
        StreamEventType::Stop => "data: [DONE]\n\n".to_string(),
        StreamEventType::Error => {
            let msg = match &e.error {
                Some(er) => match &er.message {
                    Some(m) => m.clone(),
                    None => "unknown error".to_string(),
                },
                None => "unknown error".to_string(),
            };
            concat(
                &concat(
                    "data: {\"type\":\"error\",\"error\":{\"type\":\"api_error\",\"message\":\"",
                    msg.as_str(),
                ),
                "\"}}\n\ndata: [DONE]\n\n",
            )
        },
        _ => {
            let p = print_json(&anthropic_event_to_json(e));
            proof {
                crate::sse::lemma_written_payload(p@);
            }
            concat(&concat("data: ", &p), "\n\n")
        },
    }
}

// ---------------------------------------------------------------------------
// The codec
// ---------------------------------------------------------------------------

/// What decoding the parsed request `j` gives.
pub open spec fn messages_decode_outcome(j: JsonV, r: Result<IrRequest, CodecError>) -> bool {
    if messages_request_ok(j) {
        r matches Ok(ir) && ir@ == messages_request_ir(j)
    } else {
        r matches Err(CodecError::Decode(m)) && m@ == "invalid messages request: unexpected shape"@
    }
}

/// Decodes a parsed messages request.
pub fn decode_messages_request_json(j: &Json) -> (r: Result<IrRequest, CodecError>)
    ensures
        messages_decode_outcome(j@, r),
{
    if check_messages_request(j) {
        Ok(messages_request_to_ir(j))
    } else {
        Err(CodecError::Decode("invalid messages request: unexpected shape".to_string()))
    }
}

/// What decoding the parsed response `j` gives.
pub open spec fn messages_response_outcome(j: JsonV, r: Result<IrResponse, CodecError>) -> bool {
    if messages_response_ok(j) {
        r matches Ok(resp) && resp@ == messages_response_ir(j)
    } else {
        r matches Err(CodecError::Json(m)) && m@ == "unexpected shape of a messages response"@
    }
}

/// Decodes a parsed messages response.
pub fn decode_messages_response_json(j: &Json) -> (r: Result<IrResponse, CodecError>)
    ensures
        messages_response_outcome(j@, r),
{
    if check_messages_response(j) {
        Ok(messages_response_to_ir(j))
    } else {
        Err(CodecError::Json("unexpected shape of a messages response".to_string()))
    }
}

/// What decoding the parsed stream event `j` gives.
pub open spec fn messages_event_outcome(j: JsonV, r: Result<IrStreamEvent, CodecError>) -> bool {
    if anth_event_ok(j) {
        r matches Ok(e) && e@ == anth_stream_event(j)
    } else {
        r matches Err(CodecError::Decode(m)) && m@ == "invalid stream event: unexpected shape"@
    }
}

/// Decodes a parsed stream event.
pub fn decode_messages_event_json(j: &Json) -> (r: Result<IrStreamEvent, CodecError>)
    ensures
        messages_event_outcome(j@, r),
{
    if check_anthropic_event(j) {
        Ok(anthropic_event_to_ir(j))
    } else {
        Err(CodecError::Decode("invalid stream event: unexpected shape".to_string()))
    }
}

impl MessagesCodec {
    /// The body of an Anthropic error for an adapter error: an
    /// `invalid_request_error` carrying the error's text.
    pub fn encode_error(&self, error: &AdapterError) -> (r: Vec<u8>)
        ensures
            r@ == encode_utf8(printed_json(messages_error_json(400, adapter_error_text(error)))),
    {
        bytes_of(print_json(&messages_error_to_json(400, error.describe().as_str())).as_str())
    }
}

impl Codec for MessagesCodec {
    fn protocol(&self) -> (p: Protocol)
        ensures
            p == Protocol::Anthropic,
    {
        Protocol::Anthropic
    }

    fn decode_request(&self, body: &[u8]) -> (r: Result<IrRequest, CodecError>)
        ensures
            match parsed_json_bytes(body@) {
                Err(e) => r matches Err(CodecError::Decode(m)) && m@ == "invalid messages request: "@ + e,
                Ok(j) => messages_decode_outcome(j, r),
            },
    {
        match parse_json_bytes(body) {
            Ok(j) => decode_messages_request_json(&j),
            Err(e) => Err(CodecError::Decode(concat("invalid messages request: ", e.as_str()))),
        }
    }

    fn encode_request(&self, request: &IrRequest) -> (r: Result<Vec<u8>, CodecError>)
        ensures
            r matches Ok(b) && b@ == encode_utf8(printed_json(messages_request_json(request@))),
            json_canonical(messages_request_json(request@), 100) ==> reads_back(printed_json(messages_request_json(request@)), messages_request_json(request@)),
    {
        Ok(bytes_of(print_json(&messages_request_to_json(request)).as_str()))
    }

    fn decode_response(&self, body: &[u8]) -> (r: Result<IrResponse, CodecError>)
        ensures
            match parsed_json_bytes(body@) {
                Err(e) => r matches Err(CodecError::Json(m)) && m@ == e,
                Ok(j) => messages_response_outcome(j, r),
            },
    {
        match parse_json_bytes(body) {
            Ok(j) => decode_messages_response_json(&j),
            Err(e) => Err(CodecError::Json(e)),
        }
    }

    fn encode_response(&self, response: &IrResponse) -> (r: Result<Vec<u8>, CodecError>)
        ensures
            r matches Ok(b) && b@ == encode_utf8(printed_json(messages_response_json(response@))),
            json_canonical(messages_response_json(response@), 100) ==> reads_back(printed_json(messages_response_json(response@)), messages_response_json(response@)),
    {
        Ok(bytes_of(print_json(&messages_response_to_json(response)).as_str()))
    }

    fn decode_stream_event(&self, event_type: Option<&str>, data: &str) -> (r: Result<
        IrStreamEvent,
        CodecError,
    >)
        ensures
            match parsed_json_text(data@) {
                Err(e) => r matches Err(CodecError::Decode(m)) && m@ == "invalid stream event: "@ + e,
                Ok(j) => messages_event_outcome(j, r),
            },
    {
        match parse_json_text(data) {
            Ok(j) => decode_messages_event_json(&j),
            Err(e) => Err(CodecError::Decode(concat("invalid stream event: ", e.as_str()))),
        }
    }

    fn encode_stream_event(&self, event: &IrStreamEvent) -> (r: Result<String, CodecError>)
        ensures
            r matches Ok(s) && s@ == anth_stream_text(event@),
            event.event_type != StreamEventType::Stop && event.event_type != StreamEventType::Error
                && json_canonical(anth_event_json(event@), 100) ==> reads_back(
                printed_json(anth_event_json(event@)),
                anth_event_json(event@),
            ),
            event.event_type != StreamEventType::Stop && event.event_type != StreamEventType::Error
                ==> crate::sse::trim_end(printed_json(anth_event_json(event@)) + "\n\n"@)
                == printed_json(anth_event_json(event@)),
    {
        Ok(anthropic_event_to_text(event))
    }

    fn known_fields(&self) -> (r: Vec<String>)
        ensures
            r.deep_view() == messages_known_fields(),
    {
        messages_known_field_names()
    }

    fn write_error(&self, status_code: u16, message: &str) -> (r: Vec<u8>)
        ensures
            r@ == encode_utf8(printed_json(messages_error_json(status_code, message@))),
            reads_back(
                printed_json(messages_error_json(status_code, message@)),
                messages_error_json(status_code, message@),
            ),
    {
        proof {
            lemma_error_canonical(status_code, message@);
        }
        bytes_of(print_json(&messages_error_to_json(status_code, message)).as_str())
    }
}

// ---------------------------------------------------------------------------
// Thinking configurations written back
// ---------------------------------------------------------------------------

/// The members a request is written with before its thinking
/// configuration.
pub open spec fn members_before_thinking(r: IrRequestV) -> Seq<MemberV> {
    seq![mv("model"@, JsonV::Str(r.model))].push(
        mv("messages"@, JsonV::Array(r.messages.filter_map(|m: IrMessageV| anth_message_json(m)))),
    ) + opt_member("system"@, anth_system_json(r.system_prompt)) + opt_member(
        "max_tokens"@,
        opt_int_v(r.max_tokens),
    ) + opt_member(
        "stop_sequences"@,
        nonempty(r.stop_sequences.map_values(|s: Seq<char>| JsonV::Str(s))),
    ) + opt_member("stream"@, opt_bool_v(r.stream)) + opt_member(
        "temperature"@,
        opt_num_v(r.temperature),
    ) + opt_member("top_p"@, opt_num_v(r.top_p)) + opt_member("top_k"@, opt_int_v(r.top_k))
        + opt_member("tools"@, nonempty(r.tools.map_values(|t: IrToolV| anth_tool_json(t))))
        + opt_member(
        "tool_choice"@,
        match r.tool_choice {
            Some(c) => Some(anth_tool_choice_json(c)),
            None => None,
        },
    )
}

proof fn lemma_no_thinking_before(r: IrRequestV)
    ensures
        crate::json::lacks_key(members_before_thinking(r), "thinking"@),
{
    let k = "thinking"@;
    reveal_strlit("thinking");
    reveal_strlit("model");
    reveal_strlit("messages");
    reveal_strlit("system");
    reveal_strlit("max_tokens");
    reveal_strlit("stop_sequences");
    reveal_strlit("stream");
    reveal_strlit("temperature");
    reveal_strlit("top_p");
    reveal_strlit("top_k");
    reveal_strlit("tools");
    reveal_strlit("tool_choice");
    assert("messages"@[0] != k[0]);
    let a0 = seq![mv("model"@, JsonV::Str(r.model))].push(
        mv("messages"@, JsonV::Array(r.messages.filter_map(|m: IrMessageV| anth_message_json(m)))),
    );
    assert(crate::json::lacks_key(a0, k)) by {
        assert forall|i: int| 0 <= i < a0.len() implies (#[trigger] a0[i]).key != k by {
            if i == 0 {
                assert(a0[0].key == "model"@);
            } else {
                assert(a0[1].key == "messages"@);
            }
        }
    }
    let a1 = opt_member("system"@, anth_system_json(r.system_prompt));
    let a2 = opt_member("max_tokens"@, opt_int_v(r.max_tokens));
    let a3 = opt_member(
        "stop_sequences"@,
        nonempty(r.stop_sequences.map_values(|s: Seq<char>| JsonV::Str(s))),
    );
    let a4 = opt_member("stream"@, opt_bool_v(r.stream));
    let a5 = opt_member("temperature"@, opt_num_v(r.temperature));
    let a6 = opt_member("top_p"@, opt_num_v(r.top_p));
    let a7 = opt_member("top_k"@, opt_int_v(r.top_k));
    let a8 = opt_member("tools"@, nonempty(r.tools.map_values(|t: IrToolV| anth_tool_json(t))));
    let a9 = opt_member(
        "tool_choice"@,
        match r.tool_choice {
            Some(c) => Some(anth_tool_choice_json(c)),
            None => None,
        },
    );
    assert("system"@.len() != k.len() && "max_tokens"@.len() != k.len() && "stop_sequences"@.len()
        != k.len() && "stream"@.len() != k.len() && "temperature"@.len() != k.len() && "top_p"@.len()
        != k.len() && "top_k"@.len() != k.len() && "tools"@.len() != k.len() && "tool_choice"@.len()
        != k.len());
    crate::json::lemma_opt_member_lacks("system"@, anth_system_json(r.system_prompt), k);
    crate::json::lemma_opt_member_lacks("max_tokens"@, opt_int_v(r.max_tokens), k);
    crate::json::lemma_opt_member_lacks(
        "stop_sequences"@,
        nonempty(r.stop_sequences.map_values(|s: Seq<char>| JsonV::Str(s))),
        k,
    );
    crate::json::lemma_opt_member_lacks("stream"@, opt_bool_v(r.stream), k);
    crate::json::lemma_opt_member_lacks("temperature"@, opt_num_v(r.temperature), k);
    crate::json::lemma_opt_member_lacks("top_p"@, opt_num_v(r.top_p), k);
    crate::json::lemma_opt_member_lacks("top_k"@, opt_int_v(r.top_k), k);
    crate::json::lemma_opt_member_lacks(
        "tools"@,
        nonempty(r.tools.map_values(|t: IrToolV| anth_tool_json(t))),
        k,
    );
    crate::json::lemma_opt_member_lacks(
        "tool_choice"@,
        match r.tool_choice {
            Some(c) => Some(anth_tool_choice_json(c)),
            None => None,
        },
        k,
    );
    crate::json::lemma_lacks_key_concat(a0, a1, k);
    crate::json::lemma_lacks_key_concat(a0 + a1, a2, k);
    crate::json::lemma_lacks_key_concat(a0 + a1 + a2, a3, k);
    crate::json::lemma_lacks_key_concat(a0 + a1 + a2 + a3, a4, k);
    crate::json::lemma_lacks_key_concat(a0 + a1 + a2 + a3 + a4, a5, k);
    crate::json::lemma_lacks_key_concat(a0 + a1 + a2 + a3 + a4 + a5, a6, k);
    crate::json::lemma_lacks_key_concat(a0 + a1 + a2 + a3 + a4 + a5 + a6, a7, k);
    crate::json::lemma_lacks_key_concat(a0 + a1 + a2 + a3 + a4 + a5 + a6 + a7, a8, k);
    crate::json::lemma_lacks_key_concat(a0 + a1 + a2 + a3 + a4 + a5 + a6 + a7 + a8, a9, k);
}

/// A request's thinking configuration survives decoding and writing back:
/// a messages request whose `thinking` has the type `mode` and the budget
/// `budget` (an `i64`) is written again with `thinking` holding that type
/// and that budget.
pub proof fn law_thinking_round_trip(j: JsonV, mode: Seq<char>, budget: int)
    requires
        i64::MIN <= budget <= i64::MAX,
        present(j, "thinking"@) matches Some(t) && member(t, "type"@) == Some(JsonV::Str(mode))
            && member(t, "budget_tokens"@) == Some(num(budget)),
    ensures
        member(messages_request_json(messages_request_ir(j)), "thinking"@) == Some(
            obj(seq![mv("type"@, JsonV::Str(mode)), mv("budget_tokens"@, num(budget))]),
        ),
{
    let r = messages_request_ir(j);
    crate::json::lemma_int_text_reads_back(budget);
    lemma_no_thinking_before(r);
    let th = anth_thinking_json(r.thinking->0);
    assert(r.thinking->0.mode == Some(mode));
    assert(r.thinking->0.budget_tokens == Some(budget as i64));
    assert(opt_int_v(Some(budget as i64)) == Some(num(budget)));
    assert(seq![mv("type"@, JsonV::Str(mode))] + opt_member("budget_tokens"@, Some(num(budget)))
        =~= seq![mv("type"@, JsonV::Str(mode)), mv("budget_tokens"@, num(budget))]);
    assert(th == obj(seq![mv("type"@, JsonV::Str(mode)), mv("budget_tokens"@, num(budget))]));
    let rest = opt_member("thinking"@, Some(th)) + r.provider_extensions;
    assert(obj_members(messages_request_json(r)) =~= members_before_thinking(r) + rest);
    crate::json::lemma_find_member_after(members_before_thinking(r), rest, "thinking"@);
}

// ---------------------------------------------------------------------------
// Text deltas written back
// ---------------------------------------------------------------------------

/// A text delta at `index` carrying `t`.
pub open spec fn anth_text_delta_v(index: i32, t: Seq<char>) -> IrStreamEventV {
    IrStreamEventV { delta: Some(text_block_v(t)), ..bare_event_v(StreamEventType::Delta, index) }
}

proof fn lemma_text_delta_event(e: IrStreamEventV, t: Seq<char>)
    requires
        e == anth_text_delta_v(e.index, t),
    ensures
        json_canonical(anth_event_json(e), 100),
        anth_event_ok(anth_event_json(e)),
        anth_stream_event(anth_event_json(e)) == e,
{
    reveal_strlit("type");
    reveal_strlit("index");
    reveal_strlit("delta");
    reveal_strlit("text");
    reveal_strlit("usage");
    reveal_strlit("message");
    reveal_strlit("content_block");
    reveal_strlit("stop_reason");
    reveal_strlit("stop_sequence");
    reveal_strlit("partial_json");
    reveal_strlit("text_delta");
    reveal_strlit("input_json_delta");
    reveal_strlit("thinking_delta");
    reveal_strlit("content_block_delta");
    reveal_strlit("content_block_start");
    reveal_strlit("message_start");
    let j = anth_event_json(e);
    let ms = obj_members(j);
    let dv = ms[2].value;
    let dm = obj_members(dv);
    assert(ms.len() == 3 && dm.len() == 2);
    assert(ms[0].key == "type"@ && ms[1].key == "index"@ && ms[2].key == "delta"@);
    assert(dm[0].key == "type"@ && dm[1].key == "text"@);
    assert(ms[0].value == JsonV::Str("content_block_delta"@));
    assert(dm[0].value == JsonV::Str("text_delta"@));
    assert(dm[1].value == JsonV::Str(t));
    assert forall|a: int, b: int| 0 <= a < b < ms.len() implies #[trigger] ms[a].key != #[trigger] ms[
        b].key by {
        assert(crate::json::keys_apart(ms[a].key, ms[b].key));
    }
    assert forall|a: int, b: int| 0 <= a < b < dm.len() implies #[trigger] dm[a].key != #[trigger] dm[
        b].key by {
        assert(crate::json::keys_apart(dm[a].key, dm[b].key));
    }
    // Canonical.
    crate::json::lemma_int_text_reads_back(e.index as int);
    crate::json::lemma_object_canonical(dm, 99);
    crate::json::lemma_object_canonical(ms, 100);
    // Members found and missing.
    crate::json::lemma_find_member_first(ms, "type"@, 0);
    crate::json::lemma_find_member_first(ms, "index"@, 1);
    crate::json::lemma_find_member_first(ms, "delta"@, 2);
    crate::json::lemma_find_member_first(dm, "type"@, 0);
    crate::json::lemma_find_member_first(dm, "text"@, 1);
    assert forall|k: Seq<char>|
        k == "message"@ || k == "content_block"@ || k == "usage"@ implies crate::json::lacks_key(
        ms,
        k,
    ) by {
        assert forall|i: int| 0 <= i < ms.len() implies (#[trigger] ms[i]).key != k by {
            assert(crate::json::keys_apart(ms[i].key, k));
        }
    }
    crate::json::lemma_find_member_missing(ms, "message"@);
    crate::json::lemma_find_member_missing(ms, "content_block"@);
    crate::json::lemma_find_member_missing(ms, "usage"@);
    assert forall|k: Seq<char>|
        k == "stop_reason"@ || k == "stop_sequence"@ || k == "partial_json"@ implies crate::json::lacks_key(
        dm,
        k,
    ) by {
        assert forall|i: int| 0 <= i < dm.len() implies (#[trigger] dm[i]).key != k by {
            assert(crate::json::keys_apart(dm[i].key, k));
        }
    }
    crate::json::lemma_find_member_missing(dm, "stop_reason"@);
    crate::json::lemma_find_member_missing(dm, "stop_sequence"@);
    crate::json::lemma_find_member_missing(dm, "partial_json"@);
    assert(stream_delta_ok(dv));
    assert(anth_event_ok(j));
    // Decoded.
    let ty = "content_block_delta"@;
    assert(str_or_empty(j, "type"@) == ty);
    assert(ty != "message_start"@) by {
        assert(ty.len() != "message_start"@.len());
    }
    assert(ty != "content_block_start"@) by {
        assert(ty[14] != "content_block_start"@[14]);
    }
    assert("text_delta"@ != "input_json_delta"@ && "text_delta"@ != "thinking_delta"@) by {
        assert("text_delta"@.len() != "input_json_delta"@.len());
        assert("text_delta"@.len() != "thinking_delta"@.len());
    }
    assert(int_of(j, "index"@) == Some(e.index as i64));
    assert(event_index(j) == e.index);
    assert(delta_block(present(j, "delta"@)) =~= text_block_v(t));
    assert(anth_stream_event(j) =~= e);
}

/// A text delta written for an Anthropic client reads back as the same
/// event: its JSON is canonical (so serde_json reads the written data back
/// as it, see the encoder), it has the shape of a stream event, and it
/// decodes to a delta at the same index carrying the same text.
pub proof fn law_anthropic_text_delta_round_trip(e: IrStreamEventV, t: Seq<char>)
    requires
        e == anth_text_delta_v(e.index, t),
    ensures
        anth_stream_text(e) == "data: "@ + printed_json(anth_event_json(e)) + "\n\n"@,
        json_canonical(anth_event_json(e), 100),
        anth_event_ok(anth_event_json(e)),
        anth_stream_event(anth_event_json(e)) == e,
{
    lemma_text_delta_event(e, t);
}

/// The error body is canonical JSON: strings only, under distinct keys.
proof fn lemma_error_canonical(status_code: u16, message: Seq<char>)
    ensures
        json_canonical(messages_error_json(status_code, message), 100),
{
    reveal_strlit("message");
    reveal_strlit("type");
    reveal_strlit("error");
    let ms = obj_members(messages_error_json(status_code, message));
    let em = obj_members(ms[1].value);
    assert(ms.len() == 2 && em.len() == 2);
    assert forall|a: int, b: int| 0 <= a < b < em.len() implies #[trigger] em[a].key != #[trigger] em[
        b].key by {
        assert(crate::json::keys_apart(em[a].key, em[b].key));
    }
    assert forall|a: int, b: int| 0 <= a < b < ms.len() implies #[trigger] ms[a].key != #[trigger] ms[
        b].key by {
        assert(crate::json::keys_apart(ms[a].key, ms[b].key));
    }
    crate::json::lemma_object_canonical(em, 99);
    crate::json::lemma_object_canonical(ms, 100);
}

// ---------------------------------------------------------------------------
// Stop reasons written back
// ---------------------------------------------------------------------------

/// A stop reason the protocol has a name for reads back as itself: the end
/// of the turn, the token limit, a tool call or a stop sequence.
pub proof fn law_stop_reason_round_trip(r: StopReasonV)
    requires
        r is EndTurn || r is MaxTokens || r is ToolUse || r is StopSequence,
    ensures
        anth_stop_of(anth_stop_json(r)) == r,
{
    reveal_strlit("end_turn");
    reveal_strlit("max_tokens");
    reveal_strlit("tool_use");
    reveal_strlit("stop_sequence");
    assert("end_turn"@ != "max_tokens"@ && "end_turn"@ != "tool_use"@ && "end_turn"@ != "stop_sequence"@
        && "max_tokens"@ != "tool_use"@ && "max_tokens"@ != "stop_sequence"@ && "tool_use"@
        != "stop_sequence"@) by {
        assert("end_turn"@[0] != "max_tokens"@[0] && "end_turn"@[0] != "tool_use"@[0]);
        assert("end_turn"@.len() != "stop_sequence"@.len() && "max_tokens"@.len() != "tool_use"@.len()
            && "max_tokens"@.len() != "stop_sequence"@.len() && "tool_use"@.len()
            != "stop_sequence"@.len());
    }
}

/// Distinct stop reasons that the protocol names, the content filter among
/// them, are written under distinct names, so a client can tell a
/// truncated answer from a finished one.
pub proof fn law_stop_names_distinct(a: StopReasonV, b: StopReasonV)
    requires
        a is EndTurn || a is MaxTokens || a is ToolUse || a is StopSequence || a is ContentFilter,
        b is EndTurn || b is MaxTokens || b is ToolUse || b is StopSequence || b is ContentFilter,
        a != b,
    ensures
        anth_stop_json(a) != anth_stop_json(b),
{
    reveal_strlit("refusal");
    reveal_strlit("end_turn");
    reveal_strlit("max_tokens");
    reveal_strlit("tool_use");
    reveal_strlit("stop_sequence");
    if a is ContentFilter || b is ContentFilter {
        assert("refusal"@.len() != "end_turn"@.len() && "refusal"@.len() != "max_tokens"@.len()
            && "refusal"@.len() != "tool_use"@.len() && "refusal"@.len() != "stop_sequence"@.len());
    } else {
        law_stop_reason_round_trip(a);
        law_stop_reason_round_trip(b);
    }
}

} // verus!
