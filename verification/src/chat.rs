//! The OpenAI Chat Completions protocol.

use vstd::prelude::*;
use crate::json::{
    json_canonical, reads_back,members_view, obj, num, or_empty, count_or_zero, nonempty, nonempty_str, count_or_zero_of, or_empty_of, nonempty_string, 
    Json, JsonV, Kind, MemberV, mv, opt_member, opt_str_v, opt_bool_v, opt_num_v, opt_int_v,
    printed_json, parsed_json_text, parse_json_text, parsed_json_bytes, parse_json_bytes, int_text, int_json, text_of_int, i32_of, object, array, string, push_member, push_opt_member, push_item, opt_string,
    opt_number, opt_int, opt_copy, opt_boolean, append_members, print_json, opt_json, no_members, no_items, all_strings, bool_of, check_opt_strings, collect_strings,
    collect_unknown, int_of, member_or_null, items_of, items_view, member, num_of, obj_members, opt_kind,
    opt_strings, present, req_kind, str_of, str_or_empty, strings_of, unknown_members,
};
use crate::ir::{
    IrResponse, IrResponseV, IrStreamEvent, IrStreamEventV, IrUsage, StreamEventType,
    bare_event_v, no_usage, IrMessage, IrMessageV, IrRequest, IrRequestV, IrResponseFormat, IrResponseFormatV, IrTool,
    IrToolChoice, IrToolChoiceV, IrToolV, choice_v,
};
use crate::seqs::{flat_map, lemma_map_values_succ, lemma_take_succ};
use crate::text::{bytes_of, concat, join_all, join_strings, str_eq};
use crate::codec::{AdapterError, Codec, CodecError, adapter_error_text};
use vstd::utf8::encode_utf8;
use crate::types::{
    StopReason, StopReasonV, ContentBlock, ContentBlockV, ContentType, ImageContent, ImageContentV, Protocol, Role,
    blocks_v, empty_block_v, image_block_v, lemma_blocks_vec, text_block_v, tool_result_block_v, tool_use_block_v,
};

verus! {

/// Codec for the OpenAI Chat Completions protocol.
pub struct ChatCompletionsCodec;

/// The top-level request fields that the protocol defines.
pub open spec fn chat_known_fields() -> Seq<Seq<char>> {
    seq![
        "model"@,
        "messages"@,
        "stream"@,
        "temperature"@,
        "max_tokens"@,
        "max_completion_tokens"@,
        "top_p"@,
        "stop"@,
        "tools"@,
        "tool_choice"@,
        "response_format"@,
        "seed"@,
        "user"@,
    ]
}

// ---------------------------------------------------------------------------
// The shape of a request
// ---------------------------------------------------------------------------

/// A content part: `{"type", "text"?, "image_url"?: {"url", "detail"?}}`.
pub open spec fn chat_part_ok(p: JsonV) -> bool {
    &&& p is Object
    &&& req_kind(p, "type"@, Kind::Str)
    &&& opt_kind(p, "text"@, Kind::Str)
    &&& opt_kind(p, "image_url"@, Kind::Object)
    &&& (present(p, "image_url"@) matches Some(img) ==> req_kind(img, "url"@, Kind::Str) && opt_kind(
        img,
        "detail"@,
        Kind::Str,
    ))
}

/// Message content: a string, or a list of content parts.
pub open spec fn chat_content_ok(c: JsonV) -> bool {
    match c {
        JsonV::Str(_) => true,
        JsonV::Array(ps) => forall|i: int| 0 <= i < ps.len() ==> chat_part_ok(#[trigger] ps[i]),
        _ => false,
    }
}

/// A tool call: `{"id", "type"?, "function": {"name", "arguments"}}`.
pub open spec fn chat_call_ok(tc: JsonV) -> bool {
    &&& tc is Object
    &&& req_kind(tc, "id"@, Kind::Str)
    &&& opt_kind(tc, "type"@, Kind::Str)
    &&& req_kind(tc, "function"@, Kind::Object)
    &&& req_kind(member(tc, "function"@)->0, "name"@, Kind::Str)
    &&& req_kind(member(tc, "function"@)->0, "arguments"@, Kind::Str)
}

/// A message: `{"role", "content"?, "tool_calls"?, "tool_call_id"?,
/// "name"?}`.
pub open spec fn chat_message_ok(m: JsonV) -> bool {
    &&& m is Object
    &&& req_kind(m, "role"@, Kind::Str)
    &&& (present(m, "content"@) matches Some(c) ==> chat_content_ok(c))
    &&& opt_kind(m, "tool_calls"@, Kind::Array)
    &&& (forall|i: int|
        0 <= i < items_of(m, "tool_calls"@).len() ==> chat_call_ok(
            #[trigger] items_of(m, "tool_calls"@)[i],
        ))
    &&& opt_kind(m, "tool_call_id"@, Kind::Str)
    &&& opt_kind(m, "name"@, Kind::Str)
}

/// A tool: `{"type"?, "function": {"name", "description"?, "parameters"?,
/// "strict"?}}`.
pub open spec fn chat_tool_ok(t: JsonV) -> bool {
    &&& t is Object
    &&& opt_kind(t, "type"@, Kind::Str)
    &&& req_kind(t, "function"@, Kind::Object)
    &&& req_kind(member(t, "function"@)->0, "name"@, Kind::Str)
    &&& opt_kind(member(t, "function"@)->0, "description"@, Kind::Str)
    &&& opt_kind(member(t, "function"@)->0, "strict"@, Kind::Bool)
}

/// Whether `j` has the shape of a chat completion request.
pub open spec fn chat_request_ok(j: JsonV) -> bool {
    &&& j is Object
    &&& req_kind(j, "model"@, Kind::Str)
    &&& req_kind(j, "messages"@, Kind::Array)
    &&& (forall|i: int|
        0 <= i < items_of(j, "messages"@).len() ==> chat_message_ok(
            #[trigger] items_of(j, "messages"@)[i],
        ))
    &&& opt_kind(j, "stream"@, Kind::Bool)
    &&& opt_kind(j, "temperature"@, Kind::Number)
    &&& opt_kind(j, "max_tokens"@, Kind::Int)
    &&& opt_kind(j, "max_completion_tokens"@, Kind::Int)
    &&& opt_kind(j, "top_p"@, Kind::Number)
    &&& opt_strings(j, "stop"@)
    &&& opt_kind(j, "tools"@, Kind::Array)
    &&& (forall|i: int|
        0 <= i < items_of(j, "tools"@).len() ==> chat_tool_ok(#[trigger] items_of(j, "tools"@)[i]))
    &&& opt_kind(j, "response_format"@, Kind::Object)
    &&& (present(j, "response_format"@) matches Some(rf) ==> req_kind(rf, "type"@, Kind::Str))
}

// ---------------------------------------------------------------------------
// What a request means
// ---------------------------------------------------------------------------

/// The block a content part stands for: text, an image, or an empty text
/// block for a part of another type.
pub open spec fn chat_part_block(p: JsonV) -> ContentBlockV {
    let t = str_or_empty(p, "type"@);
    if t == "text"@ {
        text_block_v(str_or_empty(p, "text"@))
    } else if t == "image_url"@ {
        image_block_v(
            match present(p, "image_url"@) {
                Some(img) => Some(
                    ImageContentV {
                        data: None,
                        url: Some(str_or_empty(img, "url"@)),
                        media_type: None,
                        detail: str_of(img, "detail"@),
                    },
                ),
                None => None,
            },
        )
    } else {
        empty_block_v(ContentType::Text)
    }
}

/// The blocks of message content: a non-empty string is one text block;
/// a list of parts gives one block per part.
pub open spec fn chat_content_blocks(c: JsonV) -> Seq<ContentBlockV> {
    match c {
        JsonV::Str(s) => if s.len() == 0 {
            Seq::empty()
        } else {
            seq![text_block_v(s)]
        },
        JsonV::Array(ps) => ps.map_values(|p: JsonV| chat_part_block(p)),
        _ => Seq::empty(),
    }
}

/// The blocks of a message's content, none when it has no content.
pub open spec fn opt_content_blocks(m: JsonV) -> Seq<ContentBlockV> {
    match present(m, "content"@) {
        Some(c) => chat_content_blocks(c),
        None => Seq::empty(),
    }
}

/// The tool-use block of a tool call; its arguments stay a JSON string.
pub open spec fn chat_call_block(tc: JsonV) -> ContentBlockV {
    let f = member_or_null(tc, "function"@);
    tool_use_block_v(
        str_or_empty(tc, "id"@),
        str_or_empty(f, "name"@),
        Some(JsonV::Str(str_or_empty(f, "arguments"@))),
    )
}

/// The blocks a `system` or `developer` message adds to the system prompt.
pub open spec fn chat_system_blocks(m: JsonV) -> Seq<ContentBlockV> {
    let role = str_or_empty(m, "role"@);
    if role == "system"@ || role == "developer"@ {
        opt_content_blocks(m)
    } else {
        Seq::empty()
    }
}

/// The message a `user`, `assistant` or `tool` message becomes; an
/// assistant message without content and tool calls, and a message of any
/// other role, becomes none.
pub open spec fn chat_ir_message(m: JsonV) -> Option<IrMessageV> {
    let role = str_or_empty(m, "role"@);
    if role == "assistant"@ {
        let blocks = opt_content_blocks(m) + items_of(m, "tool_calls"@).map_values(
            |tc: JsonV| chat_call_block(tc),
        );
        if blocks.len() > 0 {
            Some(IrMessageV { role: Role::Assistant, content: blocks })
        } else {
            None
        }
    } else if role == "tool"@ {
        Some(
            IrMessageV {
                role: Role::Tool,
                content: seq![
                    tool_result_block_v(
                        str_or_empty(m, "tool_call_id"@),
                        str_of(m, "name"@),
                        opt_content_blocks(m),
                        None,
                    ),
                ],
            },
        )
    } else if role == "user"@ {
        Some(IrMessageV { role: Role::User, content: opt_content_blocks(m) })
    } else {
        None
    }
}

/// A tool definition.
pub open spec fn chat_tool_ir(t: JsonV) -> IrToolV {
    let f = member_or_null(t, "function"@);
    IrToolV {
        tool_type: Some(str_or_empty(t, "type"@)),
        name: str_or_empty(f, "name"@),
        description: str_of(f, "description"@),
        parameters: present(f, "parameters"@),
        strict: bool_of(f, "strict"@),
        extra_fields: Seq::empty(),
    }
}

/// The tool choice a `tool_choice` value stands for: `"auto"`, `"none"`,
/// `"required"` (which becomes `"any"`), or an object with a `type` (default
/// `"tool"`) and a `function.name`.
pub open spec fn chat_tool_choice(v: JsonV) -> Option<IrToolChoiceV> {
    match v {
        JsonV::Str(s) => if s == "auto"@ {
            Some(choice_v("auto"@, None))
        } else if s == "none"@ {
            Some(choice_v("none"@, None))
        } else if s == "required"@ {
            Some(choice_v("any"@, None))
        } else {
            None
        },
        JsonV::Object(_) => Some(
            choice_v(
                match str_of(v, "type"@) {
                    Some(t) => t,
                    None => "tool"@,
                },
                match member(v, "function"@) {
                    Some(f) => str_of(f, "name"@),
                    None => None,
                },
            ),
        ),
        _ => None,
    }
}

/// The intermediate form of a chat completion request `j`.
pub open spec fn chat_request_ir(j: JsonV) -> IrRequestV {
    let msgs = items_of(j, "messages"@);
    let extra = unknown_members(obj_members(j), chat_known_fields());
    IrRequestV {
        model: str_or_empty(j, "model"@),
        messages: msgs.filter_map(|m: JsonV| chat_ir_message(m)),
        system_prompt: flat_map(msgs, |m: JsonV| chat_system_blocks(m)),
        tools: items_of(j, "tools"@).map_values(|t: JsonV| chat_tool_ir(t)),
        tool_choice: match present(j, "tool_choice"@) {
            Some(v) => chat_tool_choice(v),
            None => None,
        },
        max_tokens: match int_of(j, "max_tokens"@) {
            Some(n) => Some(n),
            None => int_of(j, "max_completion_tokens"@),
        },
        temperature: num_of(j, "temperature"@),
        top_p: num_of(j, "top_p"@),
        top_k: None,
        stop_sequences: strings_of(items_of(j, "stop"@)),
        stream: bool_of(j, "stream"@),
        thinking: None,
        response_format: match present(j, "response_format"@) {
            Some(rf) => Some(
                IrResponseFormatV {
                    format_type: str_or_empty(rf, "type"@),
                    json_schema: present(rf, "json_schema"@),
                },
            ),
            None => None,
        },
        provider_extensions: extra,
        inbound_protocol: Protocol::OpenAiChat,
        original_model: None,
        raw_extra: extra,
        outbound_extra: Seq::empty(),
    }
}

// ---------------------------------------------------------------------------
// Checking and reading a request
// ---------------------------------------------------------------------------

fn check_part(p: &Json) -> (r: bool)
    ensures
        r == chat_part_ok(p@),
{
    if !(p.is_kind(Kind::Object) && p.req_kind("type", Kind::Str) && p.opt_kind("text", Kind::Str)
        && p.opt_kind("image_url", Kind::Object)) {
        return false;
    }
    match p.present("image_url") {
        Some(img) => img.req_kind("url", Kind::Str) && img.opt_kind("detail", Kind::Str),
        None => true,
    }
}

fn check_content(c: &Json) -> (r: bool)
    ensures
        r == chat_content_ok(c@),
{
    match c {
        Json::Str(_) => true,
        Json::Array(_) => {
            let ps = c.items();
            let mut i: usize = 0;
            while i < ps.len()
                invariant
                    i <= ps@.len(),
                    items_view(ps@) == c@->Array_0,
                    c@ is Array,
                    forall|k: int| 0 <= k < i ==> chat_part_ok(#[trigger] c@->Array_0[k]),
                decreases ps.len() - i,
            {
                assert(items_view(ps@)[i as int] == ps@[i as int]@);
                if !check_part(&ps[i]) {
                    return false;
                }
                i = i + 1;
            }
            true
        },
        _ => false,
    }
}

fn check_call(tc: &Json) -> (r: bool)
    ensures
        r == chat_call_ok(tc@),
{
    if !(tc.is_kind(Kind::Object) && tc.req_kind("id", Kind::Str) && tc.opt_kind("type", Kind::Str)
        && tc.req_kind("function", Kind::Object)) {
        return false;
    }
    match tc.member("function") {
        Some(f) => f.req_kind("name", Kind::Str) && f.req_kind("arguments", Kind::Str),
        None => false,
    }
}

fn check_message(m: &Json) -> (r: bool)
    ensures
        r == chat_message_ok(m@),
{
    if !(m.is_kind(Kind::Object) && m.req_kind("role", Kind::Str) && m.opt_kind(
        "tool_calls",
        Kind::Array,
    ) && m.opt_kind("tool_call_id", Kind::Str) && m.opt_kind("name", Kind::Str)) {
        return false;
    }
    match m.present("content") {
        Some(c) => {
            if !check_content(c) {
                return false;
            }
        },
        None => {},
    }
    let calls = m.items_of("tool_calls");
    let mut i: usize = 0;
    while i < calls.len()
        invariant
            i <= calls@.len(),
            items_view(calls@) == items_of(m@, "tool_calls"@),
            forall|k: int| 0 <= k < i ==> chat_call_ok(#[trigger] items_of(m@, "tool_calls"@)[k]),
        decreases calls.len() - i,
    {
        assert(items_view(calls@)[i as int] == calls@[i as int]@);
        if !check_call(&calls[i]) {
            return false;
        }
        i = i + 1;
    }
    true
}

fn check_tool(t: &Json) -> (r: bool)
    ensures
        r == chat_tool_ok(t@),
{
    if !(t.is_kind(Kind::Object) && t.opt_kind("type", Kind::Str) && t.req_kind(
        "function",
        Kind::Object,
    )) {
        return false;
    }
    match t.member("function") {
        Some(f) => f.req_kind("name", Kind::Str) && f.opt_kind("description", Kind::Str) && f.opt_kind(
            "strict",
            Kind::Bool,
        ),
        None => false,
    }
}

/// Whether `j` has the shape of a chat completion request.
pub fn check_chat_request(j: &Json) -> (r: bool)
    ensures
        r == chat_request_ok(j@),
{
    if !(j.is_kind(Kind::Object) && j.req_kind("model", Kind::Str) && j.req_kind(
        "messages",
        Kind::Array,
    ) && j.opt_kind("stream", Kind::Bool) && j.opt_kind("temperature", Kind::Number) && j.opt_kind(
        "max_tokens",
        Kind::Int,
    ) && j.opt_kind("max_completion_tokens", Kind::Int) && j.opt_kind("top_p", Kind::Number)
        && check_opt_strings(j, "stop") && j.opt_kind("tools", Kind::Array) && j.opt_kind(
        "response_format",
        Kind::Object,
    )) {
        return false;
    }
    match j.present("response_format") {
        Some(rf) => {
            if !rf.req_kind("type", Kind::Str) {
                return false;
            }
        },
        None => {},
    }
    let msgs = j.items_of("messages");
    let mut i: usize = 0;
    while i < msgs.len()
        invariant
            i <= msgs@.len(),
            items_view(msgs@) == items_of(j@, "messages"@),
            forall|k: int| 0 <= k < i ==> chat_message_ok(#[trigger] items_of(j@, "messages"@)[k]),
        decreases msgs.len() - i,
    {
        assert(items_view(msgs@)[i as int] == msgs@[i as int]@);
        if !check_message(&msgs[i]) {
            return false;
        }
        i = i + 1;
    }
    let tools = j.items_of("tools");
    let mut i: usize = 0;
    while i < tools.len()
        invariant
            i <= tools@.len(),
            items_view(tools@) == items_of(j@, "tools"@),
            forall|k: int| 0 <= k < i ==> chat_tool_ok(#[trigger] items_of(j@, "tools"@)[k]),
        decreases tools.len() - i,
    {
        assert(items_view(tools@)[i as int] == tools@[i as int]@);
        if !check_tool(&tools[i]) {
            return false;
        }
        i = i + 1;
    }
    true
}

fn part_block(p: &Json) -> (r: ContentBlock)
    ensures
        r@ == chat_part_block(p@),
{
    let t = p.str_or_empty("type");
    if str_eq(t.as_str(), "text") {
        ContentBlock::text_block(p.str_or_empty("text"))
    } else if str_eq(t.as_str(), "image_url") {
        let img = match p.present("image_url") {
            Some(i) => Some(
                ImageContent {
                    data: None,
                    url: Some(i.str_or_empty("url")),
                    media_type: None,
                    detail: i.str_of("detail"),
                },
            ),
            None => None,
        };
        ContentBlock::image_block(img)
    } else {
        ContentBlock::empty(ContentType::Text)
    }
}

/// Appends the blocks `more`.
pub fn extend_blocks(dst: &mut Vec<ContentBlock>, more: Vec<ContentBlock>)
    ensures
        final(dst).deep_view() == old(dst).deep_view() + more.deep_view(),
{
    let ghost d0 = dst.deep_view();
    let ghost m0 = more.deep_view();
    let mut more = more;
    dst.append(&mut more);
    assert(dst.deep_view() =~= d0 + m0);
}

/// The blocks of message content (see [`chat_content_blocks`]).
pub fn chat_content_to_blocks(c: &Json) -> (r: Vec<ContentBlock>)
    ensures
        r.deep_view() == chat_content_blocks(c@),
{
    let mut out: Vec<ContentBlock> = Vec::new();
    match c {
        Json::Str(s) => {
            if s.as_str().as_bytes().len() > 0 {
                out.push(ContentBlock::text_block(s.clone()));
                assert(out.deep_view() =~= chat_content_blocks(c@));
            } else {
                assert(s@.len() == 0) by {
                    if s@.len() > 0 {
                        vstd::utf8::encode_utf8_first_scalar(s@);
                    }
                }
                assert(out.deep_view() =~= chat_content_blocks(c@));
            }
        },
        Json::Array(_) => {
            let ps = c.items();
            let ghost v = items_view(ps@);
            let mut i: usize = 0;
            while i < ps.len()
                invariant
                    i <= ps@.len(),
                    v == items_view(ps@),
                    out.deep_view() == v.take(i as int).map_values(|p: JsonV| chat_part_block(p)),
                decreases ps.len() - i,
            {
                proof {
                    lemma_take_succ(v, i as int);
                }
                assert(v[i as int] == ps@[i as int]@);
                let b = part_block(&ps[i]);
                let ghost before = out.deep_view();
                out.push(b);
                assert(out.deep_view() =~= before.push(b@));
                proof {
                    lemma_map_values_succ(v, i as int, |p: JsonV| chat_part_block(p));
                }
                i = i + 1;
            }
            assert(v.take(i as int) =~= v);
        },
        _ => {
            assert(out.deep_view() =~= chat_content_blocks(c@));
        },
    }
    out
}

fn content_blocks_of(m: &Json) -> (r: Vec<ContentBlock>)
    ensures
        r.deep_view() == opt_content_blocks(m@),
{
    match m.present("content") {
        Some(c) => chat_content_to_blocks(c),
        None => {
            let out: Vec<ContentBlock> = Vec::new();
            assert(out.deep_view() =~= Seq::<ContentBlockV>::empty());
            out
        },
    }
}

fn call_block(tc: &Json) -> (r: ContentBlock)
    ensures
        r@ == chat_call_block(tc@),
{
    let id = tc.str_or_empty("id");
    match tc.member("function") {
        Some(f) => ContentBlock::tool_use_block(
            id,
            f.str_or_empty("name"),
            Some(Json::Str(f.str_or_empty("arguments"))),
        ),
        None => ContentBlock::tool_use_block(id, String::new(), Some(Json::Str(String::new()))),
    }
}

fn message_to_ir(m: &Json) -> (r: Option<IrMessage>)
    ensures
        r.deep_view() == chat_ir_message(m@),
{
    let role = m.str_or_empty("role");
    if str_eq(role.as_str(), "assistant") {
        let mut blocks = content_blocks_of(m);
        let ghost b0 = blocks.deep_view();
        let calls = m.items_of("tool_calls");
        let ghost v = items_view(calls@);
        let mut i: usize = 0;
        while i < calls.len()
            invariant
                i <= calls@.len(),
                v == items_view(calls@),
                blocks.deep_view() == b0 + v.take(i as int).map_values(|tc: JsonV| chat_call_block(tc)),
            decreases calls.len() - i,
        {
            proof {
                lemma_take_succ(v, i as int);
            }
            assert(v[i as int] == calls@[i as int]@);
            let b = call_block(&calls[i]);
            let ghost before = blocks.deep_view();
            blocks.push(b);
            assert(blocks.deep_view() =~= before.push(b@));
            proof {
                lemma_map_values_succ(v, i as int, |tc: JsonV| chat_call_block(tc));
            }
            assert(blocks.deep_view() =~= b0 + v.take(i + 1).map_values(|tc: JsonV| chat_call_block(tc)));
            i = i + 1;
        }
        assert(v.take(i as int) =~= v);
        if blocks.len() > 0 {
            Some(IrMessage::new(Role::Assistant, blocks))
        } else {
            None
        }
    } else if str_eq(role.as_str(), "tool") {
        let inner = content_blocks_of(m);
        let b = ContentBlock::tool_result_block(m.str_or_empty("tool_call_id"), m.str_of("name"), inner, None);
        let mut content: Vec<ContentBlock> = Vec::new();
        content.push(b);
        let r = IrMessage::new(Role::Tool, content);
        assert(r@.content =~= chat_ir_message(m@)->0.content);
        Some(r)
    } else if str_eq(role.as_str(), "user") {
        Some(IrMessage::new(Role::User, content_blocks_of(m)))
    } else {
        None
    }
}

fn tool_to_ir(t: &Json) -> (r: IrTool)
    ensures
        r@ == chat_tool_ir(t@),
{
    let tool_type = Some(t.str_or_empty("type"));
    let r = match t.member("function") {
        Some(f) => IrTool {
            tool_type,
            name: f.str_or_empty("name"),
            description: f.str_of("description"),
            parameters: f.read_opt_value("parameters"),
            strict: f.bool_of("strict"),
            extra_fields: Vec::new(),
        },
        None => IrTool {
            tool_type,
            name: String::new(),
            description: None,
            parameters: None,
            strict: None,
            extra_fields: Vec::new(),
        },
    };
    assert(r@.extra_fields =~= Seq::<MemberV>::empty());
    r
}

pub fn parse_tool_choice(v: &Json) -> (r: Option<IrToolChoice>)
    ensures
        r.deep_view() == chat_tool_choice(v@),
{
    let r = match v {
        Json::Str(s) => {
            if str_eq(s.as_str(), "auto") {
                Some(IrToolChoice::of("auto".to_string(), None))
            } else if str_eq(s.as_str(), "none") {
                Some(IrToolChoice::of("none".to_string(), None))
            } else if str_eq(s.as_str(), "required") {
                Some(IrToolChoice::of("any".to_string(), None))
            } else {
                None
            }
        },
        Json::Object(_) => {
            let t = match v.str_of("type") {
                Some(t) => t,
                None => "tool".to_string(),
            };
            let name = match v.member("function") {
                Some(f) => f.str_of("name"),
                None => None,
            };
            Some(IrToolChoice::of(t, name))
        },
        _ => None,
    };
    r
}

/// The intermediate form of a request that has the shape of a chat
/// completion request (see [`chat_request_ir`]).
pub fn chat_request_to_ir(j: &Json) -> (r: IrRequest)
    ensures
        r@ == chat_request_ir(j@),
{
    let mut ir = IrRequest::new(j.str_or_empty("model"), Protocol::OpenAiChat);
    let msgs = j.items_of("messages");
    let ghost v = items_view(msgs@);
    let mut messages: Vec<IrMessage> = Vec::new();
    let mut system: Vec<ContentBlock> = Vec::new();
    let mut i: usize = 0;
    while i < msgs.len()
        invariant
            i <= msgs@.len(),
            v == items_view(msgs@),
            messages.deep_view() == v.take(i as int).filter_map(|m: JsonV| chat_ir_message(m)),
            system.deep_view() == flat_map(v.take(i as int), |m: JsonV| chat_system_blocks(m)),
        decreases msgs.len() - i,
    {
        proof {
            lemma_take_succ(v, i as int);
        }
        let m = &msgs[i];
        let role = m.str_or_empty("role");
        if str_eq(role.as_str(), "system") || str_eq(role.as_str(), "developer") {
            let blocks = content_blocks_of(m);
            extend_blocks(&mut system, blocks);
        } else {
            assert(chat_system_blocks(m@) =~= Seq::<ContentBlockV>::empty());
        }
        assert(system.deep_view() =~= flat_map(v.take(i + 1), |m: JsonV| chat_system_blocks(m)));
        match message_to_ir(m) {
            Some(x) => {
                messages.push(x);
            },
            None => {},
        }
        assert(messages.deep_view() =~= v.take(i + 1).filter_map(|m: JsonV| chat_ir_message(m)));
        i = i + 1;
    }
    assert(v.take(i as int) =~= v);
    ir.messages = messages;
    ir.system_prompt = system;
    let tools = j.items_of("tools");
    let ghost tv = items_view(tools@);
    let mut irtools: Vec<IrTool> = Vec::new();
    let mut i: usize = 0;
    while i < tools.len()
        invariant
            i <= tools@.len(),
            tv == items_view(tools@),
            irtools.deep_view() == tv.take(i as int).map_values(|t: JsonV| chat_tool_ir(t)),
        decreases tools.len() - i,
    {
        proof {
            lemma_take_succ(tv, i as int);
        }
        assert(tv[i as int] == tools@[i as int]@);
        let t = tool_to_ir(&tools[i]);
        let ghost before = irtools.deep_view();
        irtools.push(t);
        assert(irtools.deep_view() =~= before.push(t@));
        proof {
            lemma_map_values_succ(tv, i as int, |t: JsonV| chat_tool_ir(t));
        }
        i = i + 1;
    }
    assert(tv.take(i as int) =~= tv);
    ir.tools = irtools;
    ir.tool_choice = match j.present("tool_choice") {
        Some(v) => parse_tool_choice(v),
        None => None,
    };
    ir.max_tokens = match j.int_of("max_tokens") {
        Some(n) => Some(n),
        None => j.int_of("max_completion_tokens"),
    };
    ir.temperature = j.num_of("temperature");
    ir.top_p = j.num_of("top_p");
    ir.stop_sequences = collect_strings(j.items_of("stop"));
    ir.stream = j.bool_of("stream");
    ir.response_format = match j.present("response_format") {
        Some(rf) => Some(
            IrResponseFormat {
                format_type: rf.str_or_empty("type"),
                json_schema: rf.read_opt_value("json_schema"),
            },
        ),
        None => None,
    };
    let known = chat_known_field_names();
    ir.provider_extensions = collect_unknown(j, &known);
    ir.raw_extra = collect_unknown(j, &known);
    assert(ir@ =~= chat_request_ir(j@));
    ir
}

/// The top-level request fields of the protocol, as strings.
pub fn chat_known_field_names() -> (r: Vec<String>)
    ensures
        r.deep_view() == chat_known_fields(),
{
    let mut v: Vec<String> = Vec::new();
    v.push("model".to_string());
    v.push("messages".to_string());
    v.push("stream".to_string());
    v.push("temperature".to_string());
    v.push("max_tokens".to_string());
    v.push("max_completion_tokens".to_string());
    v.push("top_p".to_string());
    v.push("stop".to_string());
    v.push("tools".to_string());
    v.push("tool_choice".to_string());
    v.push("response_format".to_string());
    v.push("seed".to_string());
    v.push("user".to_string());
    assert(v.deep_view() =~= chat_known_fields());
    v
}

// ---------------------------------------------------------------------------
// Writing a request
// ---------------------------------------------------------------------------

/// A message of `role` whose content is the string `text`.
pub open spec fn chat_text_message_json(role: Seq<char>, text: Seq<char>) -> JsonV {
    obj(seq![mv("role"@, JsonV::Str(role))].push(mv("content"@, JsonV::Str(text))))
}

/// A system message for a block that holds text.
pub open spec fn chat_system_message_json(b: ContentBlockV) -> Option<JsonV> {
    match b.text {
        Some(t) => Some(chat_text_message_json("system"@, t)),
        None => None,
    }
}

/// The content part of a text or an image block; none for other blocks.
pub open spec fn chat_part_json(b: ContentBlockV) -> Option<JsonV> {
    if b.content_type == ContentType::Text {
        match b.text {
            Some(t) => Some(obj(seq![mv("type"@, JsonV::Str("text"@))].push(mv("text"@, JsonV::Str(t))))),
            None => None,
        }
    } else if b.content_type == ContentType::Image {
        match b.image {
            Some(img) => Some(
                obj(
                    seq![mv("type"@, JsonV::Str("image_url"@))].push(
                        mv(
                            "image_url"@,
                            obj(
                                seq![
                                    mv(
                                        "url"@,
                                        JsonV::Str(
                                            match img.url {
                                                Some(u) => u,
                                                None => Seq::empty(),
                                            },
                                        ),
                                    ),
                                ] + opt_member("detail"@, opt_str_v(img.detail)),
                            ),
                        ),
                    ),
                ),
            ),
            None => None,
        }
    } else {
        None
    }
}

/// The content of a user message: the text of a lone text block, else the
/// list of the content parts of its text and image blocks.
pub open spec fn chat_blocks_content(bs: Seq<ContentBlockV>) -> JsonV {
    if bs.len() == 1 && bs[0].content_type == ContentType::Text && bs[0].text is Some {
        JsonV::Str(bs[0].text->0)
    } else {
        JsonV::Array(bs.filter_map(|b: ContentBlockV| chat_part_json(b)))
    }
}

/// Tool-call arguments as text: a JSON string as it stands, any other value
/// as compact JSON, nothing as the empty string.
pub open spec fn args_text(a: Option<JsonV>) -> Seq<char> {
    match a {
        Some(JsonV::Str(s)) => s,
        Some(v) => printed_json(v),
        None => Seq::empty(),
    }
}

/// A tool call.
pub open spec fn chat_call_json(id: Seq<char>, name: Seq<char>, args: Seq<char>) -> JsonV {
    obj(
        seq![mv("id"@, JsonV::Str(id))].push(mv("type"@, JsonV::Str("function"@))).push(
            mv(
                "function"@,
                obj(seq![mv("name"@, JsonV::Str(name))].push(mv("arguments"@, JsonV::Str(args)))),
            ),
        ),
    )
}

/// The tool call of a tool-use block; none for other blocks.
pub open spec fn block_call_json(b: ContentBlockV) -> Option<JsonV> {
    if b.content_type == ContentType::ToolUse {
        match b.tool_use {
            Some(tu) => Some(chat_call_json(tu.id, tu.name, args_text(tu.arguments))),
            None => None,
        }
    } else {
        None
    }
}

/// The text of a text block; none for other blocks.
pub open spec fn block_text(b: ContentBlockV) -> Option<Seq<char>> {
    if b.content_type == ContentType::Text {
        b.text
    } else {
        None
    }
}

/// An assistant message: its text blocks joined as content (left out when
/// there is no text but there are tool calls), and its tool calls.
pub open spec fn chat_assistant_json(bs: Seq<ContentBlockV>) -> JsonV {
    let texts = bs.filter_map(|b: ContentBlockV| block_text(b));
    let calls = bs.filter_map(|b: ContentBlockV| block_call_json(b));
    obj(
        seq![mv("role"@, JsonV::Str("assistant"@))] + opt_member(
            "content"@,
            if texts.len() == 0 && calls.len() > 0 {
                None
            } else {
                Some(JsonV::Str(join_all(texts)))
            },
        ) + opt_member(
            "tool_calls"@,
            if calls.len() == 0 {
                None
            } else {
                Some(JsonV::Array(calls))
            },
        ),
    )
}

/// The text of any block that holds text.
pub open spec fn any_text(b: ContentBlockV) -> Option<Seq<char>> {
    b.text
}

/// A tool message: the texts of the first block's tool result, and the id
/// of the call it answers.
pub open spec fn chat_tool_message_json(bs: Seq<ContentBlockV>) -> JsonV {
    if bs.len() > 0 && bs[0].tool_result is Some {
        let tr = bs[0].tool_result->0;
        obj(
            seq![mv("role"@, JsonV::Str("tool"@))].push(
                mv("content"@, JsonV::Str(join_all(tr.content.filter_map(|b: ContentBlockV| any_text(b))))),
            ).push(mv("tool_call_id"@, JsonV::Str(tr.tool_use_id))),
        )
    } else {
        chat_text_message_json("tool"@, Seq::empty())
    }
}

/// The chat message a message becomes; a system message in the list
/// becomes none.
pub open spec fn chat_message_json(m: IrMessageV) -> Option<JsonV> {
    match m.role {
        Role::User => Some(
            obj(seq![mv("role"@, JsonV::Str("user"@))].push(mv("content"@, chat_blocks_content(m.content)))),
        ),
        Role::Assistant => Some(chat_assistant_json(m.content)),
        Role::Tool => Some(chat_tool_message_json(m.content)),
        Role::System => None,
    }
}

/// A tool definition.
pub open spec fn chat_tool_json(t: IrToolV) -> JsonV {
    obj(
        seq![
            mv(
                "type"@,
                JsonV::Str(
                    match t.tool_type {
                        Some(s) => s,
                        None => "function"@,
                    },
                ),
            ),
        ].push(
            mv(
                "function"@,
                obj(
                    seq![mv("name"@, JsonV::Str(t.name))] + opt_member(
                        "description"@,
                        opt_str_v(t.description),
                    ) + opt_member("parameters"@, t.parameters) + opt_member(
                        "strict"@,
                        opt_bool_v(t.strict),
                    ),
                ),
            ),
        ),
    )
}

/// A tool choice: `"auto"`, `"none"` and `"required"` as strings, any other
/// choice as the named function.
pub open spec fn chat_tool_choice_json(c: IrToolChoiceV) -> JsonV {
    if c.choice_type == "auto"@ || c.choice_type == "none"@ || c.choice_type == "required"@ {
        JsonV::Str(c.choice_type)
    } else {
        obj(
            seq![mv("type"@, JsonV::Str("function"@))].push(
                mv(
                    "function"@,
                    obj(
                        seq![
                            mv(
                                "name"@,
                                JsonV::Str(
                                    match c.tool_name {
                                        Some(n) => n,
                                        None => Seq::empty(),
                                    },
                                ),
                            ),
                        ],
                    ),
                ),
            ),
        )
    }
}

/// A response format.
pub open spec fn chat_response_format_json(rf: IrResponseFormatV) -> JsonV {
    obj(seq![mv("type"@, JsonV::Str(rf.format_type))] + opt_member("json_schema"@, rf.json_schema))
}

/// The chat completion request for `r`.
pub open spec fn chat_request_json(r: IrRequestV) -> JsonV {
    let messages = r.system_prompt.filter_map(|b: ContentBlockV| chat_system_message_json(b))
        + r.messages.filter_map(|m: IrMessageV| chat_message_json(m));
    obj(
        seq![mv("model"@, JsonV::Str(r.model))].push(mv("messages"@, JsonV::Array(messages)))
            + opt_member("stream"@, opt_bool_v(r.stream))
            + opt_member("temperature"@, opt_num_v(r.temperature))
            + opt_member("max_tokens"@, opt_int_v(r.max_tokens))
            + opt_member("top_p"@, opt_num_v(r.top_p))
            + opt_member("stop"@, nonempty(r.stop_sequences.map_values(|s: Seq<char>| JsonV::Str(s))))
            + opt_member("tools"@, nonempty(r.tools.map_values(|t: IrToolV| chat_tool_json(t))))
            + opt_member(
            "tool_choice"@,
            match r.tool_choice {
                Some(c) => Some(chat_tool_choice_json(c)),
                None => None,
            },
        ) + opt_member(
            "response_format"@,
            match r.response_format {
                Some(rf) => Some(chat_response_format_json(rf)),
                None => None,
            },
        ) + r.provider_extensions,
    )
}

fn text_message_json(role: &str, text: String) -> (r: Json)
    ensures
        r@ == chat_text_message_json(role@, text@),
{
    let mut es = no_members();
    push_member(&mut es, "role", string(role));
    push_member(&mut es, "content", Json::Str(text));
    object(es)
}

fn system_message_json(b: &ContentBlock) -> (r: Option<Json>)
    ensures
        opt_json(r) == chat_system_message_json(b@),
{
    match &b.text {
        Some(t) => Some(text_message_json("system", t.text.clone())),
        None => None,
    }
}

fn part_json(b: &ContentBlock) -> (r: Option<Json>)
    ensures
        opt_json(r) == chat_part_json(b@),
{
    if b.content_type == ContentType::Text {
        match &b.text {
            Some(t) => {
                let mut es = no_members();
                push_member(&mut es, "type", string("text"));
                push_member(&mut es, "text", Json::Str(t.text.clone()));
                Some(object(es))
            },
            None => None,
        }
    } else if b.content_type == ContentType::Image {
        match &b.image {
            Some(img) => {
                let url = match &img.url {
                    Some(u) => u.clone(),
                    None => String::new(),
                };
                let mut ies = no_members();
                push_member(&mut ies, "url", Json::Str(url));
                push_opt_member(&mut ies, "detail", opt_string(&img.detail));
                let mut es = no_members();
                push_member(&mut es, "type", string("image_url"));
                push_member(&mut es, "image_url", object(ies));
                Some(object(es))
            },
            None => None,
        }
    } else {
        None
    }
}

/// The content of a user message (see [`chat_blocks_content`]).
pub fn blocks_to_chat_content(bs: &Vec<ContentBlock>) -> (r: Json)
    ensures
        r@ == chat_blocks_content(bs.deep_view()),
{
    if bs.len() == 1 && bs[0].content_type == ContentType::Text {
        match &bs[0].text {
            Some(t) => {
                return Json::Str(t.text.clone());
            },
            None => {},
        }
    }
    let ghost v = bs.deep_view();
    let mut out = no_items();
    let mut i: usize = 0;
    while i < bs.len()
        invariant
            i <= bs@.len(),
            v == bs.deep_view(),
            items_view(out@) == v.take(i as int).filter_map(|b: ContentBlockV| chat_part_json(b)),
        decreases bs.len() - i,
    {
        proof {
            v.lemma_filter_map_take_succ(|b: ContentBlockV| chat_part_json(b), i as int);
        }
        match part_json(&bs[i]) {
            Some(x) => {
                push_item(&mut out, x);
            },
            None => {},
        }
        assert(items_view(out@) =~= v.take(i + 1).filter_map(|b: ContentBlockV| chat_part_json(b)));
        i = i + 1;
    }
    assert(v.take(i as int) =~= v);
    array(out)
}

/// Tool-call arguments as text (see [`args_text`]).
pub fn args_text_of(a: &Option<Json>) -> (r: String)
    ensures
        r@ == args_text(opt_json(*a)),
        match opt_json(*a) {
            Some(v) => !(v is Str) && json_canonical(v, 100) ==> reads_back(r@, v),
            None => true,
        },
{
    match a {
        Some(Json::Str(s)) => s.clone(),
        Some(v) => print_json(v),
        None => String::new(),
    }
}

fn call_json(id: &str, name: &str, args: String) -> (r: Json)
    ensures
        r@ == chat_call_json(id@, name@, args@),
{
    let mut fes = no_members();
    push_member(&mut fes, "name", string(name));
    push_member(&mut fes, "arguments", Json::Str(args));
    let mut es = no_members();
    push_member(&mut es, "id", string(id));
    push_member(&mut es, "type", string("function"));
    push_member(&mut es, "function", object(fes));
    object(es)
}

fn block_call(b: &ContentBlock) -> (r: Option<Json>)
    ensures
        opt_json(r) == block_call_json(b@),
{
    if b.content_type == ContentType::ToolUse {
        match &b.tool_use {
            Some(tu) => Some(call_json(tu.id.as_str(), tu.name.as_str(), args_text_of(&tu.arguments))),
            None => None,
        }
    } else {
        None
    }
}

fn texts_and_calls(bs: &Vec<ContentBlock>) -> (r: (Vec<String>, Vec<Json>))
    ensures
        r.0.deep_view() == bs.deep_view().filter_map(|b: ContentBlockV| block_text(b)),
        items_view(r.1@) == bs.deep_view().filter_map(|b: ContentBlockV| block_call_json(b)),
{
    let ghost v = bs.deep_view();
    let mut texts: Vec<String> = Vec::new();
    let mut calls = no_items();
    let mut i: usize = 0;
    while i < bs.len()
        invariant
            i <= bs@.len(),
            v == bs.deep_view(),
            texts.deep_view() == v.take(i as int).filter_map(|b: ContentBlockV| block_text(b)),
            items_view(calls@) == v.take(i as int).filter_map(|b: ContentBlockV| block_call_json(b)),
        decreases bs.len() - i,
    {
        proof {
            v.lemma_filter_map_take_succ(|b: ContentBlockV| block_text(b), i as int);
            v.lemma_filter_map_take_succ(|b: ContentBlockV| block_call_json(b), i as int);
        }
        let b = &bs[i];
        if b.content_type == ContentType::Text {
            match &b.text {
                Some(t) => {
                    texts.push(t.text.clone());
                },
                None => {},
            }
        }
        assert(texts.deep_view() =~= v.take(i + 1).filter_map(|b: ContentBlockV| block_text(b)));
        match block_call(b) {
            Some(c) => {
                push_item(&mut calls, c);
            },
            None => {},
        }
        assert(items_view(calls@) =~= v.take(i + 1).filter_map(|b: ContentBlockV| block_call_json(b)));
        i = i + 1;
    }
    assert(v.take(i as int) =~= v);
    (texts, calls)
}

fn assistant_json(bs: &Vec<ContentBlock>) -> (r: Json)
    ensures
        r@ == chat_assistant_json(bs.deep_view()),
{
    let (texts, calls) = texts_and_calls(bs);
    let mut es = no_members();
    push_member(&mut es, "role", string("assistant"));
    let content = if texts.len() == 0 && calls.len() > 0 {
        None
    } else {
        Some(Json::Str(join_strings(&texts)))
    };
    push_opt_member(&mut es, "content", content);
    let tc = if calls.len() == 0 {
        None
    } else {
        Some(array(calls))
    };
    push_opt_member(&mut es, "tool_calls", tc);
    object(es)
}

fn texts_of(bs: &Vec<ContentBlock>) -> (r: Vec<String>)
    ensures
        r.deep_view() == blocks_v(bs@).filter_map(|b: ContentBlockV| any_text(b)),
{
    proof {
        lemma_blocks_vec(bs);
    }
    let ghost v = bs.deep_view();
    let mut texts: Vec<String> = Vec::new();
    let mut i: usize = 0;
    while i < bs.len()
        invariant
            i <= bs@.len(),
            v == bs.deep_view(),
            texts.deep_view() == v.take(i as int).filter_map(|b: ContentBlockV| any_text(b)),
        decreases bs.len() - i,
    {
        proof {
            v.lemma_filter_map_take_succ(|b: ContentBlockV| any_text(b), i as int);
        }
        match &bs[i].text {
            Some(t) => {
                texts.push(t.text.clone());
            },
            None => {},
        }
        assert(texts.deep_view() =~= v.take(i + 1).filter_map(|b: ContentBlockV| any_text(b)));
        i = i + 1;
    }
    assert(v.take(i as int) =~= v);
    texts
}

fn tool_message_json(bs: &Vec<ContentBlock>) -> (r: Json)
    ensures
        r@ == chat_tool_message_json(bs.deep_view()),
{
    if bs.len() > 0 {
        match &bs[0].tool_result {
            Some(tr) => {
                let texts = texts_of(&tr.content);
                let mut es = no_members();
                push_member(&mut es, "role", string("tool"));
                push_member(&mut es, "content", Json::Str(join_strings(&texts)));
                push_member(&mut es, "tool_call_id", Json::Str(tr.tool_use_id.clone()));
                return object(es);
            },
            None => {},
        }
    }
    text_message_json("tool", String::new())
}

fn message_json(m: &IrMessage) -> (r: Option<Json>)
    ensures
        opt_json(r) == chat_message_json(m@),
{
    match m.role {
        Role::User => {
            let mut es = no_members();
            push_member(&mut es, "role", string("user"));
            push_member(&mut es, "content", blocks_to_chat_content(&m.content));
            Some(object(es))
        },
        Role::Assistant => Some(assistant_json(&m.content)),
        Role::Tool => Some(tool_message_json(&m.content)),
        Role::System => None,
    }
}

fn tool_json(t: &IrTool) -> (r: Json)
    ensures
        r@ == chat_tool_json(t@),
{
    let tt = match &t.tool_type {
        Some(s) => s.clone(),
        None => "function".to_string(),
    };
    let mut fes = no_members();
    push_member(&mut fes, "name", Json::Str(t.name.clone()));
    push_opt_member(&mut fes, "description", opt_string(&t.description));
    push_opt_member(&mut fes, "parameters", opt_copy(&t.parameters));
    push_opt_member(&mut fes, "strict", opt_boolean(t.strict));
    let mut es = no_members();
    push_member(&mut es, "type", Json::Str(tt));
    push_member(&mut es, "function", object(fes));
    object(es)
}

fn tool_choice_json(c: &IrToolChoice) -> (r: Json)
    ensures
        r@ == chat_tool_choice_json(c@),
{
    let t = c.choice_type.as_str();
    if str_eq(t, "auto") || str_eq(t, "none") || str_eq(t, "required") {
        Json::Str(c.choice_type.clone())
    } else {
        let name = match &c.tool_name {
            Some(n) => n.clone(),
            None => String::new(),
        };
        let mut fes = no_members();
        push_member(&mut fes, "name", Json::Str(name));
        let mut es = no_members();
        push_member(&mut es, "type", string("function"));
        push_member(&mut es, "function", object(fes));
        object(es)
    }
}

/// The chat completion request for `r` (see [`chat_request_json`]).
pub fn chat_request_to_json(r: &IrRequest) -> (j: Json)
    ensures
        j@ == chat_request_json(r@),
{
    let ghost rv = r@;
    let mut msgs = no_items();
    let mut i: usize = 0;
    while i < r.system_prompt.len()
        invariant
            i <= r.system_prompt@.len(),
            rv == r@,
            items_view(msgs@) == rv.system_prompt.take(i as int).filter_map(
                |b: ContentBlockV| chat_system_message_json(b),
            ),
        decreases r.system_prompt.len() - i,
    {
        proof {
            rv.system_prompt.lemma_filter_map_take_succ(
                |b: ContentBlockV| chat_system_message_json(b),
                i as int,
            );
        }
        match system_message_json(&r.system_prompt[i]) {
            Some(x) => {
                push_item(&mut msgs, x);
            },
            None => {},
        }
        assert(items_view(msgs@) =~= rv.system_prompt.take(i + 1).filter_map(
            |b: ContentBlockV| chat_system_message_json(b),
        ));
        i = i + 1;
    }
    assert(rv.system_prompt.take(i as int) =~= rv.system_prompt);
    let ghost sys = items_view(msgs@);
    let mut i: usize = 0;
    while i < r.messages.len()
        invariant
            i <= r.messages@.len(),
            rv == r@,
            items_view(msgs@) == sys + rv.messages.take(i as int).filter_map(
                |m: IrMessageV| chat_message_json(m),
            ),
        decreases r.messages.len() - i,
    {
        proof {
            rv.messages.lemma_filter_map_take_succ(|m: IrMessageV| chat_message_json(m), i as int);
        }
        match message_json(&r.messages[i]) {
            Some(x) => {
                push_item(&mut msgs, x);
            },
            None => {},
        }
        assert(items_view(msgs@) =~= sys + rv.messages.take(i + 1).filter_map(
            |m: IrMessageV| chat_message_json(m),
        ));
        i = i + 1;
    }
    assert(rv.messages.take(i as int) =~= rv.messages);
    let mut stops = no_items();
    let mut i: usize = 0;
    while i < r.stop_sequences.len()
        invariant
            i <= r.stop_sequences@.len(),
            rv == r@,
            items_view(stops@) == rv.stop_sequences.take(i as int).map_values(
                |s: Seq<char>| JsonV::Str(s),
            ),
        decreases r.stop_sequences.len() - i,
    {
        push_item(&mut stops, Json::Str(r.stop_sequences[i].clone()));
        assert(items_view(stops@) =~= rv.stop_sequences.take(i + 1).map_values(
            |s: Seq<char>| JsonV::Str(s),
        ));
        i = i + 1;
    }
    assert(rv.stop_sequences.take(i as int) =~= rv.stop_sequences);
    let mut tools = no_items();
    let mut i: usize = 0;
    while i < r.tools.len()
        invariant
            i <= r.tools@.len(),
            rv == r@,
            items_view(tools@) == rv.tools.take(i as int).map_values(|t: IrToolV| chat_tool_json(t)),
        decreases r.tools.len() - i,
    {
        push_item(&mut tools, tool_json(&r.tools[i]));
        assert(items_view(tools@) =~= rv.tools.take(i + 1).map_values(|t: IrToolV| chat_tool_json(t)));
        i = i + 1;
    }
    assert(rv.tools.take(i as int) =~= rv.tools);
    let mut es = no_members();
    push_member(&mut es, "model", Json::Str(r.model.clone()));
    push_member(&mut es, "messages", array(msgs));
    push_opt_member(&mut es, "stream", opt_boolean(r.stream));
    push_opt_member(&mut es, "temperature", opt_number(&r.temperature));
    push_opt_member(&mut es, "max_tokens", opt_int(r.max_tokens));
    push_opt_member(&mut es, "top_p", opt_number(&r.top_p));
    let stop = if stops.len() > 0 {
        Some(array(stops))
    } else {
        None
    };
    push_opt_member(&mut es, "stop", stop);
    let tl = if tools.len() > 0 {
        Some(array(tools))
    } else {
        None
    };
    push_opt_member(&mut es, "tools", tl);
    let tc = match &r.tool_choice {
        Some(c) => Some(tool_choice_json(c)),
        None => None,
    };
    push_opt_member(&mut es, "tool_choice", tc);
    let rf = match &r.response_format {
        Some(rf) => {
            let mut fes = no_members();
            push_member(&mut fes, "type", Json::Str(rf.format_type.clone()));
            push_opt_member(&mut fes, "json_schema", opt_copy(&rf.json_schema));
            Some(object(fes))
        },
        None => None,
    };
    push_opt_member(&mut es, "response_format", rf);
    append_members(&mut es, &r.provider_extensions);
    object(es)
}

// ---------------------------------------------------------------------------
// Responses
// ---------------------------------------------------------------------------

/// Token counts: `{"prompt_tokens", "completion_tokens", "total_tokens"}`.
pub open spec fn chat_usage_ok(u: JsonV) -> bool {
    &&& u is Object
    &&& req_kind(u, "prompt_tokens"@, Kind::Int)
    &&& req_kind(u, "completion_tokens"@, Kind::Int)
    &&& req_kind(u, "total_tokens"@, Kind::Int)
}

/// A choice: `{"index"?, "message", "finish_reason"?}`.
pub open spec fn chat_choice_ok(c: JsonV) -> bool {
    &&& c is Object
    &&& opt_kind(c, "index"@, Kind::Int)
    &&& req_kind(c, "message"@, Kind::Object)
    &&& chat_message_ok(member(c, "message"@)->0)
    &&& opt_kind(c, "finish_reason"@, Kind::Str)
}

/// Whether `j` has the shape of a chat completion response.
pub open spec fn chat_response_ok(j: JsonV) -> bool {
    &&& j is Object
    &&& req_kind(j, "id"@, Kind::Str)
    &&& req_kind(j, "model"@, Kind::Str)
    &&& req_kind(j, "choices"@, Kind::Array)
    &&& (forall|i: int|
        0 <= i < items_of(j, "choices"@).len() ==> chat_choice_ok(#[trigger] items_of(j, "choices"@)[i]))
    &&& (present(j, "usage"@) matches Some(u) ==> chat_usage_ok(u))
}

/// The stop reason a finish reason stands for.
pub open spec fn chat_finish_to_stop(fr: Seq<char>) -> StopReasonV {
    if fr == "stop"@ {
        StopReasonV::EndTurn
    } else if fr == "length"@ {
        StopReasonV::MaxTokens
    } else if fr == "tool_calls"@ {
        StopReasonV::ToolUse
    } else if fr == "content_filter"@ {
        StopReasonV::ContentFilter
    } else {
        StopReasonV::Other(fr)
    }
}

/// The finish reason a stop reason is written as.
pub open spec fn chat_stop_to_finish(r: StopReasonV) -> Seq<char> {
    match r {
        StopReasonV::EndTurn => "stop"@,
        StopReasonV::MaxTokens => "length"@,
        StopReasonV::ToolUse => "tool_calls"@,
        StopReasonV::StopSequence => "stop"@,
        StopReasonV::ContentFilter => "content_filter"@,
        StopReasonV::PauseTurn => "pause_turn"@,
        StopReasonV::Other(s) => s,
    }
}

/// The tool-use block of a tool call in a response; its arguments are
/// parsed as JSON (`null` when they are not JSON).
pub open spec fn chat_response_call_block(tc: JsonV) -> ContentBlockV {
    let f = member_or_null(tc, "function"@);
    tool_use_block_v(
        str_or_empty(tc, "id"@),
        str_or_empty(f, "name"@),
        Some(
            match parsed_json_text(str_or_empty(f, "arguments"@)) {
                Ok(v) => v,
                Err(_) => JsonV::Null,
            },
        ),
    )
}

/// The counts of a usage object.
pub open spec fn chat_usage_ir(u: JsonV) -> IrUsage {
    IrUsage {
        input_tokens: int_of(u, "prompt_tokens"@),
        output_tokens: int_of(u, "completion_tokens"@),
        total_tokens: int_of(u, "total_tokens"@),
        ..no_usage()
    }
}

/// The intermediate form of a chat completion response: the content and
/// tool calls of its first choice.
pub open spec fn chat_response_ir(j: JsonV) -> IrResponseV {
    let choices = items_of(j, "choices"@);
    let msg = if choices.len() > 0 {
        member_or_null(choices[0], "message"@)
    } else {
        JsonV::Null
    };
    IrResponseV {
        id: Some(str_or_empty(j, "id"@)),
        model: Some(str_or_empty(j, "model"@)),
        content: opt_content_blocks(msg) + items_of(msg, "tool_calls"@).map_values(
            |tc: JsonV| chat_response_call_block(tc),
        ),
        stop_reason: if choices.len() > 0 {
            match str_of(choices[0], "finish_reason"@) {
                Some(fr) => Some(chat_finish_to_stop(fr)),
                None => None,
            }
        } else {
            None
        },
        stop_sequence: None,
        usage: match present(j, "usage"@) {
            Some(u) => chat_usage_ir(u),
            None => no_usage(),
        },
        provider_extensions: Seq::empty(),
    }
}

/// Token counts as the protocol writes them.
pub open spec fn chat_usage_json(u: IrUsage) -> JsonV {
    obj(
        seq![mv("prompt_tokens"@, num(count_or_zero(u.input_tokens)))].push(
            mv("completion_tokens"@, num(count_or_zero(u.output_tokens))),
        ).push(mv("total_tokens"@, num(count_or_zero(u.total_tokens)))),
    )
}

/// The chat completion response for `r`: one choice holding its content as
/// an assistant message.
pub open spec fn chat_response_json(r: IrResponseV) -> JsonV {
    let choice = obj(
        seq![mv("index"@, num(0))].push(mv("message"@, chat_assistant_json(r.content))).push(
            mv(
                "finish_reason"@,
                match r.stop_reason {
                    Some(s) => JsonV::Str(chat_stop_to_finish(s)),
                    None => JsonV::Null,
                },
            ),
        ),
    );
    obj(
        seq![mv("id"@, JsonV::Str(or_empty(r.id)))].push(
            mv("object"@, JsonV::Str("chat.completion"@)),
        ).push(mv("created"@, num(0))).push(mv("model"@, JsonV::Str(or_empty(r.model)))).push(
            mv("choices"@, JsonV::Array(seq![choice])),
        ).push(mv("usage"@, chat_usage_json(r.usage))),
    )
}

/// The protocol's error body.
pub open spec fn chat_error_json(status_code: u16, message: Seq<char>) -> JsonV {
    obj(
        seq![
            mv(
                "error"@,
                obj(
                    seq![mv("message"@, JsonV::Str(message))].push(
                        mv("type"@, JsonV::Str("invalid_request_error"@)),
                    ).push(mv("code"@, JsonV::Str(int_text(status_code as int)))),
                ),
            ),
        ],
    )
}

// ---------------------------------------------------------------------------
// Stream chunks
// ---------------------------------------------------------------------------

/// A tool-call delta: `{"index"?, "id"?, "type"?, "function"?: {"name"?,
/// "arguments"?}}`.
pub open spec fn chat_call_delta_ok(tc: JsonV) -> bool {
    &&& tc is Object
    &&& opt_kind(tc, "index"@, Kind::Int)
    &&& opt_kind(tc, "id"@, Kind::Str)
    &&& opt_kind(tc, "type"@, Kind::Str)
    &&& opt_kind(tc, "function"@, Kind::Object)
    &&& opt_kind(member_or_null(tc, "function"@), "name"@, Kind::Str)
    &&& opt_kind(member_or_null(tc, "function"@), "arguments"@, Kind::Str)
}

/// A chunk choice: `{"index", "delta": {"role"?, "content"?, "tool_calls"?},
/// "finish_reason"?}`.
pub open spec fn chat_chunk_choice_ok(c: JsonV) -> bool {
    &&& c is Object
    &&& req_kind(c, "index"@, Kind::I32)
    &&& req_kind(c, "delta"@, Kind::Object)
    &&& opt_kind(member(c, "delta"@)->0, "role"@, Kind::Str)
    &&& opt_kind(member(c, "delta"@)->0, "content"@, Kind::Str)
    &&& opt_kind(member(c, "delta"@)->0, "tool_calls"@, Kind::Array)
    &&& (forall|i: int|
        0 <= i < items_of(member(c, "delta"@)->0, "tool_calls"@).len() ==> chat_call_delta_ok(
            #[trigger] items_of(member(c, "delta"@)->0, "tool_calls"@)[i],
        ))
    &&& opt_kind(c, "finish_reason"@, Kind::Str)
}

/// Whether `j` has the shape of a chat completion chunk.
pub open spec fn chat_chunk_ok(j: JsonV) -> bool {
    &&& j is Object
    &&& req_kind(j, "id"@, Kind::Str)
    &&& req_kind(j, "model"@, Kind::Str)
    &&& req_kind(j, "choices"@, Kind::Array)
    &&& (forall|i: int|
        0 <= i < items_of(j, "choices"@).len() ==> chat_chunk_choice_ok(
            #[trigger] items_of(j, "choices"@)[i],
        ))
    &&& (present(j, "usage"@) matches Some(u) ==> chat_usage_ok(u))
}

/// A response that carries only an id and a model.
pub open spec fn header_response_v(id: Seq<char>, model: Seq<char>) -> IrResponseV {
    IrResponseV {
        id: Some(id),
        model: Some(model),
        content: Seq::empty(),
        stop_reason: None,
        stop_sequence: None,
        usage: no_usage(),
        provider_extensions: Seq::empty(),
    }
}

/// The event a chunk stands for, by its first choice: a role starts the
/// reply, content is a text delta, a tool call is a tool-use delta, a finish
/// reason stops; anything else is an empty delta.
pub open spec fn chat_chunk_event(j: JsonV) -> IrStreamEventV {
    let choices = items_of(j, "choices"@);
    let fallback = bare_event_v(StreamEventType::Delta, 0);
    if choices.len() > 0 {
        let c = choices[0];
        let d = member_or_null(c, "delta"@);
        let index = i32_of(c, "index"@);
        if str_of(d, "role"@) is Some {
            IrStreamEventV {
                response: Some(header_response_v(str_or_empty(j, "id"@), str_or_empty(j, "model"@))),
                delta: Some(text_block_v(Seq::empty())),
                ..bare_event_v(StreamEventType::ContentBlockStart, index)
            }
        } else if str_of(d, "content"@) is Some {
            IrStreamEventV {
                delta: Some(text_block_v(str_of(d, "content"@)->0)),
                ..bare_event_v(StreamEventType::Delta, index)
            }
        } else if items_of(d, "tool_calls"@).len() > 0 {
            let tc = items_of(d, "tool_calls"@)[0];
            let f = member_or_null(tc, "function"@);
            let args = str_or_empty(f, "arguments"@);
            IrStreamEventV {
                delta: Some(
                    tool_use_block_v(
                        str_or_empty(tc, "id"@),
                        str_or_empty(f, "name"@),
                        if args.len() > 0 {
                            Some(JsonV::Str(args))
                        } else {
                            None
                        },
                    ),
                ),
                ..bare_event_v(StreamEventType::Delta, index)
            }
        } else if str_of(c, "finish_reason"@) is Some {
            IrStreamEventV {
                stop_reason: Some(chat_finish_to_stop(str_of(c, "finish_reason"@)->0)),
                usage: match present(j, "usage"@) {
                    Some(u) => Some(chat_usage_ir(u)),
                    None => None,
                },
                ..bare_event_v(StreamEventType::Stop, index)
            }
        } else {
            fallback
        }
    } else {
        fallback
    }
}

/// A chunk with one choice and, when given, token counts.
pub open spec fn chat_chunk_json(
    id: Seq<char>,
    model: Seq<char>,
    index: i32,
    delta: JsonV,
    finish: JsonV,
    usage: Option<JsonV>,
) -> JsonV {
    let choice = obj(
        seq![mv("index"@, num(index as int))].push(mv("delta"@, delta)).push(mv("finish_reason"@, finish)),
    );
    obj(
        seq![mv("id"@, JsonV::Str(id))].push(mv("object"@, JsonV::Str("chat.completion.chunk"@))).push(
            mv("created"@, num(0)),
        ).push(mv("model"@, JsonV::Str(model))).push(mv("choices"@, JsonV::Array(seq![choice])))
            + opt_member("usage"@, usage),
    )
}

/// A tool-call delta for a tool use.
pub open spec fn chat_call_delta_json(id: Seq<char>, name: Seq<char>, args: Seq<char>) -> JsonV {
    obj(
        (seq![mv("index"@, num(0))] + opt_member("id"@, nonempty_str(id))).push(
            mv("type"@, JsonV::Str("function"@)),
        ).push(
            mv(
                "function"@,
                obj(
                    Seq::<MemberV>::empty() + opt_member("name"@, nonempty_str(name)) + opt_member(
                        "arguments"@,
                        nonempty_str(args),
                    ),
                ),
            ),
        ),
    )
}

/// The delta of a text or tool-use block.
pub open spec fn chat_delta_json(d: Option<ContentBlockV>) -> JsonV {
    let content = match d {
        Some(b) => opt_str_v(b.text),
        None => None,
    };
    let calls = match d {
        Some(b) => match b.tool_use {
            Some(tu) => Some(JsonV::Array(seq![chat_call_delta_json(tu.id, tu.name, args_text(tu.arguments))])),
            None => None,
        },
        None => None,
    };
    obj(Seq::<MemberV>::empty() + opt_member("content"@, content) + opt_member("tool_calls"@, calls))
}

/// The chunk a content-start, delta or stop event is written as: the
/// response's id and model with the assistant role, the delta, or the
/// finish reason with the usage.
pub open spec fn chat_event_chunk(e: IrStreamEventV) -> JsonV {
    match e.event_type {
        StreamEventType::ContentBlockStart => chat_chunk_json(
            match e.response {
                Some(r) => or_empty(r.id),
                None => Seq::empty(),
            },
            match e.response {
                Some(r) => or_empty(r.model),
                None => Seq::empty(),
            },
            e.index,
            obj(seq![mv("role"@, JsonV::Str("assistant"@))]),
            JsonV::Null,
            None,
        ),
        StreamEventType::Delta => chat_chunk_json(
            Seq::empty(),
            Seq::empty(),
            e.index,
            chat_delta_json(e.delta),
            JsonV::Null,
            None,
        ),
        _ => chat_chunk_json(
            Seq::empty(),
            Seq::empty(),
            e.index,
            obj(Seq::empty()),
            JsonV::Str(
                match e.stop_reason {
                    Some(s) => chat_stop_to_finish(s),
                    None => "stop"@,
                },
            ),
            match e.usage {
                Some(u) => Some(chat_usage_json(u)),
                None => None,
            },
        ),
    }
}

/// The server-sent event text for `e`.
pub open spec fn chat_stream_text(e: IrStreamEventV) -> Seq<char> {
    match e.event_type {
        StreamEventType::ContentBlockStart => "data: "@ + printed_json(chat_event_chunk(e)) + "\n\n"@,
        StreamEventType::Delta => "data: "@ + printed_json(chat_event_chunk(e)) + "\n\n"@,
        StreamEventType::Stop => "data: "@ + printed_json(chat_event_chunk(e)) + "\n\ndata: [DONE]\n\n"@,
        StreamEventType::Error => "data: {\"error\":{\"message\":\""@ + (match e.error {
            Some(er) => match er.message {
                Some(m) => m,
                None => "unknown error"@,
            },
            None => "unknown error"@,
        }) + "\"}}\n\ndata: [DONE]\n\n"@,
        _ => Seq::empty(),
    }
}

fn check_usage(u: &Json) -> (r: bool)
    ensures
        r == chat_usage_ok(u@),
{
    u.is_kind(Kind::Object) && u.req_kind("prompt_tokens", Kind::Int) && u.req_kind(
        "completion_tokens",
        Kind::Int,
    ) && u.req_kind("total_tokens", Kind::Int)
}

fn check_opt_usage(j: &Json) -> (r: bool)
    ensures
        r == (present(j@, "usage"@) matches Some(u) ==> chat_usage_ok(u)),
{
    match j.present("usage") {
        Some(u) => check_usage(u),
        None => true,
    }
}

fn check_choice(c: &Json) -> (r: bool)
    ensures
        r == chat_choice_ok(c@),
{
    if !(c.is_kind(Kind::Object) && c.opt_kind("index", Kind::Int) && c.req_kind("message", Kind::Object)
        && c.opt_kind("finish_reason", Kind::Str)) {
        return false;
    }
    match c.member("message") {
        Some(m) => check_message(m),
        None => false,
    }
}

/// Whether `j` has the shape of a chat completion response.
pub fn check_chat_response(j: &Json) -> (r: bool)
    ensures
        r == chat_response_ok(j@),
{
    if !(j.is_kind(Kind::Object) && j.req_kind("id", Kind::Str) && j.req_kind("model", Kind::Str)
        && j.req_kind("choices", Kind::Array) && check_opt_usage(j)) {
        return false;
    }
    let cs = j.items_of("choices");
    let mut i: usize = 0;
    while i < cs.len()
        invariant
            i <= cs@.len(),
            items_view(cs@) == items_of(j@, "choices"@),
            forall|k: int| 0 <= k < i ==> chat_choice_ok(#[trigger] items_of(j@, "choices"@)[k]),
        decreases cs.len() - i,
    {
        assert(items_view(cs@)[i as int] == cs@[i as int]@);
        if !check_choice(&cs[i]) {
            return false;
        }
        i = i + 1;
    }
    true
}

/// The stop reason a finish reason stands for.
pub fn finish_to_stop(fr: &str) -> (r: StopReason)
    ensures
        r@ == chat_finish_to_stop(fr@),
{
    if str_eq(fr, "stop") {
        StopReason::EndTurn
    } else if str_eq(fr, "length") {
        StopReason::MaxTokens
    } else if str_eq(fr, "tool_calls") {
        StopReason::ToolUse
    } else if str_eq(fr, "content_filter") {
        StopReason::ContentFilter
    } else {
        StopReason::Other(fr.to_string())
    }
}

/// The finish reason a stop reason is written as.
pub fn stop_to_finish(r: &StopReason) -> (s: String)
    ensures
        s@ == chat_stop_to_finish(r@),
{
    match r {
        StopReason::EndTurn => "stop".to_string(),
        StopReason::MaxTokens => "length".to_string(),
        StopReason::ToolUse => "tool_calls".to_string(),
        StopReason::StopSequence => "stop".to_string(),
        StopReason::ContentFilter => "content_filter".to_string(),
        StopReason::PauseTurn => "pause_turn".to_string(),
        StopReason::Other(s) => s.clone(),
    }
}

fn response_call_block(tc: &Json) -> (r: ContentBlock)
    ensures
        r@ == chat_response_call_block(tc@),
{
    let id = tc.str_or_empty("id");
    let (name, args) = match tc.member("function") {
        Some(f) => (f.str_or_empty("name"), f.str_or_empty("arguments")),
        None => (String::new(), String::new()),
    };
    let parsed = match parse_json_text(args.as_str()) {
        Ok(v) => v,
        Err(_) => Json::Null,
    };
    ContentBlock::tool_use_block(id, name, Some(parsed))
}

fn usage_ir(u: &Json) -> (r: IrUsage)
    ensures
        r == chat_usage_ir(u@),
{
    let mut r = IrUsage::none();
    r.input_tokens = u.int_of("prompt_tokens");
    r.output_tokens = u.int_of("completion_tokens");
    r.total_tokens = u.int_of("total_tokens");
    r
}

fn response_blocks(msg: &Json) -> (r: Vec<ContentBlock>)
    ensures
        r.deep_view() == opt_content_blocks(msg@) + items_of(msg@, "tool_calls"@).map_values(
            |tc: JsonV| chat_response_call_block(tc),
        ),
{
    let mut blocks = content_blocks_of(msg);
    let ghost b0 = blocks.deep_view();
    let calls = msg.items_of("tool_calls");
    let ghost v = items_view(calls@);
    let mut i: usize = 0;
    while i < calls.len()
        invariant
            i <= calls@.len(),
            v == items_view(calls@),
            blocks.deep_view() == b0 + v.take(i as int).map_values(
                |tc: JsonV| chat_response_call_block(tc),
            ),
        decreases calls.len() - i,
    {
        proof {
            lemma_take_succ(v, i as int);
        }
        assert(v[i as int] == calls@[i as int]@);
        let b = response_call_block(&calls[i]);
        let ghost before = blocks.deep_view();
        blocks.push(b);
        assert(blocks.deep_view() =~= before.push(b@));
        proof {
            lemma_map_values_succ(v, i as int, |tc: JsonV| chat_response_call_block(tc));
        }
        assert(blocks.deep_view() =~= b0 + v.take(i + 1).map_values(
            |tc: JsonV| chat_response_call_block(tc),
        ));
        i = i + 1;
    }
    assert(v.take(i as int) =~= v);
    blocks
}

/// The intermediate form of a chat completion response (see
/// [`chat_response_ir`]).
pub fn chat_response_to_ir(j: &Json) -> (r: IrResponse)
    ensures
        r@ == chat_response_ir(j@),
{
    let choices = j.items_of("choices");
    assert(choices@.len() > 0 ==> items_view(choices@)[0] == choices@[0]@);
    let (content, stop_reason) = if choices.len() > 0 {
        let c = &choices[0];
        let content = match c.member("message") {
            Some(m) => response_blocks(m),
            None => response_blocks(&Json::Null),
        };
        let stop = match c.str_of("finish_reason") {
            Some(fr) => Some(finish_to_stop(fr.as_str())),
            None => None,
        };
        (content, stop)
    } else {
        (response_blocks(&Json::Null), None)
    };
    let usage = match j.present("usage") {
        Some(u) => usage_ir(u),
        None => IrUsage::none(),
    };
    let r = IrResponse {
        id: Some(j.str_or_empty("id")),
        model: Some(j.str_or_empty("model")),
        content,
        stop_reason,
        stop_sequence: None,
        usage,
        provider_extensions: no_members(),
    };
    assert(r@ =~= chat_response_ir(j@));
    r
}

fn usage_json(u: &IrUsage) -> (r: Json)
    ensures
        r@ == chat_usage_json(*u),
{
    let mut es = no_members();
    push_member(&mut es, "prompt_tokens", int_json(count_or_zero_of(u.input_tokens)));
    push_member(&mut es, "completion_tokens", int_json(count_or_zero_of(u.output_tokens)));
    push_member(&mut es, "total_tokens", int_json(count_or_zero_of(u.total_tokens)));
    object(es)
}

/// The chat completion response for `r` (see [`chat_response_json`]).
pub fn chat_response_to_json(r: &IrResponse) -> (j: Json)
    ensures
        j@ == chat_response_json(r@),
{
    let finish = match &r.stop_reason {
        Some(s) => Json::Str(stop_to_finish(s)),
        None => Json::Null,
    };
    let mut ces = no_members();
    push_member(&mut ces, "index", int_json(0));
    push_member(&mut ces, "message", assistant_json(&r.content));
    push_member(&mut ces, "finish_reason", finish);
    let mut choices = no_items();
    push_item(&mut choices, object(ces));
    let mut es = no_members();
    push_member(&mut es, "id", Json::Str(or_empty_of(&r.id)));
    push_member(&mut es, "object", string("chat.completion"));
    push_member(&mut es, "created", int_json(0));
    push_member(&mut es, "model", Json::Str(or_empty_of(&r.model)));
    push_member(&mut es, "choices", array(choices));
    push_member(&mut es, "usage", usage_json(&r.usage));
    object(es)
}

/// The protocol's error body (see [`chat_error_json`]).
pub fn chat_error_to_json(status_code: u16, message: &str) -> (j: Json)
    ensures
        j@ == chat_error_json(status_code, message@),
{
    let mut ees = no_members();
    push_member(&mut ees, "message", string(message));
    push_member(&mut ees, "type", string("invalid_request_error"));
    push_member(&mut ees, "code", Json::Str(text_of_int(status_code as i64)));
    let mut es = no_members();
    push_member(&mut es, "error", object(ees));
    object(es)
}

fn check_call_delta(tc: &Json) -> (r: bool)
    ensures
        r == chat_call_delta_ok(tc@),
{
    if !(tc.is_kind(Kind::Object) && tc.opt_kind("index", Kind::Int) && tc.opt_kind("id", Kind::Str)
        && tc.opt_kind("type", Kind::Str) && tc.opt_kind("function", Kind::Object)) {
        return false;
    }
    match tc.member("function") {
        Some(f) => f.opt_kind("name", Kind::Str) && f.opt_kind("arguments", Kind::Str),
        None => true,
    }
}

fn check_chunk_choice(c: &Json) -> (r: bool)
    ensures
        r == chat_chunk_choice_ok(c@),
{
    if !(c.is_kind(Kind::Object) && c.req_kind("index", Kind::I32) && c.req_kind("delta", Kind::Object)
        && c.opt_kind("finish_reason", Kind::Str)) {
        return false;
    }
    let d = match c.member("delta") {
        Some(d) => d,
        None => {
            return false;
        },
    };
    if !(d.opt_kind("role", Kind::Str) && d.opt_kind("content", Kind::Str) && d.opt_kind(
        "tool_calls",
        Kind::Array,
    )) {
        return false;
    }
    let calls = d.items_of("tool_calls");
    let mut i: usize = 0;
    while i < calls.len()
        invariant
            i <= calls@.len(),
            items_view(calls@) == items_of(d@, "tool_calls"@),
            member(c@, "delta"@) == Some(d@),
            forall|k: int| 0 <= k < i ==> chat_call_delta_ok(#[trigger] items_of(d@, "tool_calls"@)[k]),
        decreases calls.len() - i,
    {
        assert(items_view(calls@)[i as int] == calls@[i as int]@);
        if !check_call_delta(&calls[i]) {
            return false;
        }
        i = i + 1;
    }
    true
}

/// Whether `j` has the shape of a chat completion chunk.
pub fn check_chat_chunk(j: &Json) -> (r: bool)
    ensures
        r == chat_chunk_ok(j@),
{
    if !(j.is_kind(Kind::Object) && j.req_kind("id", Kind::Str) && j.req_kind("model", Kind::Str)
        && j.req_kind("choices", Kind::Array) && check_opt_usage(j)) {
        return false;
    }
    let cs = j.items_of("choices");
    let mut i: usize = 0;
    while i < cs.len()
        invariant
            i <= cs@.len(),
            items_view(cs@) == items_of(j@, "choices"@),
            forall|k: int| 0 <= k < i ==> chat_chunk_choice_ok(#[trigger] items_of(j@, "choices"@)[k]),
        decreases cs.len() - i,
    {
        assert(items_view(cs@)[i as int] == cs@[i as int]@);
        if !check_chunk_choice(&cs[i]) {
            return false;
        }
        i = i + 1;
    }
    true
}

fn header_response(id: String, model: String) -> (r: IrResponse)
    ensures
        r@ == header_response_v(id@, model@),
{
    let r = IrResponse {
        id: Some(id),
        model: Some(model),
        content: Vec::new(),
        stop_reason: None,
        stop_sequence: None,
        usage: IrUsage::none(),
        provider_extensions: no_members(),
    };
    assert(r@ =~= header_response_v(id@, model@));
    r
}

/// The event a chunk stands for (see [`chat_chunk_event`]).
pub fn chat_chunk_to_event(j: &Json) -> (r: IrStreamEvent)
    ensures
        r@ == chat_chunk_event(j@),
{
    let choices = j.items_of("choices");
    if choices.len() > 0 {
        assert(items_view(choices@)[0] == choices@[0]@);
        let c = &choices[0];
        let index = c.i32_of("index");
        let d: &Json = match c.member("delta") {
            Some(d) => d,
            None => &Json::Null,
        };
        if d.str_of("role").is_some() {
            let mut e = IrStreamEvent::bare(StreamEventType::ContentBlockStart, index);
            e.response = Some(header_response(j.str_or_empty("id"), j.str_or_empty("model")));
            e.delta = Some(ContentBlock::text_block(String::new()));
            return e;
        }
        match d.str_of("content") {
            Some(t) => {
                let mut e = IrStreamEvent::bare(StreamEventType::Delta, index);
                e.delta = Some(ContentBlock::text_block(t));
                return e;
            },
            None => {},
        }
        let calls = d.items_of("tool_calls");
        if calls.len() > 0 {
            assert(items_view(calls@)[0] == calls@[0]@);
            let tc = &calls[0];
            let (name, args) = match tc.member("function") {
                Some(f) => (f.str_or_empty("name"), f.str_or_empty("arguments")),
                None => (String::new(), String::new()),
            };
            let a = if args.as_str().as_bytes().len() > 0 {
                Some(Json::Str(args))
            } else {
                assert(args@.len() == 0) by {
                    if args@.len() > 0 {
                        vstd::utf8::encode_utf8_first_scalar(args@);
                    }
                }
                None
            };
            let mut e = IrStreamEvent::bare(StreamEventType::Delta, index);
            e.delta = Some(ContentBlock::tool_use_block(tc.str_or_empty("id"), name, a));
            return e;
        }
        match c.str_of("finish_reason") {
            Some(fr) => {
                let mut e = IrStreamEvent::bare(StreamEventType::Stop, index);
                e.stop_reason = Some(finish_to_stop(fr.as_str()));
                e.usage = match j.present("usage") {
                    Some(u) => Some(usage_ir(u)),
                    None => None,
                };
                return e;
            },
            None => {},
        }
    }
    IrStreamEvent::bare(StreamEventType::Delta, 0)
}

fn chunk_json(
    id: String,
    model: String,
    index: i32,
    delta: Json,
    finish: Json,
    usage: Option<Json>,
) -> (r: Json)
    ensures
        r@ == chat_chunk_json(id@, model@, index, delta@, finish@, opt_json(usage)),
{
    let mut ces = no_members();
    push_member(&mut ces, "index", int_json(index as i64));
    push_member(&mut ces, "delta", delta);
    push_member(&mut ces, "finish_reason", finish);
    let mut choices = no_items();
    push_item(&mut choices, object(ces));
    let mut es = no_members();
    push_member(&mut es, "id", Json::Str(id));
    push_member(&mut es, "object", string("chat.completion.chunk"));
    push_member(&mut es, "created", int_json(0));
    push_member(&mut es, "model", Json::Str(model));
    push_member(&mut es, "choices", array(choices));
    push_opt_member(&mut es, "usage", usage);
    object(es)
}

fn delta_json(d: &Option<ContentBlock>) -> (r: Json)
    ensures
        r@ == chat_delta_json(d.deep_view()),
{
    let content = match d {
        Some(b) => match &b.text {
            Some(t) => Some(Json::Str(t.text.clone())),
            None => None,
        },
        None => None,
    };
    let calls = match d {
        Some(b) => match &b.tool_use {
            Some(tu) => {
                let args = args_text_of(&tu.arguments);
                let mut fes = no_members();
                push_opt_member(&mut fes, "name", nonempty_string(tu.name.as_str()));
                push_opt_member(&mut fes, "arguments", nonempty_string(args.as_str()));
                let mut ces = no_members();
                push_member(&mut ces, "index", int_json(0));
                push_opt_member(&mut ces, "id", nonempty_string(tu.id.as_str()));
                push_member(&mut ces, "type", string("function"));
                push_member(&mut ces, "function", object(fes));
                let mut items = no_items();
                push_item(&mut items, object(ces));
                Some(array(items))
            },
            None => None,
        },
        None => None,
    };
    let mut es = no_members();
    push_opt_member(&mut es, "content", content);
    push_opt_member(&mut es, "tool_calls", calls);
    object(es)
}

/// The server-sent event text for `e` (see [`chat_stream_text`]).
pub fn chat_event_to_text(e: &IrStreamEvent) -> (r: String)
    ensures
        r@ == chat_stream_text(e@),
        (e.event_type == StreamEventType::ContentBlockStart || e.event_type == StreamEventType::Delta
            || e.event_type == StreamEventType::Stop) && json_canonical(chat_event_chunk(e@), 100)
            ==> reads_back(printed_json(chat_event_chunk(e@)), chat_event_chunk(e@)),
        e.event_type == StreamEventType::ContentBlockStart || e.event_type == StreamEventType::Delta
            ==> crate::sse::trim_end(printed_json(chat_event_chunk(e@)) + "\n\n"@) == printed_json(
            chat_event_chunk(e@),
        ),
{
    match e.event_type {
        StreamEventType::ContentBlockStart => {
            let (id, model) = match &e.response {
                Some(r) => (or_empty_of(&r.id), or_empty_of(&r.model)),
                None => (String::new(), String::new()),
            };
            let mut des = no_members();
            push_member(&mut des, "role", string("assistant"));
            let chunk = chunk_json(id, model, e.index, object(des), Json::Null, None);
            let p = print_json(&chunk);
            proof {
                crate::sse::lemma_written_payload(p@);
            }
            concat(&concat("data: ", &p), "\n\n")
        },
        StreamEventType::Delta => {
            let chunk = chunk_json(
                String::new(),
                String::new(),
                e.index,
                delta_json(&e.delta),
                Json::Null,
                None,
            );
            let p = print_json(&chunk);
            proof {
                crate::sse::lemma_written_payload(p@);
            }
            concat(&concat("data: ", &p), "\n\n")
        },
        StreamEventType::Stop => {
            let finish = match &e.stop_reason {
                Some(s) => stop_to_finish(s),
                None => "stop".to_string(),
            };
            let usage = match &e.usage {
                Some(u) => Some(usage_json(u)),
                None => None,
            };
            let chunk = chunk_json(
                String::new(),
                String::new(),
                e.index,
                object(no_members()),
                Json::Str(finish),
                usage,
            );
            concat(&concat("data: ", &print_json(&chunk)), "\n\ndata: [DONE]\n\n")
        },
        StreamEventType::Error => {
            let msg = match &e.error {
                Some(er) => match &er.message {
                    Some(m) => m.clone(),
                    None => "unknown error".to_string(),
                },
                None => "unknown error".to_string(),
            };
            concat(
                &concat("data: {\"error\":{\"message\":\"", msg.as_str()),
                "\"}}\n\ndata: [DONE]\n\n",
            )
        },
        _ => String::new(),
    }
}

// ---------------------------------------------------------------------------
// The codec
// ---------------------------------------------------------------------------

/// What decoding the parsed request `j` gives.
pub open spec fn chat_decode_outcome(j: JsonV, r: Result<IrRequest, CodecError>) -> bool {
    if chat_request_ok(j) {
        r matches Ok(ir) && ir@ == chat_request_ir(j)
    } else {
        r matches Err(CodecError::Decode(m)) && m@ == "invalid chat request: unexpected shape"@
    }
}

/// Decodes a parsed chat completion request.
pub fn decode_chat_request_json(j: &Json) -> (r: Result<IrRequest, CodecError>)
    ensures
        chat_decode_outcome(j@, r),
{
    if check_chat_request(j) {
        Ok(chat_request_to_ir(j))
    } else {
        Err(CodecError::Decode("invalid chat request: unexpected shape".to_string()))
    }
}

/// What decoding the parsed response `j` gives.
pub open spec fn chat_response_outcome(j: JsonV, r: Result<IrResponse, CodecError>) -> bool {
    if chat_response_ok(j) {
        r matches Ok(resp) && resp@ == chat_response_ir(j)
    } else {
        r matches Err(CodecError::Json(m)) && m@ == "unexpected shape of a chat completion response"@
    }
}

/// Decodes a parsed chat completion response.
pub fn decode_chat_response_json(j: &Json) -> (r: Result<IrResponse, CodecError>)
    ensures
        chat_response_outcome(j@, r),
{
    if check_chat_response(j) {
        Ok(chat_response_to_ir(j))
    } else {
        Err(CodecError::Json("unexpected shape of a chat completion response".to_string()))
    }
}

/// Writes a response as a chat completion response body.
pub fn encode_response_impl(response: &IrResponse) -> (r: Result<Vec<u8>, CodecError>)
    ensures
        r matches Ok(b) && b@ == encode_utf8(printed_json(chat_response_json(response@))),
        json_canonical(chat_response_json(response@), 100) ==> reads_back(printed_json(chat_response_json(response@)), chat_response_json(response@)),
{
    Ok(bytes_of(print_json(&chat_response_to_json(response)).as_str()))
}

/// What decoding the parsed chunk `j` gives.
pub open spec fn chat_chunk_outcome(j: JsonV, r: Result<IrStreamEvent, CodecError>) -> bool {
    if chat_chunk_ok(j) {
        r matches Ok(e) && e@ == chat_chunk_event(j)
    } else {
        r matches Err(CodecError::Decode(m)) && m@ == "invalid stream chunk: unexpected shape"@
    }
}

/// Decodes a parsed chat completion chunk.
pub fn decode_chat_chunk_json(j: &Json) -> (r: Result<IrStreamEvent, CodecError>)
    ensures
        chat_chunk_outcome(j@, r),
{
    if check_chat_chunk(j) {
        Ok(chat_chunk_to_event(j))
    } else {
        Err(CodecError::Decode("invalid stream chunk: unexpected shape".to_string()))
    }
}

impl ChatCompletionsCodec {
    /// The body of a chat completions error for an adapter error: an
    /// `invalid_request_error` carrying the error's text and the code `500`.
    pub fn encode_error(&self, error: &AdapterError) -> (r: Vec<u8>)
        ensures
            r@ == encode_utf8(printed_json(chat_error_json(500, adapter_error_text(error)))),
    {
        bytes_of(print_json(&chat_error_to_json(500, error.describe().as_str())).as_str())
    }
}

impl Codec for ChatCompletionsCodec {
    fn protocol(&self) -> (p: Protocol)
        ensures
            p == Protocol::OpenAiChat,
    {
        Protocol::OpenAiChat
    }

    fn decode_request(&self, body: &[u8]) -> (r: Result<IrRequest, CodecError>)
        ensures
            match parsed_json_bytes(body@) {
                Err(e) => r matches Err(CodecError::Decode(m)) && m@ == "invalid chat request: "@ + e,
                Ok(j) => chat_decode_outcome(j, r),
            },
    {
        match parse_json_bytes(body) {
            Ok(j) => decode_chat_request_json(&j),
            Err(e) => Err(CodecError::Decode(concat("invalid chat request: ", e.as_str()))),
        }
    }

    fn encode_request(&self, request: &IrRequest) -> (r: Result<Vec<u8>, CodecError>)
        ensures
            r matches Ok(b) && b@ == encode_utf8(printed_json(chat_request_json(request@))),
            json_canonical(chat_request_json(request@), 100) ==> reads_back(printed_json(chat_request_json(request@)), chat_request_json(request@)),
    {
        Ok(bytes_of(print_json(&chat_request_to_json(request)).as_str()))
    }

    fn decode_response(&self, body: &[u8]) -> (r: Result<IrResponse, CodecError>)
        ensures
            match parsed_json_bytes(body@) {
                Err(e) => r matches Err(CodecError::Json(m)) && m@ == e,
                Ok(j) => chat_response_outcome(j, r),
            },
    {
        match parse_json_bytes(body) {
            Ok(j) => decode_chat_response_json(&j),
            Err(e) => Err(CodecError::Json(e)),
        }
    }

    fn encode_response(&self, response: &IrResponse) -> (r: Result<Vec<u8>, CodecError>)
        ensures
            r matches Ok(b) && b@ == encode_utf8(printed_json(chat_response_json(response@))),
            json_canonical(chat_response_json(response@), 100) ==> reads_back(printed_json(chat_response_json(response@)), chat_response_json(response@)),
    {
        encode_response_impl(response)
    }

    fn decode_stream_event(&self, event_type: Option<&str>, data: &str) -> (r: Result<
        IrStreamEvent,
        CodecError,
    >)
        ensures
            match parsed_json_text(data@) {
                Err(e) => r matches Err(CodecError::Decode(m)) && m@ == "invalid stream chunk: "@ + e,
                Ok(j) => chat_chunk_outcome(j, r),
            },
    {
        match parse_json_text(data) {
            Ok(j) => decode_chat_chunk_json(&j),
            Err(e) => Err(CodecError::Decode(concat("invalid stream chunk: ", e.as_str()))),
        }
    }

    fn encode_stream_event(&self, event: &IrStreamEvent) -> (r: Result<String, CodecError>)
        ensures
            r matches Ok(s) && s@ == chat_stream_text(event@),
            (event.event_type == StreamEventType::ContentBlockStart || event.event_type
                == StreamEventType::Delta || event.event_type == StreamEventType::Stop)
                && json_canonical(chat_event_chunk(event@), 100) ==> reads_back(
                printed_json(chat_event_chunk(event@)),
                chat_event_chunk(event@),
            ),
            event.event_type == StreamEventType::ContentBlockStart || event.event_type
                == StreamEventType::Delta ==> crate::sse::trim_end(
                printed_json(chat_event_chunk(event@)) + "\n\n"@,
            ) == printed_json(chat_event_chunk(event@)),
    {
        Ok(chat_event_to_text(event))
    }

    fn known_fields(&self) -> (r: Vec<String>)
        ensures
            r.deep_view() == chat_known_fields(),
    {
        chat_known_field_names()
    }

    fn write_error(&self, status_code: u16, message: &str) -> (r: Vec<u8>)
        ensures
            r@ == encode_utf8(printed_json(chat_error_json(status_code, message@))),
            reads_back(
                printed_json(chat_error_json(status_code, message@)),
                chat_error_json(status_code, message@),
            ),
    {
        proof {
            lemma_error_canonical(status_code, message@);
        }
        bytes_of(print_json(&chat_error_to_json(status_code, message)).as_str())
    }
}

// ---------------------------------------------------------------------------
// Fields of the other protocol
// ---------------------------------------------------------------------------

/// Whether a top-level field belongs to the Anthropic protocol alone and is
/// not to be sent to a chat completions upstream.
pub open spec fn anthropic_only_field(key: Seq<char>) -> bool {
    ||| key == "context_management"@
    ||| key == "metadata"@
    ||| key == "service_tier"@
    ||| key == "thinking"@
    ||| key == "cache_control"@
    ||| key == "display_name"@
    ||| key == "display_text"@
}

/// Whether a top-level field belongs to the Anthropic protocol alone (see
/// [`anthropic_only_field`]).
pub fn is_anthropic_only_field(key: &str) -> (r: bool)
    ensures
        r == anthropic_only_field(key@),
{
    str_eq(key, "context_management") || str_eq(key, "metadata") || str_eq(key, "service_tier")
        || str_eq(key, "thinking") || str_eq(key, "cache_control") || str_eq(key, "display_name")
        || str_eq(key, "display_text")
}

// ---------------------------------------------------------------------------
// Fields the protocol does not define
// ---------------------------------------------------------------------------

/// The members a request is written with before its extra fields.
pub open spec fn members_before_extensions(r: IrRequestV) -> Seq<MemberV> {
    let messages = r.system_prompt.filter_map(|b: ContentBlockV| chat_system_message_json(b))
        + r.messages.filter_map(|m: IrMessageV| chat_message_json(m));
    seq![mv("model"@, JsonV::Str(r.model))].push(mv("messages"@, JsonV::Array(messages)))
        + opt_member("stream"@, opt_bool_v(r.stream))
        + opt_member("temperature"@, opt_num_v(r.temperature))
        + opt_member("max_tokens"@, opt_int_v(r.max_tokens))
        + opt_member("top_p"@, opt_num_v(r.top_p))
        + opt_member("stop"@, nonempty(r.stop_sequences.map_values(|s: Seq<char>| JsonV::Str(s))))
        + opt_member("tools"@, nonempty(r.tools.map_values(|t: IrToolV| chat_tool_json(t))))
        + opt_member(
        "tool_choice"@,
        match r.tool_choice {
            Some(c) => Some(chat_tool_choice_json(c)),
            None => None,
        },
    ) + opt_member(
        "response_format"@,
        match r.response_format {
            Some(rf) => Some(chat_response_format_json(rf)),
            None => None,
        },
    )
}

/// A field the protocol does not define comes back with its value: in a
/// chat request that is decoded and written again as a chat request, the
/// field `k` that the protocol does not define has the value it had (or
/// is absent, as it was).
pub proof fn law_unknown_field_kept(j: JsonV, k: Seq<char>)
    requires
        j is Object,
        !chat_known_fields().contains(k),
    ensures
        crate::json::member(chat_request_json(chat_request_ir(j)), k) == crate::json::member(j, k),
{
    let r = chat_request_ir(j);
    let known = chat_known_fields();
    let pre = members_before_extensions(r);
    assert(known[0] == "model"@ && known[1] == "messages"@ && known[2] == "stream"@ && known[3]
        == "temperature"@ && known[4] == "max_tokens"@ && known[6] == "top_p"@ && known[7] == "stop"@
        && known[8] == "tools"@ && known[9] == "tool_choice"@ && known[10] == "response_format"@);
    assert("model"@ != k && "messages"@ != k && "stream"@ != k && "temperature"@ != k && "max_tokens"@
        != k && "top_p"@ != k && "stop"@ != k && "tools"@ != k && "tool_choice"@ != k
        && "response_format"@ != k);
    assert(crate::json::lacks_key(pre, k)) by {
        assert forall|i: int| 0 <= i < pre.len() implies (#[trigger] pre[i]).key != k by {
            let keys = seq![
                "model"@,
                "messages"@,
                "stream"@,
                "temperature"@,
                "max_tokens"@,
                "top_p"@,
                "stop"@,
                "tools"@,
                "tool_choice"@,
                "response_format"@,
            ];
            assert(forall|m: int| 0 <= m < pre.len() ==> keys.contains(#[trigger] pre[m].key));
            let w = choose|w: int| 0 <= w < keys.len() && keys[w] == pre[i].key;
        }
    }
    assert(obj_members(chat_request_json(r)) =~= pre + r.provider_extensions);
    crate::json::lemma_find_member_after(pre, r.provider_extensions, k);
    crate::json::lemma_find_unknown(obj_members(j), known, k);
}

// ---------------------------------------------------------------------------
// Text deltas written back
// ---------------------------------------------------------------------------

/// A text delta at `index` carrying `t`.
pub open spec fn text_delta_event_v(index: i32, t: Seq<char>) -> IrStreamEventV {
    IrStreamEventV { delta: Some(text_block_v(t)), ..bare_event_v(StreamEventType::Delta, index) }
}

/// The chunk written for a text delta at `index` carrying `t`.
pub open spec fn chat_text_chunk(index: i32, t: Seq<char>) -> JsonV {
    chat_chunk_json(
        Seq::empty(),
        Seq::empty(),
        index,
        obj(seq![mv("content"@, JsonV::Str(t))]),
        JsonV::Null,
        None,
    )
}

proof fn lemma_text_chunk_canonical(index: i32, t: Seq<char>)
    ensures
        json_canonical(chat_text_chunk(index, t), 100),
{
    reveal_strlit("id");
    reveal_strlit("object");
    reveal_strlit("created");
    reveal_strlit("model");
    reveal_strlit("choices");
    reveal_strlit("index");
    reveal_strlit("delta");
    reveal_strlit("finish_reason");
    reveal_strlit("content");
    let j = chat_text_chunk(index, t);
    let ms = obj_members(j);
    let choice = ms[4].value->Array_0[0];
    let cm = obj_members(choice);
    let delta = cm[1].value;
    let dm = obj_members(delta);
    assert(ms.len() == 5 && cm.len() == 3 && dm.len() == 1);
    crate::json::lemma_int_text_reads_back(index as int);
    crate::json::lemma_int_text_reads_back(0);
    crate::json::lemma_object_canonical(dm, 97);
    assert forall|a: int, b: int| 0 <= a < b < cm.len() implies #[trigger] cm[a].key != #[trigger] cm[
        b].key by {
        assert(crate::json::keys_apart(cm[a].key, cm[b].key));
    }
    crate::json::lemma_object_canonical(cm, 98);
    crate::json::lemma_array_canonical(seq![choice], 99);
    assert forall|a: int, b: int| 0 <= a < b < ms.len() implies #[trigger] ms[a].key != #[trigger] ms[
        b].key by {
        assert(crate::json::keys_apart(ms[a].key, ms[b].key));
    }
    crate::json::lemma_object_canonical(ms, 100);
}

proof fn lemma_text_chunk_shape(index: i32, t: Seq<char>)
    ensures
        chat_chunk_ok(chat_text_chunk(index, t)),
        chat_chunk_event(chat_text_chunk(index, t)) == text_delta_event_v(index, t),
{
    reveal_strlit("id");
    reveal_strlit("object");
    reveal_strlit("created");
    reveal_strlit("model");
    reveal_strlit("choices");
    reveal_strlit("usage");
    reveal_strlit("index");
    reveal_strlit("delta");
    reveal_strlit("finish_reason");
    reveal_strlit("content");
    reveal_strlit("role");
    reveal_strlit("tool_calls");
    let j = chat_text_chunk(index, t);
    let ms = obj_members(j);
    let choice = ms[4].value->Array_0[0];
    let cm = obj_members(choice);
    let delta = cm[1].value;
    let dm = obj_members(delta);
    assert(ms.len() == 5 && cm.len() == 3 && dm.len() == 1);
    assert(ms[0].key == "id"@ && ms[1].key == "object"@ && ms[2].key == "created"@ && ms[3].key
        == "model"@ && ms[4].key == "choices"@);
    assert(cm[0].key == "index"@ && cm[1].key == "delta"@ && cm[2].key == "finish_reason"@);
    assert(dm[0].key == "content"@);
    assert forall|a: int, b: int| 0 <= a < b < ms.len() implies #[trigger] ms[a].key != #[trigger] ms[
        b].key by {
        assert(crate::json::keys_apart(ms[a].key, ms[b].key));
    }
    assert("index"@[0] != "delta"@[0]);
    crate::json::lemma_find_member_first(ms, "id"@, 0);
    crate::json::lemma_find_member_first(ms, "model"@, 3);
    crate::json::lemma_find_member_first(ms, "choices"@, 4);
    assert(crate::json::lacks_key(ms, "usage"@)) by {
        assert forall|i: int| 0 <= i < ms.len() implies (#[trigger] ms[i]).key != "usage"@ by {
            assert(crate::json::keys_apart(ms[i].key, "usage"@));
        }
    }
    crate::json::lemma_find_member_missing(ms, "usage"@);
    crate::json::lemma_find_member_first(cm, "index"@, 0);
    crate::json::lemma_find_member_first(cm, "delta"@, 1);
    crate::json::lemma_find_member_first(cm, "finish_reason"@, 2);
    crate::json::lemma_find_member_first(dm, "content"@, 0);
    assert(crate::json::lacks_key(dm, "role"@) && crate::json::lacks_key(dm, "tool_calls"@)) by {
        assert("content"@.len() != "role"@.len() && "content"@.len() != "tool_calls"@.len());
    }
    crate::json::lemma_find_member_missing(dm, "role"@);
    crate::json::lemma_find_member_missing(dm, "tool_calls"@);
    crate::json::lemma_int_text_reads_back(index as int);
    assert(items_of(j, "choices"@) == seq![choice]);
    assert(member(choice, "delta"@) == Some(delta));
    assert(member_or_null(choice, "delta"@) == delta);
    assert(i32_of(choice, "index"@) == index);
    assert(chat_chunk_choice_ok(choice));
    assert(chat_chunk_ok(j));
    assert(chat_chunk_event(j) =~= text_delta_event_v(index, t));
}

/// A text delta written for a chat client reads back as the same delta:
/// its chunk is canonical (so serde_json reads the written data back as it,
/// see the encoder), it has the shape of a chunk, and it decodes to a delta
/// at the same index carrying the same text.
pub proof fn law_chat_text_delta_round_trip(e: IrStreamEventV)
    requires
        e.event_type == StreamEventType::Delta,
        (e.delta matches Some(d) && d.text is Some && d.tool_use is None),
    ensures
        chat_stream_text(e) == "data: "@ + printed_json(chat_event_chunk(e)) + "\n\n"@,
        json_canonical(chat_event_chunk(e), 100),
        chat_chunk_ok(chat_event_chunk(e)),
        chat_chunk_event(chat_event_chunk(e)) == text_delta_event_v(e.index, e.delta->0.text->0),
{
    let t = e.delta->0.text->0;
    reveal_strlit("content");
    reveal_strlit("tool_calls");
    assert(chat_delta_json(e.delta) =~= obj(seq![mv("content"@, JsonV::Str(t))]));
    assert(chat_event_chunk(e) == chat_text_chunk(e.index, t));
    lemma_text_chunk_canonical(e.index, t);
    lemma_text_chunk_shape(e.index, t);
}

/// The error body is canonical JSON: strings only, under distinct keys.
proof fn lemma_error_canonical(status_code: u16, message: Seq<char>)
    ensures
        json_canonical(chat_error_json(status_code, message), 100),
{
    reveal_strlit("message");
    reveal_strlit("type");
    reveal_strlit("code");
    let ms = obj_members(chat_error_json(status_code, message));
    let em = obj_members(ms[0].value);
    assert(ms.len() == 1 && em.len() == 3);
    assert forall|a: int, b: int| 0 <= a < b < em.len() implies #[trigger] em[a].key != #[trigger] em[
        b].key by {
        assert(crate::json::keys_apart(em[a].key, em[b].key));
    }
    crate::json::lemma_object_canonical(em, 99);
    crate::json::lemma_object_canonical(ms, 100);
}

// ---------------------------------------------------------------------------
// Stop reasons written back
// ---------------------------------------------------------------------------

/// A stop reason the protocol has a finish reason for reads back as itself:
/// the end of the turn, the token limit, a tool call, a content filter, or
/// any other reason that is not one of those names.
pub proof fn law_stop_reason_round_trip(r: StopReasonV)
    requires
        r is EndTurn || r is MaxTokens || r is ToolUse || r is ContentFilter || (r matches StopReasonV::Other(
            s,
        ) && s != "stop"@ && s != "length"@ && s != "tool_calls"@ && s != "content_filter"@),
    ensures
        chat_finish_to_stop(chat_stop_to_finish(r)) == r,
{
    reveal_strlit("stop");
    reveal_strlit("length");
    reveal_strlit("tool_calls");
    reveal_strlit("content_filter");
    assert("stop"@.len() != "length"@.len() && "stop"@.len() != "tool_calls"@.len() && "stop"@.len()
        != "content_filter"@.len() && "length"@.len() != "tool_calls"@.len() && "length"@.len()
        != "content_filter"@.len() && "tool_calls"@.len() != "content_filter"@.len());
}

/// Distinct stop reasons that the protocol names are written as distinct
/// finish reasons, so a client can tell a truncated answer from a finished
/// one.
pub proof fn law_finish_reasons_distinct(a: StopReasonV, b: StopReasonV)
    requires
        a is EndTurn || a is MaxTokens || a is ToolUse || a is ContentFilter,
        b is EndTurn || b is MaxTokens || b is ToolUse || b is ContentFilter,
        a != b,
    ensures
        chat_stop_to_finish(a) != chat_stop_to_finish(b),
{
    law_stop_reason_round_trip(a);
    law_stop_reason_round_trip(b);
}

/// The finish reasons of this protocol and the stop reasons of the
/// Anthropic protocol that name the same ending read as the same stop
/// reason: `stop` and `end_turn`, `length` and `max_tokens`, `tool_calls`
/// and `tool_use`.
pub proof fn law_finish_reasons_agree_with_anthropic(f: Seq<char>, a: Seq<char>)
    requires
        (f == "stop"@ && a == "end_turn"@) || (f == "length"@ && a == "max_tokens"@) || (f
            == "tool_calls"@ && a == "tool_use"@),
    ensures
        chat_finish_to_stop(f) == crate::messages::anth_stop_of(a),
{
    reveal_strlit("stop");
    reveal_strlit("length");
    reveal_strlit("tool_calls");
    reveal_strlit("end_turn");
    reveal_strlit("max_tokens");
    reveal_strlit("tool_use");
    assert("stop"@.len() != "length"@.len() && "stop"@.len() != "tool_calls"@.len() && "length"@.len()
        != "tool_calls"@.len());
    assert("end_turn"@ != "max_tokens"@ && "end_turn"@ != "tool_use"@ && "max_tokens"@
        != "tool_use"@) by {
        assert("end_turn"@[0] != "max_tokens"@[0] && "end_turn"@[0] != "tool_use"@[0]);
        assert("max_tokens"@.len() != "tool_use"@.len());
    }
}

} // verus!
