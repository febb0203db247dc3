//! The OpenAI Responses protocol.

use vstd::prelude::*;
use vstd::utf8::encode_utf8;
use crate::chat::{any_text, args_text, args_text_of, chat_tool_choice, parse_tool_choice};
use crate::codec::{AdapterError, Codec, CodecError, adapter_error_text};
use crate::json::{
    json_canonical, reads_back,
    Json, JsonV, Kind, MemberV, bool_of, collect_unknown, count_or_zero, count_or_zero_of, i32_of,
    int_json, int_of, items_of, items_view, member, member_or_null, mv, no_items, no_members,
    nonempty, num, num_of, obj, obj_members, object, opt_bool_v, opt_copy, opt_int, opt_int_v,
    opt_json, opt_kind, opt_member, opt_number, opt_num_v, opt_str_v, opt_string, opt_boolean,
    or_empty, or_empty_of, parse_json_bytes, parse_json_text, parsed_json_bytes, parsed_json_text,
    present, print_json, printed_json, push_item, push_member, push_opt_member, req_kind, str_of,
    str_or_empty, string, unknown_members, array, append_members, members_view, find_member,
    copy_members, int_text,
};
use crate::ir::{
    IrMessage, IrMessageV, IrRequest, IrRequestV, IrResponse, IrResponseFormat, IrResponseFormatV,
    IrResponseV, IrStreamEvent, IrStreamEventV, IrTool, IrToolChoice, IrToolChoiceV, IrToolV,
    IrUsage, StreamError, StreamErrorV, StreamEventType, bare_event_v, no_usage,
};
use crate::seqs::{flat_map, lemma_map_values_succ, lemma_take_succ};
use crate::text::{bytes_of, concat, debug_quoted, debug_text, join_all, join_strings, str_eq};
use crate::types::{
    ContentBlock, ContentBlockV, ContentType, Protocol, RefusalContent, Role, StopReason,
    StopReasonV, blocks_v, empty_block_v, lemma_blocks_vec, text_block_v, tool_result_block_v,
    tool_use_block_v,
};

verus! {

/// Codec for the OpenAI Responses protocol.
pub struct ResponsesCodec;

/// The top-level request fields that the protocol defines.
pub open spec fn responses_known_fields() -> Seq<Seq<char>> {
    seq![
        "model"@,
        "input"@,
        "instructions"@,
        "tools"@,
        "tool_choice"@,
        "stream"@,
        "temperature"@,
        "top_p"@,
        "max_output_tokens"@,
        "previous_response_id"@,
        "text"@,
    ]
}

/// The top-level request fields of the protocol, as strings.
pub fn responses_known_field_names() -> (r: Vec<String>)
    ensures
        r.deep_view() == responses_known_fields(),
{
    let mut v: Vec<String> = Vec::new();
    v.push("model".to_string());
    v.push("input".to_string());
    v.push("instructions".to_string());
    v.push("tools".to_string());
    v.push("tool_choice".to_string());
    v.push("stream".to_string());
    v.push("temperature".to_string());
    v.push("top_p".to_string());
    v.push("max_output_tokens".to_string());
    v.push("previous_response_id".to_string());
    v.push("text".to_string());
    assert(v.deep_view() =~= responses_known_fields());
    v
}

// ---------------------------------------------------------------------------
// Requests
// ---------------------------------------------------------------------------

/// An input item, tagged by `type`: `text` `{"text"}`, `output_text`
/// `{"text", "annotations"?}`, `function_call` `{"call_id", "name",
/// "arguments"}`, `function_call_output` `{"call_id", "output"}`, or
/// `item_reference`.
pub open spec fn input_item_ok(it: JsonV) -> bool {
    let t = str_or_empty(it, "type"@);
    &&& it is Object
    &&& req_kind(it, "type"@, Kind::Str)
    &&& if t == "text"@ {
        req_kind(it, "text"@, Kind::Str)
    } else if t == "output_text"@ {
        req_kind(it, "text"@, Kind::Str) && opt_kind(it, "annotations"@, Kind::Array)
    } else if t == "function_call"@ {
        req_kind(it, "call_id"@, Kind::Str) && req_kind(it, "name"@, Kind::Str) && req_kind(
            it,
            "arguments"@,
            Kind::Str,
        )
    } else if t == "function_call_output"@ {
        req_kind(it, "call_id"@, Kind::Str) && req_kind(it, "output"@, Kind::Str)
    } else {
        t == "item_reference"@
    }
}

/// Whether `j` has the shape of a responses request.
pub open spec fn responses_request_ok(j: JsonV) -> bool {
    &&& j is Object
    &&& req_kind(j, "model"@, Kind::Str)
    &&& req_kind(j, "input"@, Kind::Array)
    &&& (forall|i: int|
        0 <= i < items_of(j, "input"@).len() ==> input_item_ok(#[trigger] items_of(j, "input"@)[i]))
    &&& opt_kind(j, "instructions"@, Kind::Str)
    &&& opt_kind(j, "tools"@, Kind::Array)
    &&& opt_kind(j, "stream"@, Kind::Bool)
    &&& opt_kind(j, "temperature"@, Kind::Number)
    &&& opt_kind(j, "top_p"@, Kind::Number)
    &&& opt_kind(j, "max_output_tokens"@, Kind::Int)
    &&& opt_kind(j, "previous_response_id"@, Kind::Str)
    &&& opt_kind(j, "text"@, Kind::Object)
    &&& opt_kind(member_or_null(j, "text"@), "format"@, Kind::Object)
    &&& (present(member_or_null(j, "text"@), "format"@) matches Some(f) ==> req_kind(
        f,
        "type"@,
        Kind::Str,
    ))
}

/// The message an input item becomes: user text, assistant text (none when
/// empty), an assistant tool call, or a tool result; a reference becomes
/// none.
pub open spec fn resp_input_message(it: JsonV) -> Option<IrMessageV> {
    let t = str_or_empty(it, "type"@);
    if t == "text"@ {
        Some(IrMessageV { role: Role::User, content: seq![text_block_v(str_or_empty(it, "text"@))] })
    } else if t == "output_text"@ {
        if str_or_empty(it, "text"@).len() == 0 {
            None
        } else {
            Some(IrMessageV { role: Role::Assistant, content: seq![text_block_v(str_or_empty(it, "text"@))] })
        }
    } else if t == "function_call"@ {
        Some(
            IrMessageV {
                role: Role::Assistant,
                content: seq![
                    tool_use_block_v(
                        str_or_empty(it, "call_id"@),
                        str_or_empty(it, "name"@),
                        Some(JsonV::Str(str_or_empty(it, "arguments"@))),
                    ),
                ],
            },
        )
    } else if t == "function_call_output"@ {
        Some(
            IrMessageV {
                role: Role::Tool,
                content: seq![
                    tool_result_block_v(
                        str_or_empty(it, "call_id"@),
                        None,
                        seq![text_block_v(str_or_empty(it, "output"@))],
                        None,
                    ),
                ],
            },
        )
    } else {
        None
    }
}

/// A tool, when it has a string `name`, a string `description` and
/// `parameters`; other tools are left out.
pub open spec fn resp_tool_ir(t: JsonV) -> Option<IrToolV> {
    match (str_of(t, "name"@), str_of(t, "description"@), member(t, "parameters"@)) {
        (Some(name), Some(desc), Some(params)) => Some(
            IrToolV {
                tool_type: Some(
                    match str_of(t, "type"@) {
                        Some(s) => s,
                        None => "function"@,
                    },
                ),
                name,
                description: Some(desc),
                parameters: Some(params),
                strict: bool_of(t, "strict"@),
                extra_fields: Seq::empty(),
            },
        ),
        _ => None,
    }
}

/// The extensions a request carries: its previous response id first, then
/// the fields the protocol does not define.
pub open spec fn resp_extensions(j: JsonV) -> Seq<MemberV> {
    (match str_of(j, "previous_response_id"@) {
        Some(p) => seq![mv("previous_response_id"@, JsonV::Str(p))],
        None => Seq::empty(),
    }) + unknown_members(obj_members(j), responses_known_fields())
}

/// The intermediate form of a responses request `j`.
pub open spec fn responses_request_ir(j: JsonV) -> IrRequestV {
    let instructions = str_or_empty(j, "instructions"@);
    IrRequestV {
        model: str_or_empty(j, "model"@),
        messages: items_of(j, "input"@).filter_map(|it: JsonV| resp_input_message(it)),
        system_prompt: if instructions.len() == 0 {
            Seq::empty()
        } else {
            seq![text_block_v(instructions)]
        },
        tools: items_of(j, "tools"@).filter_map(|t: JsonV| resp_tool_ir(t)),
        tool_choice: match present(j, "tool_choice"@) {
            Some(v) => chat_tool_choice(v),
            None => None,
        },
        max_tokens: int_of(j, "max_output_tokens"@),
        temperature: num_of(j, "temperature"@),
        top_p: num_of(j, "top_p"@),
        top_k: None,
        stop_sequences: Seq::empty(),
        stream: bool_of(j, "stream"@),
        thinking: None,
        response_format: match present(member_or_null(j, "text"@), "format"@) {
            Some(f) => Some(
                IrResponseFormatV {
                    format_type: str_or_empty(f, "type"@),
                    json_schema: present(f, "json_schema"@),
                },
            ),
            None => None,
        },
        provider_extensions: resp_extensions(j),
        inbound_protocol: Protocol::OpenAiResponses,
        original_model: None,
        raw_extra: unknown_members(obj_members(j), responses_known_fields()),
        outbound_extra: Seq::empty(),
    }
}

fn check_input_item(it: &Json) -> (r: bool)
    ensures
        r == input_item_ok(it@),
{
    if !(it.is_kind(Kind::Object) && it.req_kind("type", Kind::Str)) {
        return false;
    }
    let t = it.str_or_empty("type");
    if str_eq(t.as_str(), "text") {
        it.req_kind("text", Kind::Str)
    } else if str_eq(t.as_str(), "output_text") {
        it.req_kind("text", Kind::Str) && it.opt_kind("annotations", Kind::Array)
    } else if str_eq(t.as_str(), "function_call") {
        it.req_kind("call_id", Kind::Str) && it.req_kind("name", Kind::Str) && it.req_kind(
            "arguments",
            Kind::Str,
        )
    } else if str_eq(t.as_str(), "function_call_output") {
        it.req_kind("call_id", Kind::Str) && it.req_kind("output", Kind::Str)
    } else {
        str_eq(t.as_str(), "item_reference")
    }
}

/// Whether `j` has the shape of a responses request.
pub fn check_responses_request(j: &Json) -> (r: bool)
    ensures
        r == responses_request_ok(j@),
{
    if !(j.is_kind(Kind::Object) && j.req_kind("model", Kind::Str) && j.req_kind("input", Kind::Array)
        && j.opt_kind("instructions", Kind::Str) && j.opt_kind("tools", Kind::Array) && j.opt_kind(
        "stream",
        Kind::Bool,
    ) && j.opt_kind("temperature", Kind::Number) && j.opt_kind("top_p", Kind::Number) && j.opt_kind(
        "max_output_tokens",
        Kind::Int,
    ) && j.opt_kind("previous_response_id", Kind::Str) && j.opt_kind("text", Kind::Object)) {
        return false;
    }
    match j.member("text") {
        Some(tc) => {
            if !tc.opt_kind("format", Kind::Object) {
                return false;
            }
            match tc.present("format") {
                Some(f) => {
                    if !f.req_kind("type", Kind::Str) {
                        return false;
                    }
                },
                None => {},
            }
        },
        None => {},
    }
    let input = j.items_of("input");
    let mut i: usize = 0;
    while i < input.len()
        invariant
            i <= input@.len(),
            items_view(input@) == items_of(j@, "input"@),
            forall|k: int| 0 <= k < i ==> input_item_ok(#[trigger] items_of(j@, "input"@)[k]),
        decreases input.len() - i,
    {
        assert(items_view(input@)[i as int] == input@[i as int]@);
        if !check_input_item(&input[i]) {
            return false;
        }
        i = i + 1;
    }
    true
}

fn one_block(b: ContentBlock) -> (r: Vec<ContentBlock>)
    ensures
        r.deep_view() == seq![b@],
{
    let mut v: Vec<ContentBlock> = Vec::new();
    v.push(b);
    assert(v.deep_view() =~= seq![b@]);
    v
}

fn input_message(it: &Json) -> (r: Option<IrMessage>)
    ensures
        r.deep_view() == resp_input_message(it@),
{
    let t = it.str_or_empty("type");
    if str_eq(t.as_str(), "text") {
        Some(IrMessage::new(Role::User, one_block(ContentBlock::text_block(it.str_or_empty("text")))))
    } else if str_eq(t.as_str(), "output_text") {
        let text = it.str_or_empty("text");
        if text.as_str().as_bytes().len() == 0 {
            assert(text@.len() == 0) by {
                if text@.len() > 0 {
                    vstd::utf8::encode_utf8_first_scalar(text@);
                }
            }
            None
        } else {
            Some(IrMessage::new(Role::Assistant, one_block(ContentBlock::text_block(text))))
        }
    } else if str_eq(t.as_str(), "function_call") {
        let b = ContentBlock::tool_use_block(
            it.str_or_empty("call_id"),
            it.str_or_empty("name"),
            Some(Json::Str(it.str_or_empty("arguments"))),
        );
        Some(IrMessage::new(Role::Assistant, one_block(b)))
    } else if str_eq(t.as_str(), "function_call_output") {
        let inner = one_block(ContentBlock::text_block(it.str_or_empty("output")));
        let b = ContentBlock::tool_result_block(it.str_or_empty("call_id"), None, inner, None);
        Some(IrMessage::new(Role::Tool, one_block(b)))
    } else {
        None
    }
}

fn tool_ir(t: &Json) -> (r: Option<IrTool>)
    ensures
        r.deep_view() == resp_tool_ir(t@),
{
    let name = t.str_of("name");
    let desc = t.str_of("description");
    let params = t.member("parameters");
    match (name, desc, params) {
        (Some(name), Some(desc), Some(params)) => {
            let tt = match t.str_of("type") {
                Some(s) => s,
                None => "function".to_string(),
            };
            let r = IrTool {
                tool_type: Some(tt),
                name,
                description: Some(desc),
                parameters: Some(params.duplicate()),
                strict: t.bool_of("strict"),
                extra_fields: Vec::new(),
            };
            assert(r@.extra_fields =~= Seq::<MemberV>::empty());
            Some(r)
        },
        _ => None,
    }
}

/// The intermediate form of a request that has the shape of a responses
/// request (see [`responses_request_ir`]).
pub fn responses_request_to_ir(j: &Json) -> (r: IrRequest)
    ensures
        r@ == responses_request_ir(j@),
{
    let mut ir = IrRequest::new(j.str_or_empty("model"), Protocol::OpenAiResponses);
    ir.stream = j.bool_of("stream");
    ir.temperature = j.num_of("temperature");
    ir.top_p = j.num_of("top_p");
    ir.max_tokens = j.int_of("max_output_tokens");
    let instructions = j.str_or_empty("instructions");
    if instructions.as_str().as_bytes().len() > 0 {
        ir.system_prompt = one_block(ContentBlock::text_block(instructions));
    } else {
        assert(instructions@.len() == 0) by {
            if instructions@.len() > 0 {
                vstd::utf8::encode_utf8_first_scalar(instructions@);
            }
        }
    }
    let known = responses_known_field_names();
    let mut ext = no_members();
    match j.str_of("previous_response_id") {
        Some(p) => {
            push_member(&mut ext, "previous_response_id", Json::Str(p));
        },
        None => {},
    }
    let unknown = collect_unknown(j, &known);
    append_members(&mut ext, &unknown);
    ir.provider_extensions = ext;
    ir.raw_extra = unknown;
    let input = j.items_of("input");
    let ghost v = items_view(input@);
    let mut messages: Vec<IrMessage> = Vec::new();
    let mut i: usize = 0;
    while i < input.len()
        invariant
            i <= input@.len(),
            v == items_view(input@),
            messages.deep_view() == v.take(i as int).filter_map(|it: JsonV| resp_input_message(it)),
        decreases input.len() - i,
    {
        proof {
            v.lemma_filter_map_take_succ(|it: JsonV| resp_input_message(it), i as int);
        }
        assert(v[i as int] == input@[i as int]@);
        match input_message(&input[i]) {
            Some(m) => {
                messages.push(m);
            },
            None => {},
        }
        assert(messages.deep_view() =~= v.take(i + 1).filter_map(|it: JsonV| resp_input_message(it)));
        i = i + 1;
    }
    assert(v.take(i as int) =~= v);
    ir.messages = messages;
    let tools = j.items_of("tools");
    let ghost tv = items_view(tools@);
    let mut irtools: Vec<IrTool> = Vec::new();
    let mut i: usize = 0;
    while i < tools.len()
        invariant
            i <= tools@.len(),
            tv == items_view(tools@),
            irtools.deep_view() == tv.take(i as int).filter_map(|t: JsonV| resp_tool_ir(t)),
        decreases tools.len() - i,
    {
        proof {
            tv.lemma_filter_map_take_succ(|t: JsonV| resp_tool_ir(t), i as int);
        }
        assert(tv[i as int] == tools@[i as int]@);
        match tool_ir(&tools[i]) {
            Some(t) => {
                irtools.push(t);
            },
            None => {},
        }
        assert(irtools.deep_view() =~= tv.take(i + 1).filter_map(|t: JsonV| resp_tool_ir(t)));
        i = i + 1;
    }
    assert(tv.take(i as int) =~= tv);
    ir.tools = irtools;
    ir.tool_choice = match j.present("tool_choice") {
        Some(v) => parse_tool_choice(v),
        None => None,
    };
    ir.response_format = match j.member("text") {
        Some(tc) => match tc.present("format") {
            Some(f) => Some(
                IrResponseFormat {
                    format_type: f.str_or_empty("type"),
                    json_schema: f.read_opt_value("json_schema"),
                },
            ),
            None => None,
        },
        None => None,
    };
    assert(ir@ =~= responses_request_ir(j@));
    ir
}

/// The instructions a request's system prompt is written as: its texts
/// joined, none when that is empty.
pub open spec fn resp_instructions(sp: Seq<ContentBlockV>) -> Option<Seq<char>> {
    let text = join_all(sp.filter_map(|b: ContentBlockV| any_text(b)));
    if sp.len() == 0 || text.len() == 0 {
        None
    } else {
        Some(text)
    }
}

/// A `{"type", "text"}` input item.
pub open spec fn text_item(t: Seq<char>) -> JsonV {
    obj(seq![mv("type"@, JsonV::Str("text"@))].push(mv("text"@, JsonV::Str(t))))
}

/// The input item of a user block that holds text.
pub open spec fn user_item(b: ContentBlockV) -> Option<JsonV> {
    match b.text {
        Some(t) => Some(text_item(t)),
        None => None,
    }
}

/// An `output_text` item or part.
pub open spec fn output_text_json(t: Seq<char>) -> JsonV {
    obj(
        seq![mv("type"@, JsonV::Str("output_text"@))].push(mv("text"@, JsonV::Str(t))).push(
            mv("annotations"@, JsonV::Array(Seq::empty())),
        ),
    )
}

/// A `function_call` input item.
pub open spec fn call_item(call_id: Seq<char>, name: Seq<char>, args: Seq<char>) -> JsonV {
    obj(
        seq![mv("type"@, JsonV::Str("function_call"@))].push(mv("call_id"@, JsonV::Str(call_id))).push(
            mv("name"@, JsonV::Str(name)),
        ).push(mv("arguments"@, JsonV::Str(args))),
    )
}

/// The input item of an assistant block: its text, or its tool call.
pub open spec fn assistant_item(b: ContentBlockV) -> Option<JsonV> {
    if b.content_type == ContentType::Text {
        match b.text {
            Some(t) => Some(output_text_json(t)),
            None => None,
        }
    } else if b.content_type == ContentType::ToolUse {
        match b.tool_use {
            Some(tu) => Some(call_item(tu.id, tu.name, args_text(tu.arguments))),
            None => None,
        }
    } else {
        None
    }
}

/// The input item of a tool block: the texts of its result, joined.
pub open spec fn tool_item(b: ContentBlockV) -> Option<JsonV> {
    match b.tool_result {
        Some(tr) => Some(
            obj(
                seq![mv("type"@, JsonV::Str("function_call_output"@))].push(
                    mv("call_id"@, JsonV::Str(tr.tool_use_id)),
                ).push(
                    mv(
                        "output"@,
                        JsonV::Str(join_all(tr.content.filter_map(|c: ContentBlockV| any_text(c)))),
                    ),
                ),
            ),
        ),
        None => None,
    }
}

/// The input items a message becomes.
pub open spec fn message_items(m: IrMessageV) -> Seq<JsonV> {
    match m.role {
        Role::User => m.content.filter_map(|b: ContentBlockV| user_item(b)),
        Role::Assistant => m.content.filter_map(|b: ContentBlockV| assistant_item(b)),
        Role::Tool => m.content.filter_map(|b: ContentBlockV| tool_item(b)),
        Role::System => Seq::empty(),
    }
}

/// `null` for nothing.
pub open spec fn or_null(o: Option<JsonV>) -> JsonV {
    match o {
        Some(v) => v,
        None => JsonV::Null,
    }
}

/// A tool definition; its missing description, parameters and strictness
/// are written as `null`.
pub open spec fn resp_tool_json(t: IrToolV) -> JsonV {
    obj(
        seq![
            mv(
                "type"@,
                JsonV::Str(
                    match t.tool_type {
                        Some(s) => s,
                        None => "function"@,
                    },
                ),
            ),
        ].push(mv("name"@, JsonV::Str(t.name))).push(
            mv("description"@, or_null(opt_str_v(t.description))),
        ).push(mv("parameters"@, or_null(t.parameters))).push(
            mv("strict"@, or_null(opt_bool_v(t.strict))),
        ),
    )
}

/// A tool choice: `"auto"`, `"none"` and `"required"` as strings, `"any"`
/// as `"required"`, any other choice as the named function.
pub open spec fn resp_tool_choice_json(c: IrToolChoiceV) -> JsonV {
    if c.choice_type == "auto"@ || c.choice_type == "none"@ || c.choice_type == "required"@ {
        JsonV::Str(c.choice_type)
    } else if c.choice_type == "any"@ {
        JsonV::Str("required"@)
    } else {
        obj(
            seq![mv("type"@, JsonV::Str("function"@))].push(
                mv("function"@, obj(seq![mv("name"@, JsonV::Str(or_empty(c.tool_name)))])),
            ),
        )
    }
}

/// The text configuration that carries a response format.
pub open spec fn resp_text_json(rf: IrResponseFormatV) -> JsonV {
    obj(
        seq![
            mv(
                "format"@,
                obj(seq![mv("type"@, JsonV::Str(rf.format_type))] + opt_member("json_schema"@, rf.json_schema)),
            ),
        ],
    )
}

/// The previous response id among the extensions, when it is a string.
pub open spec fn previous_response_id(ext: Seq<MemberV>) -> Option<Seq<char>> {
    match find_member(ext, "previous_response_id"@) {
        Some(JsonV::Str(s)) => Some(s),
        _ => None,
    }
}

/// The responses request for `r`.
pub open spec fn responses_request_json(r: IrRequestV) -> JsonV {
    obj(
        (seq![mv("model"@, JsonV::Str(r.model))] + opt_member(
            "instructions"@,
            opt_str_v(resp_instructions(r.system_prompt)),
        )).push(
            mv(
                "input"@,
                JsonV::Array(flat_map(r.messages, |m: IrMessageV| message_items(m))),
            ),
        ) + opt_member("tools"@, nonempty(r.tools.map_values(|t: IrToolV| resp_tool_json(t))))
            + opt_member(
            "tool_choice"@,
            match r.tool_choice {
                Some(c) => Some(resp_tool_choice_json(c)),
                None => None,
            },
        ) + opt_member("stream"@, opt_bool_v(r.stream)) + opt_member(
            "temperature"@,
            opt_num_v(r.temperature),
        ) + opt_member("top_p"@, opt_num_v(r.top_p)) + opt_member(
            "max_output_tokens"@,
            opt_int_v(r.max_tokens),
        ) + opt_member("previous_response_id"@, opt_str_v(previous_response_id(r.provider_extensions)))
            + opt_member(
            "text"@,
            match r.response_format {
                Some(rf) => Some(resp_text_json(rf)),
                None => None,
            },
        ) + unknown_members(r.provider_extensions, seq!["previous_response_id"@]),
    )
}

fn texts_joined(bs: &Vec<ContentBlock>) -> (r: String)
    ensures
        r@ == join_all(bs.deep_view().filter_map(|b: ContentBlockV| any_text(b))),
{
    let ghost v = bs.deep_view();
    let mut texts: Vec<String> = Vec::new();
    let mut i: usize = 0;
    while i < bs.len()
        invariant
            i <= bs@.len(),
            v == bs.deep_view(),
            texts.deep_view() == v.take(i as int).filter_map(|b: ContentBlockV| any_text(b)),
        decreases bs.len() - i,
    {
        proof {
            v.lemma_filter_map_take_succ(|b: ContentBlockV| any_text(b), i as int);
        }
        match &bs[i].text {
            Some(t) => {
                texts.push(t.text.clone());
            },
            None => {},
        }
        assert(texts.deep_view() =~= v.take(i + 1).filter_map(|b: ContentBlockV| any_text(b)));
        i = i + 1;
    }
    assert(v.take(i as int) =~= v);
    join_strings(&texts)
}

fn instructions_of(sp: &Vec<ContentBlock>) -> (r: Option<String>)
    ensures
        r.deep_view() == resp_instructions(sp.deep_view()),
{
    let text = texts_joined(sp);
    if sp.len() == 0 || text.as_str().as_bytes().len() == 0 {
        assert(sp@.len() > 0 ==> text@.len() == 0) by {
            if text@.len() > 0 {
                vstd::utf8::encode_utf8_first_scalar(text@);
            }
        }
        None
    } else {
        Some(text)
    }
}

fn assistant_item_of(b: &ContentBlock) -> (r: Option<Json>)
    ensures
        opt_json(r) == assistant_item(b@),
{
    if b.content_type == ContentType::Text {
        match &b.text {
            Some(t) => Some(output_text_of(t.text.clone())),
            None => None,
        }
    } else if b.content_type == ContentType::ToolUse {
        match &b.tool_use {
            Some(tu) => {
                let mut es = no_members();
                push_member(&mut es, "type", string("function_call"));
                push_member(&mut es, "call_id", Json::Str(tu.id.clone()));
                push_member(&mut es, "name", Json::Str(tu.name.clone()));
                push_member(&mut es, "arguments", Json::Str(args_text_of(&tu.arguments)));
                Some(object(es))
            },
            None => None,
        }
    } else {
        None
    }
}

fn output_text_of(t: String) -> (r: Json)
    ensures
        r@ == output_text_json(t@),
{
    let mut es = no_members();
    push_member(&mut es, "type", string("output_text"));
    push_member(&mut es, "text", Json::Str(t));
    push_member(&mut es, "annotations", array(no_items()));
    object(es)
}

fn tool_item_of(b: &ContentBlock) -> (r: Option<Json>)
    ensures
        opt_json(r) == tool_item(b@),
{
    match &b.tool_result {
        Some(tr) => {
            proof {
                lemma_blocks_vec(&tr.content);
            }
            let mut es = no_members();
            push_member(&mut es, "type", string("function_call_output"));
            push_member(&mut es, "call_id", Json::Str(tr.tool_use_id.clone()));
            push_member(&mut es, "output", Json::Str(texts_joined(&tr.content)));
            Some(object(es))
        },
        None => None,
    }
}

fn item_of(role: Role, b: &ContentBlock) -> (r: Option<Json>)
    ensures
        opt_json(r) == match role {
            Role::User => user_item(b@),
            Role::Assistant => assistant_item(b@),
            _ => tool_item(b@),
        },
{
    match role {
        Role::User => match &b.text {
            Some(t) => {
                let mut es = no_members();
                push_member(&mut es, "type", string("text"));
                push_member(&mut es, "text", Json::Str(t.text.clone()));
                Some(object(es))
            },
            None => None,
        },
        Role::Assistant => assistant_item_of(b),
        _ => tool_item_of(b),
    }
}

fn push_message_items(items: &mut Vec<Json>, m: &IrMessage)
    ensures
        items_view(final(items)@) == items_view(old(items)@) + message_items(m@),
{
    let ghost i0 = items_view(items@);
    if m.role == Role::System {
        assert(items_view(items@) =~= i0 + message_items(m@));
        return;
    }
    let ghost v = m.content.deep_view();
    let ghost f = match m.role {
        Role::User => |b: ContentBlockV| user_item(b),
        Role::Assistant => |b: ContentBlockV| assistant_item(b),
        _ => |b: ContentBlockV| tool_item(b),
    };
    assert(message_items(m@) == v.filter_map(f));
    let mut i: usize = 0;
    while i < m.content.len()
        invariant
            i <= m.content@.len(),
            v == m.content.deep_view(),
            m.role != Role::System,
            f == match m.role {
                Role::User => |b: ContentBlockV| user_item(b),
                Role::Assistant => |b: ContentBlockV| assistant_item(b),
                _ => |b: ContentBlockV| tool_item(b),
            },
            items_view(items@) == i0 + v.take(i as int).filter_map(f),
        decreases m.content.len() - i,
    {
        proof {
            v.lemma_filter_map_take_succ(f, i as int);
        }
        match item_of(m.role, &m.content[i]) {
            Some(x) => {
                push_item(items, x);
            },
            None => {},
        }
        assert(items_view(items@) =~= i0 + v.take(i + 1).filter_map(f));
        i = i + 1;
    }
    assert(v.take(i as int) =~= v);
}

fn resp_tool_to_json(t: &IrTool) -> (r: Json)
    ensures
        r@ == resp_tool_json(t@),
{
    let tt = match &t.tool_type {
        Some(s) => s.clone(),
        None => "function".to_string(),
    };
    let mut es = no_members();
    push_member(&mut es, "type", Json::Str(tt));
    push_member(&mut es, "name", Json::Str(t.name.clone()));
    push_member(&mut es, "description", match &t.description {
        Some(d) => Json::Str(d.clone()),
        None => Json::Null,
    });
    push_member(&mut es, "parameters", match &t.parameters {
        Some(p) => p.duplicate(),
        None => Json::Null,
    });
    push_member(&mut es, "strict", match t.strict {
        Some(b) => Json::Bool(b),
        None => Json::Null,
    });
    object(es)
}

fn resp_tool_choice_to_json(c: &IrToolChoice) -> (r: Json)
    ensures
        r@ == resp_tool_choice_json(c@),
{
    let t = c.choice_type.as_str();
    if str_eq(t, "auto") || str_eq(t, "none") || str_eq(t, "required") {
        Json::Str(c.choice_type.clone())
    } else if str_eq(t, "any") {
        string("required")
    } else {
        let mut fes = no_members();
        push_member(&mut fes, "name", Json::Str(or_empty_of(&c.tool_name)));
        let mut es = no_members();
        push_member(&mut es, "type", string("function"));
        push_member(&mut es, "function", object(fes));
        object(es)
    }
}

fn previous_id_of(ext: &Vec<(String, Json)>) -> (r: Option<String>)
    ensures
        r.deep_view() == previous_response_id(members_view(ext@)),
{
    let o = object(copy_members(ext));
    match o.member("previous_response_id") {
        Some(Json::Str(s)) => Some(s.clone()),
        _ => None,
    }
}

/// The responses request for `r` (see [`responses_request_json`]).
pub fn responses_request_to_json(r: &IrRequest) -> (j: Json)
    ensures
        j@ == responses_request_json(r@),
{
    let ghost rv = r@;
    let mut input = no_items();
    let mut i: usize = 0;
    while i < r.messages.len()
        invariant
            i <= r.messages@.len(),
            rv == r@,
            items_view(input@) == flat_map(rv.messages.take(i as int), |m: IrMessageV| message_items(m)),
        decreases r.messages.len() - i,
    {
        proof {
            lemma_take_succ(rv.messages, i as int);
        }
        push_message_items(&mut input, &r.messages[i]);
        i = i + 1;
    }
    assert(rv.messages.take(i as int) =~= rv.messages);
    let mut tools = no_items();
    let mut i: usize = 0;
    while i < r.tools.len()
        invariant
            i <= r.tools@.len(),
            rv == r@,
            items_view(tools@) == rv.tools.take(i as int).map_values(|t: IrToolV| resp_tool_json(t)),
        decreases r.tools.len() - i,
    {
        push_item(&mut tools, resp_tool_to_json(&r.tools[i]));
        assert(items_view(tools@) =~= rv.tools.take(i + 1).map_values(|t: IrToolV| resp_tool_json(t)));
        i = i + 1;
    }
    assert(rv.tools.take(i as int) =~= rv.tools);
    let mut es = no_members();
    push_member(&mut es, "model", Json::Str(r.model.clone()));
    push_opt_member(&mut es, "instructions", match instructions_of(&r.system_prompt) {
        Some(t) => Some(Json::Str(t)),
        None => None,
    });
    push_member(&mut es, "input", array(input));
    let tl = if tools.len() > 0 {
        Some(array(tools))
    } else {
        None
    };
    push_opt_member(&mut es, "tools", tl);
    push_opt_member(&mut es, "tool_choice", match &r.tool_choice {
        Some(c) => Some(resp_tool_choice_to_json(c)),
        None => None,
    });
    push_opt_member(&mut es, "stream", opt_boolean(r.stream));
    push_opt_member(&mut es, "temperature", opt_number(&r.temperature));
    push_opt_member(&mut es, "top_p", opt_number(&r.top_p));
    push_opt_member(&mut es, "max_output_tokens", opt_int(r.max_tokens));
    push_opt_member(&mut es, "previous_response_id", match previous_id_of(&r.provider_extensions) {
        Some(p) => Some(Json::Str(p)),
        None => None,
    });
    push_opt_member(&mut es, "text", match &r.response_format {
        Some(rf) => {
            let mut fes = no_members();
            push_member(&mut fes, "type", Json::Str(rf.format_type.clone()));
            push_opt_member(&mut fes, "json_schema", opt_copy(&rf.json_schema));
            let mut tes = no_members();
            push_member(&mut tes, "format", object(fes));
            Some(object(tes))
        },
        None => None,
    });
    let mut skip: Vec<String> = Vec::new();
    skip.push("previous_response_id".to_string());
    assert(skip.deep_view() =~= seq!["previous_response_id"@]);
    let rest = collect_unknown(&object(copy_members(&r.provider_extensions)), &skip);
    append_members(&mut es, &rest);
    object(es)
}

// ---------------------------------------------------------------------------
// Responses
// ---------------------------------------------------------------------------

/// Token counts: `{"input_tokens", "output_tokens", "total_tokens"}`.
pub open spec fn resp_usage_ok(u: JsonV) -> bool {
    &&& u is Object
    &&& req_kind(u, "input_tokens"@, Kind::Int)
    &&& req_kind(u, "output_tokens"@, Kind::Int)
    &&& req_kind(u, "total_tokens"@, Kind::Int)
}

/// A content part, tagged by `type`: `output_text` `{"text",
/// "annotations"?}` or `refusal` `{"refusal"}`.
pub open spec fn part_ok(p: JsonV) -> bool {
    let t = str_or_empty(p, "type"@);
    &&& p is Object
    &&& req_kind(p, "type"@, Kind::Str)
    &&& if t == "output_text"@ {
        req_kind(p, "text"@, Kind::Str) && opt_kind(p, "annotations"@, Kind::Array)
    } else {
        t == "refusal"@ && req_kind(p, "refusal"@, Kind::Str)
    }
}

/// An output item, tagged by `type`: `message` `{"id", "role", "content",
/// "status"?}` or `function_call` `{"id", "call_id", "name", "arguments",
/// "status"?}`.
pub open spec fn output_item_ok(it: JsonV) -> bool {
    let t = str_or_empty(it, "type"@);
    &&& it is Object
    &&& req_kind(it, "type"@, Kind::Str)
    &&& opt_kind(it, "status"@, Kind::Str)
    &&& if t == "message"@ {
        &&& req_kind(it, "id"@, Kind::Str)
        &&& req_kind(it, "role"@, Kind::Str)
        &&& req_kind(it, "content"@, Kind::Array)
        &&& forall|i: int|
            0 <= i < items_of(it, "content"@).len() ==> part_ok(#[trigger] items_of(it, "content"@)[i])
    } else {
        &&& t == "function_call"@
        &&& req_kind(it, "id"@, Kind::Str)
        &&& req_kind(it, "call_id"@, Kind::Str)
        &&& req_kind(it, "name"@, Kind::Str)
        &&& req_kind(it, "arguments"@, Kind::Str)
    }
}

/// Whether `j` has the shape of a responses response.
pub open spec fn responses_response_ok(j: JsonV) -> bool {
    &&& j is Object
    &&& req_kind(j, "id"@, Kind::Str)
    &&& req_kind(j, "model"@, Kind::Str)
    &&& opt_kind(j, "object"@, Kind::Str)
    &&& req_kind(j, "output"@, Kind::Array)
    &&& (forall|i: int|
        0 <= i < items_of(j, "output"@).len() ==> output_item_ok(#[trigger] items_of(j, "output"@)[i]))
    &&& (present(j, "usage"@) matches Some(u) ==> resp_usage_ok(u))
    &&& opt_kind(j, "status"@, Kind::Str)
}

/// The block a content part becomes: text, or a refusal.
pub open spec fn part_block(p: JsonV) -> ContentBlockV {
    if str_or_empty(p, "type"@) == "output_text"@ {
        text_block_v(str_or_empty(p, "text"@))
    } else {
        ContentBlockV {
            refusal: Some(str_or_empty(p, "refusal"@)),
            ..empty_block_v(ContentType::Refusal)
        }
    }
}

/// The blocks an output item becomes: one per part of a message, or the
/// tool use of a function call (its arguments parsed as JSON, kept as a
/// string when they are not JSON).
pub open spec fn output_item_blocks(it: JsonV) -> Seq<ContentBlockV> {
    if str_or_empty(it, "type"@) == "message"@ {
        items_of(it, "content"@).map_values(|p: JsonV| part_block(p))
    } else {
        let args = str_or_empty(it, "arguments"@);
        seq![
            tool_use_block_v(
                str_or_empty(it, "call_id"@),
                str_or_empty(it, "name"@),
                Some(
                    match parsed_json_text(args) {
                        Ok(v) => v,
                        Err(_) => JsonV::Str(args),
                    },
                ),
            ),
        ]
    }
}

/// The stop reason a response status stands for.
pub open spec fn status_stop(s: Seq<char>) -> StopReasonV {
    if s == "completed"@ {
        StopReasonV::EndTurn
    } else if s == "incomplete"@ {
        StopReasonV::MaxTokens
    } else {
        StopReasonV::Other(s)
    }
}

/// The counts of a usage object.
pub open spec fn resp_usage_ir(u: JsonV) -> IrUsage {
    IrUsage {
        input_tokens: int_of(u, "input_tokens"@),
        output_tokens: int_of(u, "output_tokens"@),
        total_tokens: int_of(u, "total_tokens"@),
        ..no_usage()
    }
}

/// The intermediate form of a responses response.
pub open spec fn responses_response_ir(j: JsonV) -> IrResponseV {
    IrResponseV {
        id: Some(str_or_empty(j, "id"@)),
        model: Some(str_or_empty(j, "model"@)),
        content: flat_map(items_of(j, "output"@), |it: JsonV| output_item_blocks(it)),
        stop_reason: match str_of(j, "status"@) {
            Some(s) => Some(status_stop(s)),
            None => None,
        },
        stop_sequence: None,
        usage: match present(j, "usage"@) {
            Some(u) => resp_usage_ir(u),
            None => no_usage(),
        },
        provider_extensions: Seq::empty(),
    }
}

/// The status a stop reason is written as: `completed` and `incomplete`, or
/// the reason as `Debug` writes it.
pub open spec fn stop_status(r: Option<StopReasonV>) -> Seq<char> {
    match r {
        Some(StopReasonV::EndTurn) => "completed"@,
        Some(StopReasonV::MaxTokens) => "incomplete"@,
        Some(StopReasonV::ToolUse) => "ToolUse"@,
        Some(StopReasonV::StopSequence) => "StopSequence"@,
        Some(StopReasonV::ContentFilter) => "ContentFilter"@,
        Some(StopReasonV::PauseTurn) => "PauseTurn"@,
        Some(StopReasonV::Other(s)) => "Other("@ + debug_quoted(s) + ")"@,
        None => "completed"@,
    }
}

/// A `function_call` output item.
pub open spec fn call_output_item(id: Seq<char>, name: Seq<char>, args: Seq<char>, status: Seq<char>) -> JsonV {
    obj(
        seq![mv("type"@, JsonV::Str("function_call"@))].push(mv("id"@, JsonV::Str(id))).push(
            mv("call_id"@, JsonV::Str(id)),
        ).push(mv("name"@, JsonV::Str(name))).push(mv("arguments"@, JsonV::Str(args))).push(
            mv("status"@, JsonV::Str(status)),
        ),
    )
}

/// The function call of a tool-use block.
pub open spec fn block_call_item(b: ContentBlockV) -> Option<JsonV> {
    if b.content_type == ContentType::ToolUse {
        match b.tool_use {
            Some(tu) => Some(call_output_item(tu.id, tu.name, args_text(tu.arguments), "completed"@)),
            None => None,
        }
    } else {
        None
    }
}

/// The text of a text block.
pub open spec fn block_text_of(b: ContentBlockV) -> Option<Seq<char>> {
    if b.content_type == ContentType::Text {
        b.text
    } else {
        None
    }
}

/// A `message` output item.
pub open spec fn message_item(content: Seq<JsonV>, status: Seq<char>) -> JsonV {
    obj(
        seq![mv("type"@, JsonV::Str("message"@))].push(mv("id"@, JsonV::Str("msg_0"@))).push(
            mv("role"@, JsonV::Str("assistant"@)),
        ).push(mv("content"@, JsonV::Array(content))).push(mv("status"@, JsonV::Str(status))),
    )
}

/// Token counts as the protocol writes them.
pub open spec fn resp_usage_json(u: IrUsage) -> JsonV {
    obj(
        seq![mv("input_tokens"@, num(count_or_zero(u.input_tokens)))].push(
            mv("output_tokens"@, num(count_or_zero(u.output_tokens))),
        ).push(mv("total_tokens"@, num(count_or_zero(u.total_tokens)))),
    )
}

/// The responses response for `r`: one message item with its texts, then
/// one item per tool call.
pub open spec fn responses_response_json(r: IrResponseV) -> JsonV {
    let texts = r.content.filter_map(|b: ContentBlockV| block_text_of(b));
    let calls = r.content.filter_map(|b: ContentBlockV| block_call_item(b));
    let output = (if texts.len() == 0 {
        Seq::empty()
    } else {
        seq![message_item(texts.map_values(|t: Seq<char>| output_text_json(t)), "completed"@)]
    }) + calls;
    obj(
        seq![mv("id"@, JsonV::Str(or_empty(r.id)))].push(mv("object"@, JsonV::Str("response"@))).push(
            mv("model"@, JsonV::Str(or_empty(r.model))),
        ).push(mv("output"@, JsonV::Array(output))).push(mv("usage"@, resp_usage_json(r.usage))).push(
            mv("status"@, JsonV::Str(stop_status(r.stop_reason))),
        ),
    )
}

/// The protocol's error body.
pub open spec fn responses_error_json(status_code: u16, message: Seq<char>) -> JsonV {
    obj(
        seq![
            mv(
                "error"@,
                obj(
                    seq![mv("message"@, JsonV::Str(message))].push(
                        mv("type"@, JsonV::Str("invalid_request_error"@)),
                    ).push(mv("code"@, JsonV::Str(int_text(status_code as int)))),
                ),
            ),
        ],
    )
}

fn check_usage(u: &Json) -> (r: bool)
    ensures
        r == resp_usage_ok(u@),
{
    u.is_kind(Kind::Object) && u.req_kind("input_tokens", Kind::Int) && u.req_kind(
        "output_tokens",
        Kind::Int,
    ) && u.req_kind("total_tokens", Kind::Int)
}

fn check_part(p: &Json) -> (r: bool)
    ensures
        r == part_ok(p@),
{
    if !(p.is_kind(Kind::Object) && p.req_kind("type", Kind::Str)) {
        return false;
    }
    let t = p.str_or_empty("type");
    if str_eq(t.as_str(), "output_text") {
        p.req_kind("text", Kind::Str) && p.opt_kind("annotations", Kind::Array)
    } else {
        str_eq(t.as_str(), "refusal") && p.req_kind("refusal", Kind::Str)
    }
}

/// Whether `it` has the shape of an output item.
pub fn check_output_item(it: &Json) -> (r: bool)
    ensures
        r == output_item_ok(it@),
{
    if !(it.is_kind(Kind::Object) && it.req_kind("type", Kind::Str) && it.opt_kind("status", Kind::Str)) {
        return false;
    }
    let t = it.str_or_empty("type");
    if str_eq(t.as_str(), "message") {
        if !(it.req_kind("id", Kind::Str) && it.req_kind("role", Kind::Str) && it.req_kind(
            "content",
            Kind::Array,
        )) {
            return false;
        }
        let ps = it.items_of("content");
        let mut i: usize = 0;
        while i < ps.len()
            invariant
                i <= ps@.len(),
                items_view(ps@) == items_of(it@, "content"@),
                str_or_empty(it@, "type"@) == "message"@,
                forall|k: int| 0 <= k < i ==> part_ok(#[trigger] items_of(it@, "content"@)[k]),
            decreases ps.len() - i,
        {
            assert(items_view(ps@)[i as int] == ps@[i as int]@);
            if !check_part(&ps[i]) {
                return false;
            }
            i = i + 1;
        }
        true
    } else {
        str_eq(t.as_str(), "function_call") && it.req_kind("id", Kind::Str) && it.req_kind(
            "call_id",
            Kind::Str,
        ) && it.req_kind("name", Kind::Str) && it.req_kind("arguments", Kind::Str)
    }
}

/// Whether `j` has the shape of a responses response.
pub fn check_responses_response(j: &Json) -> (r: bool)
    ensures
        r == responses_response_ok(j@),
{
    if !(j.is_kind(Kind::Object) && j.req_kind("id", Kind::Str) && j.req_kind("model", Kind::Str)
        && j.opt_kind("object", Kind::Str) && j.req_kind("output", Kind::Array) && j.opt_kind(
        "status",
        Kind::Str,
    )) {
        return false;
    }
    match j.present("usage") {
        Some(u) => {
            if !check_usage(u) {
                return false;
            }
        },
        None => {},
    }
    let out = j.items_of("output");
    let mut i: usize = 0;
    while i < out.len()
        invariant
            i <= out@.len(),
            items_view(out@) == items_of(j@, "output"@),
            forall|k: int| 0 <= k < i ==> output_item_ok(#[trigger] items_of(j@, "output"@)[k]),
        decreases out.len() - i,
    {
        assert(items_view(out@)[i as int] == out@[i as int]@);
        if !check_output_item(&out[i]) {
            return false;
        }
        i = i + 1;
    }
    true
}

fn part_to_block(p: &Json) -> (r: ContentBlock)
    ensures
        r@ == part_block(p@),
{
    if str_eq(p.str_or_empty("type").as_str(), "output_text") {
        ContentBlock::text_block(p.str_or_empty("text"))
    } else {
        let mut b = ContentBlock::empty(ContentType::Refusal);
        b.refusal = Some(RefusalContent { refusal: p.str_or_empty("refusal") });
        b
    }
}

fn push_item_blocks(out: &mut Vec<ContentBlock>, it: &Json)
    ensures
        final(out).deep_view() == old(out).deep_view() + output_item_blocks(it@),
{
    let ghost o0 = out.deep_view();
    if str_eq(it.str_or_empty("type").as_str(), "message") {
        let ps = it.items_of("content");
        let ghost v = items_view(ps@);
        let mut i: usize = 0;
        while i < ps.len()
            invariant
                i <= ps@.len(),
                v == items_view(ps@),
                out.deep_view() == o0 + v.take(i as int).map_values(|p: JsonV| part_block(p)),
            decreases ps.len() - i,
        {
            proof {
                lemma_map_values_succ(v, i as int, |p: JsonV| part_block(p));
            }
            assert(v[i as int] == ps@[i as int]@);
            let b = part_to_block(&ps[i]);
            let ghost before = out.deep_view();
            out.push(b);
            assert(out.deep_view() =~= before.push(b@));
            i = i + 1;
        }
        assert(v.take(i as int) =~= v);
        assert(out.deep_view() =~= o0 + output_item_blocks(it@));
    } else {
        let args = it.str_or_empty("arguments");
        let parsed = match parse_json_text(args.as_str()) {
            Ok(v) => v,
            Err(_) => Json::Str(args),
        };
        let b = ContentBlock::tool_use_block(it.str_or_empty("call_id"), it.str_or_empty("name"), Some(parsed));
        let ghost before = out.deep_view();
        out.push(b);
        assert(out.deep_view() =~= before.push(b@));
        assert(out.deep_view() =~= o0 + output_item_blocks(it@));
    }
}

fn status_stop_of(s: &str) -> (r: StopReason)
    ensures
        r@ == status_stop(s@),
{
    if str_eq(s, "completed") {
        StopReason::EndTurn
    } else if str_eq(s, "incomplete") {
        StopReason::MaxTokens
    } else {
        StopReason::Other(s.to_string())
    }
}

fn usage_of(u: &Json) -> (r: IrUsage)
    ensures
        r == resp_usage_ir(u@),
{
    let mut r = IrUsage::none();
    r.input_tokens = u.int_of("input_tokens");
    r.output_tokens = u.int_of("output_tokens");
    r.total_tokens = u.int_of("total_tokens");
    r
}

/// The intermediate form of a responses response (see
/// [`responses_response_ir`]).
pub fn responses_response_to_ir(j: &Json) -> (r: IrResponse)
    ensures
        r@ == responses_response_ir(j@),
{
    let out = j.items_of("output");
    let ghost v = items_view(out@);
    let mut content: Vec<ContentBlock> = Vec::new();
    let mut i: usize = 0;
    while i < out.len()
        invariant
            i <= out@.len(),
            v == items_view(out@),
            content.deep_view() == flat_map(v.take(i as int), |it: JsonV| output_item_blocks(it)),
        decreases out.len() - i,
    {
        proof {
            lemma_take_succ(v, i as int);
        }
        assert(v[i as int] == out@[i as int]@);
        push_item_blocks(&mut content, &out[i]);
        i = i + 1;
    }
    assert(v.take(i as int) =~= v);
    let r = IrResponse {
        id: Some(j.str_or_empty("id")),
        model: Some(j.str_or_empty("model")),
        content,
        stop_reason: match j.str_of("status") {
            Some(s) => Some(status_stop_of(s.as_str())),
            None => None,
        },
        stop_sequence: None,
        usage: match j.present("usage") {
            Some(u) => usage_of(u),
            None => IrUsage::none(),
        },
        provider_extensions: no_members(),
    };
    assert(r@ =~= responses_response_ir(j@));
    r
}

fn stop_status_of(r: &Option<StopReason>) -> (s: String)
    ensures
        s@ == stop_status(r.deep_view()),
{
    match r {
        Some(StopReason::EndTurn) => "completed".to_string(),
        Some(StopReason::MaxTokens) => "incomplete".to_string(),
        Some(StopReason::ToolUse) => "ToolUse".to_string(),
        Some(StopReason::StopSequence) => "StopSequence".to_string(),
        Some(StopReason::ContentFilter) => "ContentFilter".to_string(),
        Some(StopReason::PauseTurn) => "PauseTurn".to_string(),
        Some(StopReason::Other(s)) => concat(&concat("Other(", &debug_text(s.as_str())), ")"),
        None => "completed".to_string(),
    }
}

fn call_output_item_of(id: &str, name: &str, args: String, status: &str) -> (r: Json)
    ensures
        r@ == call_output_item(id@, name@, args@, status@),
{
    let mut es = no_members();
    push_member(&mut es, "type", string("function_call"));
    push_member(&mut es, "id", string(id));
    push_member(&mut es, "call_id", string(id));
    push_member(&mut es, "name", string(name));
    push_member(&mut es, "arguments", Json::Str(args));
    push_member(&mut es, "status", string(status));
    object(es)
}

fn message_item_of(content: Vec<Json>, status: &str) -> (r: Json)
    ensures
        r@ == message_item(items_view(content@), status@),
{
    let mut es = no_members();
    push_member(&mut es, "type", string("message"));
    push_member(&mut es, "id", string("msg_0"));
    push_member(&mut es, "role", string("assistant"));
    push_member(&mut es, "content", array(content));
    push_member(&mut es, "status", string(status));
    object(es)
}

fn usage_json_of(u: &IrUsage) -> (r: Json)
    ensures
        r@ == resp_usage_json(*u),
{
    let mut es = no_members();
    push_member(&mut es, "input_tokens", int_json(count_or_zero_of(u.input_tokens)));
    push_member(&mut es, "output_tokens", int_json(count_or_zero_of(u.output_tokens)));
    push_member(&mut es, "total_tokens", int_json(count_or_zero_of(u.total_tokens)));
    object(es)
}

/// The responses response for `r` (see [`responses_response_json`]).
pub fn responses_response_to_json(r: &IrResponse) -> (j: Json)
    ensures
        j@ == responses_response_json(r@),
        forall|i: int| 0 <= i < r@.content.len() ==> call_args_read_back(#[trigger] r@.content[i]),
{
    let ghost v = r.content.deep_view();
    let mut texts = no_items();
    let mut calls = no_items();
    let mut i: usize = 0;
    while i < r.content.len()
        invariant
            i <= r.content@.len(),
            v == r.content.deep_view(),
            items_view(texts@) == v.take(i as int).filter_map(|b: ContentBlockV| block_text_of(b)).map_values(
                |t: Seq<char>| output_text_json(t),
            ),
            items_view(calls@) == v.take(i as int).filter_map(|b: ContentBlockV| block_call_item(b)),
            forall|j: int| 0 <= j < i ==> call_args_read_back(#[trigger] v[j]),
        decreases r.content.len() - i,
    {
        proof {
            v.lemma_filter_map_take_succ(|b: ContentBlockV| block_text_of(b), i as int);
            v.lemma_filter_map_take_succ(|b: ContentBlockV| block_call_item(b), i as int);
        }
        let b = &r.content[i];
        if b.content_type == ContentType::Text {
            match &b.text {
                Some(t) => {
                    push_item(&mut texts, output_text_of(t.text.clone()));
                },
                None => {},
            }
        }
        assert(items_view(texts@) =~= v.take(i + 1).filter_map(|b: ContentBlockV| block_text_of(b)).map_values(
            |t: Seq<char>| output_text_json(t),
        ));
        if b.content_type == ContentType::ToolUse {
            match &b.tool_use {
                Some(tu) => {
                    let args = args_text_of(&tu.arguments);
                    assert(call_args_read_back(v[i as int]));
                    push_item(
                        &mut calls,
                        call_output_item_of(tu.id.as_str(), tu.name.as_str(), args, "completed"),
                    );
                },
                None => {},
            }
        }
        assert(items_view(calls@) =~= v.take(i + 1).filter_map(|b: ContentBlockV| block_call_item(b)));
        i = i + 1;
    }
    assert(v.take(i as int) =~= v);
    let mut output = no_items();
    if texts.len() > 0 {
        push_item(&mut output, message_item_of(texts, "completed"));
    }
    let ghost before = items_view(output@);
    let mut k: usize = 0;
    while k < calls.len()
        invariant
            k <= calls@.len(),
            items_view(output@) == before + items_view(calls@).take(k as int),
        decreases calls.len() - k,
    {
        push_item(&mut output, calls[k].duplicate());
        assert(items_view(output@) =~= before + items_view(calls@).take(k + 1));
        k = k + 1;
    }
    assert(items_view(calls@).take(k as int) =~= items_view(calls@));
    let mut es = no_members();
    push_member(&mut es, "id", Json::Str(or_empty_of(&r.id)));
    push_member(&mut es, "object", string("response"));
    push_member(&mut es, "model", Json::Str(or_empty_of(&r.model)));
    push_member(&mut es, "output", array(output));
    push_member(&mut es, "usage", usage_json_of(&r.usage));
    push_member(&mut es, "status", Json::Str(stop_status_of(&r.stop_reason)));
    let j = object(es);
    assert(j@ =~= responses_response_json(r@));
    j
}

/// The protocol's error body (see [`responses_error_json`]).
pub fn responses_error_to_json(status_code: u16, message: &str) -> (j: Json)
    ensures
        j@ == responses_error_json(status_code, message@),
{
    let mut ees = no_members();
    push_member(&mut ees, "message", string(message));
    push_member(&mut ees, "type", string("invalid_request_error"));
    push_member(&mut ees, "code", Json::Str(crate::json::text_of_int(status_code as i64)));
    let mut es = no_members();
    push_member(&mut es, "error", object(ees));
    object(es)
}

// ---------------------------------------------------------------------------
// Stream events
// ---------------------------------------------------------------------------

/// Whether `j` has the shape of a stream event of one of the protocol's
/// types, with the members that type carries.
pub open spec fn resp_event_ok(j: JsonV) -> bool {
    let t = str_or_empty(j, "type"@);
    &&& j is Object
    &&& req_kind(j, "type"@, Kind::Str)
    &&& if t == "response.created"@ || t == "response.in_progress"@ || t == "response.completed"@ {
        member(j, "response"@) matches Some(r) && responses_response_ok(r)
    } else if t == "response.output_item.added"@ {
        req_kind(j, "output_index"@, Kind::I32) && (member(j, "item"@) matches Some(it) && output_item_ok(it))
    } else if t == "response.content_part.added"@ {
        &&& req_kind(j, "item_id"@, Kind::Str)
        &&& req_kind(j, "output_index"@, Kind::I32)
        &&& req_kind(j, "content_index"@, Kind::I32)
        &&& member(j, "part"@) matches Some(p) && part_ok(p)
    } else if t == "response.output_text.delta"@ {
        &&& req_kind(j, "item_id"@, Kind::Str)
        &&& req_kind(j, "output_index"@, Kind::I32)
        &&& req_kind(j, "content_index"@, Kind::I32)
        &&& req_kind(j, "delta"@, Kind::Str)
    } else if t == "response.function_call_arguments.delta"@ {
        &&& req_kind(j, "item_id"@, Kind::Str)
        &&& req_kind(j, "output_index"@, Kind::I32)
        &&& req_kind(j, "delta"@, Kind::Str)
    } else if t == "response.function_call_arguments.done"@ {
        &&& req_kind(j, "item_id"@, Kind::Str)
        &&& req_kind(j, "output_index"@, Kind::I32)
        &&& req_kind(j, "arguments"@, Kind::Str)
    } else if t == "response.output_item.done"@ {
        member(j, "item"@) matches Some(it) && output_item_ok(it)
    } else if t == "response.output_text.annotation.added"@ {
        true
    } else if t == "error"@ {
        opt_kind(j, "code"@, Kind::Str) && req_kind(j, "message"@, Kind::Str)
    } else {
        false
    }
}

/// The counts a response carries, when it carries any.
pub open spec fn resp_event_usage(r: JsonV) -> Option<IrUsage> {
    match present(r, "usage"@) {
        Some(u) => Some(resp_usage_ir(u)),
        None => None,
    }
}

/// The event a stream event stands for, by its type.
pub open spec fn resp_stream_event(j: JsonV) -> IrStreamEventV {
    let t = str_or_empty(j, "type"@);
    let idx = i32_of(j, "output_index"@);
    let r = member_or_null(j, "response"@);
    if t == "response.created"@ {
        IrStreamEventV {
            response: Some(
                IrResponseV {
                    id: Some(str_or_empty(r, "id"@)),
                    model: Some(str_or_empty(r, "model"@)),
                    content: Seq::empty(),
                    stop_reason: None,
                    stop_sequence: None,
                    usage: no_usage(),
                    provider_extensions: Seq::empty(),
                },
            ),
            usage: resp_event_usage(r),
            ..bare_event_v(StreamEventType::Start, 0)
        }
    } else if t == "response.output_item.added"@ {
        let it = member_or_null(j, "item"@);
        IrStreamEventV {
            delta: Some(
                if str_or_empty(it, "type"@) == "message"@ {
                    empty_block_v(ContentType::Text)
                } else {
                    tool_use_block_v(str_or_empty(it, "call_id"@), str_or_empty(it, "name"@), None)
                },
            ),
            ..bare_event_v(StreamEventType::ContentBlockStart, idx)
        }
    } else if t == "response.content_part.added"@ {
        bare_event_v(StreamEventType::Delta, idx)
    } else if t == "response.output_text.delta"@ {
        IrStreamEventV {
            delta: Some(text_block_v(str_or_empty(j, "delta"@))),
            ..bare_event_v(StreamEventType::Delta, idx)
        }
    } else if t == "response.function_call_arguments.delta"@ {
        IrStreamEventV {
            delta: Some(
                tool_use_block_v(
                    str_or_empty(j, "item_id"@),
                    Seq::empty(),
                    Some(JsonV::Str(str_or_empty(j, "delta"@))),
                ),
            ),
            ..bare_event_v(StreamEventType::Delta, idx)
        }
    } else if t == "response.function_call_arguments.done"@ {
        bare_event_v(StreamEventType::ContentBlockStop, idx)
    } else if t == "response.output_item.done"@ {
        bare_event_v(StreamEventType::ContentBlockStop, 0)
    } else if t == "response.completed"@ {
        IrStreamEventV {
            stop_reason: Some(StopReasonV::EndTurn),
            usage: resp_event_usage(r),
            ..bare_event_v(StreamEventType::Stop, 0)
        }
    } else if t == "error"@ {
        IrStreamEventV {
            error: Some(
                StreamErrorV {
                    error_type: Some("api_error"@),
                    code: str_of(j, "code"@),
                    message: Some(str_or_empty(j, "message"@)),
                    param: None,
                },
            ),
            ..bare_event_v(StreamEventType::Error, 0)
        }
    } else {
        bare_event_v(StreamEventType::Delta, 0)
    }
}

/// A response object in a stream event.
pub open spec fn stream_response_json(id: Seq<char>, model: Seq<char>, usage: JsonV, status: Option<JsonV>) -> JsonV {
    obj(
        seq![mv("id"@, JsonV::Str(id))].push(mv("object"@, JsonV::Str("response"@))).push(
            mv("model"@, JsonV::Str(model)),
        ).push(mv("output"@, JsonV::Array(Seq::empty()))).push(mv("usage"@, usage)) + opt_member(
            "status"@,
            status,
        ),
    )
}

/// The JSON of a stream event.
pub open spec fn resp_event_json(e: IrStreamEventV) -> JsonV {
    let index = num(e.index as int);
    let usage = match e.usage {
        Some(u) => resp_usage_json(u),
        None => JsonV::Null,
    };
    match e.event_type {
        StreamEventType::Start => obj(
            seq![mv("type"@, JsonV::Str("response.created"@))].push(
                mv(
                    "response"@,
                    match e.response {
                        Some(r) => stream_response_json(or_empty(r.id), or_empty(r.model), usage, None),
                        None => JsonV::Null,
                    },
                ),
            ),
        ),
        StreamEventType::ContentBlockStart => {
            let item = match e.delta {
                Some(d) => if d.content_type == ContentType::ToolUse {
                    let (id, name) = match d.tool_use {
                        Some(tu) => (tu.id, tu.name),
                        None => (Seq::empty(), Seq::empty()),
                    };
                    call_output_item(id, name, Seq::empty(), "in_progress"@)
                } else {
                    message_item(Seq::empty(), "in_progress"@)
                },
                None => message_item(Seq::empty(), "in_progress"@),
            };
            obj(
                seq![mv("type"@, JsonV::Str("response.output_item.added"@))].push(
                    mv("output_index"@, index),
                ).push(mv("item"@, item)),
            )
        },
        StreamEventType::Delta => if e.delta matches Some(d) && d.content_type == ContentType::ToolUse {
            let tu = e.delta->0.tool_use;
            obj(
                seq![mv("type"@, JsonV::Str("response.function_call_arguments.delta"@))].push(
                    mv(
                        "item_id"@,
                        JsonV::Str(
                            match tu {
                                Some(t) => t.id,
                                None => Seq::empty(),
                            },
                        ),
                    ),
                ).push(mv("output_index"@, index)).push(
                    mv(
                        "delta"@,
                        JsonV::Str(
                            match tu {
                                Some(t) => args_text(t.arguments),
                                None => Seq::empty(),
                            },
                        ),
                    ),
                ),
            )
        } else {
            obj(
                seq![mv("type"@, JsonV::Str("response.output_text.delta"@))].push(
                    mv("item_id"@, JsonV::Str("msg_0"@)),
                ).push(mv("output_index"@, index)).push(mv("content_index"@, num(0))).push(
                    mv(
                        "delta"@,
                        JsonV::Str(
                            match e.delta {
                                Some(d) => or_empty(d.text),
                                None => Seq::empty(),
                            },
                        ),
                    ),
                ),
            )
        },
        StreamEventType::ContentBlockStop => obj(
            seq![mv("type"@, JsonV::Str("response.output_item.done"@))].push(mv("output_index"@, index)),
        ),
        StreamEventType::Stop => obj(
            seq![mv("type"@, JsonV::Str("response.completed"@))].push(
                mv(
                    "response"@,
                    stream_response_json(
                        match e.response {
                            Some(r) => or_empty(r.id),
                            None => Seq::empty(),
                        },
                        match e.response {
                            Some(r) => or_empty(r.model),
                            None => Seq::empty(),
                        },
                        usage,
                        Some(JsonV::Str("completed"@)),
                    ),
                ),
            ),
        ),
        StreamEventType::Error => obj(
            seq![mv("type"@, JsonV::Str("error"@))].push(
                mv(
                    "code"@,
                    match e.error {
                        Some(er) => match er.code {
                            Some(c) => JsonV::Str(c),
                            None => JsonV::Null,
                        },
                        None => JsonV::Null,
                    },
                ),
            ).push(
                mv(
                    "message"@,
                    JsonV::Str(
                        match e.error {
                            Some(er) => match er.message {
                                Some(m) => m,
                                None => "unknown error"@,
                            },
                            None => "unknown error"@,
                        },
                    ),
                ),
            ),
        ),
    }
}

/// The server-sent event text for `e`.
pub open spec fn resp_stream_text(e: IrStreamEventV) -> Seq<char> {
    "data: "@ + printed_json(resp_event_json(e)) + "\n\n"@
}

/// Whether `j` has the shape of a stream event of the protocol.
pub fn check_responses_event(j: &Json) -> (r: bool)
    ensures
        r == resp_event_ok(j@),
{
    if !(j.is_kind(Kind::Object) && j.req_kind("type", Kind::Str)) {
        return false;
    }
    let t = j.str_or_empty("type");
    let t = t.as_str();
    if str_eq(t, "response.created") || str_eq(t, "response.in_progress") || str_eq(t, "response.completed") {
        match j.member("response") {
            Some(r) => check_responses_response(r),
            None => false,
        }
    } else if str_eq(t, "response.output_item.added") {
        j.req_kind("output_index", Kind::I32) && match j.member("item") {
            Some(it) => check_output_item(it),
            None => false,
        }
    } else if str_eq(t, "response.content_part.added") {
        j.req_kind("item_id", Kind::Str) && j.req_kind("output_index", Kind::I32) && j.req_kind(
            "content_index",
            Kind::I32,
        ) && match j.member("part") {
            Some(p) => check_part(p),
            None => false,
        }
    } else if str_eq(t, "response.output_text.delta") {
        j.req_kind("item_id", Kind::Str) && j.req_kind("output_index", Kind::I32) && j.req_kind(
            "content_index",
            Kind::I32,
        ) && j.req_kind("delta", Kind::Str)
    } else if str_eq(t, "response.function_call_arguments.delta") {
        j.req_kind("item_id", Kind::Str) && j.req_kind("output_index", Kind::I32) && j.req_kind(
            "delta",
            Kind::Str,
        )
    } else if str_eq(t, "response.function_call_arguments.done") {
        j.req_kind("item_id", Kind::Str) && j.req_kind("output_index", Kind::I32) && j.req_kind(
            "arguments",
            Kind::Str,
        )
    } else if str_eq(t, "response.output_item.done") {
        match j.member("item") {
            Some(it) => check_output_item(it),
            None => false,
        }
    } else if str_eq(t, "response.output_text.annotation.added") {
        true
    } else if str_eq(t, "error") {
        j.opt_kind("code", Kind::Str) && j.req_kind("message", Kind::Str)
    } else {
        false
    }
}

fn event_usage_of(r: Option<&Json>) -> (u: Option<IrUsage>)
    ensures
        u == resp_event_usage(match r {
            Some(x) => x@,
            None => JsonV::Null,
        }),
{
    match r {
        Some(x) => match x.present("usage") {
            Some(u) => Some(usage_of(u)),
            None => None,
        },
        None => None,
    }
}

/// The event a parsed stream event stands for (see [`resp_stream_event`]).
pub fn responses_event_to_ir(j: &Json) -> (r: IrStreamEvent)
    ensures
        r@ == resp_stream_event(j@),
{
    let t = j.str_or_empty("type");
    let t = t.as_str();
    let idx = j.i32_of("output_index");
    if str_eq(t, "response.created") {
        let resp = j.member("response");
        let (id, model) = match resp {
            Some(r) => (r.str_or_empty("id"), r.str_or_empty("model")),
            None => (String::new(), String::new()),
        };
        let ir = IrResponse {
            id: Some(id),
            model: Some(model),
            content: Vec::new(),
            stop_reason: None,
            stop_sequence: None,
            usage: IrUsage::none(),
            provider_extensions: no_members(),
        };
        assert(ir@.content =~= Seq::<ContentBlockV>::empty());
        let mut e = IrStreamEvent::bare(StreamEventType::Start, 0);
        e.response = Some(ir);
        e.usage = event_usage_of(resp);
        assert(e@ =~= resp_stream_event(j@));
        e
    } else if str_eq(t, "response.output_item.added") {
        let ghost itv = member_or_null(j@, "item"@);
        let b = match j.member("item") {
            Some(it) => {
                assert(it@ == itv);
                if str_eq(it.str_or_empty("type").as_str(), "message") {
                    ContentBlock::empty(ContentType::Text)
                } else {
                    ContentBlock::tool_use_block(it.str_or_empty("call_id"), it.str_or_empty("name"), None)
                }
            },
            None => {
                proof {
                    reveal_strlit("message");
                }
                assert(itv == JsonV::Null);
                assert("message"@.len() == 7);
                assert(str_or_empty(itv, "type"@).len() == 0);
                assert(str_or_empty(itv, "type"@) != "message"@);
                let r = ContentBlock::tool_use_block(String::new(), String::new(), None);
                assert(r@ == tool_use_block_v(str_or_empty(itv, "call_id"@), str_or_empty(itv, "name"@), None));
                r
            },
        };
        let mut e = IrStreamEvent::bare(StreamEventType::ContentBlockStart, idx);
        e.delta = Some(b);
        assert(e@ =~= resp_stream_event(j@));
        e
    } else if str_eq(t, "response.content_part.added") {
        IrStreamEvent::bare(StreamEventType::Delta, idx)
    } else if str_eq(t, "response.output_text.delta") {
        let mut e = IrStreamEvent::bare(StreamEventType::Delta, idx);
        e.delta = Some(ContentBlock::text_block(j.str_or_empty("delta")));
        e
    } else if str_eq(t, "response.function_call_arguments.delta") {
        let mut e = IrStreamEvent::bare(StreamEventType::Delta, idx);
        e.delta = Some(
            ContentBlock::tool_use_block(j.str_or_empty("item_id"), String::new(), Some(Json::Str(j.str_or_empty("delta")))),
        );
        e
    } else if str_eq(t, "response.function_call_arguments.done") {
        IrStreamEvent::bare(StreamEventType::ContentBlockStop, idx)
    } else if str_eq(t, "response.output_item.done") {
        IrStreamEvent::bare(StreamEventType::ContentBlockStop, 0)
    } else if str_eq(t, "response.completed") {
        let mut e = IrStreamEvent::bare(StreamEventType::Stop, 0);
        e.stop_reason = Some(StopReason::EndTurn);
        e.usage = event_usage_of(j.member("response"));
        assert(e@ =~= resp_stream_event(j@));
        e
    } else if str_eq(t, "error") {
        let mut e = IrStreamEvent::bare(StreamEventType::Error, 0);
        e.error = Some(
            StreamError {
                error_type: Some("api_error".to_string()),
                code: j.str_of("code"),
                message: Some(j.str_or_empty("message")),
                param: None,
            },
        );
        e
    } else {
        IrStreamEvent::bare(StreamEventType::Delta, 0)
    }
}

fn stream_response_of(id: String, model: String, usage: Json, status: Option<Json>) -> (r: Json)
    ensures
        r@ == stream_response_json(id@, model@, usage@, opt_json(status)),
{
    let mut es = no_members();
    push_member(&mut es, "id", Json::Str(id));
    push_member(&mut es, "object", string("response"));
    push_member(&mut es, "model", Json::Str(model));
    push_member(&mut es, "output", array(no_items()));
    push_member(&mut es, "usage", usage);
    push_opt_member(&mut es, "status", status);
    object(es)
}

/// The JSON of a stream event (see [`resp_event_json`]).
pub fn responses_event_to_json(e: &IrStreamEvent) -> (r: Json)
    ensures
        r@ == resp_event_json(e@),
{
    let index = int_json(e.index as i64);
    let usage = match &e.usage {
        Some(u) => usage_json_of(u),
        None => Json::Null,
    };
    match e.event_type {
        StreamEventType::Start => {
            let resp = match &e.response {
                Some(r) => stream_response_of(or_empty_of(&r.id), or_empty_of(&r.model), usage, None),
                None => Json::Null,
            };
            let mut es = no_members();
            push_member(&mut es, "type", string("response.created"));
            push_member(&mut es, "response", resp);
            object(es)
        },
        StreamEventType::ContentBlockStart => {
            let item = match &e.delta {
                Some(d) => {
                    if d.content_type == ContentType::ToolUse {
                        let (id, name) = match &d.tool_use {
                            Some(tu) => (tu.id.clone(), tu.name.clone()),
                            None => (String::new(), String::new()),
                        };
                        call_output_item_of(id.as_str(), name.as_str(), String::new(), "in_progress")
                    } else {
                        message_item_of(no_items(), "in_progress")
                    }
                },
                None => message_item_of(no_items(), "in_progress"),
            };
            let mut es = no_members();
            push_member(&mut es, "type", string("response.output_item.added"));
            push_member(&mut es, "output_index", index);
            push_member(&mut es, "item", item);
            object(es)
        },
        StreamEventType::Delta => {
            let is_tool = match &e.delta {
                Some(d) => d.content_type == ContentType::ToolUse,
                None => false,
            };
            if is_tool {
                let (id, args) = match &e.delta {
                    Some(d) => match &d.tool_use {
                        Some(tu) => (tu.id.clone(), args_text_of(&tu.arguments)),
                        None => (String::new(), String::new()),
                    },
                    None => (String::new(), String::new()),
                };
                let mut es = no_members();
                push_member(&mut es, "type", string("response.function_call_arguments.delta"));
                push_member(&mut es, "item_id", Json::Str(id));
                push_member(&mut es, "output_index", index);
                push_member(&mut es, "delta", Json::Str(args));
                object(es)
            } else {
                let text = match &e.delta {
                    Some(d) => match &d.text {
                        Some(t) => t.text.clone(),
                        None => String::new(),
                    },
                    None => String::new(),
                };
                let mut es = no_members();
                push_member(&mut es, "type", string("response.output_text.delta"));
                push_member(&mut es, "item_id", string("msg_0"));
                push_member(&mut es, "output_index", index);
                push_member(&mut es, "content_index", int_json(0));
                push_member(&mut es, "delta", Json::Str(text));
                object(es)
            }
        },
        StreamEventType::ContentBlockStop => {
            let mut es = no_members();
            push_member(&mut es, "type", string("response.output_item.done"));
            push_member(&mut es, "output_index", index);
            object(es)
        },
        StreamEventType::Stop => {
            let (id, model) = match &e.response {
                Some(r) => (or_empty_of(&r.id), or_empty_of(&r.model)),
                None => (String::new(), String::new()),
            };
            let resp = stream_response_of(id, model, usage, Some(string("completed")));
            let mut es = no_members();
            push_member(&mut es, "type", string("response.completed"));
            push_member(&mut es, "response", resp);
            object(es)
        },
        StreamEventType::Error => {
            let code = match &e.error {
                Some(er) => match &er.code {
                    Some(c) => Json::Str(c.clone()),
                    None => Json::Null,
                },
                None => Json::Null,
            };
            let msg = match &e.error {
                Some(er) => match &er.message {
                    Some(m) => m.clone(),
                    None => "unknown error".to_string(),
                },
                None => "unknown error".to_string(),
            };
            let mut es = no_members();
            push_member(&mut es, "type", string("error"));
            push_member(&mut es, "code", code);
            push_member(&mut es, "message", Json::Str(msg));
            object(es)
        },
    }
}

/// The server-sent event text for `e` (see [`resp_stream_text`]).
pub fn responses_event_to_text(e: &IrStreamEvent) -> (r: String)
    ensures
        r@ == resp_stream_text(e@),
        json_canonical(resp_event_json(e@), 100) ==> reads_back(
            printed_json(resp_event_json(e@)),
            resp_event_json(e@),
        ),
        crate::sse::strip_prefix(r@, "data: "@) == Some(printed_json(resp_event_json(e@)) + "\n\n"@),
        crate::sse::trim_end(printed_json(resp_event_json(e@)) + "\n\n"@) == printed_json(
            resp_event_json(e@),
        ),
{
    let p = print_json(&responses_event_to_json(e));
    proof {
        crate::sse::lemma_written_payload(p@);
    }
    concat(&concat("data: ", &p), "\n\n")
}

// ---------------------------------------------------------------------------
// The codec
// ---------------------------------------------------------------------------

/// What decoding the parsed request `j` gives.
pub open spec fn responses_decode_outcome(j: JsonV, r: Result<IrRequest, CodecError>) -> bool {
    if responses_request_ok(j) {
        r matches Ok(ir) && ir@ == responses_request_ir(j)
    } else {
        r matches Err(CodecError::Decode(m)) && m@ == "invalid responses request: unexpected shape"@
    }
}

/// Decodes a parsed responses request.
pub fn decode_responses_request_json(j: &Json) -> (r: Result<IrRequest, CodecError>)
    ensures
        responses_decode_outcome(j@, r),
{
    if check_responses_request(j) {
        Ok(responses_request_to_ir(j))
    } else {
        Err(CodecError::Decode("invalid responses request: unexpected shape".to_string()))
    }
}

/// What decoding the parsed response `j` gives.
pub open spec fn responses_response_outcome(j: JsonV, r: Result<IrResponse, CodecError>) -> bool {
    if responses_response_ok(j) {
        r matches Ok(resp) && resp@ == responses_response_ir(j)
    } else {
        r matches Err(CodecError::Json(m)) && m@ == "unexpected shape of a responses response"@
    }
}

/// Decodes a parsed responses response.
pub fn decode_responses_response_json(j: &Json) -> (r: Result<IrResponse, CodecError>)
    ensures
        responses_response_outcome(j@, r),
{
    if check_responses_response(j) {
        Ok(responses_response_to_ir(j))
    } else {
        Err(CodecError::Json("unexpected shape of a responses response".to_string()))
    }
}

/// Decodes a responses response body: an error when it is not JSON, else
/// as [`decode_responses_response_json`] does.
pub fn decode_response_impl(body: &[u8]) -> (r: Result<IrResponse, CodecError>)
    ensures
        match parsed_json_bytes(body@) {
            Err(e) => r matches Err(CodecError::Json(m)) && m@ == e,
            Ok(j) => responses_response_outcome(j, r),
        },
{
    match parse_json_bytes(body) {
        Ok(j) => decode_responses_response_json(&j),
        Err(e) => Err(CodecError::Json(e)),
    }
}

/// Writes a response as a responses response body.
pub fn encode_response_impl(response: &IrResponse) -> (r: Result<Vec<u8>, CodecError>)
    ensures
        r matches Ok(b) && b@ == encode_utf8(printed_json(responses_response_json(response@))),
        json_canonical(responses_response_json(response@), 100) ==> reads_back(printed_json(responses_response_json(response@)), responses_response_json(response@)),
        forall|i: int|
            0 <= i < response@.content.len() ==> call_args_read_back(#[trigger] response@.content[i]),
{
    Ok(bytes_of(print_json(&responses_response_to_json(response)).as_str()))
}

/// What decoding the parsed stream event `j` gives.
pub open spec fn responses_event_outcome(j: JsonV, r: Result<IrStreamEvent, CodecError>) -> bool {
    if resp_event_ok(j) {
        r matches Ok(e) && e@ == resp_stream_event(j)
    } else {
        r matches Err(CodecError::Decode(m)) && m@ == "invalid stream event: unexpected shape"@
    }
}

/// Decodes a parsed stream event.
pub fn decode_responses_event_json(j: &Json) -> (r: Result<IrStreamEvent, CodecError>)
    ensures
        responses_event_outcome(j@, r),
{
    if check_responses_event(j) {
        Ok(responses_event_to_ir(j))
    } else {
        Err(CodecError::Decode("invalid stream event: unexpected shape".to_string()))
    }
}

impl ResponsesCodec {
    /// The body of a responses error for an adapter error: an
    /// `invalid_request_error` carrying the error's text and the code `500`.
    pub fn encode_error(&self, error: &AdapterError) -> (r: Vec<u8>)
        ensures
            r@ == encode_utf8(printed_json(responses_error_json(500, adapter_error_text(error)))),
    {
        bytes_of(print_json(&responses_error_to_json(500, error.describe().as_str())).as_str())
    }
}

impl Codec for ResponsesCodec {
    fn protocol(&self) -> (p: Protocol)
        ensures
            p == Protocol::OpenAiResponses,
    {
        Protocol::OpenAiResponses
    }

    fn decode_request(&self, body: &[u8]) -> (r: Result<IrRequest, CodecError>)
        ensures
            match parsed_json_bytes(body@) {
                Err(e) => r matches Err(CodecError::Decode(m)) && m@ == "invalid responses request: "@ + e,
                Ok(j) => responses_decode_outcome(j, r),
            },
    {
        match parse_json_bytes(body) {
            Ok(j) => decode_responses_request_json(&j),
            Err(e) => Err(CodecError::Decode(concat("invalid responses request: ", e.as_str()))),
        }
    }

    fn encode_request(&self, request: &IrRequest) -> (r: Result<Vec<u8>, CodecError>)
        ensures
            r matches Ok(b) && b@ == encode_utf8(printed_json(responses_request_json(request@))),
            json_canonical(responses_request_json(request@), 100) ==> reads_back(printed_json(responses_request_json(request@)), responses_request_json(request@)),
    {
        Ok(bytes_of(print_json(&responses_request_to_json(request)).as_str()))
    }

    fn decode_response(&self, body: &[u8]) -> (r: Result<IrResponse, CodecError>)
        ensures
            match parsed_json_bytes(body@) {
                Err(e) => r matches Err(CodecError::Json(m)) && m@ == e,
                Ok(j) => responses_response_outcome(j, r),
            },
    {
        decode_response_impl(body)
    }

    fn encode_response(&self, response: &IrResponse) -> (r: Result<Vec<u8>, CodecError>)
        ensures
            r matches Ok(b) && b@ == encode_utf8(printed_json(responses_response_json(response@))),
            json_canonical(responses_response_json(response@), 100) ==> reads_back(printed_json(responses_response_json(response@)), responses_response_json(response@)),
            forall|i: int|
                0 <= i < response@.content.len() ==> call_args_read_back(#[trigger] response@.content[i]),
    {
        encode_response_impl(response)
    }

    fn decode_stream_event(&self, event_type: Option<&str>, data: &str) -> (r: Result<
        IrStreamEvent,
        CodecError,
    >)
        ensures
            match parsed_json_text(data@) {
                Err(e) => r matches Err(CodecError::Decode(m)) && m@ == "invalid stream event: "@ + e,
                Ok(j) => responses_event_outcome(j, r),
            },
    {
        match parse_json_text(data) {
            Ok(j) => decode_responses_event_json(&j),
            Err(e) => Err(CodecError::Decode(concat("invalid stream event: ", e.as_str()))),
        }
    }

    fn encode_stream_event(&self, event: &IrStreamEvent) -> (r: Result<String, CodecError>)
        ensures
            r matches Ok(s) && s@ == resp_stream_text(event@),
            json_canonical(resp_event_json(event@), 100) ==> reads_back(
                printed_json(resp_event_json(event@)),
                resp_event_json(event@),
            ),
            crate::sse::trim_end(printed_json(resp_event_json(event@)) + "\n\n"@) == printed_json(
                resp_event_json(event@),
            ),
    {
        Ok(responses_event_to_text(event))
    }

    fn known_fields(&self) -> (r: Vec<String>)
        ensures
            r.deep_view() == responses_known_fields(),
    {
        responses_known_field_names()
    }

    fn write_error(&self, status_code: u16, message: &str) -> (r: Vec<u8>)
        ensures
            r@ == encode_utf8(printed_json(responses_error_json(status_code, message@))),
            reads_back(
                printed_json(responses_error_json(status_code, message@)),
                responses_error_json(status_code, message@),
            ),
    {
        proof {
            lemma_error_canonical(status_code, message@);
        }
        bytes_of(print_json(&responses_error_to_json(status_code, message)).as_str())
    }
}

// ---------------------------------------------------------------------------
// Text deltas read back
// ---------------------------------------------------------------------------

/// The event a text delta at `index` carrying `text` is read back as.
pub open spec fn text_delta_v(index: i32, text: Seq<char>) -> IrStreamEventV {
    IrStreamEventV { delta: Some(text_block_v(text)), ..bare_event_v(StreamEventType::Delta, index) }
}

/// The members a text delta is written with.
pub open spec fn text_delta_members(index: i32, text: Seq<char>) -> Seq<MemberV> {
    seq![mv("type"@, JsonV::Str("response.output_text.delta"@))].push(
        mv("item_id"@, JsonV::Str("msg_0"@)),
    ).push(mv("output_index"@, num(index as int))).push(mv("content_index"@, num(0))).push(
        mv("delta"@, JsonV::Str(text)),
    )
}

proof fn lemma_text_delta_canonical(index: i32, text: Seq<char>)
    ensures
        json_canonical(JsonV::Object(text_delta_members(index, text)), 100),
{
    let ms = text_delta_members(index, text);
    let j = JsonV::Object(ms);
    reveal_strlit("type");
    reveal_strlit("item_id");
    reveal_strlit("output_index");
    reveal_strlit("content_index");
    reveal_strlit("delta");
    assert(ms.len() == 5);
    assert(ms[0].key.len() == 4 && ms[1].key.len() == 7 && ms[2].key.len() == 12 && ms[3].key.len()
        == 13 && ms[4].key.len() == 5);
    assert forall|a: int, b: int| 0 <= a < b < ms.len() implies #[trigger] ms[a].key != #[trigger] ms[
        b].key by {
        assert(ms[a].key.len() != ms[b].key.len());
    }
    assert(crate::json::keys_distinct(ms));
    crate::json::lemma_int_text_reads_back(index as int);
    crate::json::lemma_int_text_reads_back(0);
    assert(json_canonical(ms[0].value, 99));
    assert(json_canonical(ms[1].value, 99));
    assert(json_canonical(ms[2].value, 99));
    assert(json_canonical(ms[3].value, 99));
    assert(json_canonical(ms[4].value, 99));
    assert(crate::json::members_canonical(j, 0, 99));
    assert(crate::json::members_canonical(j, 1, 99));
    assert(crate::json::members_canonical(j, 2, 99));
    assert(crate::json::members_canonical(j, 3, 99));
    assert(crate::json::members_canonical(j, 4, 99));
    assert(crate::json::members_canonical(j, 5, 99));
}

proof fn lemma_text_delta_shape(index: i32, text: Seq<char>)
    ensures
        resp_event_ok(JsonV::Object(text_delta_members(index, text))),
        resp_stream_event(JsonV::Object(text_delta_members(index, text))) == text_delta_v(index, text),
{
    let j = JsonV::Object(text_delta_members(index, text));
    reveal_strlit("type");
    reveal_strlit("item_id");
    reveal_strlit("output_index");
    reveal_strlit("content_index");
    reveal_strlit("delta");
    reveal_strlit("response.output_text.delta");
    crate::json::lemma_int_text_reads_back(index as int);
    crate::json::lemma_int_text_reads_back(0);
    let ms = text_delta_members(index, text);
    assert(ms[0].key.len() == 4 && ms[1].key.len() == 7 && ms[2].key.len() == 12 && ms[3].key.len()
        == 13 && ms[4].key.len() == 5);
    crate::json::lemma_find_member_first(ms, "type"@, 0);
    crate::json::lemma_find_member_first(ms, "item_id"@, 1);
    crate::json::lemma_find_member_first(ms, "output_index"@, 2);
    crate::json::lemma_find_member_first(ms, "content_index"@, 3);
    crate::json::lemma_find_member_first(ms, "delta"@, 4);
    assert(member(j, "type"@) == Some(JsonV::Str("response.output_text.delta"@)));
    assert(member(j, "item_id"@) == Some(JsonV::Str("msg_0"@)));
    assert(member(j, "output_index"@) == Some(num(index as int)));
    assert(member(j, "content_index"@) == Some(num(0)));
    assert(member(j, "delta"@) == Some(JsonV::Str(text)));
    let t = "response.output_text.delta"@;
    reveal_strlit("response.created");
    reveal_strlit("response.in_progress");
    reveal_strlit("response.completed");
    reveal_strlit("response.output_item.added");
    reveal_strlit("response.content_part.added");
    assert(t.len() == 26);
    assert(t != "response.created"@);
    assert(t != "response.in_progress"@);
    assert(t != "response.completed"@);
    assert(t[16] != "response.output_item.added"@[16]);
    assert(t != "response.output_item.added"@);
    assert(t != "response.content_part.added"@);
    assert(crate::json::str_or_empty(j, "type"@) == t);
    assert(crate::json::int_of(j, "output_index"@) == Some(index as i64));
    assert(crate::json::int_of(j, "content_index"@) == Some(0i64));
    assert(crate::json::i32_of(j, "output_index"@) == index);
    assert(resp_event_ok(j));
    assert(resp_stream_event(j) =~= text_delta_v(index, text));
}

/// A text delta written by this protocol reads back as the same delta:
/// after `data: ` the written text is the printed JSON and a blank line
/// (and the encoder states that trimming its end leaves the printed JSON),
/// the JSON is canonical (so serde_json reads the printed text back as it,
/// see the encoder), it has the shape of a stream event, and it decodes to
/// a delta at the same index carrying the same text.
pub proof fn law_text_delta_round_trip(e: IrStreamEventV)
    requires
        e.event_type == StreamEventType::Delta,
        e.delta matches Some(d) && d.content_type == ContentType::Text,
    ensures
        resp_stream_text(e) == "data: "@ + printed_json(resp_event_json(e)) + "\n\n"@,
        crate::sse::strip_prefix(resp_stream_text(e), "data: "@) == Some(
            printed_json(resp_event_json(e)) + "\n\n"@,
        ),
        json_canonical(resp_event_json(e), 100),
        resp_event_ok(resp_event_json(e)),
        resp_stream_event(resp_event_json(e)) == text_delta_v(e.index, or_empty(e.delta->0.text)),
{
    let t = or_empty(e.delta->0.text);
    assert(resp_event_json(e) == JsonV::Object(text_delta_members(e.index, t)));
    lemma_text_delta_canonical(e.index, t);
    lemma_text_delta_shape(e.index, t);
    crate::sse::lemma_strip_data(printed_json(resp_event_json(e)));
}

// ---------------------------------------------------------------------------
// Requests written back
// ---------------------------------------------------------------------------

/// A request's instructions, tool choice and previous response survive
/// decoding and writing back: a responses request whose `instructions` is
/// the non-empty text `x`, whose `tool_choice` is `"auto"`, `"none"` or
/// `"required"`, and whose `previous_response_id` is `p` is written again
/// with those three members holding the same values.
pub proof fn law_request_round_trip(j: JsonV, x: Seq<char>, choice: Seq<char>, p: Seq<char>)
    requires
        member(j, "instructions"@) == Some(JsonV::Str(x)),
        x.len() > 0,
        member(j, "tool_choice"@) == Some(JsonV::Str(choice)),
        choice == "auto"@ || choice == "none"@ || choice == "required"@,
        member(j, "previous_response_id"@) == Some(JsonV::Str(p)),
    ensures
        member(responses_request_json(responses_request_ir(j)), "instructions"@) == Some(JsonV::Str(x)),
        member(responses_request_json(responses_request_ir(j)), "tool_choice"@) == Some(
            JsonV::Str(choice),
        ),
        member(responses_request_json(responses_request_ir(j)), "previous_response_id"@) == Some(
            JsonV::Str(p),
        ),
{
    lemma_decoded_request_fields(j, x, choice, p);
    lemma_written_request_members(responses_request_ir(j), x, choice, p);
}

/// What decoding keeps of a request's instructions, tool choice and
/// previous response.
proof fn lemma_decoded_request_fields(j: JsonV, x: Seq<char>, choice: Seq<char>, p: Seq<char>)
    requires
        member(j, "instructions"@) == Some(JsonV::Str(x)),
        x.len() > 0,
        member(j, "tool_choice"@) == Some(JsonV::Str(choice)),
        choice == "auto"@ || choice == "none"@ || choice == "required"@,
        member(j, "previous_response_id"@) == Some(JsonV::Str(p)),
    ensures
        resp_instructions(responses_request_ir(j).system_prompt) == Some(x),
        responses_request_ir(j).tool_choice is Some,
        resp_tool_choice_json(responses_request_ir(j).tool_choice.unwrap()) == JsonV::Str(choice),
        previous_response_id(responses_request_ir(j).provider_extensions) == Some(p),
{
    let r = responses_request_ir(j);
    reveal_strlit("model");
    reveal_strlit("instructions");
    reveal_strlit("input");
    reveal_strlit("tools");
    reveal_strlit("tool_choice");
    reveal_strlit("stream");
    reveal_strlit("temperature");
    reveal_strlit("top_p");
    reveal_strlit("max_output_tokens");
    reveal_strlit("previous_response_id");
    reveal_strlit("auto");
    reveal_strlit("none");
    reveal_strlit("required");
    reveal_strlit("any");
    // The instructions.
    assert(str_or_empty(j, "instructions"@) == x);
    assert(r.system_prompt == seq![text_block_v(x)]);
    let texts = r.system_prompt.filter_map(|b: ContentBlockV| crate::chat::any_text(b));
    assert(texts =~= seq![x]) by {
        r.system_prompt.lemma_filter_map_take_succ(|b: ContentBlockV| crate::chat::any_text(b), 0);
        assert(r.system_prompt.take(1) =~= r.system_prompt);
        assert(r.system_prompt.take(0) =~= Seq::<ContentBlockV>::empty());
    }
    assert(crate::text::join_all(texts) == x) by {
        assert(texts.len() == 1);
        assert(texts.drop_last() =~= Seq::<Seq<char>>::empty());
        assert(crate::text::join_all(Seq::<Seq<char>>::empty()) == Seq::<char>::empty());
        assert(crate::text::join_all(texts.drop_last()) == Seq::<char>::empty());
        assert(texts.last() == x);
        assert(Seq::<char>::empty() + x =~= x);
    }
    assert(resp_instructions(r.system_prompt) == Some(x));
    // The tool choice.
    let tc = match r.tool_choice {
        Some(c) => Some(resp_tool_choice_json(c)),
        None => None,
    };
    assert(tc == Some(JsonV::Str(choice)));
    // The previous response.
    let ext = r.provider_extensions;
    assert(ext == resp_extensions(j));
    assert(str_of(j, "previous_response_id"@) == Some(p));
    assert(ext[0] == mv("previous_response_id"@, JsonV::Str(p)));
    assert(previous_response_id(ext) == Some(p));
}

/// Where the instructions, tool choice and previous response stand among
/// the members of a written request.
proof fn lemma_written_request_members(r: IrRequestV, x: Seq<char>, choice: Seq<char>, p: Seq<char>)
    requires
        resp_instructions(r.system_prompt) == Some(x),
        r.tool_choice is Some,
        resp_tool_choice_json(r.tool_choice.unwrap()) == JsonV::Str(choice),
        previous_response_id(r.provider_extensions) == Some(p),
    ensures
        member(responses_request_json(r), "instructions"@) == Some(JsonV::Str(x)),
        member(responses_request_json(r), "tool_choice"@) == Some(JsonV::Str(choice)),
        member(responses_request_json(r), "previous_response_id"@) == Some(JsonV::Str(p)),
{
    reveal_strlit("model");
    reveal_strlit("instructions");
    reveal_strlit("input");
    reveal_strlit("tools");
    reveal_strlit("tool_choice");
    reveal_strlit("previous_response_id");
    reveal_strlit("stream");
    reveal_strlit("temperature");
    reveal_strlit("top_p");
    reveal_strlit("max_output_tokens");
    let tc = match r.tool_choice {
        Some(c) => Some(resp_tool_choice_json(c)),
        None => None,
    };
    let ext = r.provider_extensions;
    // Where each member stands.
    let a0 = seq![mv("model"@, JsonV::Str(r.model))];
    let a1 = opt_member("instructions"@, opt_str_v(resp_instructions(r.system_prompt)));
    let a2 = seq![mv("input"@, JsonV::Array(flat_map(r.messages, |m: IrMessageV| message_items(m))))];
    let a3 = opt_member("tools"@, nonempty(r.tools.map_values(|t: IrToolV| resp_tool_json(t))));
    let a4 = opt_member("tool_choice"@, tc);
    let a5 = opt_member("stream"@, opt_bool_v(r.stream));
    let a6 = opt_member("temperature"@, opt_num_v(r.temperature));
    let a7 = opt_member("top_p"@, opt_num_v(r.top_p));
    let a8 = opt_member("max_output_tokens"@, opt_int_v(r.max_tokens));
    let a9 = opt_member("previous_response_id"@, opt_str_v(previous_response_id(ext)));
    let rest = opt_member(
        "text"@,
        match r.response_format {
            Some(rf) => Some(resp_text_json(rf)),
            None => None,
        },
    ) + unknown_members(ext, seq!["previous_response_id"@]);
    let ms = obj_members(responses_request_json(r));
    assert(ms =~= a0 + a1 + a2 + a3 + a4 + a5 + a6 + a7 + a8 + a9 + rest);
    let ki = "instructions"@;
    let kc = "tool_choice"@;
    let kp = "previous_response_id"@;
    assert(a0.len() == 1 && a0[0].key == "model"@);
    assert(a2.len() == 1 && a2[0].key == "input"@);
    assert(crate::json::lacks_key(a0, ki) && crate::json::lacks_key(a0, kc) && crate::json::lacks_key(
        a0,
        kp,
    )) by {
        assert forall|i: int| 0 <= i < a0.len() implies (#[trigger] a0[i]).key != ki && a0[i].key != kc
            && a0[i].key != kp by {
            assert(i == 0);
            assert(a0[i].key.len() != ki.len());
            assert(a0[i].key.len() != kc.len());
            assert(a0[i].key.len() != kp.len());
        }
    }
    assert(crate::json::lacks_key(a2, kc) && crate::json::lacks_key(a2, kp)) by {
        assert forall|i: int| 0 <= i < a2.len() implies (#[trigger] a2[i]).key != kc && a2[i].key
            != kp by {
            assert(i == 0);
            assert(a2[i].key.len() != kc.len());
            assert(a2[i].key.len() != kp.len());
        }
    }
    crate::json::lemma_opt_member_lacks("instructions"@, opt_str_v(resp_instructions(r.system_prompt)), kc);
    crate::json::lemma_opt_member_lacks("instructions"@, opt_str_v(resp_instructions(r.system_prompt)), kp);
    assert("tools"@ != kc && "tools"@ != kp) by {
        assert("tools"@.len() != kc.len());
        assert("tools"@.len() != kp.len());
    }
    crate::json::lemma_opt_member_lacks("tools"@, nonempty(r.tools.map_values(|t: IrToolV| resp_tool_json(t))), kc);
    crate::json::lemma_opt_member_lacks("tools"@, nonempty(r.tools.map_values(|t: IrToolV| resp_tool_json(t))), kp);
    assert("tool_choice"@ != kp && "stream"@ != kp && "temperature"@ != kp && "top_p"@ != kp
        && "max_output_tokens"@ != kp) by {
        assert("tool_choice"@.len() != kp.len());
        assert("stream"@.len() != kp.len());
        assert("temperature"@.len() != kp.len());
        assert("top_p"@.len() != kp.len());
        assert("max_output_tokens"@.len() != kp.len());
    }
    crate::json::lemma_opt_member_lacks("tool_choice"@, tc, kp);
    crate::json::lemma_opt_member_lacks("stream"@, opt_bool_v(r.stream), kp);
    crate::json::lemma_opt_member_lacks("temperature"@, opt_num_v(r.temperature), kp);
    crate::json::lemma_opt_member_lacks("top_p"@, opt_num_v(r.top_p), kp);
    crate::json::lemma_opt_member_lacks("max_output_tokens"@, opt_int_v(r.max_tokens), kp);
    lemma_three_members(a0, a1, a2, a3, a4, a5, a6, a7, a8, a9, rest, x, choice, p);
}

/// Finding the instructions, tool choice and previous response among the
/// parts of a written request, where no earlier part has their keys.
proof fn lemma_three_members(
    a0: Seq<MemberV>,
    a1: Seq<MemberV>,
    a2: Seq<MemberV>,
    a3: Seq<MemberV>,
    a4: Seq<MemberV>,
    a5: Seq<MemberV>,
    a6: Seq<MemberV>,
    a7: Seq<MemberV>,
    a8: Seq<MemberV>,
    a9: Seq<MemberV>,
    rest: Seq<MemberV>,
    x: Seq<char>,
    choice: Seq<char>,
    p: Seq<char>,
)
    requires
        a1 == seq![mv("instructions"@, JsonV::Str(x))],
        a4 == seq![mv("tool_choice"@, JsonV::Str(choice))],
        a9 == seq![mv("previous_response_id"@, JsonV::Str(p))],
        crate::json::lacks_key(a0, "instructions"@),
        crate::json::lacks_key(a0, "tool_choice"@),
        crate::json::lacks_key(a1, "tool_choice"@),
        crate::json::lacks_key(a2, "tool_choice"@),
        crate::json::lacks_key(a3, "tool_choice"@),
        crate::json::lacks_key(a0, "previous_response_id"@),
        crate::json::lacks_key(a1, "previous_response_id"@),
        crate::json::lacks_key(a2, "previous_response_id"@),
        crate::json::lacks_key(a3, "previous_response_id"@),
        crate::json::lacks_key(a4, "previous_response_id"@),
        crate::json::lacks_key(a5, "previous_response_id"@),
        crate::json::lacks_key(a6, "previous_response_id"@),
        crate::json::lacks_key(a7, "previous_response_id"@),
        crate::json::lacks_key(a8, "previous_response_id"@),
    ensures
        find_member(a0 + a1 + a2 + a3 + a4 + a5 + a6 + a7 + a8 + a9 + rest, "instructions"@) == Some(
            JsonV::Str(x),
        ),
        find_member(a0 + a1 + a2 + a3 + a4 + a5 + a6 + a7 + a8 + a9 + rest, "tool_choice"@) == Some(
            JsonV::Str(choice),
        ),
        find_member(a0 + a1 + a2 + a3 + a4 + a5 + a6 + a7 + a8 + a9 + rest, "previous_response_id"@)
            == Some(JsonV::Str(p)),
{
    let ki = "instructions"@;
    let kc = "tool_choice"@;
    let kp = "previous_response_id"@;
    let ms = a0 + a1 + a2 + a3 + a4 + a5 + a6 + a7 + a8 + a9 + rest;
    // instructions
    let post_i = a1 + a2 + a3 + a4 + a5 + a6 + a7 + a8 + a9 + rest;
    assert(ms =~= a0 + post_i);
    crate::json::lemma_find_member_after(a0, post_i, ki);
    assert(post_i[0] == mv(ki, JsonV::Str(x)));
    // tool choice
    crate::json::lemma_lacks_key_concat(a0, a1, kc);
    crate::json::lemma_lacks_key_concat(a0 + a1, a2, kc);
    crate::json::lemma_lacks_key_concat(a0 + a1 + a2, a3, kc);
    let pre_c = a0 + a1 + a2 + a3;
    let post_c = a4 + a5 + a6 + a7 + a8 + a9 + rest;
    assert(ms =~= pre_c + post_c);
    crate::json::lemma_find_member_after(pre_c, post_c, kc);
    assert(post_c[0] == mv(kc, JsonV::Str(choice)));
    // previous response
    crate::json::lemma_lacks_key_concat(a0, a1, kp);
    crate::json::lemma_lacks_key_concat(a0 + a1, a2, kp);
    crate::json::lemma_lacks_key_concat(a0 + a1 + a2, a3, kp);
    crate::json::lemma_lacks_key_concat(a0 + a1 + a2 + a3, a4, kp);
    crate::json::lemma_lacks_key_concat(a0 + a1 + a2 + a3 + a4, a5, kp);
    crate::json::lemma_lacks_key_concat(a0 + a1 + a2 + a3 + a4 + a5, a6, kp);
    crate::json::lemma_lacks_key_concat(a0 + a1 + a2 + a3 + a4 + a5 + a6, a7, kp);
    crate::json::lemma_lacks_key_concat(a0 + a1 + a2 + a3 + a4 + a5 + a6 + a7, a8, kp);
    let pre_p = a0 + a1 + a2 + a3 + a4 + a5 + a6 + a7 + a8;
    let post_p = a9 + rest;
    assert(ms =~= pre_p + post_p);
    crate::json::lemma_find_member_after(pre_p, post_p, kp);
    assert(post_p[0] == mv(kp, JsonV::Str(p)));
}

// ---------------------------------------------------------------------------
// Responses written back
// ---------------------------------------------------------------------------

/// Whether the arguments of a tool-use block, when they are a canonical
/// JSON value other than a string, read back from the text written for
/// them.
pub open spec fn call_args_read_back(b: ContentBlockV) -> bool {
    (b.content_type == ContentType::ToolUse && b.tool_use is Some && b.tool_use->0.arguments is Some
        && !(b.tool_use->0.arguments->0 is Str) && json_canonical(b.tool_use->0.arguments->0, 100))
        ==> reads_back(printed_json(b.tool_use->0.arguments->0), b.tool_use->0.arguments->0)
}

/// Whether `b` is a text block carrying nothing but its text.
pub open spec fn plain_text_block(b: ContentBlockV) -> bool {
    b.text is Some && b == text_block_v(b.text->0)
}

/// Whether `b` is a tool-use block carrying nothing but its call, whose
/// arguments are a JSON object that serde_json reads back from the text
/// written for them (the encoder states that it does for arguments that
/// are canonical JSON, see [`call_args_read_back`]).
pub open spec fn plain_call_block(b: ContentBlockV) -> bool {
    &&& b.tool_use is Some
    &&& b == tool_use_block_v(b.tool_use->0.id, b.tool_use->0.name, b.tool_use->0.arguments)
    &&& b.tool_use->0.arguments is Some
    &&& b.tool_use->0.arguments->0 is Object
    &&& parsed_json_text(printed_json(b.tool_use->0.arguments->0)) is Ok
    &&& parsed_json_text(printed_json(b.tool_use->0.arguments->0))->Ok_0 == b.tool_use->0.arguments->0
}

/// The output item a tool-use block is written as.
pub open spec fn block_call(b: ContentBlockV) -> JsonV {
    call_output_item(
        b.tool_use->0.id,
        b.tool_use->0.name,
        args_text(b.tool_use->0.arguments),
        "completed"@,
    )
}

/// Content made of `k` plain text blocks and then plain tool calls
/// splits into its texts and its calls.
proof fn lemma_split_content(c: Seq<ContentBlockV>, k: int, n: int)
    requires
        0 <= k <= c.len(),
        0 <= n <= c.len(),
        forall|i: int| 0 <= i < k ==> plain_text_block(#[trigger] c[i]),
        forall|i: int| k <= i < c.len() ==> plain_call_block(#[trigger] c[i]),
    ensures
        c.take(n).filter_map(|b: ContentBlockV| block_text_of(b)) == c.take(
            if n < k {
                n
            } else {
                k
            },
        ).map_values(|b: ContentBlockV| b.text->0),
        c.take(n).filter_map(|b: ContentBlockV| block_call_item(b)) == (if n <= k {
            Seq::<JsonV>::empty()
        } else {
            c.subrange(k, n).map_values(|b: ContentBlockV| block_call(b))
        }),
    decreases n,
{
    if n > 0 {
        lemma_split_content(c, k, n - 1);
        c.lemma_filter_map_take_succ(|b: ContentBlockV| block_text_of(b), n - 1);
        c.lemma_filter_map_take_succ(|b: ContentBlockV| block_call_item(b), n - 1);
        let b = c[n - 1];
        if n - 1 < k {
            assert(plain_text_block(b));
            assert(block_text_of(b) == Some(b.text->0));
            assert(block_call_item(b) is None);
            assert(c.take(n).map_values(|b: ContentBlockV| b.text->0) =~= c.take(n - 1).map_values(
                |b: ContentBlockV| b.text->0,
            ) + seq![b.text->0]);
            assert(c.take(n - 1).filter_map(|b: ContentBlockV| block_call_item(b)) + Seq::<
                JsonV,
            >::empty() =~= c.take(n - 1).filter_map(|b: ContentBlockV| block_call_item(b)));
        } else {
            assert(plain_call_block(b));
            assert(block_text_of(b) is None);
            assert(block_call_item(b) == Some(block_call(b)));
            assert(c.take(n - 1).filter_map(|b: ContentBlockV| block_text_of(b)) + Seq::<
                Seq<char>,
            >::empty() =~= c.take(n - 1).filter_map(|b: ContentBlockV| block_text_of(b)));
            if n - 1 == k {
                assert(c.subrange(k, n).map_values(|b: ContentBlockV| block_call(b)) =~= seq![
                    block_call(b),
                ]);
                assert(Seq::<JsonV>::empty() + seq![block_call(b)] =~= seq![block_call(b)]);
            } else {
                assert(c.subrange(k, n).map_values(|b: ContentBlockV| block_call(b)) =~= c.subrange(
                    k,
                    n - 1,
                ).map_values(|b: ContentBlockV| block_call(b)) + seq![block_call(b)]);
            }
        }
    } else {
        assert(c.take(0) =~= Seq::<ContentBlockV>::empty());
        assert(c.take(0).map_values(|b: ContentBlockV| b.text->0) =~= Seq::<Seq<char>>::empty());
    }
}

/// A plain tool call is written as a well-formed `function_call` item that
/// reads back as the same block.
proof fn lemma_call_item_reads_back(b: ContentBlockV)
    requires
        plain_call_block(b),
    ensures
        output_item_ok(block_call(b)),
        output_item_blocks(block_call(b)) == seq![b],
{
    reveal_strlit("type");
    reveal_strlit("id");
    reveal_strlit("call_id");
    reveal_strlit("name");
    reveal_strlit("arguments");
    reveal_strlit("status");
    reveal_strlit("function_call");
    reveal_strlit("message");
    let tu = b.tool_use->0;
    let a = tu.arguments->0;
    let args = args_text(tu.arguments);
    assert(args == printed_json(a));
    let it = block_call(b);
    let ms = obj_members(it);
    assert(ms.len() == 6);
    assert(ms[0].key == "type"@ && ms[1].key == "id"@ && ms[2].key == "call_id"@ && ms[3].key
        == "name"@ && ms[4].key == "arguments"@ && ms[5].key == "status"@);
    assert("type"@[0] != "name"@[0]);
    crate::json::lemma_find_member_first(ms, "type"@, 0);
    crate::json::lemma_find_member_first(ms, "id"@, 1);
    crate::json::lemma_find_member_first(ms, "call_id"@, 2);
    crate::json::lemma_find_member_first(ms, "name"@, 3);
    crate::json::lemma_find_member_first(ms, "arguments"@, 4);
    crate::json::lemma_find_member_first(ms, "status"@, 5);
    assert(str_or_empty(it, "type"@) == "function_call"@);
    assert("function_call"@ != "message"@) by {
        assert("function_call"@.len() != "message"@.len());
    }
    assert(str_or_empty(it, "call_id"@) == tu.id);
    assert(str_or_empty(it, "name"@) == tu.name);
    assert(str_or_empty(it, "arguments"@) == args);
    assert(output_item_ok(it));
    assert(output_item_blocks(it) =~= seq![b]);
}

/// The text part written for `t` is well formed and reads back as a text
/// block.
proof fn lemma_text_part_reads_back(t: Seq<char>)
    ensures
        part_ok(output_text_json(t)),
        part_block(output_text_json(t)) == text_block_v(t),
{
    reveal_strlit("type");
    reveal_strlit("text");
    reveal_strlit("annotations");
    reveal_strlit("output_text");
    let p = output_text_json(t);
    let ms = obj_members(p);
    assert(ms.len() == 3);
    assert(ms[0].key == "type"@ && ms[1].key == "text"@ && ms[2].key == "annotations"@);
    assert("type"@[1] != "text"@[1]);
    crate::json::lemma_find_member_first(ms, "type"@, 0);
    crate::json::lemma_find_member_first(ms, "text"@, 1);
    crate::json::lemma_find_member_first(ms, "annotations"@, 2);
    assert(str_or_empty(p, "type"@) == "output_text"@);
    assert(str_or_empty(p, "text"@) == t);
}

/// The message item written for the texts `ts` is well formed and reads
/// back as one text block per text.
proof fn lemma_message_item_reads_back(ts: Seq<Seq<char>>)
    ensures
        output_item_ok(message_item(ts.map_values(|t: Seq<char>| output_text_json(t)), "completed"@)),
        output_item_blocks(message_item(ts.map_values(|t: Seq<char>| output_text_json(t)), "completed"@))
            == ts.map_values(|t: Seq<char>| text_block_v(t)),
{
    reveal_strlit("type");
    reveal_strlit("id");
    reveal_strlit("role");
    reveal_strlit("content");
    reveal_strlit("status");
    reveal_strlit("message");
    let parts = ts.map_values(|t: Seq<char>| output_text_json(t));
    let it = message_item(parts, "completed"@);
    let ms = obj_members(it);
    assert(ms.len() == 5);
    assert(ms[0].key == "type"@ && ms[1].key == "id"@ && ms[2].key == "role"@ && ms[3].key
        == "content"@ && ms[4].key == "status"@);
    assert("type"@[0] != "role"@[0]);
    crate::json::lemma_find_member_first(ms, "type"@, 0);
    crate::json::lemma_find_member_first(ms, "id"@, 1);
    crate::json::lemma_find_member_first(ms, "role"@, 2);
    crate::json::lemma_find_member_first(ms, "content"@, 3);
    crate::json::lemma_find_member_first(ms, "status"@, 4);
    assert(str_or_empty(it, "type"@) == "message"@);
    assert(items_of(it, "content"@) == parts);
    assert forall|i: int| 0 <= i < parts.len() implies part_ok(#[trigger] parts[i]) by {
        lemma_text_part_reads_back(ts[i]);
    }
    assert(output_item_ok(it));
    let pb = parts.map_values(|p: JsonV| part_block(p));
    let tb = ts.map_values(|t: Seq<char>| text_block_v(t));
    assert forall|i: int| 0 <= i < ts.len() implies #[trigger] pb[i] == tb[i] by {
        lemma_text_part_reads_back(ts[i]);
    }
    assert(pb =~= tb);
}

/// The output items written for the blocks of `c` from `k` to `n`.
pub open spec fn calls_of(c: Seq<ContentBlockV>, k: int, n: int) -> Seq<JsonV> {
    c.subrange(k, n).map_values(|b: ContentBlockV| block_call(b))
}

/// Plain tool calls written one after the other read back as the same
/// blocks.
proof fn lemma_calls_read_back(c: Seq<ContentBlockV>, k: int, n: int)
    requires
        0 <= k <= n <= c.len(),
        forall|i: int| k <= i < c.len() ==> plain_call_block(#[trigger] c[i]),
    ensures
        flat_map(calls_of(c, k, n), |it: JsonV| output_item_blocks(it)) == c.subrange(k, n),
        forall|i: int| 0 <= i < n - k ==> output_item_ok(#[trigger] calls_of(c, k, n)[i]),
    decreases n - k,
{
    let s = calls_of(c, k, n);
    if n > k {
        lemma_calls_read_back(c, k, n - 1);
        let s0 = calls_of(c, k, n - 1);
        assert(s.drop_last() =~= s0);
        assert(s.last() == block_call(c[n - 1]));
        lemma_call_item_reads_back(c[n - 1]);
        assert(c.subrange(k, n) =~= c.subrange(k, n - 1) + seq![c[n - 1]]);
        assert forall|i: int| 0 <= i < n - k implies output_item_ok(#[trigger] s[i]) by {
            if i < n - 1 - k {
                assert(s[i] == s0[i]);
            }
        }
    } else {
        assert(s =~= Seq::<JsonV>::empty());
        assert(c.subrange(k, n) =~= Seq::<ContentBlockV>::empty());
    }
}

/// The text part written for `t` is canonical JSON.
proof fn lemma_text_part_canonical(t: Seq<char>, d: nat)
    requires
        d > 1,
    ensures
        json_canonical(output_text_json(t), d),
{
    reveal_strlit("type");
    reveal_strlit("text");
    reveal_strlit("annotations");
    let ms = obj_members(output_text_json(t));
    assert(ms.len() == 3);
    assert forall|a: int, b: int| 0 <= a < b < ms.len() implies #[trigger] ms[a].key != #[trigger] ms[
        b].key by {
        assert(crate::json::keys_apart(ms[a].key, ms[b].key));
    }
    crate::json::lemma_array_canonical(Seq::<JsonV>::empty(), (d - 1) as nat);
    crate::json::lemma_object_canonical(ms, d);
}

/// The message item written for the texts `ts` is canonical JSON.
proof fn lemma_message_item_canonical(ts: Seq<Seq<char>>, d: nat)
    requires
        d > 3,
    ensures
        json_canonical(message_item(ts.map_values(|t: Seq<char>| output_text_json(t)), "completed"@), d),
{
    reveal_strlit("type");
    reveal_strlit("id");
    reveal_strlit("role");
    reveal_strlit("content");
    reveal_strlit("status");
    let parts = ts.map_values(|t: Seq<char>| output_text_json(t));
    let ms = obj_members(message_item(parts, "completed"@));
    assert(ms.len() == 5);
    assert forall|a: int, b: int| 0 <= a < b < ms.len() implies #[trigger] ms[a].key != #[trigger] ms[
        b].key by {
        assert(crate::json::keys_apart(ms[a].key, ms[b].key));
    }
    assert forall|i: int| 0 <= i < parts.len() implies json_canonical(#[trigger] parts[i], (d - 2) as nat) by {
        lemma_text_part_canonical(ts[i], (d - 2) as nat);
    }
    crate::json::lemma_array_canonical(parts, (d - 1) as nat);
    crate::json::lemma_object_canonical(ms, d);
}

/// The function call item written for a tool-use block is canonical JSON.
proof fn lemma_call_item_canonical(b: ContentBlockV, d: nat)
    requires
        d > 0,
    ensures
        json_canonical(block_call(b), d),
{
    reveal_strlit("type");
    reveal_strlit("id");
    reveal_strlit("call_id");
    reveal_strlit("name");
    reveal_strlit("arguments");
    reveal_strlit("status");
    let ms = obj_members(block_call(b));
    assert(ms.len() == 6);
    assert forall|a: int, c: int| 0 <= a < c < ms.len() implies #[trigger] ms[a].key != #[trigger] ms[
        c].key by {
        assert(crate::json::keys_apart(ms[a].key, ms[c].key));
    }
    crate::json::lemma_object_canonical(ms, d);
}

/// The usage written for `u` is canonical JSON.
proof fn lemma_usage_canonical(u: IrUsage, d: nat)
    requires
        d > 0,
    ensures
        json_canonical(resp_usage_json(u), d),
{
    reveal_strlit("input_tokens");
    reveal_strlit("output_tokens");
    reveal_strlit("total_tokens");
    let ms = obj_members(resp_usage_json(u));
    assert(ms.len() == 3);
    assert forall|a: int, b: int| 0 <= a < b < ms.len() implies #[trigger] ms[a].key != #[trigger] ms[
        b].key by {
        assert(crate::json::keys_apart(ms[a].key, ms[b].key));
    }
    crate::json::lemma_int_text_reads_back(count_or_zero(u.input_tokens));
    crate::json::lemma_int_text_reads_back(count_or_zero(u.output_tokens));
    crate::json::lemma_int_text_reads_back(count_or_zero(u.total_tokens));
    crate::json::lemma_object_canonical(ms, d);
}

/// A response written by this protocol decodes back to itself, where the
/// response has an id and a model, its content is plain text blocks
/// followed by plain tool calls (the first `k` blocks are the texts), it
/// stopped at the end of its turn or at its token limit, it counts input,
/// output and total tokens and nothing else, and it carries no stop
/// sequence and no extensions: the written JSON is canonical (so serde_json
/// reads the written bytes back as it, see the encoder), it has the shape
/// of a responses response, and decoding it gives `r`.
pub proof fn law_response_round_trip(r: IrResponseV, k: int)
    requires
        r.id is Some,
        r.model is Some,
        0 <= k <= r.content.len(),
        forall|i: int| 0 <= i < k ==> plain_text_block(#[trigger] r.content[i]),
        forall|i: int| k <= i < r.content.len() ==> plain_call_block(#[trigger] r.content[i]),
        r.stop_reason == Some(StopReasonV::EndTurn) || r.stop_reason == Some(StopReasonV::MaxTokens),
        r.usage.input_tokens is Some,
        r.usage.output_tokens is Some,
        r.usage.total_tokens is Some,
        r.usage.cache_read_tokens is None,
        r.usage.cache_creation_tokens is None,
        r.usage.thinking_tokens is None,
        r.stop_sequence is None,
        r.provider_extensions.len() == 0,
    ensures
        json_canonical(responses_response_json(r), 100),
        responses_response_ok(responses_response_json(r)),
        responses_response_ir(responses_response_json(r)) == r,
{
    let c = r.content;
    let n = c.len() as int;
    lemma_split_content(c, k, n);
    assert(c.take(n) =~= c);
    let texts = c.filter_map(|b: ContentBlockV| block_text_of(b));
    let calls = c.filter_map(|b: ContentBlockV| block_call_item(b));
    assert(texts == c.take(k).map_values(|b: ContentBlockV| b.text->0));
    assert(calls =~= calls_of(c, k, n));
    lemma_calls_read_back(c, k, n);
    let parts = texts.map_values(|t: Seq<char>| output_text_json(t));
    let msg = message_item(parts, "completed"@);
    lemma_message_item_reads_back(texts);
    let head: Seq<JsonV> = if texts.len() == 0 {
        Seq::empty()
    } else {
        seq![msg]
    };
    let output = head + calls;
    // The blocks read back.
    crate::seqs::lemma_flat_map_concat(head, calls, |it: JsonV| output_item_blocks(it));
    if texts.len() == 0 {
        assert(flat_map(head, |it: JsonV| output_item_blocks(it)) == Seq::<ContentBlockV>::empty());
        assert(k == 0);
        assert(c.subrange(0, n) =~= c);
        assert(Seq::<ContentBlockV>::empty() + c =~= c);
    } else {
        crate::seqs::lemma_flat_map_single(msg, |it: JsonV| output_item_blocks(it));
        let tb = texts.map_values(|t: Seq<char>| text_block_v(t));
        assert(tb =~= c.take(k)) by {
            assert forall|i: int| 0 <= i < k implies #[trigger] tb[i] == c.take(k)[i] by {
                assert(plain_text_block(c[i]));
            }
        }
        assert(c.take(k) + c.subrange(k, n) =~= c);
    }
    assert(flat_map(output, |it: JsonV| output_item_blocks(it)) == c);
    // Every item is well formed.
    assert forall|i: int| 0 <= i < output.len() implies output_item_ok(#[trigger] output[i]) by {
        if i < head.len() {
            assert(output[i] == msg);
        } else {
            assert(output[i] == calls_of(c, k, n)[i - head.len()]);
        }
    }
    // The members of the response.
    reveal_strlit("id");
    reveal_strlit("object");
    reveal_strlit("model");
    reveal_strlit("output");
    reveal_strlit("usage");
    reveal_strlit("status");
    reveal_strlit("response");
    reveal_strlit("completed");
    reveal_strlit("incomplete");
    reveal_strlit("input_tokens");
    reveal_strlit("output_tokens");
    reveal_strlit("total_tokens");
    let u = r.usage;
    let uj = resp_usage_json(u);
    let status = stop_status(r.stop_reason);
    let j = responses_response_json(r);
    let ms = obj_members(j);
    assert(ms.len() == 6);
    assert(ms[0].key == "id"@ && ms[1].key == "object"@ && ms[2].key == "model"@ && ms[3].key
        == "output"@ && ms[4].key == "usage"@ && ms[5].key == "status"@);
    assert(ms[3].value == JsonV::Array(output));
    assert(ms[4].value == uj);
    assert(ms[5].value == JsonV::Str(status));
    assert("object"@[1] != "output"@[1] && "object"@[1] != "status"@[1] && "output"@[1]
        != "status"@[1]);
    assert("model"@[0] != "usage"@[0]);
    crate::json::lemma_find_member_first(ms, "id"@, 0);
    crate::json::lemma_find_member_first(ms, "object"@, 1);
    crate::json::lemma_find_member_first(ms, "model"@, 2);
    crate::json::lemma_find_member_first(ms, "output"@, 3);
    crate::json::lemma_find_member_first(ms, "usage"@, 4);
    crate::json::lemma_find_member_first(ms, "status"@, 5);
    assert(items_of(j, "output"@) == output);
    assert(present(j, "usage"@) == Some(uj));
    // The usage.
    let um = obj_members(uj);
    assert(um.len() == 3);
    assert(um[0].key == "input_tokens"@ && um[1].key == "output_tokens"@ && um[2].key
        == "total_tokens"@);
    assert("input_tokens"@[0] != "output_tokens"@[0] && "input_tokens"@[0] != "total_tokens"@[0]
        && "output_tokens"@[0] != "total_tokens"@[0]);
    crate::json::lemma_find_member_first(um, "input_tokens"@, 0);
    crate::json::lemma_find_member_first(um, "output_tokens"@, 1);
    crate::json::lemma_find_member_first(um, "total_tokens"@, 2);
    crate::json::lemma_int_text_reads_back(count_or_zero(u.input_tokens));
    crate::json::lemma_int_text_reads_back(count_or_zero(u.output_tokens));
    crate::json::lemma_int_text_reads_back(count_or_zero(u.total_tokens));
    assert(int_of(uj, "input_tokens"@) == u.input_tokens);
    assert(int_of(uj, "output_tokens"@) == u.output_tokens);
    assert(int_of(uj, "total_tokens"@) == u.total_tokens);
    assert(resp_usage_ok(uj));
    assert(resp_usage_ir(uj) == u);
    // The stop reason.
    assert("completed"@ != "incomplete"@) by {
        assert("completed"@.len() != "incomplete"@.len());
    }
    assert(str_of(j, "status"@) == Some(status));
    assert(status_stop(status) == r.stop_reason->0);
    assert(responses_response_ok(j));
    assert(responses_response_ir(j) =~= r);
    // The written JSON is canonical.
    assert forall|i: int| 0 <= i < output.len() implies json_canonical(#[trigger] output[i], 98) by {
        if i < head.len() {
            lemma_message_item_canonical(texts, 98);
        } else {
            assert(output[i] == block_call(c[k + i - head.len()]));
            lemma_call_item_canonical(c[k + i - head.len()], 98);
        }
    }
    crate::json::lemma_array_canonical(output, 99);
    lemma_usage_canonical(u, 99);
    assert forall|a: int, b: int| 0 <= a < b < ms.len() implies #[trigger] ms[a].key != #[trigger] ms[
        b].key by {
        assert(crate::json::keys_apart(ms[a].key, ms[b].key));
    }
    assert forall|i: int| 0 <= i < ms.len() implies json_canonical(#[trigger] ms[i].value, 99) by {}
    crate::json::lemma_object_canonical(ms, 100);
}

/// The error body is canonical JSON: strings only, under distinct keys.
proof fn lemma_error_canonical(status_code: u16, message: Seq<char>)
    ensures
        json_canonical(responses_error_json(status_code, message), 100),
{
    reveal_strlit("message");
    reveal_strlit("type");
    reveal_strlit("code");
    let ms = obj_members(responses_error_json(status_code, message));
    let em = obj_members(ms[0].value);
    assert(ms.len() == 1 && em.len() == 3);
    assert forall|a: int, b: int| 0 <= a < b < em.len() implies #[trigger] em[a].key != #[trigger] em[
        b].key by {
        assert(crate::json::keys_apart(em[a].key, em[b].key));
    }
    crate::json::lemma_object_canonical(em, 99);
    crate::json::lemma_object_canonical(ms, 100);
}

// ---------------------------------------------------------------------------
// Roles written back
// ---------------------------------------------------------------------------

/// A text keeps the role of the message it was written for: the
/// `output_text` item written for a non-empty assistant text decodes to an
/// assistant message with that text, and the `text` item written for a
/// user text decodes to a user message with that text.
pub proof fn law_text_role_round_trip(t: Seq<char>)
    ensures
        t.len() > 0 ==> resp_input_message(output_text_json(t)) == Some(
            IrMessageV { role: Role::Assistant, content: seq![text_block_v(t)] },
        ),
        resp_input_message(text_item(t)) == Some(
            IrMessageV { role: Role::User, content: seq![text_block_v(t)] },
        ),
{
    reveal_strlit("type");
    reveal_strlit("text");
    reveal_strlit("annotations");
    reveal_strlit("output_text");
    let p = output_text_json(t);
    let ms = obj_members(p);
    assert(ms[0].key == "type"@ && ms[1].key == "text"@ && ms[2].key == "annotations"@);
    assert("type"@[1] != "text"@[1]);
    crate::json::lemma_find_member_first(ms, "type"@, 0);
    crate::json::lemma_find_member_first(ms, "text"@, 1);
    assert(str_or_empty(p, "type"@) == "output_text"@);
    assert("output_text"@ != "text"@) by {
        assert("output_text"@.len() != "text"@.len());
    }
    assert(str_or_empty(p, "text"@) == t);
    let q = text_item(t);
    let qs = obj_members(q);
    assert(qs[0].key == "type"@ && qs[1].key == "text"@);
    crate::json::lemma_find_member_first(qs, "type"@, 0);
    crate::json::lemma_find_member_first(qs, "text"@, 1);
    assert(str_or_empty(q, "type"@) == "text"@);
    assert(str_or_empty(q, "text"@) == t);
}

} // verus!
