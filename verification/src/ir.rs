//! The intermediate representation that every protocol is decoded into and
//! encoded from.

use vstd::prelude::*;
use crate::json::{Json, JsonV, MemberV, members_view};
use crate::types::{ContentBlock, ContentBlockV, ContentType, Protocol, Role, StopReason, StopReasonV};

verus! {

/// A single message turn in a conversation.
#[derive(Debug)]
pub struct IrMessage {
    pub role: Role,
    pub content: Vec<ContentBlock>,
}

/// The view of an [`IrMessage`].
#[verifier::ext_equal]
pub struct IrMessageV {
    pub role: Role,
    pub content: Seq<ContentBlockV>,
}

impl View for IrMessage {
    type V = IrMessageV;

    open spec fn view(&self) -> IrMessageV {
        IrMessageV { role: self.role, content: self.content.deep_view() }
    }
}

impl DeepView for IrMessage {
    type V = IrMessageV;

    open spec fn deep_view(&self) -> IrMessageV {
        self.view()
    }
}

impl IrMessage {
    /// A message from `role` with the blocks `content`.
    pub fn new(role: Role, content: Vec<ContentBlock>) -> (r: IrMessage)
        ensures
            r@ == (IrMessageV { role, content: content.deep_view() }),
    {
        IrMessage { role, content }
    }
}

/// Tool definition available to the model.
#[derive(Debug)]
pub struct IrTool {
    /// The tool's kind (`"function"`, `"custom"`, ...), when known.
    pub tool_type: Option<String>,
    pub name: String,
    pub description: Option<String>,
    pub parameters: Option<Json>,
    pub strict: Option<bool>,
    pub extra_fields: Vec<(String, Json)>,
}

/// The view of an [`IrTool`].
#[verifier::ext_equal]
pub struct IrToolV {
    pub tool_type: Option<Seq<char>>,
    pub name: Seq<char>,
    pub description: Option<Seq<char>>,
    pub parameters: Option<JsonV>,
    pub strict: Option<bool>,
    pub extra_fields: Seq<MemberV>,
}

impl View for IrTool {
    type V = IrToolV;

    open spec fn view(&self) -> IrToolV {
        IrToolV {
            tool_type: self.tool_type.deep_view(),
            name: self.name@,
            description: self.description.deep_view(),
            parameters: self.parameters.deep_view(),
            strict: self.strict,
            extra_fields: members_view(self.extra_fields@),
        }
    }
}

impl DeepView for IrTool {
    type V = IrToolV;

    open spec fn deep_view(&self) -> IrToolV {
        self.view()
    }
}

/// Controls how the model selects tools.
#[derive(Debug)]
pub struct IrToolChoice {
    pub choice_type: String,
    pub tool_name: Option<String>,
    pub allowed_tool_names: Vec<String>,
    pub allow_parallel_calls: Option<bool>,
}

/// The view of an [`IrToolChoice`].
#[verifier::ext_equal]
pub struct IrToolChoiceV {
    pub choice_type: Seq<char>,
    pub tool_name: Option<Seq<char>>,
    pub allowed_tool_names: Seq<Seq<char>>,
    pub allow_parallel_calls: Option<bool>,
}

impl View for IrToolChoice {
    type V = IrToolChoiceV;

    open spec fn view(&self) -> IrToolChoiceV {
        IrToolChoiceV {
            choice_type: self.choice_type@,
            tool_name: self.tool_name.deep_view(),
            allowed_tool_names: self.allowed_tool_names.deep_view(),
            allow_parallel_calls: self.allow_parallel_calls,
        }
    }
}

impl DeepView for IrToolChoice {
    type V = IrToolChoiceV;

    open spec fn deep_view(&self) -> IrToolChoiceV {
        self.view()
    }
}


/// A tool choice of type `t` naming the tool `name`.
pub open spec fn choice_v(t: Seq<char>, name: Option<Seq<char>>) -> IrToolChoiceV {
    IrToolChoiceV {
        choice_type: t,
        tool_name: name,
        allowed_tool_names: Seq::empty(),
        allow_parallel_calls: None,
    }
}

impl IrToolChoice {
    /// A tool choice of type `choice_type` naming the tool `tool_name`.
    pub fn of(choice_type: String, tool_name: Option<String>) -> (r: IrToolChoice)
        ensures
            r@ == choice_v(choice_type@, tool_name.deep_view()),
    {
        let r = IrToolChoice {
            choice_type,
            tool_name,
            allowed_tool_names: Vec::new(),
            allow_parallel_calls: None,
        };
        assert(r@.allowed_tool_names =~= Seq::<Seq<char>>::empty());
        r
    }
}

/// Extended thinking / reasoning configuration.
#[derive(Debug)]
pub struct IrThinkingConfig {
    pub mode: Option<String>,
    pub budget_tokens: Option<i64>,
    pub effort: Option<String>,
    pub include_thoughts: Option<bool>,
    pub level: Option<String>,
}

/// The view of an [`IrThinkingConfig`].
#[verifier::ext_equal]
pub struct IrThinkingConfigV {
    pub mode: Option<Seq<char>>,
    pub budget_tokens: Option<i64>,
    pub effort: Option<Seq<char>>,
    pub include_thoughts: Option<bool>,
    pub level: Option<Seq<char>>,
}

impl View for IrThinkingConfig {
    type V = IrThinkingConfigV;

    open spec fn view(&self) -> IrThinkingConfigV {
        IrThinkingConfigV {
            mode: self.mode.deep_view(),
            budget_tokens: self.budget_tokens,
            effort: self.effort.deep_view(),
            include_thoughts: self.include_thoughts,
            level: self.level.deep_view(),
        }
    }
}

impl DeepView for IrThinkingConfig {
    type V = IrThinkingConfigV;

    open spec fn deep_view(&self) -> IrThinkingConfigV {
        self.view()
    }
}

/// Output format constraint.
#[derive(Debug)]
pub struct IrResponseFormat {
    pub format_type: String,
    pub json_schema: Option<Json>,
}

/// The view of an [`IrResponseFormat`].
#[verifier::ext_equal]
pub struct IrResponseFormatV {
    pub format_type: Seq<char>,
    pub json_schema: Option<JsonV>,
}

impl View for IrResponseFormat {
    type V = IrResponseFormatV;

    open spec fn view(&self) -> IrResponseFormatV {
        IrResponseFormatV {
            format_type: self.format_type@,
            json_schema: self.json_schema.deep_view(),
        }
    }
}

impl DeepView for IrResponseFormat {
    type V = IrResponseFormatV;

    open spec fn deep_view(&self) -> IrResponseFormatV {
        self.view()
    }
}

/// Unified intermediate representation of an LLM API request.
///
/// Sampling numbers (`temperature`, `top_p`) are kept as their JSON number
/// text. Maps from names to JSON values are lists of members with distinct
/// names.
#[derive(Debug)]
pub struct IrRequest {
    pub model: String,
    pub messages: Vec<IrMessage>,
    pub system_prompt: Vec<ContentBlock>,
    pub tools: Vec<IrTool>,
    pub tool_choice: Option<IrToolChoice>,
    pub max_tokens: Option<i64>,
    pub temperature: Option<String>,
    pub top_p: Option<String>,
    pub top_k: Option<i64>,
    pub stop_sequences: Vec<String>,
    pub stream: Option<bool>,
    pub thinking: Option<IrThinkingConfig>,
    pub response_format: Option<IrResponseFormat>,
    /// Provider extension fields, keyed by name.
    pub provider_extensions: Vec<(String, Json)>,
    /// The protocol this request was originally received as.
    pub inbound_protocol: Protocol,
    /// Original model name before any rewriting.
    pub original_model: Option<String>,
    /// Protocol-specific opaque top-level fields for same-protocol
    /// roundtrips.
    pub raw_extra: Vec<(String, Json)>,
    /// Extra fields to merge into the outbound request body.
    pub outbound_extra: Vec<(String, Json)>,
}

/// The view of an [`IrRequest`].
#[verifier::ext_equal]
pub struct IrRequestV {
    pub model: Seq<char>,
    pub messages: Seq<IrMessageV>,
    pub system_prompt: Seq<ContentBlockV>,
    pub tools: Seq<IrToolV>,
    pub tool_choice: Option<IrToolChoiceV>,
    pub max_tokens: Option<i64>,
    pub temperature: Option<Seq<char>>,
    pub top_p: Option<Seq<char>>,
    pub top_k: Option<i64>,
    pub stop_sequences: Seq<Seq<char>>,
    pub stream: Option<bool>,
    pub thinking: Option<IrThinkingConfigV>,
    pub response_format: Option<IrResponseFormatV>,
    pub provider_extensions: Seq<MemberV>,
    pub inbound_protocol: Protocol,
    pub original_model: Option<Seq<char>>,
    pub raw_extra: Seq<MemberV>,
    pub outbound_extra: Seq<MemberV>,
}

impl View for IrRequest {
    type V = IrRequestV;

    open spec fn view(&self) -> IrRequestV {
        IrRequestV {
            model: self.model@,
            messages: self.messages.deep_view(),
            system_prompt: self.system_prompt.deep_view(),
            tools: self.tools.deep_view(),
            tool_choice: self.tool_choice.deep_view(),
            max_tokens: self.max_tokens,
            temperature: self.temperature.deep_view(),
            top_p: self.top_p.deep_view(),
            top_k: self.top_k,
            stop_sequences: self.stop_sequences.deep_view(),
            stream: self.stream,
            thinking: self.thinking.deep_view(),
            response_format: self.response_format.deep_view(),
            provider_extensions: members_view(self.provider_extensions@),
            inbound_protocol: self.inbound_protocol,
            original_model: self.original_model.deep_view(),
            raw_extra: members_view(self.raw_extra@),
            outbound_extra: members_view(self.outbound_extra@),
        }
    }
}

/// Token usage statistics.
#[derive(Debug, Clone, Copy, Default, PartialEq, Eq, Structural)]
pub struct IrUsage {
    pub input_tokens: Option<i64>,
    pub output_tokens: Option<i64>,
    pub total_tokens: Option<i64>,
    pub cache_read_tokens: Option<i64>,
    pub cache_creation_tokens: Option<i64>,
    pub thinking_tokens: Option<i64>,
}

/// Usage with no counts.
pub open spec fn no_usage() -> IrUsage {
    IrUsage {
        input_tokens: None,
        output_tokens: None,
        total_tokens: None,
        cache_read_tokens: None,
        cache_creation_tokens: None,
        thinking_tokens: None,
    }
}

impl IrUsage {
    /// Usage with no counts.
    pub fn none() -> (r: IrUsage)
        ensures
            r == no_usage(),
    {
        IrUsage {
            input_tokens: None,
            output_tokens: None,
            total_tokens: None,
            cache_read_tokens: None,
            cache_creation_tokens: None,
            thinking_tokens: None,
        }
    }
}

/// Unified intermediate representation of an LLM API response.
#[derive(Debug)]
pub struct IrResponse {
    pub id: Option<String>,
    pub model: Option<String>,
    pub content: Vec<ContentBlock>,
    pub stop_reason: Option<StopReason>,
    pub stop_sequence: Option<String>,
    pub usage: IrUsage,
    pub provider_extensions: Vec<(String, Json)>,
}

/// The view of an [`IrResponse`].
#[verifier::ext_equal]
pub struct IrResponseV {
    pub id: Option<Seq<char>>,
    pub model: Option<Seq<char>>,
    pub content: Seq<ContentBlockV>,
    pub stop_reason: Option<StopReasonV>,
    pub stop_sequence: Option<Seq<char>>,
    pub usage: IrUsage,
    pub provider_extensions: Seq<MemberV>,
}

impl View for IrResponse {
    type V = IrResponseV;

    open spec fn view(&self) -> IrResponseV {
        IrResponseV {
            id: self.id.deep_view(),
            model: self.model.deep_view(),
            content: self.content.deep_view(),
            stop_reason: self.stop_reason.deep_view(),
            stop_sequence: self.stop_sequence.deep_view(),
            usage: self.usage,
            provider_extensions: members_view(self.provider_extensions@),
        }
    }
}

impl DeepView for IrResponse {
    type V = IrResponseV;

    open spec fn deep_view(&self) -> IrResponseV {
        self.view()
    }
}

/// Identifies the kind of streaming event.
#[derive(Debug, Clone, Copy, PartialEq, Eq, Structural)]
pub enum StreamEventType {
    Start,
    Delta,
    ContentBlockStart,
    ContentBlockStop,
    Stop,
    Error,
}

/// Error details from a streaming error event.
#[derive(Debug)]
pub struct StreamError {
    pub error_type: Option<String>,
    pub code: Option<String>,
    pub message: Option<String>,
    pub param: Option<String>,
}

/// The view of a [`StreamError`].
#[verifier::ext_equal]
pub struct StreamErrorV {
    pub error_type: Option<Seq<char>>,
    pub code: Option<Seq<char>>,
    pub message: Option<Seq<char>>,
    pub param: Option<Seq<char>>,
}

impl View for StreamError {
    type V = StreamErrorV;

    open spec fn view(&self) -> StreamErrorV {
        StreamErrorV {
            error_type: self.error_type.deep_view(),
            code: self.code.deep_view(),
            message: self.message.deep_view(),
            param: self.param.deep_view(),
        }
    }
}

impl DeepView for StreamError {
    type V = StreamErrorV;

    open spec fn deep_view(&self) -> StreamErrorV {
        self.view()
    }
}

/// A single event in a streaming response.
#[derive(Debug)]
pub struct IrStreamEvent {
    pub event_type: StreamEventType,
    pub response: Option<IrResponse>,
    pub index: i32,
    pub delta: Option<ContentBlock>,
    pub stop_reason: Option<StopReason>,
    pub usage: Option<IrUsage>,
    pub error: Option<StreamError>,
}

/// The view of an [`IrStreamEvent`].
#[verifier::ext_equal]
pub struct IrStreamEventV {
    pub event_type: StreamEventType,
    pub response: Option<IrResponseV>,
    pub index: i32,
    pub delta: Option<ContentBlockV>,
    pub stop_reason: Option<StopReasonV>,
    pub usage: Option<IrUsage>,
    pub error: Option<StreamErrorV>,
}

impl View for IrStreamEvent {
    type V = IrStreamEventV;

    open spec fn view(&self) -> IrStreamEventV {
        IrStreamEventV {
            event_type: self.event_type,
            response: self.response.deep_view(),
            index: self.index,
            delta: self.delta.deep_view(),
            stop_reason: self.stop_reason.deep_view(),
            usage: self.usage,
            error: self.error.deep_view(),
        }
    }
}

/// An event of type `t` at `index` that carries nothing else.
pub open spec fn bare_event_v(t: StreamEventType, index: i32) -> IrStreamEventV {
    IrStreamEventV {
        event_type: t,
        response: None,
        index,
        delta: None,
        stop_reason: None,
        usage: None,
        error: None,
    }
}

impl IrStreamEvent {
    /// An event of type `t` at `index` that carries nothing else.
    pub fn bare(t: StreamEventType, index: i32) -> (r: IrStreamEvent)
        ensures
            r@ == bare_event_v(t, index),
    {
        IrStreamEvent {
            event_type: t,
            response: None,
            index,
            delta: None,
            stop_reason: None,
            usage: None,
            error: None,
        }
    }
}

/// Whether a block is an image or a document.
pub open spec fn is_media_block(b: ContentBlockV) -> bool {
    b.content_type == ContentType::Image || b.content_type == ContentType::Document
}

/// Whether some block of `bs` is an image or a document.
pub open spec fn blocks_have_media(bs: Seq<ContentBlockV>) -> bool {
    exists|i: int| 0 <= i < bs.len() && is_media_block(#[trigger] bs[i])
}

/// A new request for `model` with nothing else set.
pub open spec fn new_request_v(model: Seq<char>, p: Protocol) -> IrRequestV {
    IrRequestV {
        model,
        messages: Seq::empty(),
        system_prompt: Seq::empty(),
        tools: Seq::empty(),
        tool_choice: None,
        max_tokens: None,
        temperature: None,
        top_p: None,
        top_k: None,
        stop_sequences: Seq::empty(),
        stream: None,
        thinking: None,
        response_format: None,
        provider_extensions: Seq::empty(),
        inbound_protocol: p,
        original_model: None,
        raw_extra: Seq::empty(),
        outbound_extra: Seq::empty(),
    }
}

fn blocks_have_media_exec(bs: &Vec<ContentBlock>) -> (r: bool)
    ensures
        r == blocks_have_media(bs.deep_view()),
{
    let mut i: usize = 0;
    while i < bs.len()
        invariant
            i <= bs@.len(),
            forall|j: int| 0 <= j < i ==> !is_media_block(#[trigger] bs.deep_view()[j]),
        decreases bs.len() - i,
    {
        let t = bs[i].content_type;
        if t == ContentType::Image || t == ContentType::Document {
            assert(is_media_block(bs.deep_view()[i as int]));
            return true;
        }
        i = i + 1;
    }
    false
}

impl IrRequest {
    /// A new request for `model`, received as `inbound_protocol`, with
    /// nothing else set.
    pub fn new(model: String, inbound_protocol: Protocol) -> (r: IrRequest)
        ensures
            r@ == new_request_v(model@, inbound_protocol),
    {
        let r = IrRequest {
            model,
            messages: Vec::new(),
            system_prompt: Vec::new(),
            tools: Vec::new(),
            tool_choice: None,
            max_tokens: None,
            temperature: None,
            top_p: None,
            top_k: None,
            stop_sequences: Vec::new(),
            stream: None,
            thinking: None,
            response_format: None,
            provider_extensions: Vec::new(),
            inbound_protocol,
            original_model: None,
            raw_extra: Vec::new(),
            outbound_extra: Vec::new(),
        };
        assert(r@ =~= new_request_v(model@, inbound_protocol));
        r
    }

    /// The model name.
    pub fn model(&self) -> (r: &str)
        ensures
            r@ == self.model@,
    {
        self.model.as_str()
    }

    /// The protocol the request was received as.
    pub fn inbound_protocol(&self) -> (r: Protocol)
        ensures
            r == self.inbound_protocol,
    {
        self.inbound_protocol
    }

    /// Whether a streamed reply was asked for (absent means no).
    pub fn is_streaming(&self) -> (r: bool)
        ensures
            r == (self.stream == Some(true)),
    {
        match self.stream {
            Some(b) => b,
            None => false,
        }
    }

    /// Whether the request defines any tool.
    pub fn has_tools(&self) -> (r: bool)
        ensures
            r == (self.tools@.len() > 0),
    {
        self.tools.len() > 0
    }

    /// Whether the system prompt or any message holds an image or a
    /// document.
    pub fn has_media(&self) -> (r: bool)
        ensures
            r == (blocks_have_media(self@.system_prompt) || exists|m: int|
                0 <= m < self@.messages.len() && blocks_have_media(
                    #[trigger] self@.messages[m].content,
                )),
    {
        if blocks_have_media_exec(&self.system_prompt) {
            return true;
        }
        let mut i: usize = 0;
        while i < self.messages.len()
            invariant
                i <= self.messages@.len(),
                !blocks_have_media(self@.system_prompt),
                forall|j: int| 0 <= j < i ==> !blocks_have_media(#[trigger] self@.messages[j].content),
            decreases self.messages.len() - i,
        {
            if blocks_have_media_exec(&self.messages[i].content) {
                assert(self@.messages[i as int].content == self.messages@[i as int].content.deep_view());
                return true;
            }
            i = i + 1;
        }
        false
    }
}

} // verus!
