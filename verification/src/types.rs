//! Shared vocabulary: protocols, roles, stop reasons and content blocks.

use vstd::prelude::*;
use crate::json::{Json, JsonV, opt_json};

verus! {

/// Protocol identifier for routing and codec selection.
#[derive(Debug, Clone, Copy, PartialEq, Eq, Hash, Default, Structural)]
pub enum Protocol {
    #[default]
    OpenAiChat,
    OpenAiResponses,
    Anthropic,
}

/// Role of a message sender in a conversation.
#[derive(Debug, Clone, Copy, PartialEq, Eq, Structural)]
pub enum Role {
    System,
    User,
    Assistant,
    Tool,
}

/// Reason the model stopped generating.
#[derive(Debug, PartialEq, Eq)]
pub enum StopReason {
    EndTurn,
    MaxTokens,
    ToolUse,
    StopSequence,
    ContentFilter,
    PauseTurn,
    Other(String),
}

/// The view of a [`StopReason`].
#[verifier::ext_equal]
pub enum StopReasonV {
    EndTurn,
    MaxTokens,
    ToolUse,
    StopSequence,
    ContentFilter,
    PauseTurn,
    Other(Seq<char>),
}

impl View for StopReason {
    type V = StopReasonV;

    open spec fn view(&self) -> StopReasonV {
        match self {
            StopReason::EndTurn => StopReasonV::EndTurn,
            StopReason::MaxTokens => StopReasonV::MaxTokens,
            StopReason::ToolUse => StopReasonV::ToolUse,
            StopReason::StopSequence => StopReasonV::StopSequence,
            StopReason::ContentFilter => StopReasonV::ContentFilter,
            StopReason::PauseTurn => StopReasonV::PauseTurn,
            StopReason::Other(s) => StopReasonV::Other(s@),
        }
    }
}

impl DeepView for StopReason {
    type V = StopReasonV;

    open spec fn deep_view(&self) -> StopReasonV {
        self.view()
    }
}

impl StopReason {
    /// A copy of this stop reason.
    pub fn duplicate(&self) -> (r: StopReason)
        ensures
            r@ == self@,
    {
        match self {
            StopReason::EndTurn => StopReason::EndTurn,
            StopReason::MaxTokens => StopReason::MaxTokens,
            StopReason::ToolUse => StopReason::ToolUse,
            StopReason::StopSequence => StopReason::StopSequence,
            StopReason::ContentFilter => StopReason::ContentFilter,
            StopReason::PauseTurn => StopReason::PauseTurn,
            StopReason::Other(s) => StopReason::Other(s.clone()),
        }
    }
}

/// The type of a content block within a message.
#[derive(Debug, Clone, Copy, PartialEq, Eq, Default, Structural)]
pub enum ContentType {
    #[default]
    Text,
    Image,
    ToolUse,
    ToolResult,
    ServerToolUse,
    WebSearchToolResult,
    Document,
    Thinking,
    RedactedThinking,
    Refusal,
}

/// A citation attached to a content part.
#[derive(Debug)]
pub struct Citation {
    pub kind: Option<String>,
    pub title: Option<String>,
    pub url: Option<String>,
    pub start: Option<i64>,
    pub end: Option<i64>,
    pub source_id: Option<String>,
}

/// The view of a [`Citation`].
#[verifier::ext_equal]
pub struct CitationV {
    pub kind: Option<Seq<char>>,
    pub title: Option<Seq<char>>,
    pub url: Option<Seq<char>>,
    pub start: Option<i64>,
    pub end: Option<i64>,
    pub source_id: Option<Seq<char>>,
}

impl View for Citation {
    type V = CitationV;

    open spec fn view(&self) -> CitationV {
        CitationV {
            kind: self.kind.deep_view(),
            title: self.title.deep_view(),
            url: self.url.deep_view(),
            start: self.start,
            end: self.end,
            source_id: self.source_id.deep_view(),
        }
    }
}

impl DeepView for Citation {
    type V = CitationV;

    open spec fn deep_view(&self) -> CitationV {
        self.view()
    }
}

/// Plain text content.
#[derive(Debug, Default)]
pub struct TextContent {
    pub text: String,
}

impl View for TextContent {
    type V = Seq<char>;

    open spec fn view(&self) -> Seq<char> {
        self.text@
    }
}

impl DeepView for TextContent {
    type V = Seq<char>;

    open spec fn deep_view(&self) -> Seq<char> {
        self.view()
    }
}

/// Image content reference.
#[derive(Debug)]
pub struct ImageContent {
    pub data: Option<String>,
    pub url: Option<String>,
    pub media_type: Option<String>,
    pub detail: Option<String>,
}

/// The view of an [`ImageContent`].
#[verifier::ext_equal]
pub struct ImageContentV {
    pub data: Option<Seq<char>>,
    pub url: Option<Seq<char>>,
    pub media_type: Option<Seq<char>>,
    pub detail: Option<Seq<char>>,
}

impl View for ImageContent {
    type V = ImageContentV;

    open spec fn view(&self) -> ImageContentV {
        ImageContentV {
            data: self.data.deep_view(),
            url: self.url.deep_view(),
            media_type: self.media_type.deep_view(),
            detail: self.detail.deep_view(),
        }
    }
}

impl DeepView for ImageContent {
    type V = ImageContentV;

    open spec fn deep_view(&self) -> ImageContentV {
        self.view()
    }
}

/// Document content reference.
#[derive(Debug)]
pub struct DocumentContent {
    pub data: Option<String>,
    pub url: Option<String>,
    pub media_type: Option<String>,
    pub title: Option<String>,
}

/// The view of a [`DocumentContent`].
#[verifier::ext_equal]
pub struct DocumentContentV {
    pub data: Option<Seq<char>>,
    pub url: Option<Seq<char>>,
    pub media_type: Option<Seq<char>>,
    pub title: Option<Seq<char>>,
}

impl View for DocumentContent {
    type V = DocumentContentV;

    open spec fn view(&self) -> DocumentContentV {
        DocumentContentV {
            data: self.data.deep_view(),
            url: self.url.deep_view(),
            media_type: self.media_type.deep_view(),
            title: self.title.deep_view(),
        }
    }
}

impl DeepView for DocumentContent {
    type V = DocumentContentV;

    open spec fn deep_view(&self) -> DocumentContentV {
        self.view()
    }
}

/// A tool invocation made by the model.
#[derive(Debug)]
pub struct ToolUseContent {
    pub id: String,
    pub name: String,
    pub arguments: Option<Json>,
}

/// The view of a [`ToolUseContent`] or a [`ServerToolUseContent`].
#[verifier::ext_equal]
pub struct ToolUseV {
    pub id: Seq<char>,
    pub name: Seq<char>,
    pub arguments: Option<JsonV>,
}

impl View for ToolUseContent {
    type V = ToolUseV;

    open spec fn view(&self) -> ToolUseV {
        ToolUseV { id: self.id@, name: self.name@, arguments: self.arguments.deep_view() }
    }
}

impl DeepView for ToolUseContent {
    type V = ToolUseV;

    open spec fn deep_view(&self) -> ToolUseV {
        self.view()
    }
}

/// A server-side tool invocation (e.g. Anthropic web_search).
#[derive(Debug)]
pub struct ServerToolUseContent {
    pub id: String,
    pub name: String,
    pub arguments: Option<Json>,
}

impl View for ServerToolUseContent {
    type V = ToolUseV;

    open spec fn view(&self) -> ToolUseV {
        ToolUseV { id: self.id@, name: self.name@, arguments: self.arguments.deep_view() }
    }
}

impl DeepView for ServerToolUseContent {
    type V = ToolUseV;

    open spec fn deep_view(&self) -> ToolUseV {
        self.view()
    }
}

/// A single search result from a web search server tool.
#[derive(Debug)]
pub struct WebSearchResult {
    pub title: Option<String>,
    pub url: Option<String>,
}

/// The view of a [`WebSearchResult`].
#[verifier::ext_equal]
pub struct WebSearchResultV {
    pub title: Option<Seq<char>>,
    pub url: Option<Seq<char>>,
}

impl View for WebSearchResult {
    type V = WebSearchResultV;

    open spec fn view(&self) -> WebSearchResultV {
        WebSearchResultV { title: self.title.deep_view(), url: self.url.deep_view() }
    }
}

impl DeepView for WebSearchResult {
    type V = WebSearchResultV;

    open spec fn deep_view(&self) -> WebSearchResultV {
        self.view()
    }
}

/// Result of a web search server tool call.
#[derive(Debug)]
pub struct WebSearchToolResultContent {
    pub tool_use_id: String,
    pub content: Vec<WebSearchResult>,
    pub is_error: Option<bool>,
    pub error_code: Option<String>,
}

/// The view of a [`WebSearchToolResultContent`].
#[verifier::ext_equal]
pub struct WebSearchToolResultV {
    pub tool_use_id: Seq<char>,
    pub content: Seq<WebSearchResultV>,
    pub is_error: Option<bool>,
    pub error_code: Option<Seq<char>>,
}

impl View for WebSearchToolResultContent {
    type V = WebSearchToolResultV;

    open spec fn view(&self) -> WebSearchToolResultV {
        WebSearchToolResultV {
            tool_use_id: self.tool_use_id@,
            content: self.content.deep_view(),
            is_error: self.is_error,
            error_code: self.error_code.deep_view(),
        }
    }
}

impl DeepView for WebSearchToolResultContent {
    type V = WebSearchToolResultV;

    open spec fn deep_view(&self) -> WebSearchToolResultV {
        self.view()
    }
}

/// Extended thinking output from the model.
#[derive(Debug)]
pub struct ThinkingContent {
    pub thinking: String,
    pub signature: Option<String>,
}

/// The view of a [`ThinkingContent`].
#[verifier::ext_equal]
pub struct ThinkingV {
    pub thinking: Seq<char>,
    pub signature: Option<Seq<char>>,
}

impl View for ThinkingContent {
    type V = ThinkingV;

    open spec fn view(&self) -> ThinkingV {
        ThinkingV { thinking: self.thinking@, signature: self.signature.deep_view() }
    }
}

impl DeepView for ThinkingContent {
    type V = ThinkingV;

    open spec fn deep_view(&self) -> ThinkingV {
        self.view()
    }
}

/// Redacted thinking data that must round-trip exactly.
#[derive(Debug)]
pub struct RedactedThinkingContent {
    pub data: String,
}

impl View for RedactedThinkingContent {
    type V = Seq<char>;

    open spec fn view(&self) -> Seq<char> {
        self.data@
    }
}

impl DeepView for RedactedThinkingContent {
    type V = Seq<char>;

    open spec fn deep_view(&self) -> Seq<char> {
        self.view()
    }
}

/// Refusal content from the model.
#[derive(Debug)]
pub struct RefusalContent {
    pub refusal: String,
}

impl View for RefusalContent {
    type V = Seq<char>;

    open spec fn view(&self) -> Seq<char> {
        self.refusal@
    }
}

impl DeepView for RefusalContent {
    type V = Seq<char>;

    open spec fn deep_view(&self) -> Seq<char> {
        self.view()
    }
}

/// The result of a tool invocation returned to the model.
#[derive(Debug)]
pub struct ToolResultContent {
    pub tool_use_id: String,
    pub name: Option<String>,
    pub content: Vec<ContentBlock>,
    pub is_error: Option<bool>,
}

/// The view of a [`ToolResultContent`].
#[verifier::ext_equal]
pub struct ToolResultV {
    pub tool_use_id: Seq<char>,
    pub name: Option<Seq<char>>,
    pub content: Seq<ContentBlockV>,
    pub is_error: Option<bool>,
}

/// A single content block within a message: a tag and the payload that
/// belongs to it.
#[derive(Debug, Default)]
pub struct ContentBlock {
    pub content_type: ContentType,
    pub text: Option<TextContent>,
    pub image: Option<ImageContent>,
    pub tool_use: Option<ToolUseContent>,
    pub tool_result: Option<ToolResultContent>,
    pub server_tool_use: Option<ServerToolUseContent>,
    pub web_search_tool_result: Option<WebSearchToolResultContent>,
    pub document: Option<DocumentContent>,
    pub thinking: Option<ThinkingContent>,
    pub redacted_thinking: Option<RedactedThinkingContent>,
    pub refusal: Option<RefusalContent>,
    pub citations: Vec<Citation>,
}

/// The view of a [`ContentBlock`].
#[verifier::ext_equal]
pub struct ContentBlockV {
    pub content_type: ContentType,
    pub text: Option<Seq<char>>,
    pub image: Option<ImageContentV>,
    pub tool_use: Option<ToolUseV>,
    pub tool_result: Option<ToolResultV>,
    pub server_tool_use: Option<ToolUseV>,
    pub web_search_tool_result: Option<WebSearchToolResultV>,
    pub document: Option<DocumentContentV>,
    pub thinking: Option<ThinkingV>,
    pub redacted_thinking: Option<Seq<char>>,
    pub refusal: Option<Seq<char>>,
    pub citations: Seq<CitationV>,
}

/// The view of a block.
pub open spec fn block_v(b: ContentBlock) -> ContentBlockV
    decreases b, 1nat,
{
    ContentBlockV {
        content_type: b.content_type,
        text: b.text.deep_view(),
        image: b.image.deep_view(),
        tool_use: b.tool_use.deep_view(),
        tool_result: match b.tool_result {
            Some(tr) => Some(
                ToolResultV {
                    tool_use_id: tr.tool_use_id@,
                    name: tr.name.deep_view(),
                    content: blocks_v(tr.content@),
                    is_error: tr.is_error,
                },
            ),
            None => None,
        },
        server_tool_use: b.server_tool_use.deep_view(),
        web_search_tool_result: b.web_search_tool_result.deep_view(),
        document: b.document.deep_view(),
        thinking: b.thinking.deep_view(),
        redacted_thinking: b.redacted_thinking.deep_view(),
        refusal: b.refusal.deep_view(),
        citations: b.citations.deep_view(),
    }
}

/// The views of the blocks `bs`, in order.
pub open spec fn blocks_v(bs: Seq<ContentBlock>) -> Seq<ContentBlockV>
    decreases bs, 0nat,
{
    if bs.len() == 0 {
        Seq::empty()
    } else {
        blocks_v(bs.subrange(0, bs.len() - 1)).push(block_v(bs[bs.len() - 1]))
    }
}

impl View for ContentBlock {
    type V = ContentBlockV;

    open spec fn view(&self) -> ContentBlockV {
        block_v(*self)
    }
}

/// `blocks_v` is the item-wise view.
pub proof fn lemma_blocks_v(bs: Seq<ContentBlock>)
    ensures
        forall|i: int| 0 <= i < bs.len() ==> #[trigger] blocks_v(bs)[i] == bs[i]@,
        blocks_v(bs).len() == bs.len(),
    decreases bs.len(),
{
    if bs.len() > 0 {
        lemma_blocks_v(bs.subrange(0, bs.len() - 1));
    }
}

/// The view of a list of blocks is `blocks_v` of its items.
pub proof fn lemma_blocks_vec(v: &Vec<ContentBlock>)
    ensures
        blocks_v(v@) == v.deep_view(),
{
    lemma_blocks_v(v@);
    assert(blocks_v(v@) =~= v.deep_view());
}

impl DeepView for ContentBlock {
    type V = ContentBlockV;

    open spec fn deep_view(&self) -> ContentBlockV {
        self.view()
    }
}

impl View for ToolResultContent {
    type V = ToolResultV;

    open spec fn view(&self) -> ToolResultV {
        ToolResultV {
            tool_use_id: self.tool_use_id@,
            name: self.name.deep_view(),
            content: self.content.deep_view(),
            is_error: self.is_error,
        }
    }
}

impl DeepView for ToolResultContent {
    type V = ToolResultV;

    open spec fn deep_view(&self) -> ToolResultV {
        self.view()
    }
}

/// A block of type `t` with no payload.
pub open spec fn empty_block_v(t: ContentType) -> ContentBlockV {
    ContentBlockV {
        content_type: t,
        text: None,
        image: None,
        tool_use: None,
        tool_result: None,
        server_tool_use: None,
        web_search_tool_result: None,
        document: None,
        thinking: None,
        redacted_thinking: None,
        refusal: None,
        citations: Seq::empty(),
    }
}

/// A text block holding `s`.
pub open spec fn text_block_v(s: Seq<char>) -> ContentBlockV {
    ContentBlockV { text: Some(s), ..empty_block_v(ContentType::Text) }
}

impl ContentBlock {
    /// A block of type `t` with no payload.
    pub fn empty(t: ContentType) -> (r: ContentBlock)
        ensures
            r@ == empty_block_v(t),
    {
        let r = ContentBlock {
            content_type: t,
            text: None,
            image: None,
            tool_use: None,
            tool_result: None,
            server_tool_use: None,
            web_search_tool_result: None,
            document: None,
            thinking: None,
            redacted_thinking: None,
            refusal: None,
            citations: Vec::new(),
        };
        assert(r@.citations =~= Seq::<CitationV>::empty());
        r
    }

    /// A text block holding `s`.
    pub fn text_block(s: String) -> (r: ContentBlock)
        ensures
            r@ == text_block_v(s@),
    {
        let mut r = ContentBlock::empty(ContentType::Text);
        r.text = Some(TextContent { text: s });
        r
    }

    /// A tool-use block.
    pub fn tool_use_block(id: String, name: String, arguments: Option<Json>) -> (r: ContentBlock)
        ensures
            r@ == tool_use_block_v(id@, name@, opt_json(arguments)),
    {
        let mut r = ContentBlock::empty(ContentType::ToolUse);
        r.tool_use = Some(ToolUseContent { id, name, arguments });
        r
    }

    /// A thinking block.
    pub fn thinking_block(thinking: String, signature: Option<String>) -> (r: ContentBlock)
        ensures
            r@ == thinking_block_v(thinking@, signature.deep_view()),
    {
        let mut r = ContentBlock::empty(ContentType::Thinking);
        r.thinking = Some(ThinkingContent { thinking, signature });
        r
    }

    /// A redacted-thinking block.
    pub fn redacted_block(data: String) -> (r: ContentBlock)
        ensures
            r@ == redacted_block_v(data@),
    {
        let mut r = ContentBlock::empty(ContentType::RedactedThinking);
        r.redacted_thinking = Some(RedactedThinkingContent { data });
        r
    }

    /// An image block.
    pub fn image_block(image: Option<ImageContent>) -> (r: ContentBlock)
        ensures
            r@ == image_block_v(image.deep_view()),
    {
        let mut r = ContentBlock::empty(ContentType::Image);
        r.image = image;
        r
    }

    /// A tool-result block.
    pub fn tool_result_block(
        tool_use_id: String,
        name: Option<String>,
        content: Vec<ContentBlock>,
        is_error: Option<bool>,
    ) -> (r: ContentBlock)
        ensures
            r@ == tool_result_block_v(tool_use_id@, name.deep_view(), content.deep_view(), is_error),
    {
        proof {
            lemma_blocks_vec(&content);
        }
        let mut r = ContentBlock::empty(ContentType::ToolResult);
        r.tool_result = Some(ToolResultContent { tool_use_id, name, content, is_error });
        r
    }
}

/// A thinking block.
pub open spec fn thinking_block_v(thinking: Seq<char>, signature: Option<Seq<char>>) -> ContentBlockV {
    ContentBlockV {
        thinking: Some(ThinkingV { thinking, signature }),
        ..empty_block_v(ContentType::Thinking)
    }
}

/// A redacted-thinking block.
pub open spec fn redacted_block_v(data: Seq<char>) -> ContentBlockV {
    ContentBlockV { redacted_thinking: Some(data), ..empty_block_v(ContentType::RedactedThinking) }
}

/// A tool-use block.
pub open spec fn tool_use_block_v(id: Seq<char>, name: Seq<char>, arguments: Option<JsonV>) -> ContentBlockV {
    ContentBlockV {
        tool_use: Some(ToolUseV { id, name, arguments }),
        ..empty_block_v(ContentType::ToolUse)
    }
}

/// An image block.
pub open spec fn image_block_v(image: Option<ImageContentV>) -> ContentBlockV {
    ContentBlockV { image, ..empty_block_v(ContentType::Image) }
}

/// A tool-result block.
pub open spec fn tool_result_block_v(
    tool_use_id: Seq<char>,
    name: Option<Seq<char>>,
    content: Seq<ContentBlockV>,
    is_error: Option<bool>,
) -> ContentBlockV {
    ContentBlockV {
        tool_result: Some(ToolResultV { tool_use_id, name, content, is_error }),
        ..empty_block_v(ContentType::ToolResult)
    }
}

} // verus!

