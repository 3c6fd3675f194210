//! The DeepSeek client's side of the Anthropic Messages protocol: requests,
//! responses, prices, and what to do when a call fails.

use crate::ids::{fresh_tool_id, id_or, is_synthetic_id, tool_id_or};
use crate::json::{
    field, json_string, json_text, readable, reads_as, text_at, Json, JsonView, READ_DEPTH,
};
use crate::message::{copy_opt, BlockView, MessageView};
use crate::stream::{all_synthetic, flush_handed_on, flushed, SseReader, StreamView};
use crate::text::{contains, lemma_views_push, occurs, opt_view, text_eq, views, Text};
use crate::wire::{sanitize, sanitized};
use vstd::prelude::*;

pub use crate::ids::sanitize_tool_use_id;
pub use crate::message::{Content, ContentBlock, Message, Role};
pub use crate::stream::{parse_partial_json, ApiStreamEvent, StreamState, Usage};

verus! {

/// Where the Anthropic-compatible endpoint is.
pub const DEEPSEEK_ANTHROPIC_BASE: &'static str = "https://api.deepseek.com/anthropic";

pub const MODEL_FLASH: &'static str = "deepseek-v4-flash";

pub const MODEL_PRO: &'static str = "deepseek-v4-pro";

/// How much the model may reason before it answers; reasoning is billed.
#[derive(Debug, Clone, Copy, PartialEq, Eq, Structural)]
pub enum ThinkingMode {
    NonThink,
    ThinkHigh { budget_tokens: u32 },
    ThinkMax { budget_tokens: u32 },
}

/// A function that the model calls, with its arguments as JSON text.
#[derive(Debug)]
pub struct FunctionCall {
    pub name: String,
    pub arguments: String,
}

/// A tool call.
#[derive(Debug)]
pub struct ToolCall {
    pub id: String,
    pub call_type: String,
    pub function: FunctionCall,
}

#[verifier::ext_equal]
pub struct ToolCallView {
    pub id: Text,
    pub call_type: Text,
    pub name: Text,
    pub arguments: Text,
}

impl View for ToolCall {
    type V = ToolCallView;

    open spec fn view(&self) -> ToolCallView {
        ToolCallView {
            id: self.id@,
            call_type: self.call_type@,
            name: self.function.name@,
            arguments: self.function.arguments@,
        }
    }
}

impl Clone for ToolCall {
    fn clone(&self) -> (r: ToolCall)
        ensures
            r@ == self@,
    {
        ToolCall {
            id: self.id.clone(),
            call_type: self.call_type.clone(),
            function: FunctionCall {
                name: self.function.name.clone(),
                arguments: self.function.arguments.clone(),
            },
        }
    }
}

/// The data of one web search result block.
#[derive(Debug)]
pub struct WebSearchBlock {
    pub tool_use_id: Option<String>,
    pub title: Option<String>,
    pub url: Option<String>,
    pub content: Json,
}

#[verifier::ext_equal]
pub struct WebSearchView {
    pub tool_use_id: Option<Text>,
    pub title: Option<Text>,
    pub url: Option<Text>,
    pub content: JsonView,
}

impl View for WebSearchBlock {
    type V = WebSearchView;

    open spec fn view(&self) -> WebSearchView {
        WebSearchView {
            tool_use_id: opt_view(self.tool_use_id),
            title: opt_view(self.title),
            url: opt_view(self.url),
            content: self.content@,
        }
    }
}

/// A model's answer, as the agent uses it.
#[derive(Debug)]
pub struct ApiResponse {
    pub content: String,
    pub thinking_content: Option<String>,
    /// Must be sent along when the reasoning is replayed.
    pub thinking_signature: Option<String>,
    pub tool_calls: Option<Vec<ToolCall>>,
    pub server_tool_uses: Vec<ToolCall>,
    pub web_search_results: Vec<WebSearchBlock>,
    pub web_search_used: bool,
    pub usage: Usage,
    pub finish_reason: String,
}

#[verifier::ext_equal]
pub struct ResponseView {
    pub content: Text,
    pub thinking_content: Option<Text>,
    pub thinking_signature: Option<Text>,
    pub tool_calls: Option<Seq<ToolCallView>>,
    pub server_tool_uses: Seq<ToolCallView>,
    pub web_search_results: Seq<WebSearchView>,
    pub web_search_used: bool,
    pub usage: Usage,
    pub finish_reason: Text,
}

/// The views of an optional list.
pub open spec fn opt_views<T: View>(o: Option<Vec<T>>) -> Option<Seq<T::V>> {
    match o {
        Some(v) => Some(views(v@)),
        None => None,
    }
}

impl View for ApiResponse {
    type V = ResponseView;

    open spec fn view(&self) -> ResponseView {
        ResponseView {
            content: self.content@,
            thinking_content: opt_view(self.thinking_content),
            thinking_signature: opt_view(self.thinking_signature),
            tool_calls: opt_views(self.tool_calls),
            server_tool_uses: views(self.server_tool_uses@),
            web_search_results: views(self.web_search_results@),
            web_search_used: self.web_search_used,
            usage: self.usage,
            finish_reason: self.finish_reason@,
        }
    }
}

/// The text in search content: a string itself, of a list the `text` fields,
/// one per line.
pub open spec fn search_text(v: JsonView) -> Text {
    match v {
        JsonView::Str(s) => s,
        JsonView::Array(items) => crate::text::joined(item_texts(items), "\n"@),
        _ => Seq::empty(),
    }
}

/// The `text` fields of the items that have one.
pub open spec fn item_texts(items: Seq<JsonView>) -> Seq<Text>
    decreases items.len(),
{
    if items.len() == 0 {
        Seq::empty()
    } else {
        let before = item_texts(items.drop_last());
        match text_at(items.last(), "text"@) {
            Some(t) => before.push(t),
            None => before,
        }
    }
}

/// The text in search content.
pub fn extract_search_text(value: &Json) -> (r: String)
    ensures
        r@ == search_text(value@),
{
    match value {
        Json::Str(s) => s.clone(),
        Json::Array(items) => {
            let mut parts: Vec<String> = Vec::new();
            let mut i: usize = 0;
            assert(views(parts@) =~= Seq::<Text>::empty());
            assert(value@->Array_0 =~= views(items@));
            while i < items.len()
                invariant
                    i <= items@.len(),
                    views(parts@) == item_texts(views(items@).take(i as int)),
                decreases items@.len() - i,
            {
                let ghost next = views(items@).take(i + 1);
                assert(next.drop_last() =~= views(items@).take(i as int));
                if let Some(t) = items[i].str_at("text") {
                    let part = t.to_string();
                    proof {
                        lemma_views_push(parts@, part);
                    }
                    parts.push(part);
                }
                i = i + 1;
            }
            assert(views(items@).take(i as int) =~= views(items@));
            assert(views(parts@).subrange(0, parts@.len() as int) =~= views(parts@));
            crate::text::join(&parts, 0, parts.len(), "\n")
        },
        _ => String::new(),
    }
}

/// What the user reads of one search result.
pub open spec fn search_section(title: Option<Text>, url: Option<Text>, content: JsonView) -> Text {
    let open = "\n\n### 搜索结果\n"@;
    let linked = match (title, url) {
        (Some(t), Some(u)) => open + "**["@ + t + "]("@ + u + ")**\n\n"@,
        _ => open,
    };
    linked + search_text(content)
}

/// A response before any block has been read.
pub open spec fn empty_response(usage: Usage, finish_reason: Text) -> ResponseView {
    ResponseView {
        content: Seq::empty(),
        thinking_content: None,
        thinking_signature: None,
        tool_calls: Some(Seq::empty()),
        server_tool_uses: Seq::empty(),
        web_search_results: Seq::empty(),
        web_search_used: false,
        usage,
        finish_reason,
    }
}

/// A response with one more block; a tool call without an identifier gets
/// `fresh`.
pub open spec fn with_block(r: ResponseView, b: BlockView, fresh: Text) -> ResponseView {
    match b {
        BlockView::Text { text } => ResponseView { content: r.content + text, ..r },
        BlockView::Thinking { thinking, signature } => ResponseView {
            thinking_content: Some(thinking),
            thinking_signature: signature,
            ..r
        },
        BlockView::ToolUse { id, name, input } => ResponseView {
            tool_calls: Some(
                r.tool_calls.unwrap().push(
                    ToolCallView {
                        id: tool_id_or(id, fresh),
                        call_type: "tool_use"@,
                        name,
                        arguments: json_text(input),
                    },
                ),
            ),
            web_search_used: r.web_search_used || name == "web_search"@,
            ..r
        },
        BlockView::WebSearchResult { tool_use_id, title, url, content } => ResponseView {
            content: r.content + search_section(title, url, content),
            web_search_results: r.web_search_results.push(
                WebSearchView {
                    tool_use_id: if tool_use_id.len() == 0 {
                        None
                    } else {
                        Some(tool_use_id)
                    },
                    title,
                    url,
                    content,
                },
            ),
            web_search_used: true,
            ..r
        },
        BlockView::ServerToolUse { id, name, input } => ResponseView {
            server_tool_uses: r.server_tool_uses.push(
                ToolCallView {
                    id: tool_id_or(id, fresh),
                    call_type: "server_tool_use"@,
                    name,
                    arguments: json_text(input),
                },
            ),
            web_search_used: true,
            ..r
        },
        _ => r,
    }
}

/// The response made of the blocks, the n-th with the n-th fresh identifier.
pub open spec fn collected(
    blocks: Seq<BlockView>,
    usage: Usage,
    finish_reason: Text,
    fresh: Seq<Text>,
) -> ResponseView
    decreases blocks.len(),
{
    if blocks.len() == 0 {
        empty_response(usage, finish_reason)
    } else {
        with_block(
            collected(blocks.drop_last(), usage, finish_reason, fresh),
            blocks.last(),
            fresh[blocks.len() - 1],
        )
    }
}

/// The response made of the blocks; without any tool call there is no list of
/// them.
pub open spec fn response_of(
    blocks: Seq<BlockView>,
    usage: Usage,
    finish_reason: Text,
    fresh: Seq<Text>,
) -> ResponseView {
    let r = collected(blocks, usage, finish_reason, fresh);
    ResponseView {
        tool_calls: if r.tool_calls.unwrap().len() == 0 {
            None
        } else {
            r.tool_calls
        },
        ..r
    }
}

fn section_text(title: &Option<String>, url: &Option<String>, content: &Json) -> (r: String)
    ensures
        r@ == search_section(opt_view(*title), opt_view(*url), content@),
{
    let mut part = "\n\n### 搜索结果\n".to_string();
    if let Some(t) = title {
        if let Some(u) = url {
            part.push_str("**[");
            part.push_str(t);
            part.push_str("](");
            part.push_str(u);
            part.push_str(")**\n\n");
        }
    }
    part.push_str(&extract_search_text(content));
    part
}

/// Whether the arguments written for each tool call among the blocks read back
/// as its input.
pub open spec fn inputs_read_back(blocks: Seq<BlockView>) -> bool {
    forall|i: int|
        0 <= i < blocks.len() ==> (#[trigger] blocks[i] matches BlockView::ToolUse { input, .. }
            ==> readable(input, READ_DEPTH as nat) ==> reads_as(json_text(input), input))
}

/// The response made of the blocks. `fresh[i]` names block `i` if that is a tool
/// call without an identifier.
pub fn api_response_with_ids(
    blocks: &Vec<ContentBlock>,
    usage: Usage,
    finish_reason: String,
    fresh: &Vec<String>,
) -> (r: ApiResponse)
    requires
        fresh@.len() == blocks@.len(),
    ensures
        r@ == response_of(views(blocks@), usage, finish_reason@, views(fresh@)),
        inputs_read_back(views(blocks@)),
{
    let mut text = String::new();
    let mut thinking_content: Option<String> = None;
    let mut thinking_signature: Option<String> = None;
    let mut tool_calls: Vec<ToolCall> = Vec::new();
    let mut server_tool_uses: Vec<ToolCall> = Vec::new();
    let mut web_search_results: Vec<WebSearchBlock> = Vec::new();
    let mut web_search_used = false;
    let mut i: usize = 0;
    assert(views(tool_calls@) =~= Seq::<ToolCallView>::empty());
    assert(views(server_tool_uses@) =~= Seq::<ToolCallView>::empty());
    assert(views(web_search_results@) =~= Seq::<WebSearchView>::empty());
    assert(text@ =~= Seq::<char>::empty());
    while i < blocks.len()
        invariant
            i <= blocks@.len(),
            fresh@.len() == blocks@.len(),
            (ResponseView {
                content: text@,
                thinking_content: opt_view(thinking_content),
                thinking_signature: opt_view(thinking_signature),
                tool_calls: Some(views(tool_calls@)),
                server_tool_uses: views(server_tool_uses@),
                web_search_results: views(web_search_results@),
                web_search_used,
                usage,
                finish_reason: finish_reason@,
            }) == collected(
                views(blocks@).take(i as int),
                usage,
                finish_reason@,
                views(fresh@),
            ),
            inputs_read_back(views(blocks@).take(i as int)),
        decreases blocks@.len() - i,
    {
        let ghost next = views(blocks@).take(i + 1);
        assert(next.drop_last() =~= views(blocks@).take(i as int));
        assert(next.last() == blocks@[i as int]@);
        assert(views(fresh@)[i as int] == fresh@[i as int]@);
        match &blocks[i] {
            ContentBlock::Text { text: t } => {
                text.push_str(t);
            },
            ContentBlock::Thinking { thinking, signature } => {
                thinking_content = Some(thinking.clone());
                thinking_signature = copy_opt(signature);
            },
            ContentBlock::ToolUse { id, name, input } => {
                if text_eq(name, "web_search") {
                    web_search_used = true;
                }
                let call = ToolCall {
                    id: id_or(id, &fresh[i]),
                    call_type: "tool_use".to_string(),
                    function: FunctionCall { name: name.clone(), arguments: json_string(input) },
                };
                proof {
                    lemma_views_push(tool_calls@, call);
                }
                tool_calls.push(call);
            },
            ContentBlock::WebSearchResult { tool_use_id, title, url, content } => {
                web_search_used = true;
                let found = WebSearchBlock {
                    tool_use_id: if tool_use_id.as_str().is_empty() {
                        None
                    } else {
                        Some(tool_use_id.clone())
                    },
                    title: copy_opt(title),
                    url: copy_opt(url),
                    content: content.clone(),
                };
                proof {
                    lemma_views_push(web_search_results@, found);
                }
                web_search_results.push(found);
                text.push_str(&section_text(title, url, content));
            },
            ContentBlock::ServerToolUse { id, name, input } => {
                web_search_used = true;
                let call = ToolCall {
                    id: id_or(id, &fresh[i]),
                    call_type: "server_tool_use".to_string(),
                    function: FunctionCall { name: name.clone(), arguments: json_string(input) },
                };
                proof {
                    lemma_views_push(server_tool_uses@, call);
                }
                server_tool_uses.push(call);
            },
            _ => {},
        }
        i = i + 1;
        assert forall|k: int| 0 <= k < i implies (#[trigger] next[k] matches BlockView::ToolUse {
            input,
            ..
        } ==> readable(input, READ_DEPTH as nat) ==> reads_as(json_text(input), input)) by {
            if k < i - 1 {
                assert(next[k] == views(blocks@).take(i - 1)[k]);
            }
        }
    }
    assert(views(blocks@).take(i as int) =~= views(blocks@));
    ApiResponse {
        content: text,
        thinking_content,
        thinking_signature,
        tool_calls: if tool_calls.len() == 0 {
            None
        } else {
            Some(tool_calls)
        },
        server_tool_uses,
        web_search_results,
        web_search_used,
        usage,
        finish_reason,
    }
}

fn fresh_ids(n: usize) -> (r: Vec<String>)
    ensures
        r@.len() == n,
        all_synthetic(views(r@)),
{
    let mut out: Vec<String> = Vec::new();
    let mut i: usize = 0;
    while i < n
        invariant
            i <= n,
            out@.len() == i,
            all_synthetic(views(out@)),
        decreases n - i,
    {
        let id = fresh_tool_id();
        proof {
            lemma_views_push(out@, id);
        }
        out.push(id);
        i = i + 1;
    }
    out
}

/// The response made of the blocks; tool calls without an identifier get fresh
/// ones.
pub fn api_response_from_blocks(
    blocks: Vec<ContentBlock>,
    usage: Usage,
    finish_reason: String,
) -> (r: ApiResponse)
    ensures
        exists|fresh: Seq<Text>|
            fresh.len() == blocks@.len() && all_synthetic(fresh) && r@ == #[trigger] response_of(
                views(blocks@),
                usage,
                finish_reason@,
                fresh,
            ),
        inputs_read_back(views(blocks@)),
{
    let fresh = fresh_ids(blocks.len());
    api_response_with_ids(&blocks, usage, finish_reason, &fresh)
}

/// The reply to a call that was not streamed.
#[derive(Debug)]
pub struct MessagesResponse {
    pub content: Vec<ContentBlock>,
    pub stop_reason: Option<String>,
    pub usage: Usage,
}

/// Why the answer ended: what the reply says, or `end_turn`.
pub open spec fn reason_or_end(reason: Option<Text>) -> Text {
    match reason {
        Some(r) => r,
        None => "end_turn"@,
    }
}

/// The response of a call that was not streamed.
pub fn response_from_reply(reply: MessagesResponse) -> (r: ApiResponse)
    ensures
        exists|fresh: Seq<Text>|
            fresh.len() == reply.content@.len() && all_synthetic(fresh) && r@
                == #[trigger] response_of(
                views(reply.content@),
                reply.usage,
                reason_or_end(opt_view(reply.stop_reason)),
                fresh,
            ),
{
    let reason = match reply.stop_reason {
        Some(s) => s,
        None => "end_turn".to_string(),
    };
    assert(reason@ == reason_or_end(opt_view(reply.stop_reason)));
    api_response_from_blocks(reply.content, reply.usage, reason)
}

/// What a stream amounts to once it has ended and the last event has been taken:
/// the error it reported, or the response made of its blocks.
pub open spec fn stream_outcome(s: StreamView, fresh: Seq<Text>) -> Result<ResponseView, Text> {
    match s.error {
        Some(e) => Err(e),
        None => Ok(
            response_of(
                s.blocks,
                s.usage,
                if s.stop_reason.len() == 0 {
                    "end_turn"@
                } else {
                    s.stop_reason
                },
                fresh,
            ),
        ),
    }
}

pub open spec fn outcome_view(r: Result<ApiResponse, String>) -> Result<ResponseView, Text> {
    match r {
        Ok(a) => Ok(a@),
        Err(e) => Err(e@),
    }
}

impl SseReader {
    /// Ends the stream: takes the event that was still open and returns the
    /// response, with what is to be handed on at once. A tool call that lacks an
    /// identifier gets a fresh one.
    pub fn finish(self) -> (r: (Result<ApiResponse, String>, Vec<ApiStreamEvent>))
        ensures
            exists|fresh: Text, ids: Seq<Text>|
                is_synthetic_id(fresh) && all_synthetic(ids) && #[trigger] ended(
                    self.state@,
                    fresh,
                    ids,
                    outcome_view(r.0),
                ),
            views(r.1@) == flush_handed_on(self.state@),
    {
        let mut state = self.state;
        let fresh = fresh_tool_id();
        let out = state.flush_event_with(&fresh);
        let ghost last = state@;
        match state.error {
            Some(e) => {
                let r: Result<ApiResponse, String> = Err(e);
                assert(ended(self.state@, fresh@, Seq::<Text>::empty(), outcome_view(r)));
                (r, out)
            },
            None => {
                let reason = if state.stop_reason.as_str().is_empty() {
                    "end_turn".to_string()
                } else {
                    state.stop_reason
                };
                let ids = fresh_ids(state.blocks.len());
                let a = api_response_with_ids(&state.blocks, state.usage, reason, &ids);
                let r: Result<ApiResponse, String> = Ok(a);
                assert(ended(self.state@, fresh@, views(ids@), outcome_view(r)));
                (r, out)
            },
        }
    }
}

/// Whether `r` is what the stream amounts to with these fresh identifiers.
pub open spec fn ended(
    s: StreamView,
    fresh: Text,
    ids: Seq<Text>,
    r: Result<ResponseView, Text>,
) -> bool {
    let last = flushed(s, fresh);
    &&& last.error is None ==> ids.len() == last.blocks.len()
    &&& r == stream_outcome(last, ids)
}

/// A tool that is offered to the model.
#[derive(Debug)]
pub struct ToolDefinition {
    /// Server tools have a type of their own and no schema.
    pub tool_type: Option<String>,
    pub name: String,
    pub description: Option<String>,
    pub input_schema: Option<Json>,
    pub max_uses: Option<u32>,
}

#[verifier::ext_equal]
pub struct ToolDefinitionView {
    pub tool_type: Option<Text>,
    pub name: Text,
    pub description: Option<Text>,
    pub input_schema: Option<JsonView>,
    pub max_uses: Option<u32>,
}

impl View for ToolDefinition {
    type V = ToolDefinitionView;

    open spec fn view(&self) -> ToolDefinitionView {
        ToolDefinitionView {
            tool_type: opt_view(self.tool_type),
            name: self.name@,
            description: opt_view(self.description),
            input_schema: opt_view(self.input_schema),
            max_uses: self.max_uses,
        }
    }
}

/// A tool that the client runs.
pub open spec fn client_tool_view(
    name: Text,
    description: Text,
    schema: JsonView,
) -> ToolDefinitionView {
    ToolDefinitionView {
        tool_type: None,
        name,
        description: Some(description),
        input_schema: Some(schema),
        max_uses: None,
    }
}

impl ToolDefinition {
    /// A tool that the client runs.
    pub fn client_tool(name: &str, description: &str, input_schema: Json) -> (r: ToolDefinition)
        ensures
            r@ == client_tool_view(name@, description@, input_schema@),
    {
        ToolDefinition {
            tool_type: None,
            name: name.to_string(),
            description: Some(description.to_string()),
            input_schema: Some(input_schema),
            max_uses: None,
        }
    }
}

/// The tool that an OpenAI-style definition describes, if it is complete.
pub open spec fn described_tool(v: JsonView) -> Option<ToolDefinitionView> {
    match field(v, "function"@) {
        Some(f) => match (text_at(f, "name"@), text_at(f, "description"@), field(f, "parameters"@)) {
            (Some(n), Some(d), Some(p)) => Some(client_tool_view(n, d, p)),
            _ => None,
        },
        None => None,
    }
}

/// The tools described by the complete definitions of a list.
pub open spec fn described_tools(defs: Seq<JsonView>) -> Seq<ToolDefinitionView>
    decreases defs.len(),
{
    if defs.len() == 0 {
        Seq::empty()
    } else {
        let before = described_tools(defs.drop_last());
        match described_tool(defs.last()) {
            Some(t) => before.push(t),
            None => before,
        }
    }
}

/// The web search that the server runs by itself.
pub open spec fn web_search_tool() -> ToolDefinitionView {
    ToolDefinitionView {
        tool_type: Some("web_search_20260209"@),
        name: "web_search"@,
        description: None,
        input_schema: None,
        max_uses: Some(8),
    }
}

fn tool_described_by(v: &Json) -> (r: Option<ToolDefinition>)
    ensures
        opt_view(r) == described_tool(v@),
{
    match v.get("function") {
        Some(f) => match (f.str_at("name"), f.str_at("description"), f.get("parameters")) {
            (Some(n), Some(d), Some(p)) => Some(ToolDefinition::client_tool(n, d, p.clone())),
            _ => None,
        },
        None => None,
    }
}

fn tools_described_by(defs: &Vec<Json>) -> (r: Vec<ToolDefinition>)
    ensures
        views(r@) == described_tools(views(defs@)),
{
    let mut out: Vec<ToolDefinition> = Vec::new();
    let mut i: usize = 0;
    assert(views(out@) =~= Seq::<ToolDefinitionView>::empty());
    while i < defs.len()
        invariant
            i <= defs@.len(),
            views(out@) == described_tools(views(defs@).take(i as int)),
        decreases defs@.len() - i,
    {
        assert(views(defs@).take(i + 1).drop_last() =~= views(defs@).take(i as int));
        if let Some(t) = tool_described_by(&defs[i]) {
            proof {
                lemma_views_push(out@, t);
            }
            out.push(t);
        }
        i = i + 1;
    }
    assert(views(defs@).take(i as int) =~= views(defs@));
    out
}

/// How the model is asked to reason.
#[derive(Debug)]
pub struct ThinkingConfig {
    pub thinking_type: String,
    pub budget_tokens: Option<u32>,
}

#[verifier::ext_equal]
pub struct ThinkingView {
    pub thinking_type: Text,
    pub budget_tokens: Option<u32>,
}

impl View for ThinkingConfig {
    type V = ThinkingView;

    open spec fn view(&self) -> ThinkingView {
        ThinkingView { thinking_type: self.thinking_type@, budget_tokens: self.budget_tokens }
    }
}

/// A request for the model's next message.
#[derive(Debug)]
pub struct MessagesRequest {
    pub model: String,
    pub system: String,
    pub messages: Vec<Message>,
    pub tools: Option<Vec<ToolDefinition>>,
    pub thinking: Option<ThinkingConfig>,
    pub stream: Option<bool>,
    pub max_tokens: u32,
}

#[verifier::ext_equal]
pub struct RequestView {
    pub model: Text,
    pub system: Text,
    pub messages: Seq<MessageView>,
    pub tools: Option<Seq<ToolDefinitionView>>,
    pub thinking: Option<ThinkingView>,
    pub stream: Option<bool>,
    pub max_tokens: u32,
}

impl View for MessagesRequest {
    type V = RequestView;

    open spec fn view(&self) -> RequestView {
        RequestView {
            model: self.model@,
            system: self.system@,
            messages: views(self.messages@),
            tools: opt_views(self.tools),
            thinking: opt_view(self.thinking),
            stream: self.stream,
            max_tokens: self.max_tokens,
        }
    }
}

/// The request for the next message: the history as it may be sent, the tools
/// offered with the server's web search last, and the limits of the mode.
pub open spec fn request_for(
    system: Text,
    messages: Seq<MessageView>,
    tools: Option<Seq<JsonView>>,
    mode: ThinkingMode,
    model: Text,
    stream: bool,
) -> RequestView {
    let offered = match tools {
        Some(defs) => described_tools(defs),
        None => Seq::empty(),
    };
    RequestView {
        model,
        system,
        messages: sanitized(messages),
        tools: Some(offered.push(web_search_tool())),
        thinking: match mode {
            ThinkingMode::NonThink => None,
            ThinkingMode::ThinkHigh { budget_tokens } => Some(
                ThinkingView { thinking_type: "enabled"@, budget_tokens: Some(budget_tokens) },
            ),
            ThinkingMode::ThinkMax { budget_tokens } => Some(
                ThinkingView { thinking_type: "enabled"@, budget_tokens: Some(budget_tokens) },
            ),
        },
        stream: if stream {
            Some(true)
        } else {
            None
        },
        max_tokens: match mode {
            ThinkingMode::NonThink => 8_192,
            ThinkingMode::ThinkHigh { .. } => 65_536,
            ThinkingMode::ThinkMax { .. } => 196_608,
        },
    }
}

/// What became of one attempt to send a request.
#[derive(Debug)]
pub enum SendOutcome {
    /// The server replied; `reply` is the status in words and `body` what came
    /// with it.
    Replied { status: u16, reply: String, body: String },
    /// No reply came.
    Failed { error: String },
}

/// What to do after an attempt.
#[derive(Debug)]
pub enum RetryStep {
    Deliver,
    GiveUp { error: String },
    WaitAndRetry { millis: u64 },
}

#[verifier::ext_equal]
pub enum RetryView {
    Deliver,
    GiveUp { error: Text },
    WaitAndRetry { millis: u64 },
}

impl View for RetryStep {
    type V = RetryView;

    open spec fn view(&self) -> RetryView {
        match *self {
            RetryStep::Deliver => RetryView::Deliver,
            RetryStep::GiveUp { error } => RetryView::GiveUp { error: error@ },
            RetryStep::WaitAndRetry { millis } => RetryView::WaitAndRetry { millis },
        }
    }
}

/// How often a request is sent at most.
pub const MAX_ATTEMPTS: u32 = 3;

/// How long to wait after the n-th attempt, in ms: half a second, doubled each
/// time.
pub open spec fn backoff(attempt: u32) -> nat
    decreases attempt,
{
    if attempt <= 1 {
        500
    } else {
        2 * backoff((attempt - 1) as u32)
    }
}

/// Replies that may go away by themselves: too many requests, and server errors.
pub open spec fn is_transient(status: u16) -> bool {
    status == 429 || 500 <= status <= 599
}

/// What to do after the n-th attempt. A success is delivered; a transient reply
/// or none at all is tried again after a pause, unless the attempts are used up.
pub open spec fn retry_decision(attempt: u32, o: SendOutcome) -> RetryView {
    match o {
        SendOutcome::Replied { status, reply, body } => if 200 <= status <= 299 {
            RetryView::Deliver
        } else if !is_transient(status) || attempt >= MAX_ATTEMPTS {
            RetryView::GiveUp { error: "API error "@ + reply@ + ": "@ + body@ }
        } else {
            RetryView::WaitAndRetry { millis: backoff(attempt) as u64 }
        },
        SendOutcome::Failed { error } => if attempt >= MAX_ATTEMPTS {
            RetryView::GiveUp { error: "API request failed: "@ + error@ }
        } else {
            RetryView::WaitAndRetry { millis: backoff(attempt) as u64 }
        },
    }
}

fn pause_after(attempt: u32) -> (r: u64)
    requires
        1 <= attempt < MAX_ATTEMPTS,
    ensures
        r == backoff(attempt),
{
    reveal_with_fuel(backoff, 3);
    if attempt == 1 {
        500
    } else {
        1000
    }
}

/// The client of the DeepSeek endpoint.
#[derive(Debug)]
pub struct DeepSeekClient {
    pub api_key: String,
}

impl DeepSeekClient {
    pub fn new(api_key: String) -> (r: DeepSeekClient)
        ensures
            r.api_key@ == api_key@,
    {
        DeepSeekClient { api_key }
    }

    /// The history as it may be sent.
    pub fn sanitize_messages_for_wire(messages: Vec<Message>) -> (r: Vec<Message>)
        ensures
            views(r@) == sanitized(views(messages@)),
    {
        sanitize(&messages)
    }

    /// The request for the model's next message.
    pub fn build_request(
        &self,
        system: &str,
        messages: Vec<Message>,
        tools: Option<Vec<Json>>,
        thinking_mode: ThinkingMode,
        model: &str,
        stream: bool,
    ) -> (r: MessagesRequest)
        ensures
            r@ == request_for(
                system@,
                views(messages@),
                opt_views(tools),
                thinking_mode,
                model@,
                stream,
            ),
    {
        let messages = Self::sanitize_messages_for_wire(messages);
        let mut offered: Vec<ToolDefinition> = match &tools {
            Some(defs) => tools_described_by(defs),
            None => {
                let none: Vec<ToolDefinition> = Vec::new();
                assert(views(none@) =~= Seq::<ToolDefinitionView>::empty());
                none
            },
        };
        let search = ToolDefinition {
            tool_type: Some("web_search_20260209".to_string()),
            name: "web_search".to_string(),
            description: None,
            input_schema: None,
            max_uses: Some(8),
        };
        proof {
            lemma_views_push(offered@, search);
        }
        offered.push(search);
        let thinking = match thinking_mode {
            ThinkingMode::NonThink => None,
            ThinkingMode::ThinkHigh { budget_tokens } => Some(
                ThinkingConfig {
                    thinking_type: "enabled".to_string(),
                    budget_tokens: Some(budget_tokens),
                },
            ),
            ThinkingMode::ThinkMax { budget_tokens } => Some(
                ThinkingConfig {
                    thinking_type: "enabled".to_string(),
                    budget_tokens: Some(budget_tokens),
                },
            ),
        };
        let max_tokens: u32 = match thinking_mode {
            ThinkingMode::NonThink => 8_192,
            ThinkingMode::ThinkHigh { .. } => 65_536,
            ThinkingMode::ThinkMax { .. } => 196_608,
        };
        MessagesRequest {
            model: model.to_string(),
            system: system.to_string(),
            messages,
            tools: Some(offered),
            thinking,
            stream: if stream {
                Some(true)
            } else {
                None
            },
            max_tokens,
        }
    }

    /// What to do after the n-th attempt to send a request.
    pub fn after_attempt(attempt: u32, outcome: &SendOutcome) -> (r: RetryStep)
        requires
            attempt >= 1,
        ensures
            r@ == retry_decision(attempt, *outcome),
    {
        match outcome {
            SendOutcome::Replied { status, reply, body } => {
                if 200 <= *status && *status <= 299 {
                    return RetryStep::Deliver;
                }
                let transient = *status == 429 || (500 <= *status && *status <= 599);
                if !transient || attempt >= MAX_ATTEMPTS {
                    let mut error = "API error ".to_string();
                    error.push_str(reply);
                    error.push_str(": ");
                    error.push_str(body);
                    return RetryStep::GiveUp { error };
                }
                RetryStep::WaitAndRetry { millis: pause_after(attempt) }
            },
            SendOutcome::Failed { error } => {
                if attempt >= MAX_ATTEMPTS {
                    let mut e = "API request failed: ".to_string();
                    e.push_str(error);
                    return RetryStep::GiveUp { error: e };
                }
                RetryStep::WaitAndRetry { millis: pause_after(attempt) }
            },
        }
    }
}

/// Whatever happens, a request is sent three times at most.
pub proof fn attempts_are_bounded(attempt: u32, o: SendOutcome)
    requires
        attempt >= MAX_ATTEMPTS,
    ensures
        !(retry_decision(attempt, o) is WaitAndRetry),
{
}

/// What is sent obeys the protocol, whatever the history holds.
pub proof fn request_is_valid(
    system: Text,
    messages: Seq<MessageView>,
    tools: Option<Seq<JsonView>>,
    mode: ThinkingMode,
    model: Text,
    stream: bool,
)
    ensures
        crate::wire::wire_valid(
            request_for(system, messages, tools, mode, model, stream).messages,
        ),
{
    crate::wire::sanitized_is_valid(messages);
}

/// Whether the user has cancelled; without a flag, no.
pub fn is_cancelled(cancelled: &Option<bool>) -> (r: bool)
    ensures
        r == (*cancelled == Some(true)),
{
    match cancelled {
        Some(c) => *c,
        None => false,
    }
}

/// What tokens cost, in millionths of a millionth of a dollar per token.
#[derive(Debug, Clone, Copy, PartialEq, Eq, Structural)]
pub struct Pricing {
    pub input: u64,
    pub output: u64,
    pub cache_hit: u64,
}

/// The prices of a model: those of Flash for a name with `flash` in it, else
/// those of Pro.
pub open spec fn prices_of(model: Text) -> Pricing {
    if occurs(model, "flash"@) {
        Pricing { input: 140_000, output: 280_000, cache_hit: 2_800 }
    } else {
        Pricing { input: 435_000, output: 870_000, cache_hit: 3_625 }
    }
}

/// Input tokens that neither came from the cache nor went into it.
pub open spec fn uncached(u: Usage) -> int {
    let rest = u.input_tokens - (u.cache_read_input_tokens + u.cache_creation_input_tokens);
    if rest < 0 {
        0
    } else {
        rest
    }
}

/// What a call costs.
pub open spec fn cost(p: Pricing, u: Usage) -> int {
    u.cache_read_input_tokens * p.cache_hit + u.cache_creation_input_tokens * p.input + uncached(u)
        * p.input + u.output_tokens * p.output
}

/// What the cache saved: cached tokens at the full price of input, less what they
/// cost.
pub open spec fn savings(p: Pricing, u: Usage) -> int {
    u.cache_read_input_tokens * (p.input - p.cache_hit)
}

impl Pricing {
    pub open spec fn wf(self) -> bool {
        self.input <= 1_000_000 && self.output <= 1_000_000 && self.cache_hit <= self.input
    }

    pub fn for_model(model: &str) -> (r: Pricing)
        ensures
            r == prices_of(model@),
            r.wf(),
    {
        if contains(model, "flash") {
            Pricing { input: 140_000, output: 280_000, cache_hit: 2_800 }
        } else {
            Pricing { input: 435_000, output: 870_000, cache_hit: 3_625 }
        }
    }

    /// What a call costs.
    pub fn calculate(&self, usage: &Usage) -> (r: u64)
        requires
            self.wf(),
            usage.cache_read_input_tokens + usage.cache_creation_input_tokens <= u32::MAX,
        ensures
            r == cost(*self, *usage),
            r <= 4 * 1_000_000 * u32::MAX,
    {
        let cached: u32 = usage.cache_read_input_tokens + usage.cache_creation_input_tokens;
        let rest: u32 = usage.input_tokens.saturating_sub(cached);
        proof {
            lemma_price(usage.cache_read_input_tokens, self.cache_hit);
            lemma_price(usage.cache_creation_input_tokens, self.input);
            lemma_price(rest, self.input);
            lemma_price(usage.output_tokens, self.output);
        }
        usage.cache_read_input_tokens as u64 * self.cache_hit
            + usage.cache_creation_input_tokens as u64 * self.input + rest as u64 * self.input
            + usage.output_tokens as u64 * self.output
    }

    /// What the cache saved.
    pub fn cache_savings(&self, usage: &Usage) -> (r: u64)
        requires
            self.wf(),
        ensures
            r == savings(*self, *usage),
            r <= 1_000_000 * u32::MAX,
    {
        proof {
            lemma_price(usage.cache_read_input_tokens, (self.input - self.cache_hit) as u64);
        }
        usage.cache_read_input_tokens as u64 * (self.input - self.cache_hit)
    }
}

proof fn lemma_price(n: u32, p: u64)
    requires
        p <= 1_000_000,
    ensures
        0 <= n * p <= 1_000_000 * u32::MAX,
{
    assert(0 <= n * p <= 1_000_000 * u32::MAX) by (nonlinear_arith)
        requires
            0 <= n <= u32::MAX,
            0 <= p <= 1_000_000,
    ;
}

/// The cache saves exactly what the cached tokens would have cost more as plain
/// input: cost and savings together are the cost without a cache.
pub proof fn cost_plus_savings(p: Pricing, u: Usage)
    requires
        u.cache_read_input_tokens + u.cache_creation_input_tokens <= u.input_tokens,
    ensures
        cost(p, u) + savings(p, u) == u.input_tokens * p.input + u.output_tokens * p.output,
{
    let a = u.cache_read_input_tokens as int;
    let b = u.cache_creation_input_tokens as int;
    let n = u.input_tokens as int;
    let h = p.cache_hit as int;
    let i = p.input as int;
    assert(a * h + b * i + (n - (a + b)) * i + a * (i - h) == n * i) by (nonlinear_arith);
}

} // verus!
