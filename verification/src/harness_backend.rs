//! A turn that runs in the Harness runtime: its frames become the events that the
//! user sees.

use crate::events::{AgentStreamEvent, EventView, TokenUsageInfo};
use crate::harness::{
    FrameView, HarnessFrame, InitializeParams, NOTIFY_SESSION_EVENT, NOTIFY_SUBAGENT_FINISHED,
    NOTIFY_SUBAGENT_STARTED,
};
use crate::json::{
    field, field_or_null, json_string, json_text, nat_at, or_empty, text_at, text_of as string_text,
    Json, JsonView,
};
use crate::table::{entry_or_empty, TextTable};
use crate::text::{
    decimal, first_chars, lemma_views_push, number, opt_view, text_eq, trim, trimmed, views, Text,
};
use vstd::prelude::*;

verus! {

/// How a runtime is started for a turn.
#[derive(Debug)]
pub struct HarnessTurnConfig {
    pub node_bin: String,
    pub bin: String,
    pub cordis: String,
    pub node_args: Vec<String>,
    pub cwd: String,
    pub api_key: String,
    pub workspace: String,
    pub session_root: String,
    pub model: String,
    pub effort: String,
    pub sandbox: String,
    pub max_tokens: u32,
    pub system_prompt: String,
}

/// What a turn of the runtime comes to.
#[derive(Debug)]
pub struct HarnessTurnResult {
    pub message: String,
    pub thinking_content: String,
    pub token_usage: TokenUsageInfo,
    pub finish_reason: String,
    pub context_usage: u64,
}

#[verifier::ext_equal]
pub struct HarnessResultView {
    pub message: Text,
    pub thinking_content: Text,
    pub token_usage: TokenUsageInfo,
    pub finish_reason: Text,
    pub context_usage: u64,
}

impl View for HarnessTurnResult {
    type V = HarnessResultView;

    open spec fn view(&self) -> HarnessResultView {
        HarnessResultView {
            message: self.message@,
            thinking_content: self.thinking_content@,
            token_usage: self.token_usage,
            finish_reason: self.finish_reason@,
            context_usage: self.context_usage,
        }
    }
}

/// All strings of a list, one after the other.
pub open spec fn strings_joined(items: Seq<JsonView>) -> Text
    decreases items.len(),
{
    if items.len() == 0 {
        Seq::empty()
    } else {
        strings_joined(items.drop_last()) + or_empty(string_text(items.last()))
    }
}

/// The strings of a list as one text; none where that would be empty.
pub open spec fn joined_texts(v: JsonView) -> Option<Text> {
    match v {
        JsonView::Array(items) => if strings_joined(items).len() == 0 {
            None
        } else {
            Some(strings_joined(items))
        },
        _ => None,
    }
}

/// The strings of a list as one text; none where that would be empty.
pub fn join_texts(value: &Json) -> (r: Option<String>)
    ensures
        opt_view(r) == joined_texts(value@),
{
    let items = match value.as_array() {
        Some(items) => items,
        None => {
            return None;
        },
    };
    let mut out = String::new();
    let mut i: usize = 0;
    while i < items.len()
        invariant
            i <= items@.len(),
            out@ == strings_joined(views(items@).take(i as int)),
        decreases items@.len() - i,
    {
        let ghost was = out@;
        assert(views(items@).take(i + 1).drop_last() =~= views(items@).take(i as int));
        if let Some(t) = items[i].as_str() {
            out.push_str(t);
        } else {
            assert(was + Seq::<char>::empty() =~= was);
        }
        i = i + 1;
    }
    assert(views(items@).take(i as int) =~= views(items@));
    if out.as_str().is_empty() {
        None
    } else {
        Some(out)
    }
}

/// The texts of the text blocks, one after the other.
pub open spec fn blocks_joined(items: Seq<JsonView>) -> Text
    decreases items.len(),
{
    if items.len() == 0 {
        Seq::empty()
    } else {
        let b = items.last();
        blocks_joined(items.drop_last()) + (if text_at(b, "type"@) == Some("text"@) {
            or_empty(text_at(b, "text"@))
        } else {
            Seq::empty()
        })
    }
}

/// The text of a list of blocks.
pub open spec fn blocks_text(v: JsonView) -> Text {
    match v {
        JsonView::Array(items) => blocks_joined(items),
        _ => Seq::empty(),
    }
}

/// The text of a list of blocks.
pub fn text_of(content: &Json) -> (r: String)
    ensures
        r@ == blocks_text(content@),
{
    let mut out = String::new();
    if let Some(items) = content.as_array() {
        let mut i: usize = 0;
        while i < items.len()
            invariant
                i <= items@.len(),
                out@ == blocks_joined(views(items@).take(i as int)),
            decreases items@.len() - i,
        {
            let ghost was = out@;
            assert(views(items@).take(i + 1).drop_last() =~= views(items@).take(i as int));
            assert(was + Seq::<char>::empty() =~= was);
            if items[i].has_type("text") {
                if let Some(t) = items[i].str_at("text") {
                    out.push_str(t);
                }
            }
            i = i + 1;
        }
        assert(views(items@).take(i as int) =~= views(items@));
    }
    out
}

/// A text cut to `n` characters, with a mark where something was cut off.
pub open spec fn shortened(t: Text, n: int) -> Text {
    if t.len() > n {
        t.take(n) + "…"@
    } else {
        t
    }
}

fn shorten(t: &str, n: usize) -> (r: String)
    ensures
        r@ == shortened(t@, n as int),
{
    if t.unicode_len() > n {
        let mut s = first_chars(t, n);
        s.push_str("…");
        s
    } else {
        t.to_string()
    }
}

/// The type of an event.
pub open spec fn event_type(e: JsonView) -> Text {
    or_empty(text_at(e, "type"@))
}

pub open spec fn event_data(e: JsonView) -> JsonView {
    field_or_null(e, "data"@)
}

/// A short line on an event for the trajectory.
pub open spec fn trajectory_text(e: JsonView) -> Text {
    let ty = match text_at(e, "type"@) {
        Some(t) => t,
        None => "?"@,
    };
    let data = event_data(e);
    if ty == "user/message"@ {
        shortened(trimmed(blocks_text(field_or_null(data, "content"@))), 140)
    } else if ty == "assistant/message"@ {
        shortened(
            trimmed(
                blocks_text(field_or_null(field_or_null(data, "message"@), "content"@)),
            ),
            140,
        )
    } else if ty == "tool/call"@ {
        or_empty(text_at(data, "name"@)) + " "@ + shortened(
            or_empty(text_at(data, "arguments"@)),
            100,
        )
    } else if ty == "tool/result"@ {
        "→ tool result"@
    } else if ty == "text-chunks"@ || ty == "reasoning-chunks"@ {
        shortened(or_empty(joined_texts(field_or_null(data, "texts"@))), 140)
    } else if ty == "session/title"@ {
        "title: "@ + or_empty(text_at(data, "title"@))
    } else if ty == "time-context"@ {
        "clock injected"@
    } else {
        ty
    }
}

/// A short line on an event for the trajectory.
pub fn trajectory_summary(event: &Json) -> (r: String)
    ensures
        r@ == trajectory_text(event@),
{
    let ty = match event.str_at("type") {
        Some(t) => t.to_string(),
        None => "?".to_string(),
    };
    let data = event.value_at("data");
    if text_eq(&ty, "user/message") {
        shorten(&trim(&text_of(&data.value_at("content"))), 140)
    } else if text_eq(&ty, "assistant/message") {
        shorten(&trim(&text_of(&data.value_at("message").value_at("content"))), 140)
    } else if text_eq(&ty, "tool/call") {
        let mut s = data.string_at("name");
        s.push_str(" ");
        s.push_str(&shorten(&data.string_at("arguments"), 100));
        s
    } else if text_eq(&ty, "tool/result") {
        "→ tool result".to_string()
    } else if text_eq(&ty, "text-chunks") || text_eq(&ty, "reasoning-chunks") {
        let t = match join_texts(&data.value_at("texts")) {
            Some(t) => t,
            None => String::new(),
        };
        shorten(&t, 140)
    } else if text_eq(&ty, "session/title") {
        let mut s = "title: ".to_string();
        s.push_str(&data.string_at("title"));
        s
    } else if text_eq(&ty, "time-context") {
        "clock injected".to_string()
    } else {
        ty
    }
}

/// An optional text as an event.
pub open spec fn as_text_event(t: Option<Text>) -> Option<EventView> {
    match t {
        Some(content) => Some(EventView::Text { content }),
        None => None,
    }
}

pub open spec fn as_thinking_event(t: Option<Text>) -> Option<EventView> {
    match t {
        Some(text) => Some(EventView::Thinking { text }),
        None => None,
    }
}

/// The event for a piece of the assistant's message.
pub open spec fn chunk_event(chunk: JsonView) -> Option<EventView> {
    let t = text_at(chunk, "type"@);
    if t == Some("reasoning-delta"@) {
        as_thinking_event(text_at(chunk, "text"@))
    } else if t == Some("text-delta"@) {
        as_text_event(text_at(chunk, "text"@))
    } else if t == Some("block-end"@) {
        let block = field_or_null(chunk, "block"@);
        if text_at(block, "type"@) == Some("text"@) {
            as_text_event(text_at(block, "text"@))
        } else {
            None
        }
    } else {
        None
    }
}

/// The first item of a list, or `null`.
pub open spec fn first_item(v: JsonView) -> JsonView {
    match v {
        JsonView::Array(items) => if items.len() > 0 {
            items[0]
        } else {
            JsonView::Null
        },
        _ => JsonView::Null,
    }
}

/// The block that a tool's result is in.
pub open spec fn result_block_of(data: JsonView) -> JsonView {
    first_item(field_or_null(field_or_null(data, "message"@), "content"@))
}

/// The event for a tool's result; its name is the one that its call had.
pub open spec fn result_event(data: JsonView, names: Map<Text, Text>) -> EventView {
    let block = result_block_of(data);
    let id = or_empty(text_at(block, "toolCallId"@));
    let summary = blocks_text(field_or_null(block, "content"@));
    if field_or_null(block, "isError"@) == JsonView::Bool(true) {
        EventView::ToolError { id, name: entry_or_empty(names, id), error: summary }
    } else {
        EventView::ToolDone { id, name: entry_or_empty(names, id), summary }
    }
}

/// The event that an event of the runtime becomes, if the user sees one.
pub open spec fn translated(e: JsonView, effort: Text, names: Map<Text, Text>) -> Option<
    EventView,
> {
    let data = event_data(e);
    match text_at(e, "type"@) {
        None => None,
        Some(ty) => if ty == "turn/start"@ {
            Some(EventView::TurnStart { thinking_mode: effort })
        } else if ty == "assistant/chunk"@ {
            chunk_event(field_or_null(data, "chunk"@))
        } else if ty == "tool/call"@ {
            Some(
                EventView::ToolStart {
                    id: or_empty(text_at(data, "callId"@)),
                    name: or_empty(text_at(data, "name"@)),
                    args: or_empty(text_at(data, "arguments"@)),
                },
            )
        } else if ty == "tool/result"@ {
            Some(result_event(data, names))
        } else if ty == "text-chunks"@ {
            as_text_event(joined_texts(field_or_null(data, "texts"@)))
        } else if ty == "reasoning-chunks"@ {
            as_thinking_event(joined_texts(field_or_null(data, "texts"@)))
        } else {
            None
        },
    }
}

/// The names after an event: a call is remembered.
pub open spec fn names_after(e: JsonView, names: Map<Text, Text>) -> Map<Text, Text> {
    if text_at(e, "type"@) == Some("tool/call"@) {
        names.insert(
            or_empty(text_at(event_data(e), "callId"@)),
            or_empty(text_at(event_data(e), "name"@)),
        )
    } else {
        names
    }
}

fn event_for_chunk(chunk: &Json) -> (r: Option<AgentStreamEvent>)
    ensures
        opt_view(r) == chunk_event(chunk@),
{
    if chunk.has_type("reasoning-delta") {
        match chunk.opt_string_at("text") {
            Some(text) => Some(AgentStreamEvent::Thinking { text }),
            None => None,
        }
    } else if chunk.has_type("text-delta") {
        match chunk.opt_string_at("text") {
            Some(content) => Some(AgentStreamEvent::Text { content }),
            None => None,
        }
    } else if chunk.has_type("block-end") {
        let block = chunk.value_at("block");
        if block.has_type("text") {
            match block.opt_string_at("text") {
                Some(content) => Some(AgentStreamEvent::Text { content }),
                None => None,
            }
        } else {
            None
        }
    } else {
        None
    }
}

fn event_for_result(data: &Json, names: &TextTable) -> (r: AgentStreamEvent)
    ensures
        r@ == result_event(data@, names@),
{
    let content = data.value_at("message").value_at("content");
    let block = match content.as_array() {
        Some(items) => if items.len() > 0 {
            assert(views(items@)[0] == items@[0]@);
            items[0].clone()
        } else {
            Json::Null
        },
        None => Json::Null,
    };
    let id = block.string_at("toolCallId");
    let name = names.get_or_empty(&id);
    let summary = text_of(&block.value_at("content"));
    let failed = match block.get("isError") {
        Some(Json::Bool(b)) => *b,
        _ => false,
    };
    if failed {
        AgentStreamEvent::ToolError { id, name, error: summary }
    } else {
        AgentStreamEvent::ToolDone { id, name, summary }
    }
}

/// The event that an event of the runtime becomes, if the user sees one. `names`
/// remembers the tools that were called, so that their results can be told apart.
pub fn translate_harness_event(event: &Json, effort: &str, names: &mut TextTable) -> (r: Option<
    AgentStreamEvent,
>)
    ensures
        opt_view(r) == translated(event@, effort@, old(names)@),
        final(names)@ == names_after(event@, old(names)@),
{
    let ty = match event.str_at("type") {
        Some(t) => t,
        None => {
            return None;
        },
    };
    let data = event.value_at("data");
    proof {
        types_differ();
    }
    if text_eq(ty, "turn/start") {
        Some(AgentStreamEvent::TurnStart { thinking_mode: effort.to_string() })
    } else if text_eq(ty, "assistant/chunk") {
        event_for_chunk(&data.value_at("chunk"))
    } else if text_eq(ty, "tool/call") {
        let id = data.string_at("callId");
        let name = data.string_at("name");
        names.insert(&id, &name);
        Some(AgentStreamEvent::ToolStart { id, name, args: data.string_at("arguments") })
    } else if text_eq(ty, "tool/result") {
        Some(event_for_result(&data, names))
    } else if text_eq(ty, "text-chunks") {
        match join_texts(&data.value_at("texts")) {
            Some(content) => Some(AgentStreamEvent::Text { content }),
            None => None,
        }
    } else if text_eq(ty, "reasoning-chunks") {
        match join_texts(&data.value_at("texts")) {
            Some(text) => Some(AgentStreamEvent::Thinking { text }),
            None => None,
        }
    } else {
        None
    }
}

proof fn types_differ()
    ensures
        "turn/start"@.len() == 10,
        "turn/end"@.len() == 8,
        "tool/call"@.len() == 9,
        "assistant/chunk"@.len() == 15,
        "assistant/message"@.len() == 17,
        "text-chunks"@.len() == 11,
        "reasoning-chunks"@.len() == 16,
{
    reveal_strlit("turn/start");
    reveal_strlit("turn/end");
    reveal_strlit("tool/call");
    reveal_strlit("assistant/chunk");
    reveal_strlit("assistant/message");
    reveal_strlit("text-chunks");
    reveal_strlit("reasoning-chunks");
}

/// A result is reported under the name that its call had.
pub proof fn results_are_named(
    call: JsonView,
    result: JsonView,
    effort: Text,
    names: Map<Text, Text>,
)
    requires
        text_at(call, "type"@) == Some("tool/call"@),
        text_at(result, "type"@) == Some("tool/result"@),
        or_empty(text_at(result_block_of(event_data(result)), "toolCallId"@)) == or_empty(
            text_at(event_data(call), "callId"@),
        ),
    ensures
        translated(result, effort, names_after(call, names)) matches Some(e) && (match e {
            EventView::ToolDone { id, name, .. } => id == or_empty(
                text_at(event_data(call), "callId"@),
            ) && name == or_empty(text_at(event_data(call), "name"@)),
            EventView::ToolError { id, name, .. } => id == or_empty(
                text_at(event_data(call), "callId"@),
            ) && name == or_empty(text_at(event_data(call), "name"@)),
            _ => false,
        }),
{
    reveal_strlit("tool/call");
    reveal_strlit("tool/result");
    reveal_strlit("turn/start");
    reveal_strlit("assistant/chunk");
    assert("tool/call"@.len() == 9);
    assert("tool/result"@.len() == 11);
    assert("turn/start"@.len() == 10);
    assert("assistant/chunk"@.len() == 15);
}

/// The count under a key, or 0.
pub open spec fn count_at(v: JsonView, key: Text) -> u64 {
    match nat_at(v, key) {
        Some(n) => n,
        None => 0,
    }
}

fn count_in(v: &Json, key: &str) -> (r: u64)
    ensures
        r == count_at(v@, key@),
{
    match v.u64_at(key) {
        Some(n) => n,
        None => 0,
    }
}

/// The piece of the assistant's message in an event.
pub open spec fn chunk_of(e: JsonView) -> JsonView {
    field_or_null(event_data(e), "chunk"@)
}

/// The token counts that an event carries.
pub open spec fn usage_in(e: JsonView) -> Option<JsonView> {
    if event_type(e) == "assistant/chunk"@ {
        field(chunk_of(e), "usage"@)
    } else {
        None
    }
}

/// Whether the counts of an event can be added.
pub open spec fn usage_fits(u: TokenUsageInfo, e: JsonView) -> bool {
    match usage_in(e) {
        Some(v) => {
            &&& u.input + count_at(v, "inputTokens"@) <= u64::MAX
            &&& u.output + count_at(v, "outputTokens"@) <= u64::MAX
            &&& u.cached + count_at(v, "cacheReadTokens"@) <= u64::MAX
            &&& u.thinking_tokens + count_at(v, "reasoningTokens"@) <= u64::MAX
        },
        None => true,
    }
}

/// The counts after an event.
pub open spec fn usage_after(u: TokenUsageInfo, e: JsonView) -> TokenUsageInfo {
    match usage_in(e) {
        Some(v) => TokenUsageInfo {
            input: (u.input + count_at(v, "inputTokens"@)) as u64,
            output: (u.output + count_at(v, "outputTokens"@)) as u64,
            cached: (u.cached + count_at(v, "cacheReadTokens"@)) as u64,
            cache_savings: u.cache_savings,
            thinking_tokens: (u.thinking_tokens + count_at(v, "reasoningTokens"@)) as u64,
        },
        None => u,
    }
}

/// A text, or where it is empty the first text of the given kind that is not.
pub open spec fn filled(items: Seq<JsonView>, kind: Text, have: Text) -> Text
    decreases items.len(),
{
    if items.len() == 0 {
        have
    } else {
        let t = filled(items.drop_last(), kind, have);
        let b = items.last();
        if t.len() == 0 && text_at(b, "type"@) == Some(kind) {
            or_empty(text_at(b, "text"@))
        } else {
            t
        }
    }
}

/// The blocks of a whole message.
pub open spec fn message_blocks(e: JsonView) -> Seq<JsonView> {
    match field_or_null(field_or_null(event_data(e), "message"@), "content"@) {
        JsonView::Array(items) => items,
        _ => Seq::empty(),
    }
}

/// A text after an event: pieces are appended; a whole message counts only where no
/// piece came before it.
pub open spec fn gathered(
    have: Text,
    e: JsonView,
    delta: Text,
    chunks: Text,
    kind: Text,
) -> Text {
    let ty = event_type(e);
    if ty == "assistant/chunk"@ {
        if text_at(chunk_of(e), "type"@) == Some(delta) {
            have + or_empty(text_at(chunk_of(e), "text"@))
        } else {
            have
        }
    } else if ty == chunks {
        have + or_empty(joined_texts(field_or_null(event_data(e), "texts"@)))
    } else if ty == "assistant/message"@ {
        filled(message_blocks(e), kind, have)
    } else {
        have
    }
}

/// The answer after an event.
pub open spec fn text_after(have: Text, e: JsonView) -> Text {
    gathered(have, e, "text-delta"@, "text-chunks"@, "text"@)
}

/// The reasoning after an event.
pub open spec fn thinking_after(have: Text, e: JsonView) -> Text {
    gathered(have, e, "reasoning-delta"@, "reasoning-chunks"@, "reasoning"@)
}

/// A turn of the runtime while it goes on.
#[derive(Debug)]
pub struct HarnessTurn {
    pub session_id: String,
    pub effort: String,
    pub names: TextTable,
    pub final_text: String,
    pub thinking_content: String,
    pub finish_reason: String,
    pub usage: TokenUsageInfo,
    pub done: bool,
}

#[verifier::ext_equal]
pub struct HarnessTurnView {
    pub session_id: Text,
    pub effort: Text,
    pub names: Map<Text, Text>,
    pub final_text: Text,
    pub thinking_content: Text,
    pub finish_reason: Text,
    pub usage: TokenUsageInfo,
    pub done: bool,
}

impl View for HarnessTurn {
    type V = HarnessTurnView;

    open spec fn view(&self) -> HarnessTurnView {
        HarnessTurnView {
            session_id: self.session_id@,
            effort: self.effort@,
            names: self.names@,
            final_text: self.final_text@,
            thinking_content: self.thinking_content@,
            finish_reason: self.finish_reason@,
            usage: self.usage,
            done: self.done,
        }
    }
}

/// Whether an event stays out of the trajectory.
pub open spec fn is_piece(ty: Text) -> bool {
    ty == "text-chunks"@ || ty == "reasoning-chunks"@ || ty == "assistant/chunk"@
}

/// What an event of the own session shows.
pub open spec fn shown(s: HarnessTurnView, e: JsonView) -> Seq<EventView> {
    let ty = event_type(e);
    let first = if is_piece(ty) {
        Seq::<EventView>::empty()
    } else {
        seq![EventView::Trajectory { event_type: ty, summary: trajectory_text(e) }]
    };
    match translated(e, s.effort, s.names) {
        Some(x) => first.push(x),
        None => first,
    }
}

/// The turn after an event of its own session.
pub open spec fn after_event(s: HarnessTurnView, e: JsonView) -> HarnessTurnView {
    let ends = event_type(e) == "turn/end"@;
    let reason = text_at(field_or_null(event_data(e), "reason"@), "kind"@);
    HarnessTurnView {
        names: names_after(e, s.names),
        final_text: text_after(s.final_text, e),
        thinking_content: thinking_after(s.thinking_content, e),
        finish_reason: if ends && reason is Some {
            reason->Some_0
        } else {
            s.finish_reason
        },
        usage: usage_after(s.usage, e),
        done: s.done || ends,
        ..s
    }
}

/// The event that a frame brings to the session, if it brings one.
pub open spec fn own_event(s: HarnessTurnView, f: FrameView) -> Option<JsonView> {
    match f {
        FrameView::Notification { method, params } => if method == NOTIFY_SESSION_EVENT@ && text_at(
            params,
            "sessionId"@,
        ) == Some(s.session_id) {
            Some(field_or_null(params, "event"@))
        } else {
            None
        },
        FrameView::Response { .. } => None,
    }
}

/// What a frame that is no event of the session shows.
pub open spec fn aside(f: FrameView) -> Seq<EventView> {
    match f {
        FrameView::Notification { method, params } => if method == NOTIFY_SUBAGENT_STARTED@ {
            seq![
                EventView::SubagentStarted {
                    parent_session_id: or_empty(text_at(params, "parentSessionId"@)),
                    child_session_id: or_empty(text_at(params, "childSessionId"@)),
                },
            ]
        } else if method == NOTIFY_SUBAGENT_FINISHED@ {
            seq![
                EventView::SubagentFinished {
                    parent_session_id: or_empty(text_at(params, "parentSessionId"@)),
                    child_session_id: or_empty(text_at(params, "childSessionId"@)),
                    status: or_empty(text_at(params, "status"@)),
                    summary: blocks_text(field_or_null(params, "lastAssistantMessage"@)),
                },
            ]
        } else {
            Seq::empty()
        },
        FrameView::Response { .. } => Seq::empty(),
    }
}

/// The complaint of a request that failed, with which the turn ends.
pub open spec fn rpc_error(f: FrameView) -> Option<Text> {
    match f {
        FrameView::Response { id, error: Some(err), .. } => Some(
            "harness rpc error id="@ + decimal(id as nat) + ": "@ + json_text(err),
        ),
        _ => None,
    }
}

/// The turn after a frame.
pub open spec fn after_frame(s: HarnessTurnView, f: FrameView) -> HarnessTurnView {
    match own_event(s, f) {
        Some(e) => after_event(s, e),
        None => s,
    }
}

/// What a frame shows.
pub open spec fn frame_shows(s: HarnessTurnView, f: FrameView) -> Seq<EventView> {
    match own_event(s, f) {
        Some(e) => shown(s, e),
        None => aside(f),
    }
}

/// Whether the token counts of a frame can be added.
pub open spec fn frame_fits(s: HarnessTurnView, f: FrameView) -> bool {
    match own_event(s, f) {
        Some(e) => usage_fits(s.usage, e),
        None => true,
    }
}

fn usage_json(event: &Json) -> (r: Option<Json>)
    ensures
        opt_view(r) == usage_in(event@),
{
    if event.has_type("assistant/chunk") {
        match event.value_at("data").value_at("chunk").get("usage") {
            Some(u) => Some(u.clone()),
            None => None,
        }
    } else {
        proof {
            lemma_type(event@, "assistant/chunk"@);
        }
        None
    }
}

proof fn lemma_type(e: JsonView, ty: Text)
    ensures
        ty.len() > 0 ==> (event_type(e) == ty <==> text_at(e, "type"@) == Some(ty)),
        "assistant/chunk"@.len() > 0,
        "assistant/message"@.len() > 0,
        "text-chunks"@.len() > 0,
        "reasoning-chunks"@.len() > 0,
        "turn/end"@.len() > 0,
{
    types_differ();
}

fn fill(items: &Vec<Json>, kind: &str, have: String) -> (r: String)
    ensures
        r@ == filled(views(items@), kind@, have@),
{
    let ghost start = have@;
    let mut t = have;
    let mut i: usize = 0;
    while i < items.len()
        invariant
            i <= items@.len(),
            t@ == filled(views(items@).take(i as int), kind@, start),
        decreases items@.len() - i,
    {
        assert(views(items@).take(i + 1).drop_last() =~= views(items@).take(i as int));
        assert(views(items@).take(i + 1).last() == items@[i as int]@);
        if t.as_str().is_empty() && items[i].has_type(kind) {
            t = items[i].string_at("text");
        }
        i = i + 1;
    }
    assert(views(items@).take(i as int) =~= views(items@));
    t
}

fn gather(have: String, event: &Json, delta: &str, chunks: &str, kind: &str) -> (r: String)
    ensures
        r@ == gathered(have@, event@, delta@, chunks@, kind@),
{
    let ty = event.string_at("type");
    let data = event.value_at("data");
    let mut t = have;
    let ghost before = t@;
    assert(before + Seq::<char>::empty() =~= before);
    if text_eq(&ty, "assistant/chunk") {
        let chunk = data.value_at("chunk");
        if chunk.has_type(delta) {
            t.push_str(&chunk.string_at("text"));
        }
        t
    } else if text_eq(&ty, chunks) {
        if let Some(more) = join_texts(&data.value_at("texts")) {
            t.push_str(&more);
        }
        t
    } else if text_eq(&ty, "assistant/message") {
        match data.value_at("message").value_at("content").as_array() {
            Some(items) => fill(items, kind, t),
            None => t,
        }
    } else {
        t
    }
}

impl HarnessTurn {
    /// A turn that has just been asked for.
    pub fn new(session_id: &str, effort: &str) -> (r: HarnessTurn)
        ensures
            r@ == (HarnessTurnView {
                session_id: session_id@,
                effort: effort@,
                names: Map::empty(),
                final_text: Seq::empty(),
                thinking_content: Seq::empty(),
                finish_reason: "completed"@,
                usage: TokenUsageInfo {
                    input: 0,
                    output: 0,
                    cached: 0,
                    cache_savings: 0,
                    thinking_tokens: 0,
                },
                done: false,
            }),
    {
        HarnessTurn {
            session_id: session_id.to_string(),
            effort: effort.to_string(),
            names: TextTable::new(),
            final_text: String::new(),
            thinking_content: String::new(),
            finish_reason: "completed".to_string(),
            usage: TokenUsageInfo {
                input: 0,
                output: 0,
                cached: 0,
                cache_savings: 0,
                thinking_tokens: 0,
            },
            done: false,
        }
    }

    /// Whether the token counts of a frame can be added.
    pub fn fits(&self, frame: &HarnessFrame) -> (r: bool)
        ensures
            r == frame_fits(self@, frame@),
    {
        match frame {
            HarnessFrame::Notification { method, params } => {
                if !text_eq(method, NOTIFY_SESSION_EVENT) || !self.owns(params) {
                    return true;
                }
                match usage_json(&params.value_at("event")) {
                    Some(u) => count_in(&u, "inputTokens") <= u64::MAX - self.usage.input
                        && count_in(&u, "outputTokens") <= u64::MAX - self.usage.output && count_in(
                        &u,
                        "cacheReadTokens",
                    ) <= u64::MAX - self.usage.cached && count_in(&u, "reasoningTokens") <= u64::MAX
                        - self.usage.thinking_tokens,
                    None => true,
                }
            },
            HarnessFrame::Response { .. } => true,
        }
    }

    fn owns(&self, params: &Json) -> (r: bool)
        ensures
            r == (text_at(params@, "sessionId"@) == Some(self@.session_id)),
    {
        match params.str_at("sessionId") {
            Some(id) => text_eq(id, &self.session_id),
            None => false,
        }
    }

    fn on_event(&mut self, event: &Json) -> (r: Vec<AgentStreamEvent>)
        requires
            usage_fits(old(self)@.usage, event@),
        ensures
            final(self)@ == after_event(old(self)@, event@),
            views(r@) == shown(old(self)@, event@),
    {
        let ty = event.string_at("type");
        let data = event.value_at("data");
        let mut out: Vec<AgentStreamEvent> = Vec::new();
        assert(views(out@) =~= Seq::<EventView>::empty());
        if !(text_eq(&ty, "text-chunks") || text_eq(&ty, "reasoning-chunks") || text_eq(
            &ty,
            "assistant/chunk",
        )) {
            let line = AgentStreamEvent::Trajectory {
                event_type: ty.clone(),
                summary: trajectory_summary(event),
            };
            proof {
                lemma_views_push(out@, line);
            }
            out.push(line);
            assert(views(out@) =~= seq![
                EventView::Trajectory { event_type: ty@, summary: trajectory_text(event@) },
            ]);
        }
        if let Some(u) = usage_json(event) {
            self.usage.input = self.usage.input + count_in(&u, "inputTokens");
            self.usage.output = self.usage.output + count_in(&u, "outputTokens");
            self.usage.cached = self.usage.cached + count_in(&u, "cacheReadTokens");
            self.usage.thinking_tokens = self.usage.thinking_tokens + count_in(
                &u,
                "reasoningTokens",
            );
        }
        let mut text = String::new();
        std::mem::swap(&mut text, &mut self.final_text);
        self.final_text = gather(text, event, "text-delta", "text-chunks", "text");
        let mut thinking = String::new();
        std::mem::swap(&mut thinking, &mut self.thinking_content);
        self.thinking_content =
        gather(thinking, event, "reasoning-delta", "reasoning-chunks", "reasoning");
        if let Some(x) = translate_harness_event(event, &self.effort, &mut self.names) {
            proof {
                lemma_views_push(out@, x);
            }
            out.push(x);
        }
        if text_eq(&ty, "turn/end") {
            if let Some(kind) = data.value_at("reason").opt_string_at("kind") {
                self.finish_reason = kind;
            }
            self.done = true;
        }
        out
    }

    /// Takes a frame of the runtime and says what to show of it. A request that
    /// failed ends the turn with a complaint.
    pub fn on_frame(&mut self, frame: &HarnessFrame) -> (r: Result<Vec<AgentStreamEvent>, String>)
        requires
            frame_fits(old(self)@, frame@),
        ensures
            match rpc_error(frame@) {
                Some(m) => r is Err && r->Err_0@ == m && final(self)@ == old(self)@,
                None => r is Ok && views(r->Ok_0@) == frame_shows(old(self)@, frame@)
                    && final(self)@ == after_frame(old(self)@, frame@),
            },
    {
        proof {
            methods_differ();
        }
        let mut out: Vec<AgentStreamEvent> = Vec::new();
        assert(views(out@) =~= Seq::<EventView>::empty());
        match frame {
            HarnessFrame::Response { id, error, .. } => {
                if let Some(err) = error {
                    let mut m = "harness rpc error id=".to_string();
                    m.push_str(&number(*id));
                    m.push_str(": ");
                    m.push_str(&json_string(err));
                    return Err(m);
                }
                Ok(out)
            },
            HarnessFrame::Notification { method, params } => {
                if text_eq(method, NOTIFY_SUBAGENT_STARTED) {
                    let x = AgentStreamEvent::SubagentStarted {
                        parent_session_id: params.string_at("parentSessionId"),
                        child_session_id: params.string_at("childSessionId"),
                    };
                    out.push(x);
                    assert(views(out@) =~= aside(frame@));
                    return Ok(out);
                }
                if text_eq(method, NOTIFY_SUBAGENT_FINISHED) {
                    let x = AgentStreamEvent::SubagentFinished {
                        parent_session_id: params.string_at("parentSessionId"),
                        child_session_id: params.string_at("childSessionId"),
                        status: params.string_at("status"),
                        summary: text_of(&params.value_at("lastAssistantMessage")),
                    };
                    out.push(x);
                    assert(views(out@) =~= aside(frame@));
                    return Ok(out);
                }
                if text_eq(method, NOTIFY_SESSION_EVENT) && self.owns(params) {
                    return Ok(self.on_event(&params.value_at("event")));
                }
                Ok(out)
            },
        }
    }

    /// Whether the turn goes on, or is given up since the user cancelled it.
    pub fn on_tick(&self, cancelled: bool) -> (r: Result<(), String>)
        ensures
            match r {
                Ok(_) => !cancelled,
                Err(e) => cancelled && e@ == "Cancelled by user."@,
            },
    {
        if cancelled {
            Err("Cancelled by user.".to_string())
        } else {
            Ok(())
        }
    }

    /// The runtime has gone, or the time is up.
    pub fn close(&mut self)
        ensures
            final(self)@ == (HarnessTurnView { done: true, ..old(self)@ }),
    {
        self.done = true;
    }

    /// What the turn comes to, and the event that says so.
    pub fn finish(self) -> (r: (HarnessTurnResult, AgentStreamEvent))
        ensures
            r.0@ == (HarnessResultView {
                message: self@.final_text,
                thinking_content: self@.thinking_content,
                token_usage: self@.usage,
                finish_reason: self@.finish_reason,
                context_usage: 0,
            }),
            r.1@ == (EventView::TurnEnd {
                finish_reason: self@.finish_reason,
                token_usage: self@.usage,
                context_usage: 0,
            }),
    {
        let end = AgentStreamEvent::TurnEnd {
            finish_reason: self.finish_reason.clone(),
            token_usage: self.usage,
            context_usage: 0,
        };
        let result = HarnessTurnResult {
            message: self.final_text,
            thinking_content: self.thinking_content,
            token_usage: self.usage,
            finish_reason: self.finish_reason,
            context_usage: 0,
        };
        (result, end)
    }
}

proof fn methods_differ()
    ensures
        NOTIFY_SUBAGENT_STARTED@ != NOTIFY_SESSION_EVENT@,
        NOTIFY_SUBAGENT_FINISHED@ != NOTIFY_SESSION_EVENT@,
{
    reveal_strlit("subagent.started");
    reveal_strlit("subagent.finished");
    reveal_strlit("session.event");
    assert(NOTIFY_SUBAGENT_STARTED@.len() == 16);
    assert(NOTIFY_SUBAGENT_FINISHED@.len() == 17);
    assert(NOTIFY_SESSION_EVENT@.len() == 13);
}

/// A program variable with its value.
fn variable(name: &str, value: &str) -> (r: (String, String))
    ensures
        r.0@ == name@,
        r.1@ == value@,
{
    (name.to_string(), value.to_string())
}

/// The names and values of a list of program variables.
pub open spec fn variables(v: Seq<(String, String)>) -> Seq<(Text, Text)> {
    v.map_values(|p: (String, String)| (p.0@, p.1@))
}

pub const HARNESS_PATH: &'static str = "/opt/homebrew/bin:/usr/local/bin:/usr/bin:/bin:/usr/sbin:/sbin";

impl HarnessTurnConfig {
    /// The program variables that the runtime is started with.
    pub fn environment(&self) -> (r: Vec<(String, String)>)
        ensures
            variables(r@) == seq![
                ("DEEPSEEK_API_KEY"@, self.api_key@),
                ("DSH_CWD"@, self.workspace@),
                ("DSH_SESSION_ROOT"@, self.session_root@),
                ("DSH_REASONING_EFFORT"@, self.effort@),
                ("DSH_PERMISSION_MODE"@, self.sandbox@),
                ("DSH_SYSTEM_PROMPT"@, self.system_prompt@),
                ("PATH"@, HARNESS_PATH@),
            ],
    {
        let r = vec![
            variable("DEEPSEEK_API_KEY", &self.api_key),
            variable("DSH_CWD", &self.workspace),
            variable("DSH_SESSION_ROOT", &self.session_root),
            variable("DSH_REASONING_EFFORT", &self.effort),
            variable("DSH_PERMISSION_MODE", &self.sandbox),
            variable("DSH_SYSTEM_PROMPT", &self.system_prompt),
            variable("PATH", HARNESS_PATH),
        ];
        assert(variables(r@) =~= seq![
            ("DEEPSEEK_API_KEY"@, self.api_key@),
            ("DSH_CWD"@, self.workspace@),
            ("DSH_SESSION_ROOT"@, self.session_root@),
            ("DSH_REASONING_EFFORT"@, self.effort@),
            ("DSH_PERMISSION_MODE"@, self.sandbox@),
            ("DSH_SYSTEM_PROMPT"@, self.system_prompt@),
            ("PATH"@, HARNESS_PATH@),
        ]);
        r
    }

    /// What the runtime is told at the start.
    pub fn initialize_params(&self) -> (r: InitializeParams)
        ensures
            r.cwd@ == self.workspace@,
            r.provider@ == "deepseek-official"@,
            r.model@ == self.model@,
            r.max_tokens == Some(self.max_tokens),
    {
        InitializeParams {
            cwd: self.workspace.clone(),
            provider: "deepseek-official".to_string(),
            model: self.model.clone(),
            max_tokens: Some(self.max_tokens),
        }
    }
}

/// Only the own session drives the conversation: the events of another session
/// change nothing and show nothing.
pub proof fn other_sessions_stay_out(s: HarnessTurnView, params: JsonView)
    requires
        text_at(params, "sessionId"@) != Some(s.session_id),
    ensures
        ({
            let f = FrameView::Notification { method: NOTIFY_SESSION_EVENT@, params };
            &&& after_frame(s, f) == s
            &&& frame_shows(s, f) == Seq::<EventView>::empty()
        }),
{
    methods_differ();
}

proof fn lemma_filled_keeps(items: Seq<JsonView>, kind: Text, have: Text)
    requires
        have.len() > 0,
    ensures
        filled(items, kind, have) == have,
    decreases items.len(),
{
    if items.len() > 0 {
        lemma_filled_keeps(items.drop_last(), kind, have);
    }
}

/// What was said once stays: a frame only adds to the answer and to the reasoning.
pub proof fn text_only_grows(s: HarnessTurnView, f: FrameView)
    ensures
        s.final_text.is_prefix_of(after_frame(s, f).final_text),
        s.thinking_content.is_prefix_of(after_frame(s, f).thinking_content),
{
    if let Some(e) = own_event(s, f) {
        if s.final_text.len() > 0 {
            lemma_filled_keeps(message_blocks(e), "text"@, s.final_text);
        }
        if s.thinking_content.len() > 0 {
            lemma_filled_keeps(message_blocks(e), "reasoning"@, s.thinking_content);
        }
    }
}

} // verus!
