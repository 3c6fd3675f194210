//! One turn of the agent: from the user's message, through the model's calls and
//! the tools it asks for, to the answer.

use crate::agent::{can_auto_advance, AgentLoop, AgentState, StateView};
use crate::api::{
    cost, extract_search_text, opt_views, prices_of, savings, search_text, ApiResponse, Pricing, ResponseView, ThinkingMode, ToolCall,
    ToolCallView, WebSearchView,
};
use crate::clock::{is_clock_text, now_str};
use crate::context::EngineView;
use crate::events::{AgentStreamEvent, EventView, TokenUsageInfo};
use crate::ids::{fresh_uuid, is_uuid};
use crate::json::{
    array, json_string, json_text, or_empty, parse_json, parse_or, text_at, Json, JsonView, json_parse,
};
use crate::message::{
    copy_opt, BlockView, Content, ContentBlock, ContentView, Message, MessageView, Role,
};
use crate::session::{GoalStatus, GoalView};
use crate::stamps::{annotate_tool_result, annotated};
use crate::stream::{
    delta_text, delta_thinking, json_text_block, normalize_search_content, parse_partial_json,
    partial_json, search_content, text_block, ApiStreamEvent, DeltaView, Usage,
};
use crate::text::{
    blank, byte_len, decimal, ends, ends_with, is_blank, lemma_views_push, number, opt_view, size,
    text_eq, trim, trimmed, views, Text,
};
use crate::tools::{result_summary, summarize_tool_result};
use crate::wire::{
    answers, calls, holds_result, holds_use, is_result, is_use, lemma_push_pair, lemma_push_plain,
    pairs_valid,
};
use vstd::prelude::*;
use vstd::string::*;

verus! {

/// Reasoning beyond this many tokens without a word of answer is too much.
pub const OVERTHINK_TOKENS: u64 = 30_000;

/// How often a turn falls back to answering without reasoning.
pub const MAX_DOWNGRADES: u32 = 2;

/// About how many tokens a text takes, by its length alone.
pub open spec fn length_tokens(t: Text) -> u32 {
    (byte_len(t) as u32) / 4
}

/// About how many tokens a text takes, by its length alone.
pub fn estimate_text_tokens(text: &str) -> (r: u32)
    ensures
        r == length_tokens(text@),
{
    (size(text) as u32) / 4
}

/// Where a turn stands.
#[derive(Debug)]
pub struct TurnProgress {
    pub mode: ThinkingMode,
    pub cumulative_thinking_tokens: u64,
    pub downgrade_count: u32,
    pub time_harness: bool,
    /// The time at which the turn began, as it is written for the model.
    pub turn_now: String,
}

#[verifier::ext_equal]
pub struct ProgressView {
    pub mode: ThinkingMode,
    pub cumulative_thinking_tokens: u64,
    pub downgrade_count: u32,
    pub time_harness: bool,
    pub turn_now: Text,
}

impl View for TurnProgress {
    type V = ProgressView;

    open spec fn view(&self) -> ProgressView {
        ProgressView {
            mode: self.mode,
            cumulative_thinking_tokens: self.cumulative_thinking_tokens,
            downgrade_count: self.downgrade_count,
            time_harness: self.time_harness,
            turn_now: self.turn_now@,
        }
    }
}

/// The mode that a label stands for, with the budget that is set for it.
pub open spec fn mode_for(label: Option<Text>, think: u32, deep: u32) -> ThinkingMode {
    if label == Some("non-think"@) {
        ThinkingMode::NonThink
    } else if label == Some("think-max"@) {
        ThinkingMode::ThinkMax { budget_tokens: deep }
    } else {
        ThinkingMode::ThinkHigh { budget_tokens: think }
    }
}

/// How a mode is reported.
pub open spec fn mode_text(m: ThinkingMode) -> Text {
    match m {
        ThinkingMode::NonThink => "NonThink"@,
        ThinkingMode::ThinkHigh { budget_tokens } => "ThinkHigh { budget_tokens: "@ + decimal(
            budget_tokens as nat,
        ) + " }"@,
        ThinkingMode::ThinkMax { budget_tokens } => "ThinkMax { budget_tokens: "@ + decimal(
            budget_tokens as nat,
        ) + " }"@,
    }
}

fn resolve_mode(label: &Option<String>, think: u32, deep: u32) -> (r: ThinkingMode)
    ensures
        r == mode_for(opt_view(*label), think, deep),
{
    match label {
        Some(l) => if text_eq(l, "non-think") {
            ThinkingMode::NonThink
        } else if text_eq(l, "think-max") {
            ThinkingMode::ThinkMax { budget_tokens: deep }
        } else {
            ThinkingMode::ThinkHigh { budget_tokens: think }
        },
        None => ThinkingMode::ThinkHigh { budget_tokens: think },
    }
}

fn write_mode(m: ThinkingMode) -> (r: String)
    ensures
        r@ == mode_text(m),
{
    match m {
        ThinkingMode::NonThink => "NonThink".to_string(),
        ThinkingMode::ThinkHigh { budget_tokens } => {
            let mut s = "ThinkHigh { budget_tokens: ".to_string();
            s.push_str(&number(budget_tokens as u64));
            s.push_str(" }");
            s
        },
        ThinkingMode::ThinkMax { budget_tokens } => {
            let mut s = "ThinkMax { budget_tokens: ".to_string();
            s.push_str(&number(budget_tokens as u64));
            s.push_str(" }");
            s
        },
    }
}

/// A goal at the start of a turn: a new message resumes it. A blocked goal gets a
/// fresh count, a paused one becomes active.
pub open spec fn resumed_goal(g: GoalView) -> GoalView {
    match g.status {
        GoalStatus::Blocked => GoalView { consecutive_blocked_turns: 0, ..g },
        GoalStatus::Paused => GoalView { status: GoalStatus::Active, ..g },
        _ => g,
    }
}

/// The state at the start of a turn.
pub open spec fn turn_begun(s: StateView, message: Text, internal: bool, now: i64) -> StateView {
    StateView {
        messages: s.messages.push(
            MessageView {
                role: Role::User,
                content: ContentView::Text(message),
                timestamp: now,
                internal,
            },
        ),
        auto_turns_used: if internal {
            s.auto_turns_used
        } else {
            0
        },
        goal: match s.goal {
            Some(g) => Some(resumed_goal(g)),
            None => None,
        },
        ..s
    }
}

/// How the model's answer is to be taken further.
#[derive(Debug, Clone, Copy, PartialEq, Eq, Structural)]
pub enum TurnStep {
    /// The model is called again.
    Retry,
    /// The turn is over.
    Finished,
    /// The tools that were called are run, and the model is called again with
    /// their results.
    RunTools,
}

/// The reasoning tokens of a call: what the answer's length does not account for.
pub open spec fn thinking_tokens(r: ResponseView) -> u64 {
    if r.usage.output_tokens >= length_tokens(r.content) {
        (r.usage.output_tokens - length_tokens(r.content)) as u64
    } else {
        0
    }
}

/// `a + b`, held at the largest number of 64 bits.
pub open spec fn held_sum(a: u64, b: int) -> u64 {
    if a + b > u64::MAX {
        u64::MAX
    } else {
        (a + b) as u64
    }
}

/// A goal after a call of the model: what it cost is counted, and an active goal
/// that has used up its budget is limited.
pub open spec fn charged_goal(g: GoalView, u: Usage, elapsed: u64, now: i64) -> GoalView {
    let used = held_sum(
        held_sum(held_sum(g.tokens_used, u.input_tokens as int), u.output_tokens as int),
        u.cache_read_input_tokens as int,
    );
    GoalView {
        tokens_used: used,
        time_used_seconds: held_sum(g.time_used_seconds, elapsed as int),
        status: if g.token_budget is Some && used >= g.token_budget.unwrap() && g.status is Active {
            GoalStatus::BudgetLimited
        } else {
            g.status
        },
        updated_at: now,
        ..g
    }
}

/// The state after a call of the model has been counted. The window holds what
/// the call was sent, not the sum of all calls.
pub open spec fn counted(s: StateView, r: ResponseView, elapsed: u64, now: i64) -> StateView {
    let u = r.usage;
    StateView {
        total_input_tokens: (s.total_input_tokens + u.input_tokens) as u64,
        total_output_tokens: (s.total_output_tokens + u.output_tokens) as u64,
        total_cached_tokens: (s.total_cached_tokens + u.cache_read_input_tokens) as u64,
        total_cost: (s.total_cost + cost(prices_of(s.model), u)) as u128,
        total_cache_savings: (s.total_cache_savings + savings(prices_of(s.model), u)) as u128,
        total_thinking_tokens: (s.total_thinking_tokens + thinking_tokens(r)) as u64,
        context_engine: EngineView { token_usage: u.input_tokens as u64, ..s.context_engine },
        goal: match s.goal {
            Some(g) => Some(charged_goal(g, u, elapsed, now)),
            None => None,
        },
        ..s
    }
}

/// Whether the totals still fit after one more call.
pub open spec fn can_count(s: StateView, p: ProgressView, r: ResponseView) -> bool {
    let u = r.usage;
    &&& u.cache_read_input_tokens + u.cache_creation_input_tokens <= u32::MAX
    &&& s.total_input_tokens + u.input_tokens <= u64::MAX
    &&& s.total_output_tokens + u.output_tokens <= u64::MAX
    &&& s.total_cached_tokens + u.cache_read_input_tokens <= u64::MAX
    &&& s.total_thinking_tokens + u.output_tokens <= u64::MAX
    &&& p.cumulative_thinking_tokens + u.output_tokens <= u64::MAX
    &&& s.total_cost + 4 * 1_000_000 * u32::MAX <= u128::MAX
    &&& s.total_cache_savings + 1_000_000 * u32::MAX <= u128::MAX
}

/// What was searched for on the web.
pub open spec fn search_query(r: ResponseView) -> Text {
    let asked = if r.server_tool_uses.len() > 0 {
        match json_parse(r.server_tool_uses[0].arguments) {
            Ok(v) => text_at(v, "query"@),
            Err(_) => None,
        }
    } else {
        None
    };
    match asked {
        Some(q) => q,
        None => "Searching the web..."@,
    }
}

/// What is reported of an answer first: its reasoning, unless that was streamed
/// already, and a search on the web.
pub open spec fn opening_events(r: ResponseView, streamed: bool, search_id: Text) -> Seq<
    EventView,
> {
    let a: Seq<EventView> = match r.thinking_content {
        Some(t) => if !streamed && t.len() > 0 {
            seq![EventView::Thinking { text: t }]
        } else {
            Seq::empty()
        },
        None => Seq::empty(),
    };
    if r.web_search_used {
        a.push(
            EventView::ToolStart { id: search_id, name: "web_search"@, args: search_query(r) },
        ).push(
            EventView::ToolDone {
                id: search_id,
                name: "web_search"@,
                summary: "Searching: "@ + search_query(r),
            },
        )
    } else {
        a
    }
}

/// The search block of a server-side tool use.
pub open spec fn server_use_block(c: ToolCallView) -> BlockView {
    BlockView::ServerToolUse { id: c.id, name: c.name, input: partial_json(c.arguments) }
}

/// Whether every item of a list has a text.
pub open spec fn all_texts(items: Seq<JsonView>) -> bool {
    forall|i: int| 0 <= i < items.len() ==> text_at(#[trigger] items[i], "text"@) is Some
}

/// The text of search content: a string itself, of a list of text blocks their
/// texts, anything else as JSON.
pub open spec fn content_text(c: JsonView) -> Text {
    match c {
        JsonView::Str(s) => s,
        JsonView::Array(items) => if all_texts(items) {
            search_text(c)
        } else {
            json_text(c)
        },
        other => json_text(other),
    }
}

/// What goes back of search content. With a stamp it is one text block with the time
/// before the text; without, the content as it came, as a list.
pub open spec fn returned_content(c: JsonView, clock: Text, stamp: bool) -> JsonView {
    if stamp {
        JsonView::Array(seq![text_block(annotated("web_search"@, content_text(c), clock))])
    } else {
        search_content(c)
    }
}

/// The block of a search result; with `stamp`, it carries the time.
pub open spec fn search_block(w: WebSearchView, clock: Text, stamp: bool) -> BlockView {
    BlockView::WebSearchResult {
        tool_use_id: or_empty(w.tool_use_id),
        title: w.title,
        url: w.url,
        content: returned_content(w.content, clock, stamp),
    }
}

/// The blocks of server-side searches: they go back to the server with the
/// answer.
pub open spec fn server_blocks(r: ResponseView, clock: Text, stamp: bool) -> Seq<BlockView> {
    Seq::new(r.server_tool_uses.len(), |i: int| server_use_block(r.server_tool_uses[i])) + Seq::new(
        r.web_search_results.len(),
        |i: int| search_block(r.web_search_results[i], clock, stamp),
    )
}

/// The reasoning and the text of an answer as blocks.
pub open spec fn spoken_blocks(r: ResponseView) -> Seq<BlockView> {
    let a: Seq<BlockView> = match r.thinking_content {
        Some(t) => if t.len() > 0 {
            seq![BlockView::Thinking { thinking: t, signature: r.thinking_signature }]
        } else {
            Seq::empty()
        },
        None => Seq::empty(),
    };
    if r.content.len() > 0 {
        a.push(BlockView::Text { text: r.content })
    } else {
        a
    }
}

/// The tool calls of an answer.
pub open spec fn calls_of(r: ResponseView) -> Seq<ToolCallView> {
    match r.tool_calls {
        Some(cs) => cs,
        None => Seq::empty(),
    }
}

/// The tool calls of an answer as blocks, each under its own id.
pub open spec fn call_blocks(cs: Seq<ToolCallView>) -> Seq<BlockView> {
    Seq::new(
        cs.len(),
        |i: int|
            BlockView::ToolUse { id: cs[i].id, name: cs[i].name, input: partial_json(cs[i].arguments) },
    )
}

/// The message that stands for an answer in the history; with `stamp`, what it found
/// carries the time.
pub open spec fn reply_message(
    r: ResponseView,
    clock: Text,
    stamp: bool,
    now: i64,
) -> MessageView {
    MessageView {
        role: Role::Assistant,
        content: ContentView::Blocks(
            spoken_blocks(r) + call_blocks(calls_of(r)) + server_blocks(r, clock, stamp),
        ),
        timestamp: now,
        internal: false,
    }
}

/// Whether an answer is nothing but too much reasoning.
pub open spec fn overthinks(p: ProgressView, r: ResponseView) -> bool {
    &&& calls_of(r).len() == 0
    &&& is_blank(r.content)
    &&& thinking_tokens(r) > OVERTHINK_TOKENS
    &&& p.downgrade_count < MAX_DOWNGRADES
}

/// What is reported when a turn falls back to answering without reasoning.
pub open spec fn downgrade_event(n: int) -> EventView {
    EventView::Thinking {
        text: "Overthinking detected. Downgrading to Non-think ("@ + decimal(n as nat) + "/"@
            + decimal(MAX_DOWNGRADES as nat) + ")."@,
    }
}

/// What a call of the model leads to.
#[verifier::ext_equal]
pub struct AbsorbView {
    pub state: StateView,
    pub progress: ProgressView,
    pub step: TurnStep,
    pub events: Seq<EventView>,
}

/// The text of an answer, reported unless it was streamed already.
pub open spec fn text_events(r: ResponseView, streamed: bool) -> Seq<EventView> {
    if !streamed && r.content.len() > 0 {
        seq![EventView::Text { content: r.content }]
    } else {
        Seq::empty()
    }
}

/// What a call of the model leads to: it is counted; an answer that is nothing
/// but too much reasoning is tried again without; any other goes into the history,
/// and its tool calls, if there are any, are run.
pub open spec fn absorbed(
    s: StateView,
    p: ProgressView,
    r: ResponseView,
    streamed: bool,
    elapsed: u64,
    now: i64,
    search_id: Text,
    clock: Text,
) -> AbsorbView {
    let counted_state = counted(s, r, elapsed, now);
    let opening = opening_events(r, streamed, search_id);
    if overthinks(p, r) {
        AbsorbView {
            state: counted_state,
            progress: ProgressView {
                mode: ThinkingMode::NonThink,
                cumulative_thinking_tokens: 0,
                downgrade_count: (p.downgrade_count + 1) as u32,
                ..p
            },
            step: TurnStep::Retry,
            events: opening.push(downgrade_event(p.downgrade_count + 1)),
        }
    } else {
        AbsorbView {
            state: StateView {
                messages: s.messages.push(reply_message(r, clock, p.time_harness, now)),
                ..counted_state
            },
            progress: ProgressView {
                cumulative_thinking_tokens: (p.cumulative_thinking_tokens + thinking_tokens(
                    r,
                )) as u64,
                ..p
            },
            step: if calls_of(r).len() > 0 {
                TurnStep::RunTools
            } else {
                TurnStep::Finished
            },
            events: opening + text_events(r, streamed),
        }
    }
}

fn query_of(response: &ApiResponse) -> (r: String)
    ensures
        r@ == search_query(response@),
{
    if response.server_tool_uses.len() > 0 {
        assert(views(response.server_tool_uses@)[0] == response.server_tool_uses@[0]@);
        if let Ok(v) = parse_json(&response.server_tool_uses[0].function.arguments) {
            if let Some(q) = v.str_at("query") {
                return q.to_string();
            }
        }
    }
    "Searching the web...".to_string()
}

fn first_events(response: &ApiResponse, streamed: bool, search_id: &str) -> (r: Vec<
    AgentStreamEvent,
>)
    ensures
        views(r@) == opening_events(response@, streamed, search_id@),
{
    let mut out: Vec<AgentStreamEvent> = Vec::new();
    assert(views(out@) =~= Seq::<EventView>::empty());
    if !streamed {
        if let Some(t) = &response.thinking_content {
            if !t.as_str().is_empty() {
                out.push(AgentStreamEvent::Thinking { text: t.clone() });
                assert(views(out@) =~= seq![EventView::Thinking { text: t@ }]);
            }
        }
    }
    if response.web_search_used {
        let query = query_of(response);
        let start = AgentStreamEvent::ToolStart {
            id: search_id.to_string(),
            name: "web_search".to_string(),
            args: query.clone(),
        };
        let mut summary = "Searching: ".to_string();
        summary.push_str(&query);
        let done = AgentStreamEvent::ToolDone {
            id: search_id.to_string(),
            name: "web_search".to_string(),
            summary,
        };
        proof {
            lemma_views_push(out@, start);
            lemma_views_push(out@.push(start), done);
        }
        out.push(start);
        out.push(done);
    }
    out
}

fn have_texts(items: &Vec<Json>) -> (r: bool)
    ensures
        r == all_texts(views(items@)),
{
    let mut i: usize = 0;
    while i < items.len()
        invariant
            i <= items@.len(),
            forall|j: int| 0 <= j < i ==> text_at(#[trigger] views(items@)[j], "text"@) is Some,
        decreases items@.len() - i,
    {
        assert(views(items@)[i as int] == items@[i as int]@);
        if items[i].str_at("text").is_none() {
            return false;
        }
        i = i + 1;
    }
    true
}

fn text_of_content(c: &Json) -> (r: String)
    ensures
        r@ == content_text(c@),
{
    match c {
        Json::Str(s) => s.clone(),
        Json::Array(items) => {
            assert(c@->Array_0 =~= views(items@));
            if have_texts(items) {
                extract_search_text(c)
            } else {
                json_string(c)
            }
        },
        other => json_string(other),
    }
}

fn content_to_return(c: &Json, clock: &str, stamp: bool) -> (r: Json)
    ensures
        r@ == returned_content(c@, clock@, stamp),
{
    if stamp {
        let text = annotate_tool_result("web_search", &text_of_content(c), clock);
        let mut one: Vec<Json> = Vec::new();
        one.push(json_text_block(&text));
        let r = array(one);
        assert(r@->Array_0 =~= seq![text_block(text@)]);
        r
    } else {
        normalize_search_content(c.clone())
    }
}

/// The blocks of server-side searches: they go back to the server with the
/// answer.
pub fn server_tool_blocks(response: &ApiResponse, clock: &str, stamp: bool) -> (r: Vec<
    ContentBlock,
>)
    ensures
        views(r@) == server_blocks(response@, clock@, stamp),
{
    let mut out: Vec<ContentBlock> = Vec::new();
    let ghost uses = Seq::new(
        response@.server_tool_uses.len(),
        |i: int| server_use_block(response@.server_tool_uses[i]),
    );
    let ghost found = Seq::new(
        response@.web_search_results.len(),
        |i: int| search_block(response@.web_search_results[i], clock@, stamp),
    );
    let mut i: usize = 0;
    while i < response.server_tool_uses.len()
        invariant
            i <= response.server_tool_uses@.len() == uses.len(),
            uses == Seq::new(
                response@.server_tool_uses.len(),
                |i: int| server_use_block(response@.server_tool_uses[i]),
            ),
            views(out@) == uses.take(i as int),
        decreases response.server_tool_uses@.len() - i,
    {
        let st = &response.server_tool_uses[i];
        let b = ContentBlock::ServerToolUse {
            id: st.id.clone(),
            name: st.function.name.clone(),
            input: parse_partial_json(&st.function.arguments),
        };
        proof {
            assert(response@.server_tool_uses[i as int] == st@);
            lemma_views_push(out@, b);
            assert(uses.take(i + 1) =~= uses.take(i as int).push(b@));
        }
        out.push(b);
        i = i + 1;
    }
    assert(uses.take(i as int) =~= uses);
    assert(views(out@) =~= uses + found.take(0));
    let mut j: usize = 0;
    while j < response.web_search_results.len()
        invariant
            j <= response.web_search_results@.len() == found.len(),
            found == Seq::new(
                response@.web_search_results.len(),
                |i: int| search_block(response@.web_search_results[i], clock@, stamp),
            ),
            views(out@) == uses + found.take(j as int),
        decreases response.web_search_results@.len() - j,
    {
        let wb = &response.web_search_results[j];
        let b = ContentBlock::WebSearchResult {
            tool_use_id: match &wb.tool_use_id {
                Some(t) => t.clone(),
                None => String::new(),
            },
            title: copy_opt(&wb.title),
            url: copy_opt(&wb.url),
            content: content_to_return(&wb.content, clock, stamp),
        };
        proof {
            assert(response@.web_search_results[j as int] == wb@);
            lemma_views_push(out@, b);
            assert(b@ == found[j as int]);
            assert(uses + found.take(j + 1) =~= (uses + found.take(j as int)).push(b@));
        }
        out.push(b);
        j = j + 1;
    }
    assert(found.take(j as int) =~= found);
    out
}

fn reply_blocks(response: &ApiResponse, clock: &str, stamp: bool) -> (r: Vec<ContentBlock>)
    ensures
        views(r@) == spoken_blocks(response@) + call_blocks(calls_of(response@)) + server_blocks(
            response@,
            clock@,
            stamp,
        ),
{
    let mut out: Vec<ContentBlock> = Vec::new();
    assert(views(out@) =~= Seq::<BlockView>::empty());
    if let Some(t) = &response.thinking_content {
        if !t.as_str().is_empty() {
            let b = ContentBlock::Thinking {
                thinking: t.clone(),
                signature: copy_opt(&response.thinking_signature),
            };
            out.push(b);
            assert(views(out@) =~= seq![b@]);
        }
    }
    if !response.content.as_str().is_empty() {
        let b = ContentBlock::Text { text: response.content.clone() };
        proof {
            lemma_views_push(out@, b);
        }
        out.push(b);
    }
    let ghost spoken = views(out@);
    assert(spoken == spoken_blocks(response@));
    let ghost cs = calls_of(response@);
    let ghost uses = call_blocks(cs);
    assert(views(out@) =~= spoken + uses.take(0));
    if let Some(calls) = &response.tool_calls {
        assert(cs == views(calls@));
        let mut i: usize = 0;
        while i < calls.len()
            invariant
                i <= calls@.len(),
                cs == views(calls@),
                uses == call_blocks(cs),
                views(out@) == spoken + uses.take(i as int),
            decreases calls@.len() - i,
        {
            let tc = &calls[i];
            let b = ContentBlock::ToolUse {
                id: tc.id.clone(),
                name: tc.function.name.clone(),
                input: parse_partial_json(&tc.function.arguments),
            };
            proof {
                assert(cs[i as int] == tc@);
                lemma_views_push(out@, b);
                assert(b@ == uses[i as int]);
                assert(spoken + uses.take(i + 1) =~= (spoken + uses.take(i as int)).push(b@));
            }
            out.push(b);
            i = i + 1;
        }
        assert(uses.take(i as int) =~= uses);
    } else {
        assert(uses.take(0) =~= uses);
    }
    let mut server = server_tool_blocks(response, clock, stamp);
    let ghost a = out@;
    let ghost b = server@;
    out.append(&mut server);
    assert(views(out@) =~= views(a) + views(b));
    out
}

fn has_calls(response: &ApiResponse) -> (r: bool)
    ensures
        r == (calls_of(response@).len() > 0),
{
    match &response.tool_calls {
        Some(cs) => cs.len() > 0,
        None => false,
    }
}

impl AgentState {
    fn charge_goal(&mut self, u: &Usage, elapsed: u64, now: i64)
        ensures
            final(self)@ == (StateView {
                goal: match old(self)@.goal {
                    Some(g) => Some(charged_goal(g, *u, elapsed, now)),
                    None => None,
                },
                ..old(self)@
            }),
    {
        let charged = match self.goal.as_ref() {
            Some(g) => {
                let mut g = g.clone();
                g.tokens_used = g.tokens_used.saturating_add(
                    u.input_tokens as u64,
                ).saturating_add(u.output_tokens as u64).saturating_add(
                    u.cache_read_input_tokens as u64,
                );
                g.time_used_seconds = g.time_used_seconds.saturating_add(elapsed);
                if let Some(b) = g.token_budget {
                    if g.tokens_used >= b && g.status == GoalStatus::Active {
                        g.status = GoalStatus::BudgetLimited;
                    }
                }
                g.updated_at = now;
                Some(g)
            },
            None => None,
        };
        self.goal = charged;
    }

    fn count(&mut self, response: &ApiResponse, elapsed: u64, now: i64, Ghost(p): Ghost<
        ProgressView,
    >) -> (r: u64)
        requires
            can_count(old(self)@, p, response@),
        ensures
            final(self)@ == counted(old(self)@, response@, elapsed, now),
            r == thinking_tokens(response@),
    {
        let u = response.usage;
        let pricing = Pricing::for_model(&self.model);
        let price: u64 = pricing.calculate(&u);
        let saved: u64 = pricing.cache_savings(&u);
        let thinking: u64 = u.output_tokens.saturating_sub(
            estimate_text_tokens(&response.content),
        ) as u64;
        self.total_input_tokens = self.total_input_tokens + u.input_tokens as u64;
        self.total_output_tokens = self.total_output_tokens + u.output_tokens as u64;
        self.total_cached_tokens = self.total_cached_tokens + u.cache_read_input_tokens as u64;
        self.total_cost = self.total_cost + price as u128;
        self.total_cache_savings = self.total_cache_savings + saved as u128;
        self.total_thinking_tokens = self.total_thinking_tokens + thinking;
        self.context_engine.token_usage = u.input_tokens as u64;
        self.charge_goal(&u, elapsed, now);
        thinking
    }
}

impl AgentLoop {
    /// Starts a turn: takes the message in, resumes the goal, and resolves the
    /// mode. `turn_now` is the written time now.
    pub fn begin_turn(
        &mut self,
        user_message: &str,
        thinking_mode_override: &Option<String>,
        internal: bool,
        now: i64,
        turn_now: String,
    ) -> (r: (TurnProgress, AgentStreamEvent))
        ensures
            final(self).state@ == turn_begun(old(self).state@, user_message@, internal, now),
            !final(self).cancelled,
            ({
                let mode = mode_for(
                    opt_view(*thinking_mode_override),
                    old(self).state@.think_budget,
                    old(self).state@.deep_budget,
                );
                &&& r.0@ == (ProgressView {
                    mode,
                    cumulative_thinking_tokens: 0,
                    downgrade_count: 0,
                    time_harness: old(self).state@.time_harness,
                    turn_now: turn_now@,
                })
                &&& r.1@ == (EventView::TurnStart { thinking_mode: mode_text(mode) })
            }),
    {
        let mode = resolve_mode(
            thinking_mode_override,
            self.state.think_budget,
            self.state.deep_budget,
        );
        let m = Message {
            role: Role::User,
            content: Content::Text(user_message.to_string()),
            timestamp: now,
            internal,
        };
        proof {
            lemma_views_push(self.state.messages@, m);
        }
        self.state.messages.push(m);
        if !internal {
            self.state.auto_turns_used = 0;
        }
        let resumed = match self.state.goal.as_ref() {
            Some(g) => {
                let mut g = g.clone();
                match g.status {
                    GoalStatus::Blocked => {
                        g.consecutive_blocked_turns = 0;
                    },
                    GoalStatus::Paused => {
                        g.status = GoalStatus::Active;
                    },
                    _ => {},
                }
                Some(g)
            },
            None => None,
        };
        self.state.goal = resumed;
        self.cancelled = false;
        (
            TurnProgress {
                mode,
                cumulative_thinking_tokens: 0,
                downgrade_count: 0,
                time_harness: self.state.time_harness,
                turn_now,
            },
            AgentStreamEvent::TurnStart { thinking_mode: write_mode(mode) },
        )
    }

    /// Whether the history is to be summarized before the turn goes on.
    pub fn needs_compaction(&self) -> (r: bool)
        ensures
            r == (self.state@.context_engine.token_usage
                > self.state@.context_engine.soft_forget_threshold && self.state@.messages.len()
                > 10),
    {
        self.state.context_engine.should_compact() && self.state.messages.len() > 10
    }

    /// Whether the model may be called (again): not after the user cancelled, and
    /// not without end.
    pub fn may_call(&self, progress: &TurnProgress) -> (r: Result<(), String>)
        ensures
            self.cancelled ==> (r matches Err(e) && e@ == "Cancelled by user."@),
            !self.cancelled && progress@.cumulative_thinking_tokens > OVERTHINK_TOKENS * 50 ==> (
            r matches Err(e) && e@ == "Agent loop exceeded maximum iterations."@),
            !self.cancelled && progress@.cumulative_thinking_tokens <= OVERTHINK_TOKENS * 50
                ==> r is Ok,
    {
        if self.cancelled {
            return Err("Cancelled by user.".to_string());
        }
        if progress.cumulative_thinking_tokens > OVERTHINK_TOKENS * 50 {
            return Err("Agent loop exceeded maximum iterations.".to_string());
        }
        Ok(())
    }

    /// Whether the totals still fit after one more call.
    pub fn can_absorb(&self, progress: &TurnProgress, response: &ApiResponse) -> (r: bool)
        ensures
            r == can_count(self.state@, progress@, response@),
    {
        let u = response.usage;
        let s = &self.state;
        u.cache_creation_input_tokens <= u32::MAX - u.cache_read_input_tokens
            && u.input_tokens as u64 <= u64::MAX - s.total_input_tokens && u.output_tokens as u64
            <= u64::MAX - s.total_output_tokens && u.cache_read_input_tokens as u64 <= u64::MAX
            - s.total_cached_tokens && u.output_tokens as u64 <= u64::MAX - s.total_thinking_tokens
            && u.output_tokens as u64 <= u64::MAX - progress.cumulative_thinking_tokens
            && s.total_cost <= u128::MAX - 4_000_000 * u32::MAX as u128 && s.total_cache_savings
            <= u128::MAX - 1_000_000 * u32::MAX as u128
    }

    /// Takes in what the model answered. `elapsed` is how long the call took in
    /// seconds, `search_id` names a web search in the reports, and `clock` is the
    /// written time now.
    pub fn absorb_with(
        &mut self,
        progress: &mut TurnProgress,
        response: &ApiResponse,
        streamed: bool,
        elapsed: u64,
        now: i64,
        search_id: &str,
        clock: &str,
    ) -> (r: (TurnStep, Vec<AgentStreamEvent>))
        requires
            can_count(old(self).state@, old(progress)@, response@),
        ensures
            (AbsorbView {
                state: final(self).state@,
                progress: final(progress)@,
                step: r.0,
                events: views(r.1@),
            }) == absorbed(
                old(self).state@,
                old(progress)@,
                response@,
                streamed,
                elapsed,
                now,
                search_id@,
                clock@,
            ),
            final(self).cancelled == old(self).cancelled,
    {
        let ghost s0 = self.state@;
        let ghost p0 = progress@;
        let mut events = first_events(response, streamed, search_id);
        let thinking: u64 = self.state.count(response, elapsed, now, Ghost(p0));
        let calls = has_calls(response);
        if !calls && blank(&response.content) && thinking > OVERTHINK_TOKENS
            && progress.downgrade_count < MAX_DOWNGRADES {
            progress.downgrade_count = progress.downgrade_count + 1;
            progress.cumulative_thinking_tokens = 0;
            progress.mode = ThinkingMode::NonThink;
            let mut text = "Overthinking detected. Downgrading to Non-think (".to_string();
            text.push_str(&number(progress.downgrade_count as u64));
            text.push_str("/");
            text.push_str(&number(MAX_DOWNGRADES as u64));
            text.push_str(").");
            let e = AgentStreamEvent::Thinking { text };
            proof {
                lemma_views_push(events@, e);
            }
            events.push(e);
            return (TurnStep::Retry, events);
        }
        progress.cumulative_thinking_tokens = progress.cumulative_thinking_tokens + thinking;
        let ghost opening = views(events@);
        if !streamed && !response.content.as_str().is_empty() {
            let e = AgentStreamEvent::Text { content: response.content.clone() };
            proof {
                lemma_views_push(events@, e);
                assert(opening.push(e@) =~= opening + seq![e@]);
            }
            events.push(e);
        } else {
            assert(opening + Seq::<EventView>::empty() =~= opening);
        }
        let m = Message {
            role: Role::Assistant,
            content: Content::Blocks(reply_blocks(response, clock, progress.time_harness)),
            timestamp: now,
            internal: false,
        };
        proof {
            lemma_views_push(self.state.messages@, m);
        }
        self.state.messages.push(m);
        (
            if calls {
                TurnStep::RunTools
            } else {
                TurnStep::Finished
            },
            events,
        )
    }

    /// Takes in what the model answered: it is counted, reported, and put into the
    /// history, unless it is nothing but too much reasoning and is tried again.
    pub fn absorb_response(
        &mut self,
        progress: &mut TurnProgress,
        response: &ApiResponse,
        streamed: bool,
        elapsed: u64,
        now: i64,
    ) -> (r: (TurnStep, Vec<AgentStreamEvent>))
        requires
            can_count(old(self).state@, old(progress)@, response@),
        ensures
            exists|u: Text, clock: Text|
                is_uuid(u) && is_clock_text(clock) && (AbsorbView {
                    state: final(self).state@,
                    progress: final(progress)@,
                    step: r.0,
                    events: views(r.1@),
                }) == #[trigger] absorbed(
                    old(self).state@,
                    old(progress)@,
                    response@,
                    streamed,
                    elapsed,
                    now,
                    "ws-"@ + u,
                    clock,
                ),
            final(self).cancelled == old(self).cancelled,
    {
        let u = fresh_uuid();
        let mut id = "ws-".to_string();
        id.push_str(&u);
        let clock = now_str();
        let ghost s0 = self.state@;
        let ghost p0 = progress@;
        let r = self.absorb_with(progress, response, streamed, elapsed, now, &id, &clock);
        assert((AbsorbView {
            state: self.state@,
            progress: progress@,
            step: r.0,
            events: views(r.1@),
        }) == absorbed(s0, p0, response@, streamed, elapsed, now, "ws-"@ + u@, clock@));
        r
    }
}

/// The arguments of a tool call; `null` where they are no JSON.
pub fn call_args(call: &ToolCall) -> (r: Json)
    ensures
        r@ == parse_or(call@.arguments, JsonView::Null),
{
    match parse_json(&call.function.arguments) {
        Ok(v) => v,
        Err(_) => Json::Null,
    }
}

/// An answer to a tool call.
pub open spec fn result_block(id: Text, content: Text) -> BlockView {
    BlockView::ToolResult { tool_use_id: id, content }
}

/// The answer to a call whose tool never ran or failed inside.
pub fn tool_result_err(tool_use_id: &str, msg: &str) -> (r: ContentBlock)
    ensures
        r@ == result_block(tool_use_id@, msg@),
{
    ContentBlock::ToolResult { tool_use_id: tool_use_id.to_string(), content: msg.to_string() }
}

/// The last outcome under this id.
pub open spec fn outcome_of(outcomes: Seq<(Text, Text)>, id: Text) -> Option<Text>
    decreases outcomes.len(),
{
    if outcomes.len() == 0 {
        None
    } else if outcomes.last().0 == id {
        Some(outcomes.last().1)
    } else {
        outcome_of(outcomes.drop_last(), id)
    }
}

/// The answer to a call: its outcome, or a note that there is none.
pub open spec fn answer_to(outcomes: Seq<(Text, Text)>, id: Text) -> BlockView {
    result_block(
        id,
        match outcome_of(outcomes, id) {
            Some(c) => c,
            None => "Tool execution panicked (internal error)."@,
        },
    )
}

/// The message that answers all calls, in order, each under its own id.
pub open spec fn results_message(
    cs: Seq<ToolCallView>,
    outcomes: Seq<(Text, Text)>,
    now: i64,
) -> MessageView {
    MessageView {
        role: Role::User,
        content: ContentView::Blocks(
            Seq::new(cs.len(), |i: int| answer_to(outcomes, cs[i].id)),
        ),
        timestamp: now,
        internal: false,
    }
}

pub open spec fn outcomes_view(o: Seq<(String, String)>) -> Seq<(Text, Text)> {
    Seq::new(o.len(), |i: int| (o[i].0@, o[i].1@))
}

fn find_answer(outcomes: &Vec<(String, String)>, id: &str) -> (r: ContentBlock)
    ensures
        r@ == answer_to(outcomes_view(outcomes@), id@),
{
    let ghost all = outcomes_view(outcomes@);
    let mut i: usize = outcomes.len();
    assert(all.take(i as int) =~= all);
    while i > 0
        invariant
            i <= outcomes@.len(),
            all == outcomes_view(outcomes@),
            outcome_of(all.take(i as int), id@) == outcome_of(all, id@),
        decreases i,
    {
        assert(all.take(i as int).drop_last() =~= all.take(i - 1));
        if text_eq(&outcomes[i - 1].0, id) {
            return tool_result_err(id, &outcomes[i - 1].1);
        }
        i = i - 1;
    }
    tool_result_err(id, "Tool execution panicked (internal error).")
}

/// What is reported when a tool starts, and the answer to a call that the user
/// cancelled while it waited: it is not run.
pub fn begin_tool(call: &ToolCall, cancelled: bool) -> (r: (AgentStreamEvent, Option<String>))
    ensures
        r.0@ == (EventView::ToolStart { id: call@.id, name: call@.name, args: call@.arguments }),
        opt_view(r.1) == (if cancelled {
            Some("Cancelled by user."@)
        } else {
            None
        }),
{
    let start = AgentStreamEvent::ToolStart {
        id: call.id.clone(),
        name: call.function.name.clone(),
        args: call.function.arguments.clone(),
    };
    if cancelled {
        (start, Some("Cancelled by user.".to_string()))
    } else {
        (start, None)
    }
}

/// What a tool's result looks like to the model and in the reports.
pub open spec fn final_content(
    name: Text,
    success: bool,
    content: Text,
    time_harness: bool,
    turn_now: Text,
) -> Text {
    if success && time_harness {
        annotated(name, content, turn_now)
    } else {
        content
    }
}

/// What is reported of a tool's result: a summary, and a task list where one was
/// written; or the error.
pub open spec fn result_events(
    id: Text,
    name: Text,
    args: JsonView,
    success: bool,
    content: Text,
) -> Seq<EventView> {
    if success {
        let done = seq![EventView::ToolDone { id, name, summary: result_summary(name, content) }];
        match text_at(args, "tasks_json"@) {
            Some(tasks) => if name == "todo_write"@ {
                done.push(EventView::TaskList { tasks_json: tasks })
            } else {
                done
            },
            None => done,
        }
    } else {
        seq![EventView::ToolError { id, name, error: content }]
    }
}

/// Shapes a tool's result: what the model reads, and what is reported.
pub fn report_tool_result(
    id: &str,
    name: &str,
    args: &Json,
    success: bool,
    content: &str,
    time_harness: bool,
    turn_now: &str,
) -> (r: (String, Vec<AgentStreamEvent>))
    ensures
        r.0@ == final_content(name@, success, content@, time_harness, turn_now@),
        views(r.1@) == result_events(id@, name@, args@, success, r.0@),
{
    let text = if success && time_harness {
        annotate_tool_result(name, content, turn_now)
    } else {
        content.to_string()
    };
    let mut events: Vec<AgentStreamEvent> = Vec::new();
    if success {
        let done = AgentStreamEvent::ToolDone {
            id: id.to_string(),
            name: name.to_string(),
            summary: summarize_tool_result(name, &text),
        };
        events.push(done);
        assert(views(events@) =~= seq![done@]);
        if text_eq(name, "todo_write") {
            if let Some(tasks) = args.str_at("tasks_json") {
                let list = AgentStreamEvent::TaskList { tasks_json: tasks.to_string() };
                proof {
                    lemma_views_push(events@, list);
                }
                events.push(list);
            }
        }
    } else {
        let e = AgentStreamEvent::ToolError {
            id: id.to_string(),
            name: name.to_string(),
            error: text.clone(),
        };
        events.push(e);
        assert(views(events@) =~= seq![e@]);
    }
    (text, events)
}

/// Whether a tool changes a file, so that the change is shown.
pub open spec fn changes_file(name: Text) -> bool {
    name == "edit_file"@ || name == "write_file"@
}

/// Whether a tool changes a file, so that the change is shown.
pub fn tracks_diff(name: &str) -> (r: bool)
    ensures
        r == changes_file(name@),
{
    text_eq(name, "edit_file") || text_eq(name, "write_file")
}

/// What is reported of a changed file; nothing where its content is the same.
pub fn diff_event(path: &str, original: &str, modified: &str) -> (r: Option<AgentStreamEvent>)
    ensures
        opt_view(r) == (if original@ == modified@ {
            None
        } else {
            Some(
                EventView::DiffCreated {
                    path: path@,
                    original: original@,
                    modified: modified@,
                },
            )
        }),
{
    if text_eq(original, modified) {
        return None;
    }
    Some(
        AgentStreamEvent::DiffCreated {
            path: path.to_string(),
            original: original.to_string(),
            modified: modified.to_string(),
        },
    )
}

/// A tool call as the user sees it.
#[derive(Debug)]
pub struct ToolCallInfo {
    pub id: String,
    pub name: String,
    pub arguments: Json,
    pub result: Option<String>,
    pub status: String,
}

#[verifier::ext_equal]
pub struct CallInfoView {
    pub id: Text,
    pub name: Text,
    pub arguments: JsonView,
    pub result: Option<Text>,
    pub status: Text,
}

impl View for ToolCallInfo {
    type V = CallInfoView;

    open spec fn view(&self) -> CallInfoView {
        CallInfoView {
            id: self.id@,
            name: self.name@,
            arguments: self.arguments@,
            result: opt_view(self.result),
            status: self.status@,
        }
    }
}

fn copy_calls(calls: &Vec<ToolCallInfo>) -> (r: Vec<ToolCallInfo>)
    ensures
        views(r@) == views(calls@),
{
    let mut out: Vec<ToolCallInfo> = Vec::new();
    let mut i: usize = 0;
    while i < calls.len()
        invariant
            i <= calls@.len(),
            views(out@) == views(calls@).take(i as int),
        decreases calls@.len() - i,
    {
        let c = ToolCallInfo {
            id: calls[i].id.clone(),
            name: calls[i].name.clone(),
            arguments: calls[i].arguments.clone(),
            result: copy_opt(&calls[i].result),
            status: calls[i].status.clone(),
        };
        proof {
            lemma_views_push(out@, c);
            assert(views(calls@).take(i + 1) =~= views(calls@).take(i as int).push(c@));
        }
        out.push(c);
        i = i + 1;
    }
    assert(views(calls@).take(i as int) =~= views(calls@));
    out
}

/// What a turn comes to.
#[derive(Debug)]
pub struct AgentTurnResult {
    pub message: String,
    pub thinking_content: Option<String>,
    pub tool_calls: Option<Vec<ToolCallInfo>>,
    pub token_usage: TokenUsageInfo,
    /// In millionths of a millionth of a dollar.
    pub total_cost: u128,
    pub finish_reason: String,
    pub context_usage: u64,
}

#[verifier::ext_equal]
pub struct TurnResultView {
    pub message: Text,
    pub thinking_content: Option<Text>,
    pub tool_calls: Option<Seq<CallInfoView>>,
    pub token_usage: TokenUsageInfo,
    pub total_cost: u128,
    pub finish_reason: Text,
    pub context_usage: u64,
}

impl View for AgentTurnResult {
    type V = TurnResultView;

    open spec fn view(&self) -> TurnResultView {
        TurnResultView {
            message: self.message@,
            thinking_content: opt_view(self.thinking_content),
            tool_calls: opt_views(self.tool_calls),
            token_usage: self.token_usage,
            total_cost: self.total_cost,
            finish_reason: self.finish_reason@,
            context_usage: self.context_usage,
        }
    }
}

impl Clone for AgentTurnResult {
    fn clone(&self) -> (r: AgentTurnResult)
        ensures
            r@ == self@,
    {
        AgentTurnResult {
            message: self.message.clone(),
            thinking_content: copy_opt(&self.thinking_content),
            tool_calls: match &self.tool_calls {
                Some(calls) => Some(copy_calls(calls)),
                None => None,
            },
            token_usage: self.token_usage,
            total_cost: self.total_cost,
            finish_reason: self.finish_reason.clone(),
            context_usage: self.context_usage,
        }
    }
}

/// The token counts of the session so far.
pub open spec fn usage_of(s: StateView) -> TokenUsageInfo {
    TokenUsageInfo {
        input: s.total_input_tokens,
        output: s.total_output_tokens,
        cached: s.total_cached_tokens,
        cache_savings: s.total_cache_savings,
        thinking_tokens: s.total_thinking_tokens,
    }
}

/// What a turn comes to, from the model's last answer.
pub open spec fn turn_result(s: StateView, r: ResponseView) -> TurnResultView {
    TurnResultView {
        message: r.content,
        thinking_content: r.thinking_content,
        tool_calls: None,
        token_usage: usage_of(s),
        total_cost: s.total_cost,
        finish_reason: r.finish_reason,
        context_usage: s.context_engine.token_usage,
    }
}

impl AgentLoop {
    /// Takes in the outcomes of the tools: one message that answers every call of
    /// the model, in order and under its own id.
    pub fn push_tool_results(
        &mut self,
        calls: &Vec<ToolCall>,
        outcomes: &Vec<(String, String)>,
        now: i64,
    )
        ensures
            final(self).state@ == (StateView {
                messages: old(self).state@.messages.push(
                    results_message(views(calls@), outcomes_view(outcomes@), now),
                ),
                ..old(self).state@
            }),
            final(self).cancelled == old(self).cancelled,
    {
        let mut blocks: Vec<ContentBlock> = Vec::new();
        let ghost want = Seq::new(
            calls@.len(),
            |i: int| answer_to(outcomes_view(outcomes@), views(calls@)[i].id),
        );
        let mut i: usize = 0;
        while i < calls.len()
            invariant
                i <= calls@.len(),
                want == Seq::new(
                    calls@.len(),
                    |i: int| answer_to(outcomes_view(outcomes@), views(calls@)[i].id),
                ),
                views(blocks@) == want.take(i as int),
            decreases calls@.len() - i,
        {
            let b = find_answer(outcomes, &calls[i].id);
            proof {
                lemma_views_push(blocks@, b);
                assert(b@ == want[i as int]);
                assert(want.take(i + 1) =~= want.take(i as int).push(b@));
            }
            blocks.push(b);
            i = i + 1;
        }
        assert(want.take(i as int) =~= want);
        let m = Message {
            role: Role::User,
            content: Content::Blocks(blocks),
            timestamp: now,
            internal: false,
        };
        proof {
            lemma_views_push(self.state.messages@, m);
            assert(m@.content->Blocks_0 =~= results_message(
                views(calls@),
                outcomes_view(outcomes@),
                now,
            ).content->Blocks_0);
        }
        self.state.messages.push(m);
    }

    /// Ends a turn: what it comes to, and what is reported of it.
    pub fn finish_turn(&self, response: &ApiResponse) -> (r: (AgentTurnResult, AgentStreamEvent))
        ensures
            r.0@ == turn_result(self.state@, response@),
            r.1@ == (EventView::TurnEnd {
                finish_reason: response@.finish_reason,
                token_usage: usage_of(self.state@),
                context_usage: self.state@.context_engine.token_usage,
            }),
    {
        let usage = TokenUsageInfo {
            input: self.state.total_input_tokens,
            output: self.state.total_output_tokens,
            cached: self.state.total_cached_tokens,
            cache_savings: self.state.total_cache_savings,
            thinking_tokens: self.state.total_thinking_tokens,
        };
        let context_usage: u64 = self.state.context_engine.token_usage;
        (
            AgentTurnResult {
                message: response.content.clone(),
                thinking_content: copy_opt(&response.thinking_content),
                tool_calls: None,
                token_usage: usage,
                total_cost: self.state.total_cost,
                finish_reason: response.finish_reason.clone(),
                context_usage,
            },
            AgentStreamEvent::TurnEnd {
                finish_reason: response.finish_reason.clone(),
                token_usage: usage,
                context_usage,
            },
        )
    }
}

/// A turn that produced nothing.
pub fn is_stalled_turn(result: &AgentTurnResult) -> (r: bool)
    ensures
        r == is_blank(result@.message),
{
    blank(&result.message)
}

/// Whether an answer is a short question to the user.
pub open spec fn asks_user(message: Text) -> bool {
    let t = trimmed(message);
    &&& t.len() > 0
    &&& t.len() < 300
    &&& ends(t, "?"@) || ends(t, "？"@)
}

/// Whether an answer is a short question to the user, so that no further turn
/// follows by itself.
pub fn should_stop_after_turn(result: &AgentTurnResult) -> (r: bool)
    ensures
        r == asks_user(result@.message),
{
    let t = trim(&result.message);
    if t.as_str().is_empty() {
        return false;
    }
    let n: usize = t.as_str().unicode_len();
    n < 300 && (ends_with(&t, "?") || ends_with(&t, "？"))
}

/// Collects streamed pieces between two reports.
#[derive(Debug)]
pub struct StreamPump {
    /// Whether anything has been streamed yet.
    pub streamed: bool,
    pub pending_text: String,
    pub pending_thinking: String,
}

#[verifier::ext_equal]
pub struct PumpView {
    pub streamed: bool,
    pub text: Text,
    pub thinking: Text,
}

impl View for StreamPump {
    type V = PumpView;

    open spec fn view(&self) -> PumpView {
        PumpView {
            streamed: self.streamed,
            text: self.pending_text@,
            thinking: self.pending_thinking@,
        }
    }
}

/// The pump after one more piece.
pub open spec fn pumped(p: PumpView, d: DeltaView) -> PumpView {
    match d {
        DeltaView::TextDelta { text } => PumpView { streamed: true, text: p.text + text, ..p },
        DeltaView::ThinkingDelta { text } => PumpView {
            streamed: true,
            thinking: p.thinking + text,
            ..p
        },
    }
}

/// What is reported of the pieces collected: reasoning first, then text.
pub open spec fn pump_events(p: PumpView) -> Seq<EventView> {
    let a: Seq<EventView> = if p.thinking.len() > 0 {
        seq![EventView::Thinking { text: p.thinking }]
    } else {
        Seq::empty()
    };
    if p.text.len() > 0 {
        a.push(EventView::Text { content: p.text })
    } else {
        a
    }
}

impl StreamPump {
    pub fn new() -> (r: StreamPump)
        ensures
            r@ == (PumpView { streamed: false, text: Seq::empty(), thinking: Seq::empty() }),
    {
        StreamPump {
            streamed: false,
            pending_text: String::new(),
            pending_thinking: String::new(),
        }
    }

    /// Takes one streamed piece.
    pub fn take(&mut self, event: &ApiStreamEvent)
        ensures
            final(self)@ == pumped(old(self)@, event@),
    {
        self.streamed = true;
        match event {
            ApiStreamEvent::TextDelta { text } => self.pending_text.push_str(text),
            ApiStreamEvent::ThinkingDelta { text } => self.pending_thinking.push_str(text),
        }
    }

    /// Reports what has been collected since the last time.
    pub fn flush(&mut self) -> (r: Vec<AgentStreamEvent>)
        ensures
            views(r@) == pump_events(old(self)@),
            final(self)@ == (PumpView {
                streamed: old(self)@.streamed,
                text: Seq::empty(),
                thinking: Seq::empty(),
            }),
    {
        let mut out: Vec<AgentStreamEvent> = Vec::new();
        assert(views(out@) =~= Seq::<EventView>::empty());
        if !self.pending_thinking.as_str().is_empty() {
            let e = AgentStreamEvent::Thinking { text: self.pending_thinking.clone() };
            out.push(e);
            assert(views(out@) =~= seq![e@]);
        }
        if !self.pending_text.as_str().is_empty() {
            let e = AgentStreamEvent::Text { content: self.pending_text.clone() };
            proof {
                lemma_views_push(out@, e);
            }
            out.push(e);
        }
        self.pending_text = String::new();
        self.pending_thinking = String::new();
        out
    }
}

/// What to do once a streamed call has ended.
#[derive(Debug)]
pub enum ChatStep {
    Deliver { response: ApiResponse },
    /// Nothing has reached the user yet: the same call is made again without
    /// streaming.
    CallUnstreamed,
    Fail { error: String },
}

/// What to do once a streamed call has ended.
pub fn after_stream(outcome: Result<ApiResponse, String>, streamed: bool) -> (r: ChatStep)
    ensures
        match outcome {
            Ok(a) => r matches ChatStep::Deliver { response } && response@ == a@,
            Err(e) => if streamed {
                r matches ChatStep::Fail { error } && error@ == e@
            } else {
                r is CallUnstreamed
            },
        },
{
    match outcome {
        Ok(response) => ChatStep::Deliver { response },
        Err(error) => if streamed {
            ChatStep::Fail { error }
        } else {
            ChatStep::CallUnstreamed
        },
    }
}

/// The pump after some pieces.
pub open spec fn pumped_all(p: PumpView, ds: Seq<DeltaView>) -> PumpView
    decreases ds.len(),
{
    if ds.len() == 0 {
        p
    } else {
        pumped(pumped_all(p, ds.drop_last()), ds.last())
    }
}

/// Collecting pieces before they are reported loses none of them and keeps their
/// order.
pub proof fn pump_keeps_everything(p: PumpView, ds: Seq<DeltaView>)
    ensures
        pumped_all(p, ds).text == p.text + delta_text(ds),
        pumped_all(p, ds).thinking == p.thinking + delta_thinking(ds),
    decreases ds.len(),
{
    if ds.len() == 0 {
        assert(p.text + Seq::<char>::empty() =~= p.text);
        assert(p.thinking + Seq::<char>::empty() =~= p.thinking);
    } else {
        pump_keeps_everything(p, ds.drop_last());
        match ds.last() {
            DeltaView::TextDelta { text } => {
                assert(p.text + delta_text(ds.drop_last()) + text =~= p.text + (delta_text(
                    ds.drop_last(),
                ) + text));
                assert(delta_thinking(ds) =~= delta_thinking(ds.drop_last()));
            },
            DeltaView::ThinkingDelta { text } => {
                assert(p.thinking + delta_thinking(ds.drop_last()) + text =~= p.thinking + (
                delta_thinking(ds.drop_last()) + text));
                assert(delta_text(ds) =~= delta_text(ds.drop_last()));
            },
        }
    }
}

/// With the time layer off, an answer goes into the history without any stamp: the
/// clock does not show, and what was searched goes back as it came. With the layer on
/// or off, search content that is a list, a text or nothing goes back as a list.
pub proof fn searches_go_back(r: ResponseView, clock: Text, other: Text, now: i64, w: WebSearchView)
    ensures
        reply_message(r, clock, false, now) == reply_message(r, other, false, now),
        w.content is Array ==> returned_content(w.content, clock, false) == w.content,
        returned_content(w.content, clock, true) is Array,
        w.content is Array || w.content is Str || w.content is Null ==> returned_content(
            w.content,
            clock,
            false,
        ) is Array,
{
    assert(server_blocks(r, clock, false) =~= server_blocks(r, other, false));
}

/// Which calls stand in the message of an answer: exactly those the model made.
proof fn lemma_reply_calls(r: ResponseView, clock: Text, stamp: bool, now: i64, id: Text)
    ensures
        calls(reply_message(r, clock, stamp, now).content, id) <==> exists|i: int|
            0 <= i < calls_of(r).len() && (#[trigger] calls_of(r)[i]).id == id,
{
    let a = spoken_blocks(r);
    let b = call_blocks(calls_of(r));
    let c = server_blocks(r, clock, stamp);
    let bs = a + b + c;
    if calls(reply_message(r, clock, stamp, now).content, id) {
        let k = choose|k: int| 0 <= k < bs.len() && is_use(#[trigger] bs[k], id);
        assert(a.len() <= k < a.len() + b.len()) by {
            if k < a.len() {
                assert(bs[k] == a[k]);
            } else if k >= a.len() + b.len() {
                assert(bs[k] == c[k - a.len() - b.len()]);
            }
        }
        assert(bs[k] == b[k - a.len()]);
        assert(calls_of(r)[k - a.len()].id == id);
    }
    if exists|i: int| 0 <= i < calls_of(r).len() && (#[trigger] calls_of(r)[i]).id == id {
        let i = choose|i: int| 0 <= i < calls_of(r).len() && (#[trigger] calls_of(r)[i]).id == id;
        assert(bs[a.len() + i] == b[i]);
        assert(is_use(bs[a.len() + i], id));
        assert(holds_use(bs, id));
    }
}

/// Every tool call is answered: when the tools have run, each call of the model
/// has its answer under its own id in the very next message, and a history whose
/// calls and answers were paired stays so.
pub proof fn tools_are_answered(
    ms: Seq<MessageView>,
    r: ResponseView,
    clock: Text,
    stamp: bool,
    outcomes: Seq<(Text, Text)>,
    now: i64,
    later: i64,
)
    requires
        pairs_valid(ms),
    ensures
        pairs_valid(
            ms.push(reply_message(r, clock, stamp, now)).push(
                results_message(calls_of(r), outcomes, later),
            ),
        ),
{
    let a = reply_message(r, clock, stamp, now);
    let u = results_message(calls_of(r), outcomes, later);
    assert forall|id: Text| #[trigger] calls(a.content, id) <==> answers(u.content, id) by {
        lemma_reply_calls(r, clock, stamp, now, id);
        let cs = u.content->Blocks_0;
        if calls(a.content, id) {
            let i = choose|i: int|
                0 <= i < calls_of(r).len() && (#[trigger] calls_of(r)[i]).id == id;
            assert(is_result(cs[i], id));
            assert(holds_result(cs, id));
        }
        if answers(u.content, id) {
            let i = choose|i: int| 0 <= i < cs.len() && is_result(#[trigger] cs[i], id);
            assert(calls_of(r)[i].id == id);
        }
    }
    lemma_push_pair(ms, a, u);
}

/// A message of the user, and an answer without tool calls, leave a paired
/// history paired.
pub proof fn plain_messages_stay_paired(
    s: StateView,
    message: Text,
    internal: bool,
    r: ResponseView,
    clock: Text,
    stamp: bool,
    now: i64,
)
    requires
        pairs_valid(s.messages),
    ensures
        pairs_valid(turn_begun(s, message, internal, now).messages),
        calls_of(r).len() == 0 ==> pairs_valid(s.messages.push(reply_message(r, clock, stamp, now))),
{
    let u = turn_begun(s, message, internal, now).messages.last();
    lemma_push_plain(s.messages, u);
    if calls_of(r).len() == 0 {
        let a = reply_message(r, clock, stamp, now);
        assert forall|id: Text| !calls(a.content, id) by {
            lemma_reply_calls(r, clock, stamp, now, id);
        }
        lemma_push_plain(s.messages, a);
    }
}

/// A turn falls back to answering without reasoning at most twice.
pub proof fn downgrades_are_bounded(
    s: StateView,
    p: ProgressView,
    r: ResponseView,
    streamed: bool,
    elapsed: u64,
    now: i64,
    search_id: Text,
    clock: Text,
)
    requires
        p.downgrade_count <= MAX_DOWNGRADES,
    ensures
        ({
            let a = absorbed(s, p, r, streamed, elapsed, now, search_id, clock);
            &&& a.progress.downgrade_count <= MAX_DOWNGRADES
            &&& a.step is Retry ==> a.progress.downgrade_count == p.downgrade_count + 1
                && a.state.messages == s.messages
            &&& !(a.step is Retry) ==> a.progress.downgrade_count == p.downgrade_count
        }),
{
}

/// A goal that has used up its budget starts no further turn: the call that spends
/// the last of it limits the goal.
pub proof fn spent_budget_stops_turns(s: StateView, r: ResponseView, elapsed: u64, now: i64)
    requires
        s.goal is Some,
        s.goal->Some_0.token_budget is Some,
        charged_goal(s.goal->Some_0, r.usage, elapsed, now).tokens_used
            >= s.goal->Some_0.token_budget->Some_0,
    ensures
        !can_auto_advance(counted(s, r, elapsed, now)),
{
}

} // verus!
