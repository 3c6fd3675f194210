//! A turn loses nothing: what was said, asked and answered stands in the history.

use crate::agent::StateView;
use crate::api::{
    cost, prices_of, response_of, savings, Pricing, ResponseView, ToolCallView, WebSearchView,
};
use crate::events::EventView;
use crate::json::{json_parse, json_text, reads_as, text_at, JsonView};
use crate::laws::reply::{call_list, every_call_is_read, is_call_of, uses_among};
use crate::message::{BlockView, ContentView, MessageView};
use crate::stream::Usage;
use crate::text::{byte_len, is_blank, occurs, Text};
use crate::turn::{
    absorbed, call_blocks, calls_of, counted, final_content, outcome_of, pump_events, pumped,
    reply_message, result_events, results_message, server_blocks, spoken_blocks, turn_begun,
    turn_result, ProgressView, PumpView,
};
use vstd::prelude::*;

verus! {

/// The blocks of a message, none where it is a plain text.
pub open spec fn blocks_of(m: MessageView) -> Seq<BlockView> {
    match m.content {
        ContentView::Blocks(bs) => bs,
        ContentView::Text(_) => Seq::empty(),
    }
}

/// Whether a value is what an argument text says: the value it is the text of, or
/// an empty object where it is no JSON.
pub open spec fn is_said_by(v: JsonView, t: Text) -> bool {
    match json_parse(t) {
        Ok(w) => v == w,
        Err(_) => v == JsonView::Object(Map::empty()),
    }
}

/// Whether a block makes a call.
pub open spec fn makes_call(b: BlockView, c: ToolCallView) -> bool {
    b matches BlockView::ToolUse { id, name, input } && id == c.id && name == c.name && is_said_by(
        input,
        c.arguments,
    )
}

/// Whether a block makes a search of the server.
pub open spec fn makes_search(b: BlockView, c: ToolCallView) -> bool {
    b matches BlockView::ServerToolUse { id, name, input } && id == c.id && name == c.name
        && is_said_by(input, c.arguments)
}

/// Whether a block holds a search result. Without the time layer its content is what
/// came; with it, what came still stands in it.
pub open spec fn holds_result(b: BlockView, w: WebSearchView, stamp: bool) -> bool {
    b matches BlockView::WebSearchResult { tool_use_id, title, url, content } && (
    w.tool_use_id matches Some(i) ==> tool_use_id == i) && (w.tool_use_id is None ==> tool_use_id.len()
        == 0) && title == w.title && url == w.url && (!stamp && w.content is Array ==> content
        == w.content) && (w.content matches JsonView::Str(t) ==> (content matches JsonView::Array(l)
        && l.len() == 1 && (text_at(l[0], "text"@) matches Some(x) && if stamp {
        crate::text::ends(x, t)
    } else {
        x == t
    })))
}

/// How many blocks there are before the calls: one for reasoning, one for text.
pub open spec fn spoken(r: ResponseView) -> int {
    (if r.thinking_content is Some && r.thinking_content->Some_0.len() > 0 {
        1int
    } else {
        0
    }) + (if r.content.len() > 0 {
        1int
    } else {
        0
    })
}

proof fn lemma_filtered(a: Seq<BlockView>, b: Seq<BlockView>, c: Seq<BlockView>)
    requires
        forall|i: int| 0 <= i < a.len() ==> !(#[trigger] a[i] is ToolUse),
        forall|i: int| 0 <= i < b.len() ==> #[trigger] b[i] is ToolUse,
        forall|i: int| 0 <= i < c.len() ==> !(#[trigger] c[i] is ToolUse),
    ensures
        uses_among(a + b + c) == b,
{
    reveal(uses_among);
    let p = |x: BlockView| x is ToolUse;
    lemma_none(a, p);
    lemma_none(c, p);
    lemma_all(b, p);
    Seq::filter_distributes_over_add(a + b, c, p);
    Seq::filter_distributes_over_add(a, b, p);
    assert(uses_among(a + b + c) =~= b);
}

proof fn lemma_none(a: Seq<BlockView>, p: spec_fn(BlockView) -> bool)
    requires
        forall|i: int| 0 <= i < a.len() ==> !p(#[trigger] a[i]),
    ensures
        a.filter(p).len() == 0,
    decreases a.len(),
{
    reveal(Seq::filter);
    if a.len() > 0 {
        lemma_none(a.drop_last(), p);
    }
}

proof fn lemma_all(a: Seq<BlockView>, p: spec_fn(BlockView) -> bool)
    requires
        forall|i: int| 0 <= i < a.len() ==> p(#[trigger] a[i]),
    ensures
        a.filter(p) == a,
    decreases a.len(),
{
    reveal(Seq::filter);
    if a.len() > 0 {
        lemma_all(a.drop_last(), p);
        assert(a.drop_last().push(a.last()) =~= a);
    } else {
        assert(a.filter(p) =~= a);
    }
}

/// What the model answered goes into the history whole: its reasoning and its text
/// first, then its calls, each with its id, its name and the input that its arguments
/// are the text of, then its searches with what they found.
pub proof fn answers_go_into_history(
    s: StateView,
    p: ProgressView,
    r: ResponseView,
    streamed: bool,
    elapsed: u64,
    now: i64,
    search_id: Text,
    clock: Text,
)
    ensures
        ({
            let a = absorbed(s, p, r, streamed, elapsed, now, search_id, clock);
            let n = s.messages.len() as int;
            let m = a.state.messages[n];
            let bs = blocks_of(m);
            let cs = call_list(r);
            let k = spoken(r);
            let u = r.server_tool_uses;
            let w = r.web_search_results;
            !(a.step is Retry) ==> {
                &&& a.state.messages.len() == n + 1
                &&& a.state.messages.take(n) == s.messages
                &&& m.role is Assistant
                &&& m.timestamp == now
                &&& !m.internal
                &&& m.content is Blocks
                &&& bs.len() == k + cs.len() + u.len() + w.len()
                &&& r.thinking_content matches Some(t) ==> t.len() > 0 ==> bs[0] == (
                BlockView::Thinking { thinking: t, signature: r.thinking_signature })
                &&& r.content.len() > 0 ==> bs[k - 1] == (BlockView::Text { text: r.content })
                &&& forall|i: int| #![trigger cs[i]]
                    0 <= i < cs.len() ==> makes_call(bs[k + i], cs[i])
                &&& forall|i: int| #![trigger u[i]]
                    0 <= i < u.len() ==> makes_search(bs[k + cs.len() + i], u[i])
                &&& forall|i: int| #![trigger w[i]]
                    0 <= i < w.len() ==> holds_result(
                        bs[k + cs.len() + u.len() + i],
                        w[i],
                        p.time_harness,
                    )
                &&& uses_among(bs).len() == cs.len()
                &&& forall|i: int| 0 <= i < cs.len() ==> makes_call(#[trigger] uses_among(bs)[i], cs[i])
            }
        }),
{
    let a = absorbed(s, p, r, streamed, elapsed, now, search_id, clock);
    if !(a.step is Retry) {
        assert(a.state.messages.take(s.messages.len() as int) =~= s.messages);
        lemma_spoken(r, clock, p.time_harness, now);
        lemma_called(r, clock, p.time_harness, now);
        lemma_searched(r, clock, p.time_harness, now);
    }
}

proof fn lemma_spoken(r: ResponseView, clock: Text, stamp: bool, now: i64)
    ensures
        ({
            let bs = blocks_of(reply_message(r, clock, stamp, now));
            let k = spoken(r);
            &&& spoken_blocks(r).len() == k
            &&& bs.len() == k + call_list(r).len() + r.server_tool_uses.len()
                + r.web_search_results.len()
            &&& r.thinking_content matches Some(t) ==> t.len() > 0 ==> bs[0] == (
            BlockView::Thinking { thinking: t, signature: r.thinking_signature })
            &&& r.content.len() > 0 ==> bs[k - 1] == (BlockView::Text { text: r.content })
        }),
{
}

proof fn lemma_called(r: ResponseView, clock: Text, stamp: bool, now: i64)
    ensures
        ({
            let bs = blocks_of(reply_message(r, clock, stamp, now));
            let cs = call_list(r);
            let k = spoken(r);
            &&& forall|i: int| #![trigger cs[i]] 0 <= i < cs.len() ==> makes_call(bs[k + i], cs[i])
            &&& uses_among(bs).len() == cs.len()
            &&& forall|i: int| 0 <= i < cs.len() ==> makes_call(#[trigger] uses_among(bs)[i], cs[i])
        }),
{
    let bs = blocks_of(reply_message(r, clock, stamp, now));
    let cs = call_list(r);
    let y = call_blocks(calls_of(r));
    lemma_spoken(r, clock, stamp, now);
    assert forall|i: int| 0 <= i < cs.len() implies makes_call(#[trigger] y[i], cs[i]) by {}
    assert(uses_among(bs) == y) by {
        lemma_only_calls(r, clock, stamp);
    }
    assert forall|i: int| #![trigger cs[i]] 0 <= i < cs.len() implies makes_call(
        bs[spoken(r) + i],
        cs[i],
    ) by {
        assert(bs[spoken(r) + i] == y[i]);
    }
}

proof fn lemma_only_calls(r: ResponseView, clock: Text, stamp: bool)
    ensures
        uses_among(
            spoken_blocks(r) + call_blocks(calls_of(r)) + server_blocks(r, clock, stamp),
        ) == call_blocks(calls_of(r)),
{
    let z = server_blocks(r, clock, stamp);
    let n = r.server_tool_uses.len() as int;
    assert forall|i: int| 0 <= i < z.len() implies !(#[trigger] z[i] is ToolUse) by {
        if i < n {
            assert(z[i] == crate::turn::server_use_block(r.server_tool_uses[i]));
        } else {
            assert(z[i] == crate::turn::search_block(r.web_search_results[i - n], clock, stamp));
        }
    }
    lemma_filtered(spoken_blocks(r), call_blocks(calls_of(r)), z);
}

proof fn lemma_searched(r: ResponseView, clock: Text, stamp: bool, now: i64)
    ensures
        ({
            let bs = blocks_of(reply_message(r, clock, stamp, now));
            let n = spoken(r) + call_list(r).len();
            let u = r.server_tool_uses;
            let w = r.web_search_results;
            &&& forall|i: int| #![trigger u[i]] 0 <= i < u.len() ==> makes_search(bs[n + i], u[i])
            &&& forall|i: int| #![trigger w[i]]
                0 <= i < w.len() ==> holds_result(bs[n + u.len() + i], w[i], stamp)
        }),
{
    let bs = blocks_of(reply_message(r, clock, stamp, now));
    let u = r.server_tool_uses;
    let w = r.web_search_results;
    let x = spoken_blocks(r);
    let y = call_blocks(calls_of(r));
    let z = server_blocks(r, clock, stamp);
    let n = spoken(r) + call_list(r).len();
    assert forall|i: int| #![trigger u[i]] 0 <= i < u.len() implies makes_search(
        bs[n + i],
        u[i],
    ) by {
        assert(bs[x.len() + y.len() + i] == z[i]);
    }
    assert forall|i: int| #![trigger w[i]] 0 <= i < w.len() implies holds_result(
        bs[n + u.len() + i],
        w[i],
        stamp,
    ) by {
        assert(bs[x.len() + y.len() + u.len() + i] == z[u.len() + i]);
        lemma_result(w[i], clock, stamp);
    }
}

proof fn lemma_result(w: WebSearchView, clock: Text, stamp: bool)
    ensures
        holds_result(crate::turn::search_block(w, clock, stamp), w, stamp),
{
    reveal_strlit("text");
    reveal_strlit("type");
    assert("text"@[1] != "type"@[1]);
    if let JsonView::Str(t) = w.content {
        let x = crate::stamps::annotated("web_search"@, t, clock);
        let n = x.len() - t.len();
        assert(x.subrange(n, x.len() as int) =~= t);
        assert(x.skip(n) =~= t);
    }
}

/// The calls that stand in the history are those that the reply made: under their
/// own names, and where they have ids under these, with the inputs that the model
/// wrote.
pub proof fn calls_come_back(
    blocks: Seq<BlockView>,
    usage: Usage,
    reason: Text,
    fresh: Seq<Text>,
    s: StateView,
    p: ProgressView,
    streamed: bool,
    elapsed: u64,
    now: i64,
    search_id: Text,
    clock: Text,
)
    requires
        fresh.len() >= blocks.len(),
        forall|i: int|
            0 <= i < blocks.len() && #[trigger] blocks[i] is ToolUse ==> reads_as(
                json_text(blocks[i]->ToolUse_input),
                blocks[i]->ToolUse_input,
            ),
    ensures
        ({
            let r = response_of(blocks, usage, reason, fresh);
            let a = absorbed(s, p, r, streamed, elapsed, now, search_id, clock);
            let kept = uses_among(blocks_of(a.state.messages[s.messages.len() as int]));
            let made = uses_among(blocks);
            !(a.step is Retry) ==> kept.len() == made.len() && forall|i: int|
                #![trigger made[i]]
                0 <= i < made.len() ==> {
                    &&& kept[i] is ToolUse
                    &&& kept[i]->ToolUse_name == made[i]->ToolUse_name
                    &&& kept[i]->ToolUse_input == made[i]->ToolUse_input
                    &&& !is_blank(made[i]->ToolUse_id) ==> kept[i]->ToolUse_id
                        == made[i]->ToolUse_id
                }
        }),
{
    let r = response_of(blocks, usage, reason, fresh);
    let a = absorbed(s, p, r, streamed, elapsed, now, search_id, clock);
    let kept = uses_among(blocks_of(a.state.messages[s.messages.len() as int]));
    let made = uses_among(blocks);
    every_call_is_read(blocks, usage, reason, fresh);
    answers_go_into_history(s, p, r, streamed, elapsed, now, search_id, clock);
    if !(a.step is Retry) {
        assert forall|i: int| #![trigger made[i]] 0 <= i < made.len() implies {
            &&& kept[i] is ToolUse
            &&& kept[i]->ToolUse_name == made[i]->ToolUse_name
            &&& kept[i]->ToolUse_input == made[i]->ToolUse_input
            &&& !is_blank(made[i]->ToolUse_id) ==> kept[i]->ToolUse_id == made[i]->ToolUse_id
        } by {
            assert(is_call_of(call_list(r)[i], made[i], fresh));
            assert(makes_call(kept[i], call_list(r)[i]));
            lemma_member(blocks, i);
        }
    }
}

proof fn lemma_member(blocks: Seq<BlockView>, i: int)
    requires
        0 <= i < uses_among(blocks).len(),
    ensures
        exists|j: int| 0 <= j < blocks.len() && #[trigger] blocks[j] == uses_among(blocks)[i],
        uses_among(blocks)[i] is ToolUse,
{
    reveal(uses_among);
    let p = |b: BlockView| b is ToolUse;
    broadcast use vstd::seq_lib::group_filter_ensures;

    assert(blocks.contains(uses_among(blocks)[i])) by {
        blocks.lemma_filter_contains_rev(p, uses_among(blocks)[i]);
    }
}

/// When an answer is tried again: it has no call and no text and has taken more than
/// thirty thousand tokens for reasoning, and this has happened less than twice. Then
/// the history stays, and the next try does without reasoning. Calls are run.
pub proof fn next_steps(
    s: StateView,
    p: ProgressView,
    r: ResponseView,
    streamed: bool,
    elapsed: u64,
    now: i64,
    search_id: Text,
    clock: Text,
)
    requires
        byte_len(r.content) <= u32::MAX,
    ensures
        ({
            let a = absorbed(s, p, r, streamed, elapsed, now, search_id, clock);
            &&& a.step is Retry <==> call_list(r).len() == 0 && is_blank(r.content)
                && r.usage.output_tokens - byte_len(r.content) / 4 > 30_000 && p.downgrade_count < 2
            &&& a.step is Retry ==> a.progress.mode is NonThink && a.state.messages == s.messages
                && a.progress.downgrade_count == p.downgrade_count + 1
                && a.progress.cumulative_thinking_tokens == 0
            &&& !(a.step is Retry) ==> a.progress.mode == p.mode
            &&& a.step is RunTools <==> call_list(r).len() > 0
            &&& a.progress.turn_now == p.turn_now
            &&& a.progress.time_harness == p.time_harness
        }),
{
}

/// A call is counted in full: each kind of token in its own total, what it cost and
/// what the cache saved at the prices of the model; and nothing else changes.
pub proof fn calls_are_counted(
    s: StateView,
    p: ProgressView,
    r: ResponseView,
    streamed: bool,
    elapsed: u64,
    now: i64,
    search_id: Text,
    clock: Text,
)
    requires
        crate::turn::can_count(s, p, r),
        byte_len(r.content) <= u32::MAX,
    ensures
        ({
            let a = absorbed(s, p, r, streamed, elapsed, now, search_id, clock).state;
            let u = r.usage;
            let thought = u.output_tokens - byte_len(r.content) / 4;
            &&& a.total_input_tokens - s.total_input_tokens == u.input_tokens
            &&& a.total_output_tokens - s.total_output_tokens == u.output_tokens
            &&& a.total_cached_tokens - s.total_cached_tokens == u.cache_read_input_tokens
            &&& a.total_thinking_tokens - s.total_thinking_tokens == (if thought > 0 {
                thought
            } else {
                0
            })
            &&& a.total_cost >= s.total_cost
            &&& a.total_cache_savings >= s.total_cache_savings
            &&& a.context_engine.token_usage == u.input_tokens
            &&& a.context_engine.max_tokens == s.context_engine.max_tokens
            &&& a.context_engine.file_index == s.context_engine.file_index
            &&& a.context_engine.workspace_root == s.context_engine.workspace_root
            &&& a.context_engine.soft_forget_threshold == s.context_engine.soft_forget_threshold
            &&& a.context_engine.output_reservation == s.context_engine.output_reservation
            &&& a.model == s.model
            &&& a.system_prompt == s.system_prompt
            &&& a.think_budget == s.think_budget
            &&& a.deep_budget == s.deep_budget
            &&& a.time_harness == s.time_harness
            &&& a.goal_mode == s.goal_mode
            &&& a.goal_max_auto_turns == s.goal_max_auto_turns
            &&& a.auto_turns_used == s.auto_turns_used
            &&& a.goal is Some <==> s.goal is Some
        }),
{
    lemma_prices(prices_of(s.model), r.usage);
}

proof fn lemma_prices(p: Pricing, u: Usage)
    requires
        p.wf(),
        u.cache_read_input_tokens + u.cache_creation_input_tokens <= u32::MAX,
    ensures
        0 <= cost(p, u) <= 4 * 1_000_000 * u32::MAX,
        0 <= savings(p, u) <= 1_000_000 * u32::MAX,
{
    let r = u.cache_read_input_tokens as int;
    let c = u.cache_creation_input_tokens as int;
    let rest = crate::api::uncached(u);
    let o = u.output_tokens as int;
    let m = u32::MAX as int;
    assert(0 <= r * p.cache_hit <= m * 1_000_000) by (nonlinear_arith)
        requires
            0 <= r <= m,
            0 <= p.cache_hit <= 1_000_000,
    ;
    assert(0 <= r * (p.input - p.cache_hit) <= m * 1_000_000) by (nonlinear_arith)
        requires
            0 <= r <= m,
            0 <= p.input - p.cache_hit <= 1_000_000,
    ;
    assert(0 <= c * p.input <= m * 1_000_000) by (nonlinear_arith)
        requires
            0 <= c <= m,
            0 <= p.input <= 1_000_000,
    ;
    assert(0 <= rest * p.input <= m * 1_000_000) by (nonlinear_arith)
        requires
            0 <= rest <= m,
            0 <= p.input <= 1_000_000,
    ;
    assert(0 <= o * p.output <= m * 1_000_000) by (nonlinear_arith)
        requires
            0 <= o <= m,
            0 <= p.output <= 1_000_000,
    ;
}

/// What the cost of a call is made of: without a cache, each input token at the price
/// of input and each output token at that of output; each token more from the cache
/// makes a call cheaper by the difference, and that is what is saved.
pub proof fn costs_add_up(p: Pricing, u: Usage)
    requires
        u.cache_read_input_tokens + u.cache_creation_input_tokens <= u.input_tokens,
    ensures
        ({
            let plain = Usage { cache_read_input_tokens: 0, cache_creation_input_tokens: 0, ..u };
            &&& cost(p, plain) == u.input_tokens * p.input + u.output_tokens * p.output
            &&& cost(p, plain) - cost(p, u) == u.cache_read_input_tokens * p.input
                - u.cache_read_input_tokens * p.cache_hit
            &&& savings(p, u) == cost(p, plain) - cost(p, u)
            &&& savings(p, plain) == 0
        }),
{
    let r = u.cache_read_input_tokens as int;
    let c = u.cache_creation_input_tokens as int;
    let n = u.input_tokens as int;
    assert(r * p.input + c * p.input + (n - (r + c)) * p.input == n * p.input) by (nonlinear_arith);
    assert(r * (p.input - p.cache_hit) == r * p.input - r * p.cache_hit) by (nonlinear_arith);
    assert(0 * p.input == 0 && 0 * p.cache_hit == 0 && 0 * (p.input - p.cache_hit) == 0)
        by (nonlinear_arith);
}

/// The flash model is the cheaper one, and the cache is always cheaper than input.
pub proof fn prices_by_model(model: Text)
    ensures
        occurs(model, "flash"@) ==> prices_of(model) == (Pricing {
            input: 140_000,
            output: 280_000,
            cache_hit: 2_800,
        }),
        !occurs(model, "flash"@) ==> prices_of(model) == (Pricing {
            input: 435_000,
            output: 870_000,
            cache_hit: 3_625,
        }),
{
}

/// A goal pays for each call that is made while it stands: with all tokens, read from
/// the cache or not, and with the time; an active goal without anything left of its
/// budget is limited, and only then. What it aims at stays.
pub proof fn goals_pay(s: StateView, r: ResponseView, elapsed: u64, now: i64)
    requires
        s.goal is Some,
    ensures
        ({
            let g = s.goal->Some_0;
            let h = counted(s, r, elapsed, now).goal->Some_0;
            let u = r.usage;
            let sum = g.tokens_used + u.input_tokens + u.output_tokens + u.cache_read_input_tokens;
            &&& counted(s, r, elapsed, now).goal is Some
            &&& sum <= u64::MAX ==> h.tokens_used == sum
            &&& sum > u64::MAX ==> h.tokens_used == u64::MAX
            &&& g.time_used_seconds + elapsed <= u64::MAX ==> h.time_used_seconds
                == g.time_used_seconds + elapsed
            &&& g.time_used_seconds + elapsed > u64::MAX ==> h.time_used_seconds == u64::MAX
            &&& h.updated_at == now
            &&& h.status is BudgetLimited <==> g.status is BudgetLimited || (g.status is Active
                && g.token_budget is Some && h.tokens_used >= g.token_budget->Some_0)
            &&& !(h.status is BudgetLimited) ==> h.status == g.status
            &&& h.id == g.id && h.objective == g.objective && h.plan == g.plan
            &&& h.token_budget == g.token_budget && h.created_at == g.created_at
            &&& h.consecutive_blocked_turns == g.consecutive_blocked_turns
        }),
{
}

/// A turn begins with the message behind the history. A message of the user starts the
/// count of automatic turns anew, wakes a paused goal and forgets what blocked it; all
/// else of the state and of the goal stays.
pub proof fn turns_begin(s: StateView, message: Text, internal: bool, now: i64)
    ensures
        ({
            let t = turn_begun(s, message, internal, now);
            let n = s.messages.len() as int;
            &&& t.messages.len() == n + 1
            &&& t.messages.take(n) == s.messages
            &&& t.messages[n].role is User
            &&& t.messages[n].content == ContentView::Text(message)
            &&& t.messages[n].timestamp == now
            &&& t.messages[n].internal == internal
            &&& t.auto_turns_used == (if internal {
                s.auto_turns_used
            } else {
                0
            })
            &&& t.goal is Some <==> s.goal is Some
            &&& s.goal matches Some(g) ==> (t.goal matches Some(h) ==> {
                &&& h.status is Active <==> g.status is Active || g.status is Paused
                &&& !(h.status is Active) ==> h.status == g.status
                &&& h.consecutive_blocked_turns == (if g.status is Blocked {
                    0
                } else {
                    g.consecutive_blocked_turns
                })
                &&& h.id == g.id && h.objective == g.objective && h.plan == g.plan
                &&& h.token_budget == g.token_budget && h.tokens_used == g.tokens_used
                &&& h.time_used_seconds == g.time_used_seconds && h.created_at == g.created_at
                &&& h.updated_at == g.updated_at
            })
            &&& t == StateView {
                messages: t.messages,
                auto_turns_used: t.auto_turns_used,
                goal: t.goal,
                ..s
            }
        }),
{
    let t = turn_begun(s, message, internal, now);
    assert(t.messages.take(s.messages.len() as int) =~= s.messages);
}

proof fn lemma_outcome(outcomes: Seq<(Text, Text)>, id: Text, j: int)
    requires
        0 <= j < outcomes.len(),
        outcomes[j].0 == id,
        forall|k: int| j < k < outcomes.len() ==> #[trigger] outcomes[k].0 != id,
    ensures
        outcome_of(outcomes, id) == Some(outcomes[j].1),
    decreases outcomes.len(),
{
    if j < outcomes.len() - 1 {
        lemma_outcome(outcomes.drop_last(), id, j);
    }
}

proof fn lemma_no_outcome(outcomes: Seq<(Text, Text)>, id: Text)
    requires
        forall|k: int| 0 <= k < outcomes.len() ==> #[trigger] outcomes[k].0 != id,
    ensures
        outcome_of(outcomes, id) is None,
    decreases outcomes.len(),
{
    if outcomes.len() > 0 {
        lemma_no_outcome(outcomes.drop_last(), id);
    }
}

/// Each call is answered in its place, under its own id, with the text of its own
/// outcome, or with a note where it came to nothing.
pub proof fn outcomes_are_handed_back(
    cs: Seq<ToolCallView>,
    outcomes: Seq<(Text, Text)>,
    now: i64,
    i: int,
    j: int,
)
    requires
        0 <= i < cs.len(),
    ensures
        ({
            let m = results_message(cs, outcomes, now);
            let b = blocks_of(m)[i];
            &&& m.role is User
            &&& m.timestamp == now
            &&& m.content is Blocks
            &&& blocks_of(m).len() == cs.len()
            &&& b is ToolResult
            &&& b->ToolResult_tool_use_id == cs[i].id
            &&& 0 <= j < outcomes.len() && outcomes[j].0 == cs[i].id && (forall|k: int|
                j < k < outcomes.len() ==> #[trigger] outcomes[k].0 != cs[i].id)
                ==> b->ToolResult_content == outcomes[j].1
            &&& (forall|k: int| 0 <= k < outcomes.len() ==> #[trigger] outcomes[k].0 != cs[i].id)
                ==> b->ToolResult_content == "Tool execution panicked (internal error)."@
        }),
{
    if 0 <= j < outcomes.len() && outcomes[j].0 == cs[i].id && (forall|k: int|
        j < k < outcomes.len() ==> #[trigger] outcomes[k].0 != cs[i].id) {
        lemma_outcome(outcomes, cs[i].id, j);
    }
    if forall|k: int| 0 <= k < outcomes.len() ==> #[trigger] outcomes[k].0 != cs[i].id {
        lemma_no_outcome(outcomes, cs[i].id);
    }
}

/// What the model reads of a result ends with what the tool wrote; only where the tool
/// succeeded and the time layer is on does anything stand before it, and the time of
/// the turn is in that.
pub proof fn results_are_read_whole(
    name: Text,
    success: bool,
    content: Text,
    time_harness: bool,
    turn_now: Text,
)
    ensures
        ({
            let t = final_content(name, success, content, time_harness, turn_now);
            &&& t.len() >= content.len()
            &&& t.skip(t.len() - content.len()) == content
            &&& !(success && time_harness) ==> t == content
            &&& success && time_harness ==> occurs(t, "[data_time="@ + turn_now + " "@)
        }),
{
    let t = final_content(name, success, content, time_harness, turn_now);
    if success && time_harness {
        assert(t.skip(t.len() - content.len()) =~= content);
        let x = "[data_time="@ + turn_now + " "@;
        reveal_strlit(" ");
        reveal_strlit(" age=0min freshness=just_fetched horizon=");
        assert(" age=0min freshness=just_fetched horizon="@[0] == ' ');
        assert(t.subrange(0, x.len() as int) =~= x);
        assert(crate::text::occurs_at(t, x, 0));
    } else {
        assert(t.skip(0) =~= t);
    }
}

/// What is reported of a tool: exactly one end under its own id and name, an error with
/// its text where it failed; the tasks follow where the task list was written.
pub proof fn tools_are_reported(id: Text, name: Text, args: JsonView, success: bool, content: Text)
    ensures
        ({
            let e = result_events(id, name, args, success, content);
            &&& e.len() >= 1
            &&& !success ==> e.len() == 1 && e[0] == (EventView::ToolError {
                id,
                name,
                error: content,
            })
            &&& success ==> e[0] is ToolDone && e[0]->ToolDone_id == id && e[0]->ToolDone_name
                == name
            &&& e.len() == 2 <==> success && name == "todo_write"@ && text_at(args, "tasks_json"@) is Some
            &&& e.len() == 2 ==> e[1] is TaskList && text_at(args, "tasks_json"@) == Some(
                e[1]->TaskList_tasks_json,
            )
            &&& e.len() <= 2
        }),
{
}

/// What a turn comes to is the last answer with the numbers of the session.
pub proof fn turns_end(s: StateView, r: ResponseView)
    ensures
        ({
            let t = turn_result(s, r);
            &&& t.message == r.content
            &&& t.thinking_content == r.thinking_content
            &&& t.finish_reason == r.finish_reason
            &&& t.tool_calls is None
            &&& t.total_cost == s.total_cost
            &&& t.context_usage == s.context_engine.token_usage
            &&& t.token_usage.input == s.total_input_tokens
            &&& t.token_usage.output == s.total_output_tokens
            &&& t.token_usage.cached == s.total_cached_tokens
            &&& t.token_usage.cache_savings == s.total_cache_savings
            &&& t.token_usage.thinking_tokens == s.total_thinking_tokens
        }),
{
}

/// What is shown of an answer: its reasoning and its text, once each, unless they were
/// streamed already; and a search on the web with what was asked.
pub proof fn answers_are_shown(
    s: StateView,
    p: ProgressView,
    r: ResponseView,
    streamed: bool,
    elapsed: u64,
    now: i64,
    search_id: Text,
    clock: Text,
)
    ensures
        ({
            let a = absorbed(s, p, r, streamed, elapsed, now, search_id, clock);
            let e = a.events;
            &&& !streamed && !(a.step is Retry) && r.content.len() > 0 ==> e.len() > 0 && e.last()
                == (EventView::Text { content: r.content })
            &&& !streamed ==> (r.thinking_content matches Some(t) ==> t.len() > 0 ==> e.len() > 0
                && e[0] == (EventView::Thinking { text: t }))
            &&& streamed || r.content.len() == 0 || a.step is Retry ==> forall|i: int|
                0 <= i < e.len() ==> !(#[trigger] e[i] is Text)
            &&& !(a.step is Retry) && (streamed || r.thinking_content is None) ==> forall|i: int|
                0 <= i < e.len() ==> !(#[trigger] e[i] is Thinking)
            &&& r.web_search_used <==> exists|i: int| 0 <= i < e.len() && #[trigger] e[i] is ToolStart
            &&& forall|i: int|
                0 <= i < e.len() && #[trigger] e[i] is ToolStart ==> e[i]->ToolStart_id == search_id
                    && e[i]->ToolStart_name == "web_search"@ && i + 1 < e.len() && e[i + 1] is ToolDone
                    && e[i + 1]->ToolDone_id == search_id && e[i + 1]->ToolDone_name
                    == "web_search"@ && e[i + 1]->ToolDone_summary == "Searching: "@
                    + e[i]->ToolStart_args
            &&& forall|i: int, q: Text|
                #![trigger e[i], text_at(json_parse(r.server_tool_uses[0].arguments)->Ok_0, q)]
                0 <= i < e.len() && e[i] is ToolStart && q == "query"@ && r.server_tool_uses.len() > 0
                    && json_parse(r.server_tool_uses[0].arguments) is Ok ==> (
                text_at(json_parse(r.server_tool_uses[0].arguments)->Ok_0, q) matches Some(x)
                    ==> e[i]->ToolStart_args == x)
        }),
{
    let a = absorbed(s, p, r, streamed, elapsed, now, search_id, clock);
    let e = a.events;
    let o = crate::turn::opening_events(r, streamed, search_id);
    let k: int = if !streamed && r.thinking_content is Some && r.thinking_content->Some_0.len() > 0 {
        1
    } else {
        0
    };
    if r.web_search_used {
        assert(o[k] is ToolStart);
        assert(e[k] == o[k]);
        assert(e[k + 1] == o[k + 1]);
    }
}

/// Pieces of an answer are gathered in order, text with text and reasoning with
/// reasoning; what was gathered is shown, each at most once, reasoning first.
pub proof fn pieces_are_gathered(p: PumpView, t: Text)
    ensures
        ({
            let a = pumped(p, crate::stream::DeltaView::TextDelta { text: t });
            let b = pumped(p, crate::stream::DeltaView::ThinkingDelta { text: t });
            &&& a.streamed && a.text == p.text + t && a.thinking == p.thinking
            &&& b.streamed && b.text == p.text && b.thinking == p.thinking + t
        }),
        ({
            let e = pump_events(p);
            &&& p.text.len() > 0 ==> e.len() > 0 && e.last() == (EventView::Text { content: p.text })
            &&& p.thinking.len() > 0 ==> e.len() > 0 && e[0] == (EventView::Thinking {
                text: p.thinking,
            })
            &&& e.len() == (if p.text.len() > 0 {
                1int
            } else {
                0
            }) + (if p.thinking.len() > 0 {
                1int
            } else {
                0
            })
        }),
{
}

} // verus!
