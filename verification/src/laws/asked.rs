//! What a request asks of the model, and what is sent of the history.

use crate::api::{
    backoff, described_tool, described_tools, reason_or_end, request_for, retry_decision,
    stream_outcome, web_search_tool, RetryView, SendOutcome, ThinkingMode,
};
use crate::json::{field, text_at, JsonView};
use crate::message::{BlockView, ContentView, MessageView};
use crate::stream::StreamView;
use crate::text::{ends, Text};
use crate::wire::{
    answered, asked, is_result, is_use, keeps_pair, keeps_search, sanitized, searched,
    searches_repaired,
};
use vstd::prelude::*;

verus! {

/// A request says what it was asked to: the model, the system prompt, whether to stream,
/// and the budget of the mode; it says nothing of reasoning where there is to be none.
pub proof fn requests_ask_for(
    system: Text,
    messages: Seq<MessageView>,
    tools: Option<Seq<JsonView>>,
    mode: ThinkingMode,
    model: Text,
    stream: bool,
)
    ensures
        ({
            let r = request_for(system, messages, tools, mode, model, stream);
            &&& r.model == model
            &&& r.system == system
            &&& r.stream == Some(true) <==> stream
            &&& r.stream is None <==> !stream
            &&& r.thinking is None <==> mode is NonThink
            &&& mode matches ThinkingMode::ThinkHigh { budget_tokens } ==> (
            r.thinking matches Some(t) && t.thinking_type == "enabled"@ && t.budget_tokens == Some(
                budget_tokens,
            )) && r.max_tokens == 65_536
            &&& mode matches ThinkingMode::ThinkMax { budget_tokens } ==> (
            r.thinking matches Some(t) && t.thinking_type == "enabled"@ && t.budget_tokens == Some(
                budget_tokens,
            )) && r.max_tokens == 196_608
            &&& mode is NonThink ==> r.max_tokens == 8_192
            &&& r.messages.len() == messages.len()
            &&& r.tools matches Some(ts) && ts.len() > 0 && ts.last().name == "web_search"@
                && ts.last().tool_type is Some
        }),
{
}

/// A definition describes a tool exactly where it has a function with a name, what it
/// does and a schema; the tool has all three.
pub proof fn definitions_describe(v: JsonView)
    ensures
        ({
            let f = field(v, "function"@)->Some_0;
            let good = field(v, "function"@) is Some && text_at(f, "name"@) is Some && text_at(
                f,
                "description"@,
            ) is Some && field(f, "parameters"@) is Some;
            &&& described_tool(v) is Some <==> good
            &&& described_tool(v) matches Some(t) ==> Some(t.name) == text_at(f, "name"@)
                && t.description == text_at(f, "description"@) && t.input_schema == field(
                f,
                "parameters"@,
            ) && t.tool_type is None && t.max_uses is None
        }),
{
}

/// Every complete definition is offered to the model, in order, and the server's search
/// behind them; nothing else is.
pub proof fn tools_are_offered(
    system: Text,
    messages: Seq<MessageView>,
    defs: Seq<JsonView>,
    mode: ThinkingMode,
    model: Text,
    stream: bool,
    d: JsonView,
)
    ensures
        ({
            let r = request_for(system, messages, Some(defs), mode, model, stream).tools;
            let more = request_for(system, messages, Some(defs.push(d)), mode, model, stream).tools;
            let none = request_for(system, messages, None, mode, model, stream).tools;
            &&& r is Some && more is Some && none is Some
            &&& none->Some_0.len() == 1
            &&& defs.len() == 0 ==> r->Some_0.len() == 1
            &&& described_tool(d) matches Some(t) ==> more->Some_0.drop_last()
                == r->Some_0.drop_last().push(t)
            &&& described_tool(d) is None ==> more == r
            &&& more->Some_0.last() == r->Some_0.last()
        }),
{
    assert(defs.push(d).drop_last() =~= defs);
    let a = described_tools(defs);
    let b = described_tools(defs.push(d));
    assert(a.push(web_search_tool()).drop_last() =~= a);
    assert(b.push(web_search_tool()).drop_last() =~= b);
}

/// Whether the search `id` has its result among the blocks.
pub open spec fn has_finding(bs: Seq<BlockView>, id: Text) -> bool {
    id.len() > 0 && exists|k: int|
        0 <= k < bs.len() && (#[trigger] bs[k] matches BlockView::WebSearchResult {
            tool_use_id,
            ..
        } && tool_use_id == id)
}

/// Whether the very next message is of the user and answers the call `id`.
pub open spec fn has_answer(ms: Seq<MessageView>, i: int, id: Text) -> bool {
    i + 1 < ms.len() && ms[i + 1].role is User && (ms[i + 1].content matches ContentView::Blocks(bs)
        && exists|k: int|
        0 <= k < bs.len() && (#[trigger] bs[k] matches BlockView::ToolResult { tool_use_id, .. }
            && tool_use_id == id))
}

/// Whether the message right before is of the assistant and makes the call `id`.
pub open spec fn has_call(ms: Seq<MessageView>, i: int, id: Text) -> bool {
    i > 0 && ms[i - 1].role is Assistant && (ms[i - 1].content matches ContentView::Blocks(bs)
        && exists|k: int|
        0 <= k < bs.len() && (#[trigger] bs[k] matches BlockView::ToolUse { id: own, .. } && own
            == id))
}

proof fn lemma_partners(ms: Seq<MessageView>, i: int, bs: Seq<BlockView>, id: Text)
    requires
        0 <= i < ms.len(),
    ensures
        has_finding(bs, id) == searched(bs, id),
        has_answer(ms, i, id) == answered(ms, i, id),
        has_call(ms, i, id) == asked(ms, i, id),
{
    if has_finding(bs, id) {
        let k = choose|k: int|
            0 <= k < bs.len() && (#[trigger] bs[k] matches BlockView::WebSearchResult {
                tool_use_id,
                ..
            } && tool_use_id == id);
        assert(crate::wire::is_search_result(bs[k], id));
    }
    if searched(bs, id) {
        let k = choose|k: int|
            0 <= k < bs.len() && crate::wire::is_search_result(#[trigger] bs[k], id);
        assert(bs[k] is WebSearchResult);
    }
    if has_answer(ms, i, id) {
        let cs = ms[i + 1].content->Blocks_0;
        let k = choose|k: int|
            0 <= k < cs.len() && (#[trigger] cs[k] matches BlockView::ToolResult {
                tool_use_id,
                ..
            } && tool_use_id == id);
        assert(is_result(cs[k], id));
    }
    if answered(ms, i, id) {
        let cs = ms[i + 1].content->Blocks_0;
        let k = choose|k: int| 0 <= k < cs.len() && is_result(#[trigger] cs[k], id);
        assert(cs[k] is ToolResult);
    }
    if has_call(ms, i, id) {
        let cs = ms[i - 1].content->Blocks_0;
        let k = choose|k: int|
            0 <= k < cs.len() && (#[trigger] cs[k] matches BlockView::ToolUse { id: own, .. } && own
                == id);
        assert(is_use(cs[k], id));
    }
    if asked(ms, i, id) {
        let cs = ms[i - 1].content->Blocks_0;
        let k = choose|k: int| 0 <= k < cs.len() && is_use(#[trigger] cs[k], id);
        assert(cs[k] is ToolUse);
    }
}

proof fn lemma_kept<A>(s: Seq<A>, p: spec_fn(A) -> bool, x: A)
    requires
        s.contains(x),
        p(x),
    ensures
        s.filter(p).contains(x),
    decreases s.len(),
{
    broadcast use vstd::seq_lib::group_filter_ensures;

    let i = choose|i: int| 0 <= i < s.len() && s[i] == x;
    assert(p(s[i]));
}

/// Nothing that was said is left out of what is sent: texts and reasoning stay, calls
/// stay that are answered right behind them and answers that were asked for right
/// before them, and searches stay with their results.
pub proof fn what_was_said_is_sent(ms: Seq<MessageView>, i: int, b: BlockView)
    requires
        0 <= i < ms.len(),
        ms[i].content is Blocks,
        ms[i].content->Blocks_0.contains(b),
    ensures
        ({
            let bs = ms[i].content->Blocks_0;
            let c = sanitized(ms)[i].content;
            &&& sanitized(ms).len() == ms.len()
            &&& c is Blocks
            &&& b is Text || b is Thinking || b is RedactedThinking || b is Unknown
                ==> c->Blocks_0.contains(b)
            &&& b matches BlockView::WebSearchResult { tool_use_id, .. } ==> tool_use_id.len() > 0
                ==> c->Blocks_0.contains(b)
            &&& b matches BlockView::ServerToolUse { id, .. } ==> has_finding(bs, id)
                ==> c->Blocks_0.contains(b)
            &&& b matches BlockView::ToolUse { id, .. } ==> ms[i].role is Assistant && has_answer(
                ms,
                i,
                id,
            ) ==> c->Blocks_0.contains(b)
            &&& b matches BlockView::ToolResult { tool_use_id, .. } ==> ms[i].role is User && has_call(
                ms,
                i,
                tool_use_id,
            ) ==> c->Blocks_0.contains(b)
        }),
{
    let bs = ms[i].content->Blocks_0;
    match b {
        BlockView::ServerToolUse { id, .. } => lemma_partners(ms, i, bs, id),
        BlockView::ToolUse { id, .. } => lemma_partners(ms, i, bs, id),
        BlockView::ToolResult { tool_use_id, .. } => lemma_partners(ms, i, bs, tool_use_id),
        _ => {},
    }
    let s = searches_repaired(ms);
    let mid = bs.filter(keeps_search(bs));
    assert(s[i].content == ContentView::Blocks(mid));
    if keeps_search(bs)(b) {
        lemma_kept(bs, keeps_search(bs), b);
        if let BlockView::ToolUse { id, .. } = b {
            if ms[i].role is Assistant && answered(ms, i, id) {
                lemma_still_answered(ms, i, id);
            }
        }
        if let BlockView::ToolResult { tool_use_id, .. } = b {
            if ms[i].role is User && asked(ms, i, tool_use_id) {
                lemma_still_asked(ms, i, tool_use_id);
            }
        }
        if keeps_pair(s, i)(b) {
            lemma_kept(mid, keeps_pair(s, i), b);
            let kept = mid.filter(keeps_pair(s, i));
            assert(kept.len() > 0);
            assert(sanitized(ms)[i].content == ContentView::Blocks(kept));
        }
    }
}

/// What lacks its partner is not sent: a call without an answer, an answer without a
/// call, and a search without its result.
pub proof fn what_lacks_its_partner_is_left_out(ms: Seq<MessageView>, i: int, b: BlockView)
    requires
        0 <= i < ms.len(),
        sanitized(ms)[i].content is Blocks,
        sanitized(ms)[i].content->Blocks_0.contains(b),
    ensures
        b matches BlockView::ToolUse { id, .. } ==> ms[i].role is Assistant ==> has_answer(ms, i, id),
        b matches BlockView::ToolResult { tool_use_id, .. } ==> ms[i].role is User ==> has_call(
            ms,
            i,
            tool_use_id,
        ),
        b matches BlockView::WebSearchResult { tool_use_id, .. } ==> tool_use_id.len() > 0,
        b matches BlockView::ServerToolUse { id, .. } ==> has_finding(ms[i].content->Blocks_0, id),
{
    broadcast use vstd::seq_lib::group_filter_ensures;

    let s = searches_repaired(ms);
    let bs = ms[i].content->Blocks_0;
    what_is_sent_was_said(ms, i, b);
    let mid = bs.filter(keeps_search(bs));
    assert(s[i].content == ContentView::Blocks(mid));
    let kept = mid.filter(keeps_pair(s, i));
    if kept.contains(b) {
        mid.lemma_filter_contains_rev(keeps_pair(s, i), b);
        let k = choose|k: int| 0 <= k < kept.len() && kept[k] == b;
        assert(keeps_pair(s, i)(kept[k]));
        let j = choose|j: int| 0 <= j < mid.len() && mid[j] == b;
        assert(keeps_search(bs)(mid[j]));
        match b {
            BlockView::ToolUse { id, .. } => {
                if ms[i].role is Assistant {
                    lemma_was_answered(ms, i, id);
                    lemma_partners(ms, i, bs, id);
                }
            },
            BlockView::ToolResult { tool_use_id, .. } => {
                if ms[i].role is User {
                    lemma_was_asked(ms, i, tool_use_id);
                    lemma_partners(ms, i, bs, tool_use_id);
                }
            },
            BlockView::ServerToolUse { id, .. } => {
                lemma_partners(ms, i, bs, id);
            },
            _ => {},
        }
    }
}

/// A message that would hold nothing says what was left out: a user's always, an
/// assistant's where it held something.
pub proof fn what_is_left_out_is_told(ms: Seq<MessageView>, i: int)
    requires
        0 <= i < ms.len(),
        ms[i].content is Blocks,
    ensures
        ({
            let bs = sanitized(ms)[i].content->Blocks_0;
            let said = ms[i].content->Blocks_0;
            &&& sanitized(ms)[i].content is Blocks
            &&& ms[i].role is User ==> bs.len() > 0
            &&& ms[i].role is User && said.len() == 0 ==> bs == seq![
                BlockView::Text {
                    text: "[tool result omitted: no matching tool use in history]"@,
                },
            ]
            &&& ms[i].role is Assistant && said.len() == 0 ==> bs.len() == 0
            &&& (forall|k: int|
                0 <= k < said.len() ==> (#[trigger] said[k] matches BlockView::ToolUse { id, .. }
                    && !has_answer(ms, i, id))) && said.len() > 0 && ms[i].role is Assistant ==> bs
                == seq![BlockView::Text { text: "[tool call omitted: result unavailable in history]"@ }]
            &&& (forall|k: int|
                0 <= k < said.len() ==> (#[trigger] said[k] matches BlockView::ToolResult {
                    tool_use_id,
                    ..
                } && !has_call(ms, i, tool_use_id))) && ms[i].role is User ==> bs == seq![
                BlockView::Text { text: "[tool result omitted: no matching tool use in history]"@ },
            ]
        }),
{
    broadcast use vstd::seq_lib::group_filter_ensures;

    let s = searches_repaired(ms);
    let said = ms[i].content->Blocks_0;
    let mid = said.filter(keeps_search(said));
    assert(s[i].content == ContentView::Blocks(mid));
    let kept = mid.filter(keeps_pair(s, i));
    if said.len() > 0 && mid.len() == 0 && (forall|k: int|
        0 <= k < said.len() ==> #[trigger] said[k] is ToolUse) {
        assert(said.contains(said[0]));
        lemma_kept(said, keeps_search(said), said[0]);
    }
    if kept.len() > 0 {
        let b = kept[0];
        assert(kept.contains(b));
        assert(keeps_pair(s, i)(kept[0]));
        mid.lemma_filter_contains_rev(keeps_pair(s, i), b);
        said.lemma_filter_contains_rev(keeps_search(said), b);
        let k = choose|k: int| 0 <= k < said.len() && said[k] == b;
        match said[k] {
            BlockView::ToolUse { id, .. } => {
                if ms[i].role is Assistant {
                    lemma_was_answered(ms, i, id);
                    lemma_partners(ms, i, said, id);
                }
            },
            BlockView::ToolResult { tool_use_id, .. } => {
                if ms[i].role is User {
                    lemma_was_asked(ms, i, tool_use_id);
                    lemma_partners(ms, i, said, tool_use_id);
                }
            },
            _ => {},
        }
    }
}

proof fn lemma_was_answered(ms: Seq<MessageView>, i: int, id: Text)
    requires
        0 <= i < ms.len(),
        answered(searches_repaired(ms), i, id),
    ensures
        answered(ms, i, id),
{
    let bs = ms[i + 1].content->Blocks_0;
    let f = bs.filter(keeps_search(bs));
    assert(searches_repaired(ms)[i + 1].content == crate::wire::search_repaired(
        ms[i + 1].content,
    ));
    let k = choose|k: int| 0 <= k < f.len() && is_result(#[trigger] f[k], id);
    bs.lemma_filter_contains_rev(keeps_search(bs), f[k]);
    let j = choose|j: int| 0 <= j < bs.len() && bs[j] == f[k];
    assert(is_result(bs[j], id));
}

proof fn lemma_was_asked(ms: Seq<MessageView>, i: int, id: Text)
    requires
        0 <= i < ms.len(),
        asked(searches_repaired(ms), i, id),
    ensures
        asked(ms, i, id),
{
    let bs = ms[i - 1].content->Blocks_0;
    let f = bs.filter(keeps_search(bs));
    assert(searches_repaired(ms)[i - 1].content == crate::wire::search_repaired(
        ms[i - 1].content,
    ));
    let k = choose|k: int| 0 <= k < f.len() && is_use(#[trigger] f[k], id);
    bs.lemma_filter_contains_rev(keeps_search(bs), f[k]);
    let j = choose|j: int| 0 <= j < bs.len() && bs[j] == f[k];
    assert(is_use(bs[j], id));
}

proof fn lemma_still_answered(ms: Seq<MessageView>, i: int, id: Text)
    requires
        0 <= i < ms.len(),
        answered(ms, i, id),
    ensures
        answered(searches_repaired(ms), i, id),
{
    let bs = ms[i + 1].content->Blocks_0;
    let k = choose|k: int| 0 <= k < bs.len() && is_result(#[trigger] bs[k], id);
    let f = bs.filter(keeps_search(bs));
    assert(bs.contains(bs[k]));
    lemma_kept(bs, keeps_search(bs), bs[k]);
    let j = choose|j: int| 0 <= j < f.len() && f[j] == bs[k];
    assert(is_result(f[j], id));
    assert(searches_repaired(ms)[i + 1].content == ContentView::Blocks(f));
}

proof fn lemma_still_asked(ms: Seq<MessageView>, i: int, id: Text)
    requires
        0 <= i < ms.len(),
        asked(ms, i, id),
    ensures
        asked(searches_repaired(ms), i, id),
{
    let bs = ms[i - 1].content->Blocks_0;
    let k = choose|k: int| 0 <= k < bs.len() && is_use(#[trigger] bs[k], id);
    let f = bs.filter(keeps_search(bs));
    assert(bs.contains(bs[k]));
    lemma_kept(bs, keeps_search(bs), bs[k]);
    let j = choose|j: int| 0 <= j < f.len() && f[j] == bs[k];
    assert(is_use(f[j], id));
    assert(searches_repaired(ms)[i - 1].content == ContentView::Blocks(f));
}

/// Whatever is sent was said, or stands in for what was left out.
pub proof fn what_is_sent_was_said(ms: Seq<MessageView>, i: int, b: BlockView)
    requires
        0 <= i < ms.len(),
        sanitized(ms)[i].content is Blocks,
        sanitized(ms)[i].content->Blocks_0.contains(b),
    ensures
        ms[i].content is Blocks,
        ms[i].content->Blocks_0.contains(b) || (b is Text && sanitized(
            ms,
        )[i].content->Blocks_0.len() == 1),
{
    let s = searches_repaired(ms);
    let bs = ms[i].content->Blocks_0;
    let mid = bs.filter(keeps_search(bs));
    assert(s[i].content == ContentView::Blocks(mid));
    let kept = mid.filter(keeps_pair(s, i));
    if kept.contains(b) {
        mid.lemma_filter_contains_rev(keeps_pair(s, i), b);
        bs.lemma_filter_contains_rev(keeps_search(bs), b);
    }
}

/// A request is sent again exactly where no answer came, or one that may go away by
/// itself, and fewer than three attempts were made; the pause doubles each time. What is
/// given up with says what went wrong.
pub proof fn requests_are_retried(attempt: u32, o: SendOutcome)
    requires
        1 <= attempt,
    ensures
        ({
            let d = retry_decision(attempt, o);
            let passing = match o {
                SendOutcome::Replied { status, .. } => status == 429 || 500 <= status < 600,
                SendOutcome::Failed { .. } => true,
            };
            &&& d is Deliver <==> (o matches SendOutcome::Replied { status, .. } && 200 <= status
                < 300)
            &&& d is WaitAndRetry <==> passing && attempt < 3
            &&& o matches SendOutcome::Replied { body, reply, .. } ==> (
            d matches RetryView::GiveUp { error } ==> ends(error, reply@ + ": "@ + body@))
            &&& o matches SendOutcome::Failed { error: e } ==> (
            d matches RetryView::GiveUp { error } ==> ends(error, e@))
            &&& d matches RetryView::WaitAndRetry { millis } ==> (attempt == 1 ==> millis == 500)
                && (attempt == 2 ==> millis == 1000)
        }),
        backoff((attempt + 1) as u32) == 2 * backoff(attempt) || attempt == u32::MAX,
{
    reveal_with_fuel(backoff, 3);
    match o {
        SendOutcome::Replied { body, reply, .. } => {
            let e = "API error "@ + reply@ + ": "@ + body@;
            let w = reply@ + ": "@ + body@;
            assert(e.subrange(e.len() - w.len(), e.len() as int) =~= w);
        },
        SendOutcome::Failed { error } => {
            let e = "API request failed: "@ + error@;
            assert(e.subrange(e.len() - error@.len(), e.len() as int) =~= error@);
        },
    }
}

/// A stream that reported an error comes to that error; any other to the response of
/// its blocks, with what was counted and why it ended.
pub proof fn streams_end(s: StreamView, fresh: Seq<Text>)
    ensures
        ({
            let o = stream_outcome(s, fresh);
            &&& s.error matches Some(e) ==> o == Err::<crate::api::ResponseView, Text>(e)
            &&& s.error is None ==> (o matches Ok(r) && r.usage == s.usage && (s.stop_reason.len()
                > 0 ==> r.finish_reason == s.stop_reason) && (s.stop_reason.len() == 0
                ==> r.finish_reason == "end_turn"@) && r == crate::api::response_of(
                s.blocks,
                s.usage,
                r.finish_reason,
                fresh,
            ))
        }),
        reason_or_end(None) == "end_turn"@,
        forall|t: Text| #[trigger] reason_or_end(Some(t)) == t,
{
    crate::laws::reply::lemma_frame(
        s.blocks,
        s.usage,
        if s.stop_reason.len() == 0 {
            "end_turn"@
        } else {
            s.stop_reason
        },
        fresh,
    );
}

} // verus!
