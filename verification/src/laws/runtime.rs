//! What is said to the runtime, and what is heard of it.

use crate::events::EventView;
use crate::harness::{
    frame_in, initialize_json, prompt_json, request_json, session_of, FrameView, InitializeParams,
};
use crate::harness_backend::{
    after_frame, blocks_joined, filled, frame_shows, rpc_error, shortened, strings_joined,
    HarnessTurnView,
};
use crate::json::{field, json_parse, json_text, nat_at, text_at, JsonView};
use crate::laws::streams::put_together;
use crate::text::{begins, decimal, ends, Text};
use vstd::prelude::*;

verus! {

/// A request says its number, what it asks for and with what.
pub proof fn requests_say(id: u64, method: Text, params: JsonView)
    ensures
        ({
            let r = request_json(id, method, params);
            &&& text_at(r, "jsonrpc"@) == Some("2.0"@)
            &&& nat_at(r, "id"@) == Some(id)
            &&& text_at(r, "method"@) == Some(method)
            &&& field(r, "params"@) == Some(params)
        }),
{
    reveal_strlit("jsonrpc");
    reveal_strlit("id");
    reveal_strlit("method");
    reveal_strlit("params");
    assert("method"@[0] == 'm' && "params"@[0] == 'p');
    assert("jsonrpc"@.len() == 7 && "id"@.len() == 2 && "method"@.len() == 6 && "params"@.len()
        == 6);
}

/// What the runtime is told at the start: where it works, with which model of whom, and
/// how much it may answer where that is set.
pub proof fn starts_say(p: InitializeParams)
    ensures
        ({
            let r = initialize_json(p);
            &&& text_at(r, "cwd"@) == Some(p.cwd@)
            &&& text_at(r, "provider"@) == Some(p.provider@)
            &&& text_at(r, "model"@) == Some(p.model@)
            &&& p.max_tokens matches Some(n) ==> nat_at(r, "maxTokens"@) == Some(n as u64)
            &&& p.max_tokens is None ==> field(r, "maxTokens"@) is None
        }),
{
    reveal_strlit("cwd");
    reveal_strlit("provider");
    reveal_strlit("model");
    reveal_strlit("maxTokens");
    assert("cwd"@.len() == 3 && "provider"@.len() == 8 && "model"@.len() == 5
        && "maxTokens"@.len() == 9);
}

/// A message of the user names its session and holds its blocks.
pub proof fn prompts_say(session: Text, blocks: Seq<JsonView>)
    ensures
        text_at(prompt_json(session, blocks), "sessionId"@) == Some(session),
        field(prompt_json(session, blocks), "contentBlocks"@) == Some(JsonView::Array(blocks)),
{
    reveal_strlit("sessionId");
    reveal_strlit("contentBlocks");
    assert("sessionId"@.len() != "contentBlocks"@.len());
}

/// A line is a frame exactly where it is JSON of the protocol: an answer to a number
/// with a result or an error, or a notification with a method. A frame holds what the
/// line says.
pub proof fn frames_are_heard(line: Text, v: JsonView)
    requires
        json_parse(line) == Ok::<JsonView, Text>(v),
    ensures
        ({
            let ours = text_at(v, "jsonrpc"@) == Some("2.0"@);
            let id = nat_at(v, "id"@);
            &&& ours && id is Some && (field(v, "result"@) is Some || field(v, "error"@) is Some)
                ==> (frame_in(line) matches Some(FrameView::Response { id: n, result, error }) && id
                == Some(n) && error == field(v, "error"@) && (field(v, "result"@) matches Some(r)
                ==> result == r))
            &&& ours && id is None && text_at(v, "method"@) is Some ==> (
            frame_in(line) matches Some(FrameView::Notification { method, params }) && Some(method)
                == text_at(v, "method"@) && (field(v, "params"@) matches Some(p) ==> params == p))
            &&& frame_in(line) is Some ==> ours && (id is Some || text_at(v, "method"@) is Some)
        }),
{
}

/// A notification is about the session that it names, a subagent's about its own.
pub proof fn notifications_are_about(params: JsonView, method: Text)
    ensures
        ({
            let s = session_of(FrameView::Notification { method, params });
            &&& method == "session.event"@ || method == "session.status"@ ==> s == text_at(
                params,
                "sessionId"@,
            )
            &&& method == "subagent.started"@ || method == "subagent.finished"@ ==> s == text_at(
                params,
                "childSessionId"@,
            )
        }),
{
    reveal_strlit("session.event");
    reveal_strlit("session.status");
    reveal_strlit("subagent.started");
    reveal_strlit("subagent.finished");
    assert("session.event"@.len() == 13 && "session.status"@.len() == 14
        && "subagent.started"@.len() == 16 && "subagent.finished"@.len() == 17);
}

/// Whether a frame brings an event to the own session.
pub open spec fn brings_event(s: HarnessTurnView, f: FrameView, kind: Text, data: JsonView) -> bool {
    f matches FrameView::Notification { method, params } && method == "session.event"@ && text_at(
        params,
        "sessionId"@,
    ) == Some(s.session_id) && (field(params, "event"@) matches Some(e) && text_at(e, "type"@)
        == Some(kind) && field(e, "data"@) == Some(data))
}

/// Whether the data of an event holds a piece of the assistant's message.
pub open spec fn is_chunk(data: JsonView, kind: Text, text: Text) -> bool {
    field(data, "chunk"@) matches Some(c) && text_at(c, "type"@) == Some(kind) && text_at(
        c,
        "text"@,
    ) == Some(text)
}

proof fn lemma_kinds()
    ensures
        "turn/start"@.len() == 10,
        "turn/end"@.len() == 8,
        "assistant/chunk"@.len() == 15,
        "assistant/message"@.len() == 17,
        "tool/call"@.len() == 9,
        "tool/result"@.len() == 11,
        "text-chunks"@.len() == 11,
        "tool/result"@[1] == 'o',
        "text-chunks"@[1] == 'e',
        "reasoning-chunks"@.len() == 16,
        "text-delta"@.len() == 10,
        "reasoning-delta"@.len() == 15,
        "block-end"@.len() == 9,
        "user/message"@.len() == 12,
        "session/title"@.len() == 13,
        "time-context"@.len() == 12,
        "assistant/chunk"@[0] == 'a',
        "reasoning-delta"@[0] == 'r',
        "session.event"@.len() == 13,
        "subagent.started"@.len() == 16,
        "subagent.finished"@.len() == 17,
{
    reveal_strlit("turn/start");
    reveal_strlit("turn/end");
    reveal_strlit("assistant/chunk");
    reveal_strlit("assistant/message");
    reveal_strlit("tool/call");
    reveal_strlit("tool/result");
    reveal_strlit("text-chunks");
    reveal_strlit("reasoning-chunks");
    reveal_strlit("text-delta");
    reveal_strlit("reasoning-delta");
    reveal_strlit("block-end");
    reveal_strlit("user/message");
    reveal_strlit("session/title");
    reveal_strlit("time-context");
    reveal_strlit("session.event");
    reveal_strlit("subagent.started");
    reveal_strlit("subagent.finished");
}

/// A piece of the answer is added to the answer and shown; a piece of the reasoning is
/// added to the reasoning and shown; neither meddles with the other.
pub proof fn pieces_are_heard(s: HarnessTurnView, f: FrameView, data: JsonView, text: Text)
    requires
        brings_event(s, f, "assistant/chunk"@, data),
    ensures
        is_chunk(data, "text-delta"@, text) ==> ({
            let t = after_frame(s, f);
            &&& t.final_text == s.final_text + text
            &&& t.thinking_content == s.thinking_content
            &&& t.done == s.done
            &&& frame_shows(s, f) == seq![EventView::Text { content: text }]
        }),
        is_chunk(data, "reasoning-delta"@, text) ==> ({
            let t = after_frame(s, f);
            &&& t.thinking_content == s.thinking_content + text
            &&& t.final_text == s.final_text
            &&& t.done == s.done
            &&& frame_shows(s, f) == seq![EventView::Thinking { text }]
        }),
{
    lemma_kinds();
    if is_chunk(data, "text-delta"@, text) {
        assert(frame_shows(s, f) =~= seq![EventView::Text { content: text }]);
    }
    if is_chunk(data, "reasoning-delta"@, text) {
        assert(frame_shows(s, f) =~= seq![EventView::Thinking { text }]);
    }
}

proof fn lemma_strings(items: Seq<JsonView>, texts: Seq<Text>)
    requires
        items.len() == texts.len(),
        forall|i: int| 0 <= i < items.len() ==> #[trigger] items[i] == JsonView::Str(texts[i]),
    ensures
        strings_joined(items) == put_together(texts),
    decreases items.len(),
{
    if items.len() > 0 {
        assert(items[items.len() - 1] == JsonView::Str(texts[texts.len() - 1]));
        assert forall|i: int| 0 <= i < items.drop_last().len() implies #[trigger]
            items.drop_last()[i] == JsonView::Str(texts.drop_last()[i]) by {
            assert(items[i] == JsonView::Str(texts[i]));
        }
        lemma_strings(items.drop_last(), texts.drop_last());
    }
}

/// Pieces that come as a list are all added, in order.
pub proof fn lists_of_pieces_are_heard(
    s: HarnessTurnView,
    f: FrameView,
    data: JsonView,
    items: Seq<JsonView>,
    texts: Seq<Text>,
)
    requires
        field(data, "texts"@) == Some(JsonView::Array(items)),
        items.len() == texts.len(),
        forall|i: int| 0 <= i < items.len() ==> #[trigger] items[i] == JsonView::Str(texts[i]),
    ensures
        brings_event(s, f, "text-chunks"@, data) ==> after_frame(s, f).final_text == s.final_text
            + put_together(texts) && after_frame(s, f).thinking_content == s.thinking_content && (
        put_together(texts).len() > 0 ==> frame_shows(s, f) == seq![
            EventView::Text { content: put_together(texts) },
        ]),
        brings_event(s, f, "reasoning-chunks"@, data) ==> after_frame(s, f).thinking_content
            == s.thinking_content + put_together(texts) && after_frame(s, f).final_text
            == s.final_text && (put_together(texts).len() > 0 ==> frame_shows(s, f) == seq![
            EventView::Thinking { text: put_together(texts) },
        ]),
{
    lemma_kinds();
    lemma_strings(items, texts);
    if put_together(texts).len() == 0 {
        assert(s.final_text + put_together(texts) =~= s.final_text);
        assert(s.thinking_content + put_together(texts) =~= s.thinking_content);
        assert(s.final_text + Seq::<char>::empty() =~= s.final_text);
        assert(s.thinking_content + Seq::<char>::empty() =~= s.thinking_content);
    }
    if brings_event(s, f, "text-chunks"@, data) && put_together(texts).len() > 0 {
        assert(frame_shows(s, f) =~= seq![EventView::Text { content: put_together(texts) }]);
    }
    if brings_event(s, f, "reasoning-chunks"@, data) && put_together(texts).len() > 0 {
        assert(frame_shows(s, f) =~= seq![EventView::Thinking { text: put_together(texts) }]);
    }
}

proof fn lemma_filled(items: Seq<JsonView>, kind: Text, have: Text, i: int)
    requires
        0 <= i < items.len(),
        text_at(items[i], "type"@) == Some(kind),
        text_at(items[i], "text"@) is Some,
        text_at(items[i], "text"@)->Some_0.len() > 0,
        have.len() == 0,
        forall|k: int|
            0 <= k < i ==> text_at(#[trigger] items[k], "type"@) != Some(kind) || text_at(
                items[k],
                "text"@,
            ) is None || text_at(items[k], "text"@)->Some_0.len() == 0,
    ensures
        filled(items, kind, have) == text_at(items[i], "text"@)->Some_0,
    decreases items.len(),
{
    let t = items.drop_last();
    if i < t.len() {
        assert(t[i] == items[i]);
        assert forall|k: int| 0 <= k < i implies text_at(#[trigger] t[k], "type"@) != Some(kind)
            || text_at(t[k], "text"@) is None || text_at(t[k], "text"@)->Some_0.len() == 0 by {
            assert(t[k] == items[k]);
        }
        lemma_filled(t, kind, have, i);
    } else {
        assert forall|k: int| 0 <= k < t.len() implies text_at(#[trigger] t[k], "type"@) != Some(
            kind,
        ) || text_at(t[k], "text"@) is None || text_at(t[k], "text"@)->Some_0.len() == 0 by {
            assert(t[k] == items[k]);
        }
        lemma_unfilled(t, kind, have);
    }
}

proof fn lemma_unfilled(items: Seq<JsonView>, kind: Text, have: Text)
    requires
        have.len() == 0,
        forall|k: int|
            0 <= k < items.len() ==> text_at(#[trigger] items[k], "type"@) != Some(kind) || text_at(
                items[k],
                "text"@,
            ) is None || text_at(items[k], "text"@)->Some_0.len() == 0,
    ensures
        filled(items, kind, have).len() == 0,
    decreases items.len(),
{
    if items.len() > 0 {
        let t = items.drop_last();
        assert forall|k: int| 0 <= k < t.len() implies text_at(#[trigger] t[k], "type"@) != Some(
            kind,
        ) || text_at(t[k], "text"@) is None || text_at(t[k], "text"@)->Some_0.len() == 0 by {
            assert(t[k] == items[k]);
        }
        lemma_unfilled(t, kind, have);
        assert(items[items.len() - 1] == items.last());
    }
}

proof fn lemma_full(items: Seq<JsonView>, kind: Text, have: Text)
    requires
        have.len() > 0,
    ensures
        filled(items, kind, have) == have,
    decreases items.len(),
{
    if items.len() > 0 {
        lemma_full(items.drop_last(), kind, have);
    }
}

/// A whole message is the answer where no piece came before it, and changes nothing
/// where one did.
pub proof fn whole_messages_are_heard(
    s: HarnessTurnView,
    f: FrameView,
    data: JsonView,
    items: Seq<JsonView>,
    i: int,
)
    requires
        brings_event(s, f, "assistant/message"@, data),
        field(data, "message"@) is Some,
        field(field(data, "message"@)->Some_0, "content"@) == Some(JsonView::Array(items)),
    ensures
        s.final_text.len() > 0 ==> after_frame(s, f).final_text == s.final_text,
        s.thinking_content.len() > 0 ==> after_frame(s, f).thinking_content == s.thinking_content,
        0 <= i < items.len() && s.final_text.len() == 0 && text_at(items[i], "type"@) == Some(
            "text"@,
        ) && text_at(items[i], "text"@) is Some && text_at(items[i], "text"@)->Some_0.len() > 0 && (
        forall|k: int|
            0 <= k < i ==> text_at(#[trigger] items[k], "type"@) != Some("text"@)) ==> after_frame(
            s,
            f,
        ).final_text == text_at(items[i], "text"@)->Some_0,
        0 <= i < items.len() && s.thinking_content.len() == 0 && text_at(items[i], "type"@) == Some(
            "reasoning"@,
        ) && text_at(items[i], "text"@) is Some && text_at(items[i], "text"@)->Some_0.len() > 0 && (
        forall|k: int|
            0 <= k < i ==> text_at(#[trigger] items[k], "type"@) != Some("reasoning"@))
            ==> after_frame(s, f).thinking_content == text_at(items[i], "text"@)->Some_0,
{
    lemma_kinds();
    if s.final_text.len() > 0 {
        lemma_full(items, "text"@, s.final_text);
    } else if 0 <= i < items.len() && text_at(items[i], "type"@) == Some("text"@) && text_at(
        items[i],
        "text"@,
    ) is Some && text_at(items[i], "text"@)->Some_0.len() > 0 && (forall|k: int|
        0 <= k < i ==> text_at(#[trigger] items[k], "type"@) != Some("text"@)) {
        lemma_filled(items, "text"@, s.final_text, i);
    }
    if s.thinking_content.len() > 0 {
        lemma_full(items, "reasoning"@, s.thinking_content);
    } else if 0 <= i < items.len() && text_at(items[i], "type"@) == Some("reasoning"@) && text_at(
        items[i],
        "text"@,
    ) is Some && text_at(items[i], "text"@)->Some_0.len() > 0 && (forall|k: int|
        0 <= k < i ==> text_at(#[trigger] items[k], "type"@) != Some("reasoning"@)) {
        lemma_filled(items, "reasoning"@, s.thinking_content, i);
    }
}

/// A call is shown under its id with its name and its arguments, and its name is
/// remembered for its result.
pub proof fn calls_are_heard(
    s: HarnessTurnView,
    f: FrameView,
    data: JsonView,
    id: Text,
    name: Text,
    args: Text,
)
    requires
        brings_event(s, f, "tool/call"@, data),
        text_at(data, "callId"@) == Some(id),
        text_at(data, "name"@) == Some(name),
        text_at(data, "arguments"@) == Some(args),
    ensures
        frame_shows(s, f).len() > 0,
        frame_shows(s, f).last() == (EventView::ToolStart { id, name, args }),
        after_frame(s, f).names.contains_key(id),
        after_frame(s, f).names[id] == name,
        forall|k: Text| #[trigger]
            s.names.contains_key(k) && k != id ==> after_frame(s, f).names.contains_key(k)
                && after_frame(s, f).names[k] == s.names[k],
        after_frame(s, f).final_text == s.final_text,
{
    lemma_kinds();
}

proof fn lemma_blocks(items: Seq<JsonView>, texts: Seq<Text>)
    requires
        items.len() == texts.len(),
        forall|i: int|
            0 <= i < items.len() ==> text_at(#[trigger] items[i], "type"@) == Some("text"@)
                && text_at(items[i], "text"@) == Some(texts[i]),
    ensures
        blocks_joined(items) == put_together(texts),
    decreases items.len(),
{
    if items.len() > 0 {
        let t = items.drop_last();
        assert(text_at(items[items.len() - 1], "text"@) == Some(texts[texts.len() - 1]));
        assert forall|i: int| 0 <= i < t.len() implies text_at(#[trigger] t[i], "type"@) == Some(
            "text"@,
        ) && text_at(t[i], "text"@) == Some(texts.drop_last()[i]) by {
            assert(t[i] == items[i]);
        }
        lemma_blocks(t, texts.drop_last());
    }
}

/// A result is shown under the id of its call and the name that the call had, with the
/// text of all its blocks; an error as an error.
pub proof fn results_are_heard(
    s: HarnessTurnView,
    f: FrameView,
    data: JsonView,
    content: Seq<JsonView>,
    items: Seq<JsonView>,
    texts: Seq<Text>,
    id: Text,
)
    requires
        brings_event(s, f, "tool/result"@, data),
        field(data, "message"@) is Some,
        field(field(data, "message"@)->Some_0, "content"@) == Some(JsonView::Array(content)),
        content.len() > 0,
        text_at(content[0], "toolCallId"@) == Some(id),
        field(content[0], "content"@) == Some(JsonView::Array(items)),
        items.len() == texts.len(),
        forall|i: int|
            0 <= i < items.len() ==> text_at(#[trigger] items[i], "type"@) == Some("text"@)
                && text_at(items[i], "text"@) == Some(texts[i]),
        s.names.contains_key(id),
    ensures
        frame_shows(s, f).len() > 0,
        field(content[0], "isError"@) == Some(JsonView::Bool(true)) ==> frame_shows(s, f).last()
            == (EventView::ToolError { id, name: s.names[id], error: put_together(texts) }),
        field(content[0], "isError"@) != Some(JsonView::Bool(true)) ==> frame_shows(s, f).last()
            == (EventView::ToolDone { id, name: s.names[id], summary: put_together(texts) }),
{
    lemma_kinds();
    lemma_blocks(items, texts);
}

/// A turn is over when the runtime says so, and only then, for the reason that it
/// gives.
pub proof fn ends_are_heard(s: HarnessTurnView, f: FrameView, kind: Text, data: JsonView)
    requires
        brings_event(s, f, kind, data),
    ensures
        after_frame(s, f).done <==> s.done || kind == "turn/end"@,
        kind == "turn/end"@ && field(data, "reason"@) is Some ==> (text_at(
            field(data, "reason"@)->Some_0,
            "kind"@,
        ) matches Some(r) ==> after_frame(s, f).finish_reason == r),
        kind != "turn/end"@ ==> after_frame(s, f).finish_reason == s.finish_reason,
        after_frame(s, f).session_id == s.session_id,
        after_frame(s, f).effort == s.effort,
{
}

/// The tokens that a piece reports are added, each kind to its own count.
pub proof fn tokens_are_heard(s: HarnessTurnView, f: FrameView, data: JsonView, u: JsonView)
    requires
        brings_event(s, f, "assistant/chunk"@, data),
        field(data, "chunk"@) is Some,
        field(field(data, "chunk"@)->Some_0, "usage"@) == Some(u),
        crate::harness_backend::frame_fits(s, f),
    ensures
        ({
            let t = after_frame(s, f).usage;
            &&& nat_at(u, "inputTokens"@) matches Some(n) ==> t.input == s.usage.input + n
            &&& nat_at(u, "outputTokens"@) matches Some(n) ==> t.output == s.usage.output + n
            &&& nat_at(u, "cacheReadTokens"@) matches Some(n) ==> t.cached == s.usage.cached + n
            &&& nat_at(u, "reasoningTokens"@) matches Some(n) ==> t.thinking_tokens
                == s.usage.thinking_tokens + n
            &&& nat_at(u, "inputTokens"@) is None ==> t.input == s.usage.input
            &&& nat_at(u, "outputTokens"@) is None ==> t.output == s.usage.output
        }),
{
}

/// A subagent is shown when it starts and when it is finished, each time with whose it
/// is; at the end with how it ended and what it said last.
pub proof fn subagents_are_heard(
    s: HarnessTurnView,
    params: JsonView,
    parent: Text,
    child: Text,
    status: Text,
    items: Seq<JsonView>,
    texts: Seq<Text>,
)
    requires
        text_at(params, "parentSessionId"@) == Some(parent),
        text_at(params, "childSessionId"@) == Some(child),
    ensures
        ({
            let f = FrameView::Notification { method: "subagent.started"@, params };
            &&& frame_shows(s, f) == seq![
                EventView::SubagentStarted { parent_session_id: parent, child_session_id: child },
            ]
            &&& after_frame(s, f) == s
        }),
        text_at(params, "status"@) == Some(status) && field(params, "lastAssistantMessage"@) == Some(
            JsonView::Array(items),
        ) && items.len() == texts.len() && (forall|i: int|
            0 <= i < items.len() ==> text_at(#[trigger] items[i], "type"@) == Some("text"@)
                && text_at(items[i], "text"@) == Some(texts[i])) ==> ({
            let f = FrameView::Notification { method: "subagent.finished"@, params };
            &&& frame_shows(s, f) == seq![
                EventView::SubagentFinished {
                    parent_session_id: parent,
                    child_session_id: child,
                    status,
                    summary: put_together(texts),
                },
            ]
            &&& after_frame(s, f) == s
        }),
{
    lemma_kinds();
    if items.len() == texts.len() && (forall|i: int|
        0 <= i < items.len() ==> text_at(#[trigger] items[i], "type"@) == Some("text"@) && text_at(
            items[i],
            "text"@,
        ) == Some(texts[i])) {
        lemma_blocks(items, texts);
    }
}

/// A request that failed ends the turn with its number and what went wrong; nothing else
/// does.
pub proof fn failures_are_heard(f: FrameView)
    ensures
        rpc_error(f) is Some <==> (f matches FrameView::Response { error, .. } && error is Some),
        f matches FrameView::Response { id, error: Some(e), .. } ==> (rpc_error(f) matches Some(t)
            && ends(t, "id="@ + decimal(id as nat) + ": "@ + json_text(e))),
{
    if let FrameView::Response { id, error: Some(e), .. } = f {
        let t = rpc_error(f)->Some_0;
        let a = "harness rpc error id="@;
        reveal_strlit("harness rpc error id=");
        reveal_strlit("id=");
        assert(a.skip(a.len() - 3) =~= "id="@);
        let w = "id="@ + decimal(id as nat) + ": "@ + json_text(e);
        assert(t.subrange(t.len() - w.len(), t.len() as int) =~= w);
    }
}

/// The trajectory tells of each event what it is about: a message by its words, a call
/// by its name and its arguments, a title by its words, anything else by its kind.
pub proof fn trajectories_tell(e: JsonView, data: JsonView, t: Text, u: Text)
    requires
        field(e, "data"@) == Some(data),
    ensures
        text_at(e, "type"@) == Some("tool/call"@) && text_at(data, "name"@) == Some(t) && text_at(
            data,
            "arguments"@,
        ) == Some(u) && u.len() <= 100 ==> crate::harness_backend::trajectory_text(e) == t + " "@
            + u,
        text_at(e, "type"@) == Some("session/title"@) && text_at(data, "title"@) == Some(t) ==> ends(
            crate::harness_backend::trajectory_text(e),
            t,
        ),
        text_at(e, "type"@) == Some("turn/start"@) ==> crate::harness_backend::trajectory_text(e)
            == "turn/start"@,
        text_at(e, "type"@) == Some("turn/end"@) ==> crate::harness_backend::trajectory_text(e)
            == "turn/end"@,
{
    lemma_kinds();
    let x = crate::harness_backend::trajectory_text(e);
    if text_at(e, "type"@) == Some("session/title"@) && text_at(data, "title"@) == Some(t) {
        assert(x.subrange(x.len() - t.len(), x.len() as int) =~= t);
    }
}

/// A message in the trajectory begins with its own words, without the white around them.
pub proof fn trajectories_quote(
    e: JsonView,
    data: JsonView,
    items: Seq<JsonView>,
    texts: Seq<Text>,
)
    requires
        text_at(e, "type"@) == Some("user/message"@),
        field(e, "data"@) == Some(data),
        field(data, "content"@) == Some(JsonView::Array(items)),
        items.len() == texts.len(),
        forall|i: int|
            0 <= i < items.len() ==> text_at(#[trigger] items[i], "type"@) == Some("text"@)
                && text_at(items[i], "text"@) == Some(texts[i]),
    ensures
        ({
            let said = crate::text::trimmed(put_together(texts));
            let x = crate::harness_backend::trajectory_text(e);
            &&& said.len() <= 140 ==> x == said
            &&& said.len() > 140 ==> begins(x, said.take(140))
        }),
{
    lemma_kinds();
    lemma_blocks(items, texts);
    shortening_keeps_the_beginning(crate::text::trimmed(put_together(texts)), 140);
}

/// What is shortened keeps its beginning, and all of it where it is short.
pub proof fn shortening_keeps_the_beginning(t: Text, n: int)
    requires
        n >= 0,
    ensures
        t.len() <= n ==> shortened(t, n) == t,
        t.len() > n ==> begins(shortened(t, n), t.take(n)) && shortened(t, n).len() == n + 1,
{
    reveal_strlit("…");
    if t.len() > n {
        assert(shortened(t, n).subrange(0, n) =~= t.take(n));
    }
}

} // verus!
