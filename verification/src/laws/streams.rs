//! A reply that arrives in pieces is put together as it was sent.

use crate::json::{field, json_parse, nat_at, text_at, JsonView};
use crate::laws::turns::is_said_by;
use crate::message::BlockView;
use crate::stream::{
    drained, event_applied, event_index, grown_part, handed_on_by, line_applied, line_handed_on,
    lossy_text, next_feed, part_place, stepped, DeltaView, PartView, StreamView,
};
use crate::text::{is_blank, trimmed, Text};
use vstd::prelude::*;

verus! {

/// The state after some events in turn.
pub open spec fn after_all(s: StreamView, vs: Seq<JsonView>, fresh: Text) -> StreamView
    decreases vs.len(),
{
    if vs.len() == 0 {
        s
    } else {
        stepped(after_all(s, vs.drop_last(), fresh), vs.last(), fresh)
    }
}

/// Whether an event is of this type and speaks of the block under this index.
pub open spec fn is_event(v: JsonView, kind: Text, index: usize) -> bool {
    text_at(v, "type"@) == Some(kind) && nat_at(v, "index"@) == Some(index as u64)
}

/// Whether an event brings a piece of a kind, under a key.
pub open spec fn brings(v: JsonView, index: usize, kind: Text, key: Text, piece: Text) -> bool {
    is_event(v, "content_block_delta"@, index) && (field(v, "delta"@) matches Some(d) && text_at(
        d,
        "type"@,
    ) == Some(kind) && text_at(d, key) == Some(piece))
}

/// Some pieces put together.
pub open spec fn put_together(pieces: Seq<Text>) -> Text
    decreases pieces.len(),
{
    if pieces.len() == 0 {
        Seq::empty()
    } else {
        put_together(pieces.drop_last()) + pieces.last()
    }
}

/// Whether no block arrives under an index.
pub open spec fn is_free(s: StreamView, index: usize) -> bool {
    forall|i: int| 0 <= i < s.active.len() ==> (#[trigger] s.active[i]).0 != index
}

proof fn lemma_types()
    ensures
        "message_start"@.len() == 13,
        "content_block_start"@.len() == 19,
        "content_block_delta"@.len() == 19,
        "content_block_stop"@.len() == 18,
        "message_delta"@.len() == 13,
        "error"@.len() == 5,
        "content_block_start"@[14] == 's',
        "content_block_delta"@[14] == 'd',
        "message_start"@[8] == 's',
        "message_delta"@[8] == 'd',
{
    reveal_strlit("message_start");
    reveal_strlit("content_block_start");
    reveal_strlit("content_block_delta");
    reveal_strlit("content_block_stop");
    reveal_strlit("message_delta");
    reveal_strlit("error");
}

proof fn lemma_kinds()
    ensures
        "text"@.len() == 4,
        "thinking"@.len() == 8,
        "tool_use"@.len() == 8,
        "thinking"@[1] == 'h',
        "tool_use"@[1] == 'o',
        "server_tool_use"@.len() == 15,
        "web_search_tool_result"@.len() == 22,
{
    reveal_strlit("text");
    reveal_strlit("thinking");
    reveal_strlit("tool_use");
    reveal_strlit("server_tool_use");
    reveal_strlit("web_search_tool_result");
}

proof fn lemma_at_end(a: Seq<(usize, PartView)>, index: usize, p: PartView, from: int)
    requires
        0 <= from <= a.len(),
        forall|i: int| 0 <= i < a.len() ==> (#[trigger] a[i]).0 != index,
    ensures
        part_place(a.push((index, p)), index, from) == a.len(),
    decreases a.len() - from,
{
    if from < a.len() {
        assert(a.push((index, p))[from] == a[from]);
        lemma_at_end(a, index, p, from + 1);
    }
}

/// The state with one more block that arrives.
spec fn arriving(s: StreamView, index: usize, p: PartView) -> StreamView {
    StreamView { active: s.active.push((index, p)), ..s }
}

proof fn lemma_grows(s: StreamView, index: usize, p: PartView, v: JsonView, fresh: Text)
    requires
        is_free(s, index),
        is_event(v, "content_block_delta"@, index),
        field(v, "delta"@) is Some,
    ensures
        stepped(arriving(s, index, p), v, fresh) == arriving(
            s,
            index,
            grown_part(p, field(v, "delta"@)->Some_0),
        ),
{
    lemma_types();
    lemma_at_end(s.active, index, p, 0);
    let q = grown_part(p, field(v, "delta"@)->Some_0);
    let a = s.active.push((index, p));
    assert(event_index(v) == index);
    assert(a.update(s.active.len() as int, (index, q)) =~= s.active.push((index, q)));
}

proof fn lemma_stops(s: StreamView, index: usize, p: PartView, v: JsonView, fresh: Text)
    requires
        is_free(s, index),
        is_event(v, "content_block_stop"@, index),
    ensures
        stepped(arriving(s, index, p), v, fresh) == (StreamView {
            blocks: s.blocks.push(crate::stream::finished_block(p, fresh)),
            ..s
        }),
{
    lemma_types();
    lemma_at_end(s.active, index, p, 0);
    let a = s.active.push((index, p));
    assert(event_index(v) == index);
    assert(a.remove(s.active.len() as int) =~= s.active);
}

proof fn lemma_tool_grows(
    s: StreamView,
    index: usize,
    server: bool,
    id: Text,
    name: Text,
    deltas: Seq<JsonView>,
    pieces: Seq<Text>,
    fresh: Text,
)
    requires
        is_free(s, index),
        deltas.len() == pieces.len(),
        forall|i: int|
            0 <= i < deltas.len() ==> brings(
                #[trigger] deltas[i],
                index,
                "input_json_delta"@,
                "partial_json"@,
                pieces[i],
            ),
    ensures
        ({
            let none: Text = Seq::empty();
            let p = |t: Text|
                if server {
                    PartView::ServerToolUse { id, name, json_buf: t }
                } else {
                    PartView::ToolUse { id, name, json_buf: t }
                };
            after_all(arriving(s, index, p(none)), deltas, fresh) == arriving(
                s,
                index,
                p(put_together(pieces)),
            )
        }),
    decreases deltas.len(),
{
    if deltas.len() > 0 {
        let n = deltas.len() - 1;
        let before = pieces.drop_last();
        lemma_tool_grows(s, index, server, id, name, deltas.drop_last(), before, fresh);
        let buf = put_together(before);
        let q = if server {
            PartView::ServerToolUse { id, name, json_buf: buf }
        } else {
            PartView::ToolUse { id, name, json_buf: buf }
        };
        assert(brings(
            deltas[n],
            index,
            "input_json_delta"@,
            "partial_json"@,
            pieces[n],
        ));
        lemma_grows(s, index, q, deltas.last(), fresh);
    }
}

/// The events of one block, between them its start and its end.
pub open spec fn block_events(start: JsonView, deltas: Seq<JsonView>, stop: JsonView) -> Seq<JsonView> {
    (seq![start] + deltas).push(stop)
}

proof fn lemma_all(s: StreamView, start: JsonView, deltas: Seq<JsonView>, stop: JsonView, fresh: Text)
    ensures
        after_all(s, block_events(start, deltas, stop), fresh) == stepped(
            after_all(stepped(s, start, fresh), deltas, fresh),
            stop,
            fresh,
        ),
{
    let vs = block_events(start, deltas, stop);
    assert(vs.drop_last() =~= seq![start] + deltas);
    lemma_first(s, start, deltas, fresh);
}

proof fn lemma_first(s: StreamView, start: JsonView, deltas: Seq<JsonView>, fresh: Text)
    ensures
        after_all(s, seq![start] + deltas, fresh) == after_all(
            stepped(s, start, fresh),
            deltas,
            fresh,
        ),
    decreases deltas.len(),
{
    let vs = seq![start] + deltas;
    if deltas.len() > 0 {
        lemma_first(s, start, deltas.drop_last(), fresh);
        assert(vs.drop_last() =~= seq![start] + deltas.drop_last());
    } else {
        reveal_with_fuel(after_all, 2);
        assert(vs =~= seq![start]);
        assert(vs.drop_last() =~= Seq::<JsonView>::empty());
    }
}

/// A call that arrives in pieces is the call that was sent: under its id and its name,
/// with the input that its pieces, put together, are the text of. Nothing else of the
/// reply changes meanwhile.
pub proof fn calls_arrive(
    s: StreamView,
    index: usize,
    start: JsonView,
    deltas: Seq<JsonView>,
    pieces: Seq<Text>,
    stop: JsonView,
    id: Text,
    name: Text,
    fresh: Text,
)
    requires
        is_free(s, index),
        is_event(start, "content_block_start"@, index),
        field(start, "content_block"@) is Some,
        text_at(field(start, "content_block"@)->Some_0, "type"@) == Some("tool_use"@),
        text_at(field(start, "content_block"@)->Some_0, "id"@) == Some(id),
        text_at(field(start, "content_block"@)->Some_0, "name"@) == Some(name),
        deltas.len() == pieces.len(),
        forall|i: int|
            0 <= i < deltas.len() ==> brings(
                #[trigger] deltas[i],
                index,
                "input_json_delta"@,
                "partial_json"@,
                pieces[i],
            ),
        is_event(stop, "content_block_stop"@, index),
    ensures
        ({
            let t = after_all(s, block_events(start, deltas, stop), fresh);
            &&& t.blocks.len() == s.blocks.len() + 1
            &&& t.blocks.drop_last() == s.blocks
            &&& t.blocks.last() matches BlockView::ToolUse { id: own, name: called, input }
                && called == name && (!is_blank(id) ==> own == id) && (is_blank(id) ==> own == fresh)
                && is_said_by(input, put_together(pieces))
            &&& t.active == s.active && t.usage == s.usage && t.stop_reason == s.stop_reason
                && t.error == s.error
        }),
{
    lemma_types();
    lemma_kinds();
    let p = PartView::ToolUse { id, name, json_buf: Seq::empty() };
    assert(event_index(start) == index);
    assert(stepped(s, start, fresh) == arriving(s, index, p));
    lemma_tool_grows(s, index, false, id, name, deltas, pieces, fresh);
    lemma_all(s, start, deltas, stop, fresh);
    let q = PartView::ToolUse { id, name, json_buf: put_together(pieces) };
    lemma_stops(s, index, q, stop, fresh);
    let t = after_all(s, block_events(start, deltas, stop), fresh);
    assert(t.blocks.drop_last() =~= s.blocks);
}

/// A search of the server that arrives in pieces is the one that was sent.
pub proof fn searches_arrive(
    s: StreamView,
    index: usize,
    start: JsonView,
    deltas: Seq<JsonView>,
    pieces: Seq<Text>,
    stop: JsonView,
    id: Text,
    name: Text,
    fresh: Text,
)
    requires
        is_free(s, index),
        is_event(start, "content_block_start"@, index),
        field(start, "content_block"@) is Some,
        text_at(field(start, "content_block"@)->Some_0, "type"@) == Some("server_tool_use"@),
        text_at(field(start, "content_block"@)->Some_0, "id"@) == Some(id),
        text_at(field(start, "content_block"@)->Some_0, "name"@) == Some(name),
        deltas.len() == pieces.len(),
        forall|i: int|
            0 <= i < deltas.len() ==> brings(
                #[trigger] deltas[i],
                index,
                "input_json_delta"@,
                "partial_json"@,
                pieces[i],
            ),
        is_event(stop, "content_block_stop"@, index),
    ensures
        ({
            let t = after_all(s, block_events(start, deltas, stop), fresh);
            &&& t.blocks.len() == s.blocks.len() + 1
            &&& t.blocks.drop_last() == s.blocks
            &&& t.blocks.last() matches BlockView::ServerToolUse { id: own, name: called, input }
                && called == name && (!is_blank(id) ==> own == id) && is_said_by(
                input,
                put_together(pieces),
            )
            &&& t.active == s.active && t.usage == s.usage
        }),
{
    lemma_types();
    lemma_kinds();
    let p = PartView::ServerToolUse { id, name, json_buf: Seq::empty() };
    assert(event_index(start) == index);
    assert(stepped(s, start, fresh) == arriving(s, index, p));
    lemma_tool_grows(s, index, true, id, name, deltas, pieces, fresh);
    lemma_all(s, start, deltas, stop, fresh);
    let q = PartView::ServerToolUse { id, name, json_buf: put_together(pieces) };
    lemma_stops(s, index, q, stop, fresh);
    let t = after_all(s, block_events(start, deltas, stop), fresh);
    assert(t.blocks.drop_last() =~= s.blocks);
}

proof fn lemma_text_grows(
    s: StreamView,
    index: usize,
    deltas: Seq<JsonView>,
    pieces: Seq<Text>,
    fresh: Text,
)
    requires
        is_free(s, index),
        deltas.len() == pieces.len(),
        forall|i: int|
            0 <= i < deltas.len() ==> brings(
                #[trigger] deltas[i],
                index,
                "text_delta"@,
                "text"@,
                pieces[i],
            ),
    ensures
        after_all(arriving(s, index, PartView::Text { text: Seq::empty() }), deltas, fresh)
            == arriving(s, index, PartView::Text { text: put_together(pieces) }),
    decreases deltas.len(),
{
    if deltas.len() > 0 {
        let n = deltas.len() - 1;
        let before = pieces.drop_last();
        lemma_text_grows(s, index, deltas.drop_last(), before, fresh);
        assert(brings(deltas[n], index, "text_delta"@, "text"@, pieces[n]));
        lemma_grows(
            s,
            index,
            PartView::Text { text: put_together(before) },
            deltas.last(),
            fresh,
        );
    }
}

/// A text that arrives in pieces is the pieces put together.
pub proof fn texts_arrive(
    s: StreamView,
    index: usize,
    start: JsonView,
    deltas: Seq<JsonView>,
    pieces: Seq<Text>,
    stop: JsonView,
    fresh: Text,
)
    requires
        is_free(s, index),
        is_event(start, "content_block_start"@, index),
        field(start, "content_block"@) is Some,
        text_at(field(start, "content_block"@)->Some_0, "type"@) == Some("text"@),
        deltas.len() == pieces.len(),
        forall|i: int|
            0 <= i < deltas.len() ==> brings(
                #[trigger] deltas[i],
                index,
                "text_delta"@,
                "text"@,
                pieces[i],
            ),
        is_event(stop, "content_block_stop"@, index),
    ensures
        ({
            let t = after_all(s, block_events(start, deltas, stop), fresh);
            &&& t.blocks == s.blocks.push(BlockView::Text { text: put_together(pieces) })
            &&& t.active == s.active && t.usage == s.usage && t.error == s.error
        }),
{
    lemma_types();
    lemma_kinds();
    assert(event_index(start) == index);
    assert(stepped(s, start, fresh) == arriving(s, index, PartView::Text { text: Seq::empty() }));
    lemma_text_grows(s, index, deltas, pieces, fresh);
    lemma_all(s, start, deltas, stop, fresh);
    lemma_stops(s, index, PartView::Text { text: put_together(pieces) }, stop, fresh);
}

/// A piece of text or reasoning is handed on at once, as it is; nothing else is.
pub proof fn pieces_are_handed_on(s: StreamView, index: usize, v: JsonView, piece: Text, other: Text)
    requires
        is_free(s, index),
        is_event(v, "content_block_delta"@, index),
        field(v, "delta"@) is Some,
    ensures
        ({
            let text = StreamView {
                active: s.active.push((index, PartView::Text { text: other })),
                ..s
            };
            let thought = StreamView {
                active: s.active.push((index, PartView::Thinking { text: other, signature: None })),
                ..s
            };
            let call = StreamView {
                active: s.active.push(
                    (index, PartView::ToolUse { id: other, name: other, json_buf: other }),
                ),
                ..s
            };
            &&& brings(v, index, "text_delta"@, "text"@, piece) ==> handed_on_by(text, v) == seq![
                DeltaView::TextDelta { text: piece },
            ]
            &&& brings(v, index, "thinking_delta"@, "thinking"@, piece) ==> handed_on_by(thought, v)
                == seq![DeltaView::ThinkingDelta { text: piece }]
            &&& handed_on_by(call, v).len() == 0
            &&& handed_on_by(s, v).len() == 0
        }),
{
    assert(event_index(v) == index);
    lemma_at_end(s.active, index, PartView::Text { text: other }, 0);
    lemma_at_end(s.active, index, PartView::Thinking { text: other, signature: None }, 0);
    lemma_at_end(
        s.active,
        index,
        PartView::ToolUse { id: other, name: other, json_buf: other },
        0,
    );
    lemma_found(s.active, index, 0);
}

proof fn lemma_thought_grows(
    s: StreamView,
    index: usize,
    deltas: Seq<JsonView>,
    pieces: Seq<Text>,
    fresh: Text,
)
    requires
        is_free(s, index),
        deltas.len() == pieces.len(),
        forall|i: int|
            0 <= i < deltas.len() ==> brings(
                #[trigger] deltas[i],
                index,
                "thinking_delta"@,
                "thinking"@,
                pieces[i],
            ),
    ensures
        after_all(
            arriving(s, index, PartView::Thinking { text: Seq::empty(), signature: None }),
            deltas,
            fresh,
        ) == arriving(
            s,
            index,
            PartView::Thinking { text: put_together(pieces), signature: None },
        ),
    decreases deltas.len(),
{
    if deltas.len() > 0 {
        let n = deltas.len() - 1;
        let before = pieces.drop_last();
        lemma_thought_grows(s, index, deltas.drop_last(), before, fresh);
        assert(brings(deltas[n], index, "thinking_delta"@, "thinking"@, pieces[n]));
        lemma_grows(
            s,
            index,
            PartView::Thinking { text: put_together(before), signature: None },
            deltas.last(),
            fresh,
        );
    }
}

/// Reasoning that arrives in pieces is the pieces put together, with the signature that
/// comes last.
pub proof fn reasoning_arrives(
    s: StreamView,
    index: usize,
    start: JsonView,
    deltas: Seq<JsonView>,
    pieces: Seq<Text>,
    signed: JsonView,
    signature: Text,
    stop: JsonView,
    fresh: Text,
)
    requires
        is_free(s, index),
        is_event(start, "content_block_start"@, index),
        field(start, "content_block"@) is Some,
        text_at(field(start, "content_block"@)->Some_0, "type"@) == Some("thinking"@),
        deltas.len() == pieces.len(),
        forall|i: int|
            0 <= i < deltas.len() ==> brings(
                #[trigger] deltas[i],
                index,
                "thinking_delta"@,
                "thinking"@,
                pieces[i],
            ),
        brings(signed, index, "signature_delta"@, "signature"@, signature),
        is_event(stop, "content_block_stop"@, index),
    ensures
        ({
            let t = after_all(s, block_events(start, deltas.push(signed), stop), fresh);
            &&& t.blocks == s.blocks.push(
                BlockView::Thinking { thinking: put_together(pieces), signature: Some(signature) },
            )
            &&& t.active == s.active
        }),
{
    lemma_types();
    lemma_kinds();
    reveal_strlit("thinking_delta");
    reveal_strlit("signature_delta");
    assert("thinking_delta"@.len() != "signature_delta"@.len());
    assert(event_index(start) == index);
    assert(stepped(s, start, fresh) == arriving(
        s,
        index,
        PartView::Thinking { text: Seq::empty(), signature: None },
    ));
    lemma_thought_grows(s, index, deltas, pieces, fresh);
    let p = PartView::Thinking { text: put_together(pieces), signature: None };
    let q = PartView::Thinking { text: put_together(pieces), signature: Some(signature) };
    lemma_grows(s, index, p, signed, fresh);
    assert(deltas.push(signed).drop_last() =~= deltas);
    lemma_all(s, start, deltas.push(signed), stop, fresh);
    lemma_stops(s, index, q, stop, fresh);
}

/// A search result that arrives is the one that was sent: for its search, with its title
/// and its address, and with what was found.
pub proof fn search_results_arrive(
    s: StreamView,
    index: usize,
    start: JsonView,
    stop: JsonView,
    fresh: Text,
)
    requires
        is_free(s, index),
        is_event(start, "content_block_start"@, index),
        field(start, "content_block"@) is Some,
        text_at(field(start, "content_block"@)->Some_0, "type"@) == Some("web_search_tool_result"@),
        is_event(stop, "content_block_stop"@, index),
    ensures
        ({
            let c = field(start, "content_block"@)->Some_0;
            let none: Seq<JsonView> = Seq::empty();
            let t = after_all(s, block_events(start, none, stop), fresh);
            &&& t.blocks.len() == s.blocks.len() + 1
            &&& t.blocks.drop_last() == s.blocks
            &&& t.blocks.last() matches BlockView::WebSearchResult {
                tool_use_id,
                title,
                url,
                content,
            } && title == text_at(c, "title"@) && url == text_at(c, "url"@) && (text_at(
                c,
                "tool_use_id"@,
            ) matches Some(i) ==> tool_use_id == i) && (field(
                c,
                "content"@,
            ) matches Some(JsonView::Array(l)) ==> content == JsonView::Array(l)) && (field(
                c,
                "content"@,
            ) matches Some(JsonView::Str(x)) ==> (content matches JsonView::Array(l) && l.len() == 1
                && text_at(l[0], "text"@) == Some(x) && text_at(l[0], "type"@) == Some("text"@))) && (
            field(c, "content"@) is None ==> content == JsonView::Array(none))
            &&& t.active == s.active
        }),
{
    lemma_types();
    lemma_kinds();
    reveal_strlit("type");
    assert("text"@[1] == 'e' && "type"@[1] == 'y') by {
        reveal_strlit("text");
        reveal_strlit("type");
    }
    let c = field(start, "content_block"@)->Some_0;
    let none: Seq<JsonView> = Seq::empty();
    let p = PartView::WebSearchResult {
        tool_use_id: text_at(c, "tool_use_id"@),
        title: text_at(c, "title"@),
        url: text_at(c, "url"@),
        content: crate::json::field_or_null(c, "content"@),
    };
    assert(event_index(start) == index);
    assert(stepped(s, start, fresh) == arriving(s, index, p));
    lemma_all(s, start, none, stop, fresh);
    lemma_stops(s, index, p, stop, fresh);
    let t = after_all(s, block_events(start, none, stop), fresh);
    assert(t.blocks.drop_last() =~= s.blocks);
}

/// What is found in pieces is put together: a piece of text goes on with the last text,
/// or stands behind what is not one, and nothing before it changes.
pub proof fn findings_are_put_together(items: Seq<JsonView>, t: Text, chunk: Text)
    ensures
        crate::stream::search_text_appended(JsonView::Str(t), chunk) == JsonView::Str(t + chunk),
        ({
            let a = crate::stream::search_text_appended(JsonView::Array(items), chunk);
            &&& a matches JsonView::Array(l) && l.len() > 0 && (items.len() > 0 && text_at(
                items.last(),
                "text"@,
            ) is Some ==> l.len() == items.len() && l.drop_last() == items.drop_last() && text_at(
                l.last(),
                "text"@,
            ) == Some(text_at(items.last(), "text"@)->Some_0 + chunk)) && (items.len() == 0
                ==> l.len() == 1 && text_at(l[0], "text"@) == Some(chunk)) && (items.len() > 0
                && text_at(items.last(), "text"@) is None && !(items.last() is Str) ==> l.len()
                == items.len() + 1 && l.drop_last() == items && text_at(l.last(), "text"@) == Some(
                chunk,
            ))
        }),
{
    reveal_strlit("text");
    reveal_strlit("type");
    assert("text"@[1] == 'e' && "type"@[1] == 'y');
    let a = crate::stream::search_text_appended(JsonView::Array(items), chunk);
    let l = a->Array_0;
    if items.len() > 0 {
        if text_at(items.last(), "text"@) is Some {
            assert(l.drop_last() =~= items.drop_last());
        } else if !(items.last() is Str) {
            assert(l.drop_last() =~= items);
        }
    }
}

/// Blocks under different indices do not meddle: a piece of one leaves the others.
pub proof fn blocks_do_not_meddle(s: StreamView, v: JsonView, fresh: Text, i: int)
    requires
        0 <= i < s.active.len(),
        text_at(v, "type"@) == Some("content_block_delta"@),
        s.active[i].0 != event_index(v),
    ensures
        stepped(s, v, fresh).active.len() == s.active.len(),
        stepped(s, v, fresh).active[i] == s.active[i],
        stepped(s, v, fresh).blocks == s.blocks,
{
    lemma_types();
    lemma_found(s.active, event_index(v), 0);
}

proof fn lemma_found(a: Seq<(usize, PartView)>, index: usize, from: int)
    requires
        0 <= from <= a.len(),
    ensures
        from <= part_place(a, index, from) <= a.len(),
        part_place(a, index, from) < a.len() ==> a[part_place(a, index, from)].0 == index,
    decreases a.len() - from,
{
    if from < a.len() && a[from].0 != index {
        lemma_found(a, index, from + 1);
    }
}

/// What a call takes is counted as the stream tells: what was sent at the start, what
/// was answered at the end, each number under its own name; and why it ended.
pub proof fn usage_arrives(s: StreamView, v: JsonView, fresh: Text)
    ensures
        text_at(v, "type"@) == Some("message_start"@) ==> ({
            let t = stepped(s, v, fresh);
            let c = field(field(v, "message"@)->Some_0, "usage"@)->Some_0;
            &&& field(v, "message"@) is Some && field(
                field(v, "message"@)->Some_0,
                "usage"@,
            ) is Some ==> {
                &&& nat_at(c, "input_tokens"@) matches Some(n) ==> n <= u32::MAX
                    ==> t.usage.input_tokens == n
                &&& nat_at(c, "cache_read_input_tokens"@) matches Some(n) ==> n <= u32::MAX
                    ==> t.usage.cache_read_input_tokens == n
                &&& nat_at(c, "cache_creation_input_tokens"@) matches Some(n) ==> n <= u32::MAX
                    ==> t.usage.cache_creation_input_tokens == n
                &&& nat_at(c, "input_tokens"@) is None ==> t.usage.input_tokens == 0
            }
            &&& t.usage.output_tokens == s.usage.output_tokens
            &&& t.blocks == s.blocks && t.active == s.active
        }),
        text_at(v, "type"@) == Some("message_delta"@) ==> ({
            let t = stepped(s, v, fresh);
            &&& field(v, "usage"@) is Some ==> (nat_at(
                field(v, "usage"@)->Some_0,
                "output_tokens"@,
            ) matches Some(n) ==> n <= u32::MAX ==> t.usage.output_tokens == n)
            &&& field(v, "delta"@) is Some ==> (text_at(
                field(v, "delta"@)->Some_0,
                "stop_reason"@,
            ) matches Some(r) ==> t.stop_reason == r)
            &&& t.usage.input_tokens == s.usage.input_tokens
            &&& t.usage.cache_read_input_tokens == s.usage.cache_read_input_tokens
            &&& t.usage.cache_creation_input_tokens == s.usage.cache_creation_input_tokens
            &&& t.blocks == s.blocks && t.active == s.active
        }),
        text_at(v, "type"@) == Some("error"@) ==> ({
            let t = stepped(s, v, fresh);
            &&& t.error is Some
            &&& field(v, "error"@) is Some ==> (text_at(
                field(v, "error"@)->Some_0,
                "message"@,
            ) matches Some(m) ==> t.error == Some(m))
            &&& t.blocks == s.blocks
        }),
{
    lemma_types();
}

/// An event is what its `data:` lines say: a line of data and the blank line behind it
/// are the event that the data is the text of. Comments and other fields change nothing.
pub proof fn lines_are_events(s: StreamView, data: Text, other: Text, fresh: Text)
    requires
        s.data_lines.len() == 0,
        data.len() > 0,
        trimmed(data) == data,
        data.last() != '\r',
        other.len() > 0,
        other[0] == ':',
    ensures
        ({
            let one = line_applied(s, "data: "@ + data, fresh);
            &&& line_applied(one, Seq::empty(), fresh) == event_applied(s, data, fresh)
            &&& line_applied(s, Seq::empty(), fresh) == s
            &&& line_applied(s, other, fresh) == s
            &&& line_handed_on(one, Seq::empty()) == (match json_parse(data) {
                Ok(v) => handed_on_by(s, v),
                Err(_) => Seq::empty(),
            })
            &&& line_handed_on(s, "data: "@ + data).len() == 0
            &&& line_handed_on(s, other).len() == 0
        }),
{
    let line = "data: "@ + data;
    reveal_strlit("data: ");
    reveal_strlit("data:");
    assert(line.subrange(0, 5) =~= "data:"@);
    assert(crate::stream::without_cr(line) == line);
    assert(line.skip(5) =~= seq![' '] + data);
    lemma_padded(data);
    let one = line_applied(s, line, fresh);
    assert(one.data_lines =~= seq![data]);
    reveal_with_fuel(crate::text::joined, 2);
    assert(crate::text::joined(one.data_lines, "\n"@) == data);
    assert(StreamView { data_lines: Seq::empty(), ..one } == s) by {
        assert(s.data_lines =~= Seq::<Text>::empty());
    }
    lemma_not_data(other);
}

proof fn lemma_padded(data: Text)
    requires
        trimmed(data) == data,
    ensures
        trimmed(seq![' '] + data) == data,
{
    let s = seq![' '] + data;
    assert(s.skip(1) =~= data);
    assert(crate::text::trim_start(s) == crate::text::trim_start(data));
}

proof fn lemma_not_data(other: Text)
    requires
        other.len() > 0,
        other[0] == ':',
    ensures
        crate::stream::without_cr(other).len() > 0,
        !crate::text::begins(crate::stream::without_cr(other), "data:"@),
{
    lemma_first_stays(other);
    reveal_strlit("data:");
    let t = crate::stream::without_cr(other);
    if crate::text::begins(t, "data:"@) {
        assert(t.subrange(0, 5)[0] == t[0]);
        assert("data:"@[0] == 'd');
    }
}

proof fn lemma_first_stays(t: Text)
    requires
        t.len() > 0,
        t[0] == ':',
    ensures
        crate::stream::without_cr(t).len() > 0,
        crate::stream::without_cr(t)[0] == ':',
    decreases t.len(),
{
    if t.last() == '\r' {
        lemma_first_stays(t.drop_last());
    }
}

proof fn lemma_feed(b: Seq<u8>, rest: Seq<u8>, from: int)
    requires
        0 <= from <= b.len(),
        forall|i: int| 0 <= i < b.len() ==> #[trigger] b[i] != 10,
    ensures
        next_feed(b.push(10) + rest, from) == b.len(),
        next_feed(b, from) == b.len(),
    decreases b.len() - from,
{
    let all = b.push(10) + rest;
    if from < b.len() {
        assert(all[from] == b[from]);
        lemma_feed(b, rest, from + 1);
    } else {
        assert(all[from] == 10);
    }
}

/// Bytes are taken line by line: a line that has ended is taken, and what follows it;
/// one that has not waits for its end.
pub proof fn bytes_are_lines(s: StreamView, line: Seq<u8>, rest: Seq<u8>, ids: Seq<Text>)
    requires
        forall|i: int| 0 <= i < line.len() ==> #[trigger] line[i] != 10,
    ensures
        ({
            let d = drained(s, line.push(10) + rest, ids);
            let then = drained(
                line_applied(s, lossy_text(line), ids[0]),
                rest,
                ids.skip(1),
            );
            &&& d.state == then.state
            &&& d.rest == then.rest
            &&& d.out == line_handed_on(s, lossy_text(line)) + then.out
        }),
        drained(s, line, ids).state == s,
        drained(s, line, ids).rest == line,
        drained(s, line, ids).out.len() == 0,
{
    lemma_feed(line, rest, 0);
    let all = line.push(10) + rest;
    let n = line.len() as int;
    assert(all.take(n) =~= line);
    assert(all.skip(n + 1) =~= rest);
}

} // verus!
