//! What the model answered is read in full.

use crate::api::{collected, response_of, with_block, ResponseView, ToolCallView, WebSearchView};
use crate::json::{json_text, JsonView};
use crate::message::BlockView;
use crate::stream::Usage;
use crate::text::{is_blank, lemma_blank_trimmed, Text};
use vstd::prelude::*;

verus! {

/// The calls of a response, none where it has no list.
pub open spec fn call_list(r: ResponseView) -> Seq<ToolCallView> {
    if r.tool_calls is Some {
        r.tool_calls->Some_0
    } else {
        Seq::empty()
    }
}

/// The tool calls among some blocks.
#[verifier::opaque]
pub open spec fn uses_among(blocks: Seq<BlockView>) -> Seq<BlockView> {
    blocks.filter(|b: BlockView| b is ToolUse)
}

/// Whether a call is the one that a block makes: by its name and its input as text, and
/// by its id where it has one.
pub open spec fn is_call_of(c: ToolCallView, b: BlockView, fresh: Seq<Text>) -> bool {
    b matches BlockView::ToolUse { id, name, input } && c.name == name && c.arguments == json_text(
        input,
    ) && c.call_type == "tool_use"@ && (if is_blank(id) {
        fresh.contains(c.id)
    } else {
        c.id == id
    })
}

proof fn lemma_calls_collected(
    blocks: Seq<BlockView>,
    usage: Usage,
    reason: Text,
    fresh: Seq<Text>,
)
    requires
        fresh.len() >= blocks.len(),
    ensures
        ({
            let cs = collected(blocks, usage, reason, fresh).tool_calls;
            &&& cs is Some
            &&& cs->Some_0.len() == uses_among(blocks).len()
            &&& forall|k: int|
                0 <= k < uses_among(blocks).len() ==> is_call_of(
                    #[trigger] cs->Some_0[k],
                    uses_among(blocks)[k],
                    fresh,
                )
        }),
    decreases blocks.len(),
{
    reveal(uses_among);
    let p = |b: BlockView| b is ToolUse;
    if blocks.len() == 0 {
        reveal(Seq::filter);
        assert(blocks.filter(p) =~= Seq::<BlockView>::empty());
    } else {
        let t = blocks.drop_last();
        lemma_calls_collected(t, usage, reason, fresh);
        t.lemma_filter_push(blocks.last(), p);
        assert(t.push(blocks.last()) =~= blocks);
        let f = fresh[blocks.len() - 1];
        assert(fresh.contains(f));
        if let BlockView::ToolUse { id, .. } = blocks.last() {
            lemma_blank_trimmed(id);
        }
    }
}

/// The tool calls of a response are those of the reply, one for each block that makes
/// one, in order; there is no list exactly where there is no such block.
pub proof fn every_call_is_read(
    blocks: Seq<BlockView>,
    usage: Usage,
    reason: Text,
    fresh: Seq<Text>,
)
    requires
        fresh.len() >= blocks.len(),
    ensures
        ({
            let r = response_of(blocks, usage, reason, fresh);
            &&& r.tool_calls is None <==> uses_among(blocks).len() == 0
            &&& call_list(r).len() == uses_among(blocks).len()
            &&& forall|k: int|
                0 <= k < uses_among(blocks).len() ==> is_call_of(
                    #[trigger] call_list(r)[k],
                    uses_among(blocks)[k],
                    fresh,
                )
        }),
{
    lemma_calls_collected(blocks, usage, reason, fresh);
}

/// Whether `r` is made of `a` and `b`, the one before the other.
pub open spec fn is_both(r: ResponseView, a: ResponseView, b: ResponseView) -> bool {
    &&& r.content == a.content + b.content
    &&& call_list(r) == call_list(a) + call_list(b)
    &&& r.server_tool_uses == a.server_tool_uses + b.server_tool_uses
    &&& r.web_search_results == a.web_search_results + b.web_search_results
    &&& r.web_search_used == (a.web_search_used || b.web_search_used)
    &&& if b.thinking_content is Some {
        r.thinking_content == b.thinking_content && r.thinking_signature == b.thinking_signature
    } else {
        r.thinking_content == a.thinking_content && r.thinking_signature == a.thinking_signature
    }
    &&& r.usage == a.usage
    &&& r.finish_reason == a.finish_reason
}

proof fn lemma_collected_both(
    a: Seq<BlockView>,
    b: Seq<BlockView>,
    usage: Usage,
    reason: Text,
    f: Seq<Text>,
    g: Seq<Text>,
)
    requires
        f.len() == a.len(),
        g.len() == b.len(),
    ensures
        is_both(
            collected(a + b, usage, reason, f + g),
            collected(a, usage, reason, f),
            collected(b, usage, reason, g),
        ),
        collected(a, usage, reason, f).tool_calls is Some,
        collected(b, usage, reason, g).tool_calls is Some,
        collected(a + b, usage, reason, f + g).tool_calls is Some,
    decreases b.len(),
{
    lemma_frame(a, usage, reason, f);
    if b.len() == 0 {
        assert(a + b =~= a);
        assert(f + g =~= f);
        let r = collected(a, usage, reason, f);
        assert(r.content + Seq::<char>::empty() =~= r.content);
        assert(call_list(r) + Seq::<ToolCallView>::empty() =~= call_list(r));
        assert(r.server_tool_uses + Seq::<ToolCallView>::empty() =~= r.server_tool_uses);
        assert(r.web_search_results + Seq::<WebSearchView>::empty() =~= r.web_search_results);
    } else {
        let t = b.drop_last();
        let h = g.drop_last();
        lemma_collected_both(a, t, usage, reason, f, h);
        lemma_fresh(t, usage, reason, h, g);
        lemma_fresh(a + t, usage, reason, f + h, f + g);
        assert((a + b).drop_last() =~= a + t);
        let x = collected(a, usage, reason, f);
        let y = collected(t, usage, reason, h);
        let z = collected(a + t, usage, reason, f + h);
        let w = b.last();
        let id = g[b.len() - 1];
        assert((f + g)[(a + b).len() - 1] == id);
        assert(collected(a + b, usage, reason, f + g) == with_block(z, w, id));
        assert(collected(b, usage, reason, g) == with_block(y, w, id));
        let r = with_block(z, w, id);
        let q = with_block(y, w, id);
        assert(r.content =~= x.content + q.content);
        assert(call_list(r) =~= call_list(x) + call_list(q));
        assert(r.server_tool_uses =~= x.server_tool_uses + q.server_tool_uses);
        assert(r.web_search_results =~= x.web_search_results + q.web_search_results);
    }
}

/// Only the identifiers up to the last block count.
proof fn lemma_fresh(
    a: Seq<BlockView>,
    usage: Usage,
    reason: Text,
    f: Seq<Text>,
    g: Seq<Text>,
)
    requires
        f.len() >= a.len(),
        g.len() >= a.len(),
        forall|i: int| 0 <= i < a.len() ==> f[i] == g[i],
    ensures
        collected(a, usage, reason, f) == collected(a, usage, reason, g),
    decreases a.len(),
{
    if a.len() > 0 {
        lemma_fresh(a.drop_last(), usage, reason, f, g);
    }
}

pub proof fn lemma_frame(a: Seq<BlockView>, usage: Usage, reason: Text, f: Seq<Text>)
    ensures
        collected(a, usage, reason, f).usage == usage,
        collected(a, usage, reason, f).finish_reason == reason,
        collected(a, usage, reason, f).tool_calls is Some,
    decreases a.len(),
{
    if a.len() > 0 {
        lemma_frame(a.drop_last(), usage, reason, f);
    }
}

/// A reply in two parts is read as both parts, the one before the other: no text, no
/// call and no search result is lost, and the last reasoning counts.
pub proof fn replies_add_up(
    a: Seq<BlockView>,
    b: Seq<BlockView>,
    usage: Usage,
    reason: Text,
    f: Seq<Text>,
    g: Seq<Text>,
)
    requires
        f.len() == a.len(),
        g.len() == b.len(),
    ensures
        is_both(
            response_of(a + b, usage, reason, f + g),
            response_of(a, usage, reason, f),
            response_of(b, usage, reason, g),
        ),
        response_of(a, usage, reason, f).usage == usage,
        response_of(a, usage, reason, f).finish_reason == reason,
{
    lemma_collected_both(a, b, usage, reason, f, g);
    lemma_frame(a, usage, reason, f);
    let x = response_of(a, usage, reason, f);
    let y = response_of(b, usage, reason, g);
    let z = response_of(a + b, usage, reason, f + g);
    assert(call_list(z) =~= call_list(x) + call_list(y));
}

/// How a single block is read: text as text, reasoning with its signature, a search
/// result with all it holds and a heading for the user, a search of the server with
/// its input; other blocks leave nothing.
pub proof fn single_blocks_are_read(b: BlockView, usage: Usage, reason: Text, id: Text)
    ensures
        ({
            let r = response_of(seq![b], usage, reason, seq![id]);
            &&& match b {
                BlockView::Text { text } => r.content == text,
                BlockView::WebSearchResult { .. } => r.content.len() > 0,
                _ => r.content.len() == 0,
            }
            &&& match b {
                BlockView::Thinking { thinking, signature } => r.thinking_content == Some(thinking)
                    && r.thinking_signature == signature,
                _ => r.thinking_content is None && r.thinking_signature is None,
            }
            &&& match b {
                BlockView::WebSearchResult { tool_use_id, title, url, content } => {
                    &&& r.web_search_results.len() == 1
                    &&& r.web_search_results[0].title == title
                    &&& r.web_search_results[0].url == url
                    &&& r.web_search_results[0].content == content
                    &&& tool_use_id.len() > 0 ==> r.web_search_results[0].tool_use_id == Some(
                        tool_use_id,
                    )
                    &&& tool_use_id.len() == 0 ==> r.web_search_results[0].tool_use_id is None
                },
                _ => r.web_search_results.len() == 0,
            }
            &&& match b {
                BlockView::ServerToolUse { id: own, name, input } => {
                    &&& r.server_tool_uses.len() == 1
                    &&& r.server_tool_uses[0].name == name
                    &&& r.server_tool_uses[0].arguments == json_text(input)
                    &&& !is_blank(own) ==> r.server_tool_uses[0].id == own
                    &&& is_blank(own) ==> r.server_tool_uses[0].id == id
                },
                _ => r.server_tool_uses.len() == 0,
            }
            &&& r.web_search_used == (match b {
                BlockView::ToolUse { name, .. } => name == "web_search"@,
                BlockView::WebSearchResult { .. } | BlockView::ServerToolUse { .. } => true,
                _ => false,
            })
        }),
{
    reveal_with_fuel(collected, 2);
    let bs = seq![b];
    assert(bs.drop_last() =~= Seq::<BlockView>::empty());
    match b {
        BlockView::Text { text } => {
            assert(Seq::<char>::empty() + text =~= text);
        },
        BlockView::ServerToolUse { id: own, .. } => {
            lemma_blank_trimmed(own);
        },
        BlockView::WebSearchResult { .. } => {
            reveal_strlit("\n\n### 搜索结果\n");
        },
        _ => {},
    }
}

/// What the user reads of a search result: a heading, its title as a link to its
/// address where it has both, and its text.
pub proof fn search_results_are_shown(w: BlockView, usage: Usage, reason: Text, id: Text)
    requires
        w is WebSearchResult,
    ensures
        ({
            let c = response_of(seq![w], usage, reason, seq![id]).content;
            let body = crate::api::search_text(w->WebSearchResult_content);
            &&& w->WebSearchResult_title matches Some(t) ==> (
            w->WebSearchResult_url matches Some(u) ==> c == "\n\n### 搜索结果\n"@ + "**["@ + t + "]("@ + u
                + ")**\n\n"@ + body)
            &&& w->WebSearchResult_title is None || w->WebSearchResult_url is None ==> c
                == "\n\n### 搜索结果\n"@ + body
        }),
{
    reveal_with_fuel(collected, 2);
    let bs = seq![w];
    assert(bs.drop_last() =~= Seq::<BlockView>::empty());
    let section = crate::api::search_section(
        w->WebSearchResult_title,
        w->WebSearchResult_url,
        w->WebSearchResult_content,
    );
    assert(Seq::<char>::empty() + section =~= section);
}

/// The text in search content: a string itself; lists are read item by item, an item
/// without a text leaves nothing.
pub proof fn search_texts(a: Seq<JsonView>, v: JsonView, t: Text)
    ensures
        crate::api::search_text(JsonView::Str(t)) == t,
        crate::api::item_texts(Seq::empty()).len() == 0,
        crate::json::text_at(v, "text"@) matches Some(x) ==> crate::api::item_texts(a.push(v))
            == crate::api::item_texts(a).push(x),
        crate::json::text_at(v, "text"@) is None ==> crate::api::item_texts(a.push(v))
            == crate::api::item_texts(a),
        crate::api::search_text(JsonView::Array(a)) == crate::text::joined(
            crate::api::item_texts(a),
            "\n"@,
        ),
{
    assert(a.push(v).drop_last() =~= a);
}

} // verus!
