//! What a conversation may look like when it is sent: every tool call is
//! answered, and every answer has its call.

use crate::message::{BlockView, Content, ContentBlock, ContentView, Message, MessageView, Role};
use crate::text::{lemma_views_push, text_eq, views, Text};
use vstd::prelude::*;

verus! {

/// Whether `b` is the web search result for the search `id`.
pub open spec fn is_search_result(b: BlockView, id: Text) -> bool {
    b matches BlockView::WebSearchResult { tool_use_id, .. } && tool_use_id == id
}

/// Whether `b` is a call of a tool under the name `id`.
pub open spec fn is_use(b: BlockView, id: Text) -> bool {
    b matches BlockView::ToolUse { id: own, .. } && own == id
}

/// Whether `b` answers the tool call `id`.
pub open spec fn is_result(b: BlockView, id: Text) -> bool {
    b matches BlockView::ToolResult { tool_use_id, .. } && tool_use_id == id
}

/// Whether a search result with this (non-empty) id stands among the blocks.
pub open spec fn searched(bs: Seq<BlockView>, id: Text) -> bool {
    id.len() > 0 && exists|i: int| 0 <= i < bs.len() && is_search_result(#[trigger] bs[i], id)
}

/// Whether a call with this id stands among the blocks.
pub open spec fn holds_use(bs: Seq<BlockView>, id: Text) -> bool {
    exists|i: int| 0 <= i < bs.len() && is_use(#[trigger] bs[i], id)
}

/// Whether an answer to this call stands among the blocks.
pub open spec fn holds_result(bs: Seq<BlockView>, id: Text) -> bool {
    exists|i: int| 0 <= i < bs.len() && is_result(#[trigger] bs[i], id)
}

/// A search result needs its id, and a server-side tool use its search result.
pub open spec fn keeps_search(bs: Seq<BlockView>) -> spec_fn(BlockView) -> bool {
    |b: BlockView|
        match b {
            BlockView::WebSearchResult { tool_use_id, .. } => tool_use_id.len() > 0,
            BlockView::ServerToolUse { id, .. } => searched(bs, id),
            _ => true,
        }
}

/// The blocks without search blocks that have no partner.
pub open spec fn search_repaired(c: ContentView) -> ContentView {
    match c {
        ContentView::Text(t) => ContentView::Text(t),
        ContentView::Blocks(bs) => ContentView::Blocks(bs.filter(keeps_search(bs))),
    }
}

/// The messages without search blocks that have no partner.
pub open spec fn searches_repaired(ms: Seq<MessageView>) -> Seq<MessageView> {
    Seq::new(
        ms.len(),
        |i: int| MessageView { content: search_repaired(ms[i].content), ..ms[i] },
    )
}

/// Whether the message right after message `i` comes from the user and answers
/// the call `id`.
pub open spec fn answered(ms: Seq<MessageView>, i: int, id: Text) -> bool {
    &&& i + 1 < ms.len()
    &&& ms[i + 1].role is User
    &&& ms[i + 1].content matches ContentView::Blocks(bs)
    &&& holds_result(bs, id)
}

/// Whether the message right before message `i` comes from the assistant and
/// makes the call `id`.
pub open spec fn asked(ms: Seq<MessageView>, i: int, id: Text) -> bool {
    &&& i > 0
    &&& ms[i - 1].role is Assistant
    &&& ms[i - 1].content matches ContentView::Blocks(bs)
    &&& holds_use(bs, id)
}

/// Of message `i`, the blocks that have their partner: a call of the assistant
/// its answer, an answer of the user its call.
pub open spec fn keeps_pair(ms: Seq<MessageView>, i: int) -> spec_fn(BlockView) -> bool {
    |b: BlockView|
        match b {
            BlockView::ToolUse { id, .. } => ms[i].role is Assistant ==> answered(ms, i, id),
            BlockView::ToolResult { tool_use_id, .. } => ms[i].role is User ==> asked(
                ms,
                i,
                tool_use_id,
            ),
            _ => true,
        }
}

/// What stands in for an assistant message that held nothing but calls without
/// an answer.
pub open spec fn omitted_call() -> BlockView {
    BlockView::Text { text: "[tool call omitted: result unavailable in history]"@ }
}

/// What stands in for a user message that holds nothing (any more).
pub open spec fn omitted_result() -> BlockView {
    BlockView::Text { text: "[tool result omitted: no matching tool use in history]"@ }
}

/// The content of message `i` without calls and answers that lack their partner.
pub open spec fn pair_repaired(ms: Seq<MessageView>, i: int) -> ContentView {
    match ms[i].content {
        ContentView::Text(t) => ContentView::Text(t),
        ContentView::Blocks(bs) => {
            let kept = bs.filter(keeps_pair(ms, i));
            ContentView::Blocks(
                if kept.len() > 0 {
                    kept
                } else if ms[i].role is User {
                    seq![omitted_result()]
                } else if bs.len() > 0 {
                    seq![omitted_call()]
                } else {
                    kept
                },
            )
        },
    }
}

/// The messages without calls and answers that lack their partner.
pub open spec fn pairs_repaired(ms: Seq<MessageView>) -> Seq<MessageView> {
    Seq::new(ms.len(), |i: int| MessageView { content: pair_repaired(ms, i), ..ms[i] })
}

/// The messages as they may be sent.
pub open spec fn sanitized(ms: Seq<MessageView>) -> Seq<MessageView> {
    pairs_repaired(searches_repaired(ms))
}

fn has_search_result(bs: &Vec<ContentBlock>, id: &String) -> (r: bool)
    ensures
        r == searched(views(bs@), id@),
{
    if id.as_str().is_empty() {
        return false;
    }
    let mut i: usize = 0;
    while i < bs.len()
        invariant
            i <= bs@.len(),
            id@.len() > 0,
            forall|j: int| 0 <= j < i ==> !is_search_result(#[trigger] views(bs@)[j], id@),
        decreases bs@.len() - i,
    {
        if let ContentBlock::WebSearchResult { tool_use_id, .. } = &bs[i] {
            if text_eq(tool_use_id, id) {
                assert(is_search_result(views(bs@)[i as int], id@));
                return true;
            }
        }
        i = i + 1;
    }
    false
}

fn has_use(bs: &Vec<ContentBlock>, id: &String) -> (r: bool)
    ensures
        r == holds_use(views(bs@), id@),
{
    let mut i: usize = 0;
    while i < bs.len()
        invariant
            i <= bs@.len(),
            forall|j: int| 0 <= j < i ==> !is_use(#[trigger] views(bs@)[j], id@),
        decreases bs@.len() - i,
    {
        if let ContentBlock::ToolUse { id: own, .. } = &bs[i] {
            if text_eq(own, id) {
                assert(is_use(views(bs@)[i as int], id@));
                return true;
            }
        }
        i = i + 1;
    }
    false
}

fn has_result(bs: &Vec<ContentBlock>, id: &String) -> (r: bool)
    ensures
        r == holds_result(views(bs@), id@),
{
    let mut i: usize = 0;
    while i < bs.len()
        invariant
            i <= bs@.len(),
            forall|j: int| 0 <= j < i ==> !is_result(#[trigger] views(bs@)[j], id@),
        decreases bs@.len() - i,
    {
        if let ContentBlock::ToolResult { tool_use_id, .. } = &bs[i] {
            if text_eq(tool_use_id, id) {
                assert(is_result(views(bs@)[i as int], id@));
                return true;
            }
        }
        i = i + 1;
    }
    false
}

fn repair_search(content: &Content) -> (r: Content)
    ensures
        r@ == search_repaired(content@),
{
    match content {
        Content::Text(t) => Content::Text(t.clone()),
        Content::Blocks(bs) => {
            let ghost all = views(bs@);
            let ghost p = keeps_search(all);
            let mut out: Vec<ContentBlock> = Vec::new();
            let mut i: usize = 0;
            assert(all.take(0).filter(p) =~= Seq::<BlockView>::empty()) by {
                reveal(Seq::filter);
            }
            while i < bs.len()
                invariant
                    i <= bs@.len(),
                    all == views(bs@),
                    p == keeps_search(all),
                    views(out@) == all.take(i as int).filter(p),
                decreases bs@.len() - i,
            {
                let keep = match &bs[i] {
                    ContentBlock::WebSearchResult { tool_use_id, .. } => !tool_use_id.as_str().is_empty(),
                    ContentBlock::ServerToolUse { id, .. } => has_search_result(bs, id),
                    _ => true,
                };
                assert(keep == p(all[i as int]));
                proof {
                    assert(all.take(i + 1) =~= all.take(i as int).push(all[i as int]));
                    all.take(i as int).lemma_filter_push(all[i as int], p);
                }
                if keep {
                    let copy = bs[i].clone();
                    proof {
                        lemma_views_push(out@, copy);
                    }
                    out.push(copy);
                }
                i = i + 1;
            }
            assert(all.take(i as int) =~= all);
            Content::Blocks(out)
        },
    }
}

fn repair_searches(messages: &Vec<Message>) -> (r: Vec<Message>)
    ensures
        views(r@) == searches_repaired(views(messages@)),
{
    let mut out: Vec<Message> = Vec::new();
    let mut i: usize = 0;
    let ghost want = searches_repaired(views(messages@));
    while i < messages.len()
        invariant
            i <= messages@.len(),
            want == searches_repaired(views(messages@)),
            views(out@) == want.take(i as int),
        decreases messages@.len() - i,
    {
        let m = &messages[i];
        let fixed = Message {
            role: m.role,
            content: repair_search(&m.content),
            timestamp: m.timestamp,
            internal: m.internal,
        };
        proof {
            lemma_views_push(out@, fixed);
            assert(fixed@ == want[i as int]);
            assert(want.take(i + 1) =~= want.take(i as int).push(want[i as int]));
        }
        out.push(fixed);
        i = i + 1;
    }
    assert(want.take(i as int) =~= want);
    out
}

fn is_answered(messages: &Vec<Message>, i: usize, id: &String) -> (r: bool)
    requires
        i < messages@.len(),
    ensures
        r == answered(views(messages@), i as int, id@),
{
    if i < messages.len() - 1 && messages[i + 1].role == Role::User {
        assert(views(messages@)[i + 1] == messages@[i + 1]@);
        if let Content::Blocks(bs) = &messages[i + 1].content {
            return has_result(bs, id);
        }
    }
    false
}

fn is_asked(messages: &Vec<Message>, i: usize, id: &String) -> (r: bool)
    requires
        i < messages@.len(),
    ensures
        r == asked(views(messages@), i as int, id@),
{
    if i > 0 && messages[i - 1].role == Role::Assistant {
        assert(views(messages@)[i - 1] == messages@[i - 1]@);
        if let Content::Blocks(bs) = &messages[i - 1].content {
            return has_use(bs, id);
        }
    }
    false
}

fn repair_pair(messages: &Vec<Message>, at: usize) -> (r: Content)
    requires
        at < messages@.len(),
    ensures
        r@ == pair_repaired(views(messages@), at as int),
{
    let role = messages[at].role;
    match &messages[at].content {
        Content::Text(t) => Content::Text(t.clone()),
        Content::Blocks(bs) => {
            let ghost all = views(bs@);
            let ghost ms = views(messages@);
            let ghost p = keeps_pair(ms, at as int);
            let mut out: Vec<ContentBlock> = Vec::new();
            let mut i: usize = 0;
            assert(ms[at as int].content == ContentView::Blocks(all));
            assert(all.take(0).filter(p) =~= Seq::<BlockView>::empty()) by {
                reveal(Seq::filter);
            }
            while i < bs.len()
                invariant
                    i <= bs@.len(),
                    at < messages@.len(),
                    all == views(bs@),
                    ms == views(messages@),
                    p == keeps_pair(ms, at as int),
                    role == ms[at as int].role,
                    views(out@) == all.take(i as int).filter(p),
                decreases bs@.len() - i,
            {
                let keep = match &bs[i] {
                    ContentBlock::ToolUse { id, .. } => role != Role::Assistant || is_answered(
                        messages,
                        at,
                        id,
                    ),
                    ContentBlock::ToolResult { tool_use_id, .. } => role != Role::User || is_asked(
                        messages,
                        at,
                        tool_use_id,
                    ),
                    _ => true,
                };
                assert(keep == p(all[i as int]));
                proof {
                    assert(all.take(i + 1) =~= all.take(i as int).push(all[i as int]));
                    all.take(i as int).lemma_filter_push(all[i as int], p);
                }
                if keep {
                    let copy = bs[i].clone();
                    proof {
                        lemma_views_push(out@, copy);
                    }
                    out.push(copy);
                }
                i = i + 1;
            }
            assert(all.take(i as int) =~= all);
            if out.len() == 0 {
                if role == Role::User {
                    let note = ContentBlock::Text {
                        text: "[tool result omitted: no matching tool use in history]".to_string(),
                    };
                    proof {
                        lemma_views_push(out@, note);
                        assert(views(out@).push(note@) =~= seq![omitted_result()]);
                    }
                    out.push(note);
                } else if bs.len() > 0 {
                    let note = ContentBlock::Text {
                        text: "[tool call omitted: result unavailable in history]".to_string(),
                    };
                    proof {
                        lemma_views_push(out@, note);
                        assert(views(out@).push(note@) =~= seq![omitted_call()]);
                    }
                    out.push(note);
                }
            }
            Content::Blocks(out)
        },
    }
}

/// Leaves out what the protocol would refuse: search blocks without a partner,
/// tool calls that the next user message does not answer, and answers to calls
/// that the assistant message before did not make. A message that would be left
/// empty gets a note in place of what was dropped.
pub fn sanitize(messages: &Vec<Message>) -> (r: Vec<Message>)
    ensures
        views(r@) == sanitized(views(messages@)),
{
    let cleaned = repair_searches(messages);
    let mut out: Vec<Message> = Vec::new();
    let mut i: usize = 0;
    let ghost want = pairs_repaired(views(cleaned@));
    while i < cleaned.len()
        invariant
            i <= cleaned@.len(),
            want == pairs_repaired(views(cleaned@)),
            views(out@) == want.take(i as int),
        decreases cleaned@.len() - i,
    {
        let fixed = Message {
            role: cleaned[i].role,
            content: repair_pair(&cleaned, i),
            timestamp: cleaned[i].timestamp,
            internal: cleaned[i].internal,
        };
        proof {
            lemma_views_push(out@, fixed);
            assert(fixed@ == want[i as int]);
            assert(want.take(i + 1) =~= want.take(i as int).push(want[i as int]));
        }
        out.push(fixed);
        i = i + 1;
    }
    assert(want.take(i as int) =~= want);
    out
}

/// Whether the search blocks of a content all have their partner.
pub open spec fn search_paired(c: ContentView) -> bool {
    c matches ContentView::Blocks(bs) ==> forall|k: int|
        0 <= k < bs.len() ==> keeps_search(bs)(#[trigger] bs[k])
}

/// Whether a content makes the tool call `id`.
pub open spec fn calls(c: ContentView, id: Text) -> bool {
    c matches ContentView::Blocks(bs) && holds_use(bs, id)
}

/// Whether a content answers the tool call `id`.
pub open spec fn answers(c: ContentView, id: Text) -> bool {
    c matches ContentView::Blocks(bs) && holds_result(bs, id)
}

/// Each tool call of the assistant is answered in the user message right after
/// it, and each answer of the user belongs to a call in the assistant message
/// right before it.
pub open spec fn pairs_valid(ms: Seq<MessageView>) -> bool {
    &&& forall|i: int, id: Text|
        0 <= i < ms.len() && ms[i].role is Assistant && #[trigger] calls(ms[i].content, id)
            ==> answered(ms, i, id)
    &&& forall|i: int, id: Text|
        0 <= i < ms.len() && ms[i].role is User && #[trigger] answers(ms[i].content, id) ==> asked(
            ms,
            i,
            id,
        )
}

/// What the protocol asks of a conversation: tool calls and answers are paired,
/// and every server-side search has its result.
pub open spec fn wire_valid(ms: Seq<MessageView>) -> bool {
    &&& pairs_valid(ms)
    &&& forall|i: int| 0 <= i < ms.len() ==> search_paired((#[trigger] ms[i]).content)
}

proof fn lemma_kept<A>(s: Seq<A>, p: spec_fn(A) -> bool, i: int) -> (k: int)
    requires
        0 <= i < s.len(),
        p(s[i]),
    ensures
        0 <= k < s.filter(p).len(),
        s.filter(p)[k] == s[i],
{
    s.lemma_filter_contains(p, i);
    choose|k: int| 0 <= k < s.filter(p).len() && s.filter(p)[k] == s[i]
}

proof fn lemma_from<A>(s: Seq<A>, p: spec_fn(A) -> bool, k: int) -> (i: int)
    requires
        0 <= k < s.filter(p).len(),
    ensures
        0 <= i < s.len(),
        s[i] == s.filter(p)[k],
        p(s[i]),
    decreases s.len(),
{
    reveal(Seq::filter);
    s.lemma_filter_pred(p, k);
    let t = s.drop_last();
    if k < t.filter(p).len() {
        let i = lemma_from(t, p, k);
        assert(t[i] == s[i]);
        i
    } else {
        s.len() - 1
    }
}

proof fn lemma_all_kept<A>(s: Seq<A>, p: spec_fn(A) -> bool)
    requires
        forall|i: int| 0 <= i < s.len() ==> p(#[trigger] s[i]),
    ensures
        s.filter(p) == s,
    decreases s.len(),
{
    reveal(Seq::filter);
    if s.len() > 0 {
        assert forall|i: int| 0 <= i < s.drop_last().len() implies p(
            #[trigger] s.drop_last()[i],
        ) by {
            assert(s.drop_last()[i] == s[i]);
        }
        lemma_all_kept(s.drop_last(), p);
        assert(s.drop_last().push(s.last()) =~= s);
    } else {
        assert(s.filter(p) =~= s);
    }
}

/// A search block that was kept is still paired among the kept blocks.
proof fn lemma_search_stable(bs: Seq<BlockView>)
    ensures
        ({
            let kept = bs.filter(keeps_search(bs));
            forall|k: int| 0 <= k < kept.len() ==> keeps_search(kept)(#[trigger] kept[k])
        }),
{
    let p = keeps_search(bs);
    let kept = bs.filter(p);
    assert forall|k: int| 0 <= k < kept.len() implies keeps_search(kept)(#[trigger] kept[k]) by {
        let i = lemma_from(bs, p, k);
        match kept[k] {
            BlockView::ServerToolUse { id, .. } => {
                let j = choose|j: int| 0 <= j < bs.len() && is_search_result(#[trigger] bs[j], id);
                assert(p(bs[j]));
                let l = lemma_kept(bs, p, j);
                assert(is_search_result(kept[l], id));
                assert(searched(kept, id));
            },
            _ => {},
        }
    }
}

/// Dropping calls and answers leaves the search blocks paired.
proof fn lemma_pair_keeps_search(ms: Seq<MessageView>, i: int)
    requires
        0 <= i < ms.len(),
        search_paired(ms[i].content),
    ensures
        search_paired(pair_repaired(ms, i)),
{
    if let ContentView::Blocks(bs) = ms[i].content {
        let p = keeps_pair(ms, i);
        let kept = bs.filter(p);
        let now = pair_repaired(ms, i)->Blocks_0;
        assert forall|k: int| 0 <= k < now.len() implies keeps_search(now)(#[trigger] now[k]) by {
            if kept.len() > 0 {
                let j = lemma_from(bs, p, k);
                assert(keeps_search(bs)(bs[j]));
                match kept[k] {
                    BlockView::ServerToolUse { id, .. } => {
                        let l = choose|l: int|
                            0 <= l < bs.len() && is_search_result(#[trigger] bs[l], id);
                        assert(p(bs[l]));
                        let n = lemma_kept(bs, p, l);
                        assert(is_search_result(now[n], id));
                        assert(searched(now, id));
                    },
                    _ => {},
                }
            }
        }
    }
}

/// A call that is kept is answered after the repair too.
proof fn lemma_call_answered(ms: Seq<MessageView>, i: int, id: Text)
    requires
        0 <= i < ms.len(),
        pairs_repaired(ms)[i].role is Assistant,
        calls(pairs_repaired(ms)[i].content, id),
    ensures
        answered(pairs_repaired(ms), i, id),
        answered(ms, i, id),
{
    let out = pairs_repaired(ms);
    let bs = ms[i].content->Blocks_0;
    let now = out[i].content->Blocks_0;
    let p = keeps_pair(ms, i);
    let k = choose|k: int| 0 <= k < now.len() && is_use(#[trigger] now[k], id);
    assert(bs.filter(p).len() > 0);
    let j = lemma_from(bs, p, k);
    assert(is_use(bs[j], id));
    assert(answered(ms, i, id));
    let next = ms[i + 1].content->Blocks_0;
    let q = keeps_pair(ms, i + 1);
    let l = choose|l: int| 0 <= l < next.len() && is_result(#[trigger] next[l], id);
    assert(asked(ms, i + 1, id));
    assert(q(next[l]));
    let n = lemma_kept(next, q, l);
    let next_now = out[i + 1].content->Blocks_0;
    assert(next_now == next.filter(q));
    assert(is_result(next_now[n], id));
    assert(holds_result(next_now, id));
}

/// An answer that is kept has its call after the repair too.
proof fn lemma_answer_asked(ms: Seq<MessageView>, i: int, id: Text)
    requires
        0 <= i < ms.len(),
        pairs_repaired(ms)[i].role is User,
        answers(pairs_repaired(ms)[i].content, id),
    ensures
        asked(pairs_repaired(ms), i, id),
        asked(ms, i, id),
{
    let out = pairs_repaired(ms);
    let bs = ms[i].content->Blocks_0;
    let now = out[i].content->Blocks_0;
    let p = keeps_pair(ms, i);
    let k = choose|k: int| 0 <= k < now.len() && is_result(#[trigger] now[k], id);
    assert(bs.filter(p).len() > 0);
    let j = lemma_from(bs, p, k);
    assert(is_result(bs[j], id));
    assert(holds_result(bs, id));
    assert(asked(ms, i, id));
    let prev = ms[i - 1].content->Blocks_0;
    let q = keeps_pair(ms, i - 1);
    let l = choose|l: int| 0 <= l < prev.len() && is_use(#[trigger] prev[l], id);
    assert(answered(ms, i - 1, id));
    assert(q(prev[l]));
    let n = lemma_kept(prev, q, l);
    let prev_now = out[i - 1].content->Blocks_0;
    assert(prev_now == prev.filter(q));
    assert(is_use(prev_now[n], id));
    assert(holds_use(prev_now, id));
}

/// What is sent obeys the protocol, whatever the history holds: every tool call
/// is answered right after it, every answer has its call right before it, and
/// every search its result.
pub proof fn sanitized_is_valid(ms: Seq<MessageView>)
    ensures
        wire_valid(sanitized(ms)),
{
    let mid = searches_repaired(ms);
    let out = sanitized(ms);
    assert forall|i: int, id: Text|
        0 <= i < out.len() && out[i].role is Assistant && #[trigger] calls(
            out[i].content,
            id,
        ) implies answered(out, i, id) by {
        lemma_call_answered(mid, i, id);
    }
    assert forall|i: int, id: Text|
        0 <= i < out.len() && out[i].role is User && #[trigger] answers(
            out[i].content,
            id,
        ) implies asked(out, i, id) by {
        lemma_answer_asked(mid, i, id);
    }
    assert forall|i: int| 0 <= i < out.len() implies search_paired((#[trigger] out[i]).content) by {
        if let ContentView::Blocks(bs) = ms[i].content {
            lemma_search_stable(bs);
        }
        lemma_pair_keeps_search(mid, i);
    }
}

/// A conversation that obeys the protocol, and in which no user message is
/// empty, is sent as it is.
pub proof fn valid_is_kept(ms: Seq<MessageView>)
    requires
        wire_valid(ms),
        forall|i: int|
            0 <= i < ms.len() && (#[trigger] ms[i]).role is User ==> (
            ms[i].content matches ContentView::Blocks(bs) ==> bs.len() > 0),
    ensures
        sanitized(ms) == ms,
{
    let mid = searches_repaired(ms);
    assert forall|i: int| 0 <= i < ms.len() implies #[trigger] mid[i] == ms[i] by {
        if let ContentView::Blocks(bs) = ms[i].content {
            lemma_all_kept(bs, keeps_search(bs));
        }
    }
    assert(mid =~= ms);
    let out = pairs_repaired(ms);
    assert forall|i: int| 0 <= i < ms.len() implies #[trigger] out[i] == ms[i] by {
        if let ContentView::Blocks(bs) = ms[i].content {
            let p = keeps_pair(ms, i);
            assert forall|k: int| 0 <= k < bs.len() implies p(#[trigger] bs[k]) by {
                match bs[k] {
                    BlockView::ToolUse { id, .. } => {
                        assert(is_use(bs[k], id));
                        assert(calls(ms[i].content, id));
                    },
                    BlockView::ToolResult { tool_use_id, .. } => {
                        assert(is_result(bs[k], tool_use_id));
                        assert(answers(ms[i].content, tool_use_id));
                    },
                    _ => {},
                }
            }
            lemma_all_kept(bs, p);
        }
    }
    assert(out =~= ms);
}

/// Sanitizing twice changes nothing more than sanitizing once.
pub proof fn sanitized_is_stable(ms: Seq<MessageView>)
    ensures
        sanitized(sanitized(ms)) == sanitized(ms),
{
    sanitized_is_valid(ms);
    valid_is_kept(sanitized(ms));
}

/// Sanitizing keeps the number of messages, who said what when, and all plain
/// text messages.
pub proof fn sanitized_keeps_frame(ms: Seq<MessageView>)
    ensures
        sanitized(ms).len() == ms.len(),
        forall|i: int|
            0 <= i < ms.len() ==> (#[trigger] sanitized(ms)[i]).role == ms[i].role
                && sanitized(ms)[i].timestamp == ms[i].timestamp && sanitized(ms)[i].internal
                == ms[i].internal && (ms[i].content is Text ==> sanitized(ms)[i].content
                == ms[i].content),
{
}

/// A message without calls and answers can follow any paired history.
pub proof fn lemma_push_plain(ms: Seq<MessageView>, m: MessageView)
    requires
        pairs_valid(ms),
        m.role is Assistant ==> forall|id: Text| !calls(m.content, id),
        m.role is User ==> forall|id: Text| !answers(m.content, id),
    ensures
        pairs_valid(ms.push(m)),
{
    let out = ms.push(m);
    assert forall|i: int, id: Text|
        0 <= i < out.len() && out[i].role is Assistant && #[trigger] calls(
            out[i].content,
            id,
        ) implies answered(out, i, id) by {
        assert(out[i] == ms[i]);
        assert(calls(ms[i].content, id));
        assert(answered(ms, i, id));
        assert(out[i + 1] == ms[i + 1]);
    }
    assert forall|i: int, id: Text|
        0 <= i < out.len() && out[i].role is User && #[trigger] answers(
            out[i].content,
            id,
        ) implies asked(out, i, id) by {
        assert(out[i] == ms[i]);
        assert(answers(ms[i].content, id));
        assert(asked(ms, i, id));
        assert(out[i - 1] == ms[i - 1]);
    }
}

/// A call and a message that answers it, and nothing else, can follow any paired
/// history.
pub proof fn lemma_push_pair(ms: Seq<MessageView>, a: MessageView, u: MessageView)
    requires
        pairs_valid(ms),
        a.role is Assistant,
        u.role is User,
        forall|id: Text| #[trigger] calls(a.content, id) <==> answers(u.content, id),
    ensures
        pairs_valid(ms.push(a).push(u)),
{
    let out = ms.push(a).push(u);
    let n = ms.len() as int;
    assert(out[n] == a && out[n + 1] == u);
    assert forall|i: int, id: Text|
        0 <= i < out.len() && out[i].role is Assistant && #[trigger] calls(
            out[i].content,
            id,
        ) implies answered(out, i, id) by {
        if i < n {
            assert(out[i] == ms[i]);
            assert(calls(ms[i].content, id));
            assert(answered(ms, i, id));
            assert(out[i + 1] == ms[i + 1]);
        } else {
            assert(calls(a.content, id));
        }
    }
    assert forall|i: int, id: Text|
        0 <= i < out.len() && out[i].role is User && #[trigger] answers(
            out[i].content,
            id,
        ) implies asked(out, i, id) by {
        if i < n {
            assert(out[i] == ms[i]);
            assert(answers(ms[i].content, id));
            assert(asked(ms, i, id));
            assert(out[i - 1] == ms[i - 1]);
        } else {
            assert(calls(a.content, id));
        }
    }
}

} // verus!
