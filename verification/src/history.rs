//! The conversation's history: how it is stored and restored, what it takes of
//! the window, and how it is summarized.

use crate::context::{estimate_is_bounded, estimate_tokens, token_estimate};
use crate::message::{
    answers_tool, asks_for_tool, copy_blocks, has_result, role_text, uses_tool, BlockView, Content,
    ContentBlock, ContentView, Message, MessageView, Role,
};
use crate::session::{StoredMessage, StoredView};
use crate::text::{blank, is_blank, join, joined, lemma_views_push, opt_view, text_eq, views, Text};
use crate::wire::{answered, answers, asked, calls, is_result, is_use, search_paired, wire_valid};
use vstd::prelude::*;

verus! {

/// The texts of the text blocks.
pub open spec fn block_texts(bs: Seq<BlockView>) -> Seq<Text>
    decreases bs.len(),
{
    if bs.len() == 0 {
        Seq::empty()
    } else {
        let before = block_texts(bs.drop_last());
        match bs.last() {
            BlockView::Text { text } => before.push(text),
            _ => before,
        }
    }
}

/// The reasoning of the first block that holds some, from `from` on.
pub open spec fn first_thinking(bs: Seq<BlockView>, from: int) -> Option<Text>
    decreases bs.len() - from,
{
    if from >= bs.len() {
        None
    } else {
        match bs[from] {
            BlockView::Thinking { thinking, .. } => Some(thinking),
            _ => first_thinking(bs, from + 1),
        }
    }
}

/// A message as it is stored: its text for display, and its blocks in full.
pub open spec fn stored_view(m: MessageView) -> StoredView {
    StoredView {
        role: role_text(m.role),
        content: match m.content {
            ContentView::Text(t) => t,
            ContentView::Blocks(bs) => joined(block_texts(bs), "\n"@),
        },
        timestamp: m.timestamp,
        thinking_content: match m.content {
            ContentView::Text(_) => None,
            ContentView::Blocks(bs) => first_thinking(bs, 0),
        },
        blocks: match m.content {
            ContentView::Text(_) => None,
            ContentView::Blocks(bs) => Some(bs),
        },
    }
}

fn texts_of(bs: &Vec<ContentBlock>) -> (r: Vec<String>)
    ensures
        views(r@) == block_texts(views(bs@)),
{
    let mut out: Vec<String> = Vec::new();
    let mut i: usize = 0;
    assert(views(out@) =~= Seq::<Text>::empty());
    while i < bs.len()
        invariant
            i <= bs@.len(),
            views(out@) == block_texts(views(bs@).take(i as int)),
        decreases bs@.len() - i,
    {
        assert(views(bs@).take(i + 1).drop_last() =~= views(bs@).take(i as int));
        if let ContentBlock::Text { text } = &bs[i] {
            let copy = text.clone();
            proof {
                lemma_views_push(out@, copy);
            }
            out.push(copy);
        }
        i = i + 1;
    }
    assert(views(bs@).take(i as int) =~= views(bs@));
    out
}

fn thinking_of(bs: &Vec<ContentBlock>) -> (r: Option<String>)
    ensures
        opt_view(r) == first_thinking(views(bs@), 0),
{
    let mut i: usize = 0;
    while i < bs.len()
        invariant
            i <= bs@.len(),
            first_thinking(views(bs@), i as int) == first_thinking(views(bs@), 0),
        decreases bs@.len() - i,
    {
        assert(views(bs@)[i as int] == bs@[i as int]@);
        if let ContentBlock::Thinking { thinking, .. } = &bs[i] {
            return Some(thinking.clone());
        }
        i = i + 1;
    }
    None
}

/// A message as it is stored.
pub fn stored_from_message(m: &Message) -> (r: StoredMessage)
    ensures
        r@ == stored_view(m@),
{
    let role = match m.role {
        Role::User => "user".to_string(),
        Role::Assistant => "assistant".to_string(),
    };
    match &m.content {
        Content::Text(t) => StoredMessage {
            role,
            content: t.clone(),
            timestamp: m.timestamp,
            thinking_content: None,
            blocks: None,
        },
        Content::Blocks(bs) => {
            let texts = texts_of(bs);
            assert(views(texts@).subrange(0, texts@.len() as int) =~= views(texts@));
            StoredMessage {
                role,
                content: join(&texts, 0, texts.len(), "\n"),
                timestamp: m.timestamp,
                thinking_content: thinking_of(bs),
                blocks: Some(copy_blocks(bs)),
            }
        },
    }
}

/// What is stored of a conversation: all of it but the triggers of continuation
/// turns.
pub open spec fn snapshot(ms: Seq<MessageView>) -> Seq<StoredView>
    decreases ms.len(),
{
    if ms.len() == 0 {
        Seq::empty()
    } else {
        let before = snapshot(ms.drop_last());
        if ms.last().internal {
            before
        } else {
            before.push(stored_view(ms.last()))
        }
    }
}

/// What is stored of a conversation.
pub fn snapshot_of(messages: &Vec<Message>) -> (r: Vec<StoredMessage>)
    ensures
        views(r@) == snapshot(views(messages@)),
{
    let mut out: Vec<StoredMessage> = Vec::new();
    let mut i: usize = 0;
    assert(views(out@) =~= Seq::<StoredView>::empty());
    while i < messages.len()
        invariant
            i <= messages@.len(),
            views(out@) == snapshot(views(messages@).take(i as int)),
        decreases messages@.len() - i,
    {
        assert(views(messages@).take(i + 1).drop_last() =~= views(messages@).take(i as int));
        if !messages[i].internal {
            let s = stored_from_message(&messages[i]);
            proof {
                lemma_views_push(out@, s);
            }
            out.push(s);
        }
        i = i + 1;
    }
    assert(views(messages@).take(i as int) =~= views(messages@));
    out
}

/// The blocks of an assistant message that was stored without them.
pub open spec fn rebuilt_blocks(thinking: Option<Text>, content: Text) -> Seq<BlockView> {
    let a = match thinking {
        Some(t) => if t.len() > 0 {
            seq![BlockView::Thinking { thinking: t, signature: None }]
        } else {
            Seq::empty()
        },
        None => Seq::empty(),
    };
    if content.len() > 0 {
        a.push(BlockView::Text { text: content })
    } else {
        a
    }
}

/// The message that was stored; none for a role that is not known.
pub open spec fn restored_message(s: StoredView) -> Option<MessageView> {
    if s.role == "user"@ {
        Some(
            MessageView {
                role: Role::User,
                content: match s.blocks {
                    Some(bs) => ContentView::Blocks(bs),
                    None => ContentView::Text(s.content),
                },
                timestamp: s.timestamp,
                internal: false,
            },
        )
    } else if s.role == "assistant"@ {
        Some(
            MessageView {
                role: Role::Assistant,
                content: ContentView::Blocks(
                    match s.blocks {
                        Some(bs) => bs,
                        None => rebuilt_blocks(s.thinking_content, s.content),
                    },
                ),
                timestamp: s.timestamp,
                internal: false,
            },
        )
    } else {
        None
    }
}

/// The conversation that was stored.
pub open spec fn restored(stored: Seq<StoredView>) -> Seq<MessageView>
    decreases stored.len(),
{
    if stored.len() == 0 {
        Seq::empty()
    } else {
        let before = restored(stored.drop_last());
        match restored_message(stored.last()) {
            Some(m) => before.push(m),
            None => before,
        }
    }
}

fn rebuild_blocks(thinking: &Option<String>, content: &String) -> (r: Vec<ContentBlock>)
    ensures
        views(r@) == rebuilt_blocks(opt_view(*thinking), content@),
{
    let mut blocks: Vec<ContentBlock> = Vec::new();
    assert(views(blocks@) =~= Seq::<BlockView>::empty());
    if let Some(t) = thinking {
        if !t.as_str().is_empty() {
            let b = ContentBlock::Thinking { thinking: t.clone(), signature: None };
            blocks.push(b);
            assert(views(blocks@) =~= seq![b@]);
        }
    }
    if !content.as_str().is_empty() {
        let b = ContentBlock::Text { text: content.clone() };
        proof {
            lemma_views_push(blocks@, b);
        }
        blocks.push(b);
    }
    blocks
}

fn restore_message(s: &StoredMessage) -> (r: Option<Message>)
    ensures
        opt_view(r) == restored_message(s@),
{
    if text_eq(&s.role, "user") {
        let content = match &s.blocks {
            Some(bs) => Content::Blocks(copy_blocks(bs)),
            None => Content::Text(s.content.clone()),
        };
        Some(Message { role: Role::User, content, timestamp: s.timestamp, internal: false })
    } else if text_eq(&s.role, "assistant") {
        let blocks = match &s.blocks {
            Some(bs) => copy_blocks(bs),
            None => rebuild_blocks(&s.thinking_content, &s.content),
        };
        Some(
            Message {
                role: Role::Assistant,
                content: Content::Blocks(blocks),
                timestamp: s.timestamp,
                internal: false,
            },
        )
    } else {
        None
    }
}

/// The conversation that was stored.
pub fn restore_messages(stored: &Vec<StoredMessage>) -> (r: Vec<Message>)
    ensures
        views(r@) == restored(views(stored@)),
{
    let mut out: Vec<Message> = Vec::new();
    let mut i: usize = 0;
    assert(views(out@) =~= Seq::<MessageView>::empty());
    while i < stored.len()
        invariant
            i <= stored@.len(),
            views(out@) == restored(views(stored@).take(i as int)),
        decreases stored@.len() - i,
    {
        assert(views(stored@).take(i + 1).drop_last() =~= views(stored@).take(i as int));
        if let Some(m) = restore_message(&stored[i]) {
            proof {
                lemma_views_push(out@, m);
            }
            out.push(m);
        }
        i = i + 1;
    }
    assert(views(stored@).take(i as int) =~= views(stored@));
    out
}

/// A message as it comes back from storage: an assistant message that was plain
/// text comes back as a text block.
pub open spec fn as_restored(m: MessageView) -> MessageView {
    MessageView {
        content: match m.content {
            ContentView::Text(t) => if m.role is Assistant {
                ContentView::Blocks(rebuilt_blocks(None, t))
            } else {
                m.content
            },
            ContentView::Blocks(_) => m.content,
        },
        ..m
    }
}

/// The messages that are stored, as they come back.
pub open spec fn kept_messages(ms: Seq<MessageView>) -> Seq<MessageView>
    decreases ms.len(),
{
    if ms.len() == 0 {
        Seq::empty()
    } else {
        let before = kept_messages(ms.drop_last());
        if ms.last().internal {
            before
        } else {
            before.push(as_restored(ms.last()))
        }
    }
}

/// A stored conversation comes back in full: every message but the triggers of
/// continuation turns, in order, with its role, its time and all its blocks.
pub proof fn snapshot_restores(ms: Seq<MessageView>)
    ensures
        restored(snapshot(ms)) == kept_messages(ms),
    decreases ms.len(),
{
    if ms.len() > 0 {
        snapshot_restores(ms.drop_last());
        let m = ms.last();
        if !m.internal {
            assert(snapshot(ms).drop_last() =~= snapshot(ms.drop_last()));
            reveal_strlit("user");
            reveal_strlit("assistant");
            assert("user"@.len() != "assistant"@.len());
            assert(restored_message(stored_view(m)) == Some(as_restored(m)));
        }
    }
}

/// A stored message with its blocks comes back exactly as it was.
pub proof fn blocks_come_back(m: MessageView)
    requires
        !m.internal,
        m.content is Blocks || m.role is User,
    ensures
        restored_message(stored_view(m)) == Some(m),
{
    reveal_strlit("user");
    reveal_strlit("assistant");
    assert("user"@.len() != "assistant"@.len());
}

/// The messages that are kept: all but the triggers of continuation turns.
pub open spec fn outward(ms: Seq<MessageView>) -> Seq<MessageView>
    decreases ms.len(),
{
    if ms.len() == 0 {
        Seq::empty()
    } else {
        let before = outward(ms.drop_last());
        if ms.last().internal {
            before
        } else {
            before.push(ms.last())
        }
    }
}

/// A conversation in which every assistant message holds blocks comes back exactly
/// as it was, but for the triggers of continuation turns.
pub proof fn history_comes_back(ms: Seq<MessageView>)
    requires
        forall|i: int|
            0 <= i < ms.len() && (#[trigger] ms[i]).role is Assistant ==> ms[i].content is Blocks,
    ensures
        restored(snapshot(ms)) == outward(ms),
    decreases ms.len(),
{
    snapshot_restores(ms);
    if ms.len() > 0 {
        let t = ms.drop_last();
        assert forall|i: int| 0 <= i < t.len() && (#[trigger] t[i]).role is Assistant implies
            t[i].content is Blocks by {
            assert(t[i] == ms[i]);
        }
        history_comes_back(t);
        snapshot_restores(t);
        assert(ms[ms.len() - 1] == ms.last());
    }
}

/// Of messages whose roles are not known nothing comes back.
pub proof fn unknown_roles_are_dropped(stored: Seq<StoredView>)
    requires
        forall|i: int|
            0 <= i < stored.len() ==> (#[trigger] stored[i]).role != "user"@ && stored[i].role
                != "assistant"@,
    ensures
        restored(stored).len() == 0,
    decreases stored.len(),
{
    if stored.len() > 0 {
        let t = stored.drop_last();
        assert forall|i: int| 0 <= i < t.len() implies (#[trigger] t[i]).role != "user"@
            && t[i].role != "assistant"@ by {
            assert(t[i] == stored[i]);
        }
        unknown_roles_are_dropped(t);
        assert(stored[stored.len() - 1] == stored.last());
    }
}

/// About how many tokens a block takes; only texts and reasoning count.
pub open spec fn block_tokens(b: BlockView) -> int {
    match b {
        BlockView::Text { text } => token_estimate(text),
        BlockView::Thinking { thinking, .. } => token_estimate(thinking),
        _ => 0,
    }
}

pub open spec fn blocks_tokens(bs: Seq<BlockView>) -> int
    decreases bs.len(),
{
    if bs.len() == 0 {
        0
    } else {
        blocks_tokens(bs.drop_last()) + block_tokens(bs.last())
    }
}

/// About how many tokens a message takes.
pub open spec fn message_tokens(m: MessageView) -> int {
    match m.content {
        ContentView::Text(t) => token_estimate(t),
        ContentView::Blocks(bs) => blocks_tokens(bs),
    }
}

/// About how many tokens some messages take.
pub open spec fn history_tokens(ms: Seq<MessageView>) -> int
    decreases ms.len(),
{
    if ms.len() == 0 {
        0
    } else {
        history_tokens(ms.drop_last()) + message_tokens(ms.last())
    }
}

proof fn lemma_blocks_prefix(bs: Seq<BlockView>, n: int)
    requires
        0 <= n <= bs.len(),
    ensures
        0 <= blocks_tokens(bs.take(n)) <= blocks_tokens(bs),
    decreases bs.len() - n,
{
    lemma_blocks_nat(bs.take(n));
    if n < bs.len() {
        lemma_blocks_prefix(bs, n + 1);
        assert(bs.take(n + 1).drop_last() =~= bs.take(n));
        lemma_block_nat(bs[n]);
    } else {
        assert(bs.take(n) =~= bs);
    }
}

proof fn lemma_block_nat(b: BlockView)
    ensures
        block_tokens(b) >= 0,
{
    match b {
        BlockView::Text { text } => estimate_is_bounded(text),
        BlockView::Thinking { thinking, .. } => estimate_is_bounded(thinking),
        _ => {},
    }
}

proof fn lemma_blocks_nat(bs: Seq<BlockView>)
    ensures
        blocks_tokens(bs) >= 0,
    decreases bs.len(),
{
    if bs.len() > 0 {
        lemma_blocks_nat(bs.drop_last());
        lemma_block_nat(bs.last());
    }
}

pub proof fn lemma_message_nat(m: MessageView)
    ensures
        message_tokens(m) >= 0,
{
    match m.content {
        ContentView::Text(t) => estimate_is_bounded(t),
        ContentView::Blocks(bs) => lemma_blocks_nat(bs),
    }
}

pub proof fn lemma_history_prefix(ms: Seq<MessageView>, n: int)
    requires
        0 <= n <= ms.len(),
    ensures
        0 <= history_tokens(ms.take(n)) <= history_tokens(ms),
        n < ms.len() ==> message_tokens(ms[n]) <= history_tokens(ms),
    decreases ms.len() - n,
{
    lemma_history_nat(ms.take(n));
    if n < ms.len() {
        lemma_history_prefix(ms, n + 1);
        assert(ms.take(n + 1).drop_last() =~= ms.take(n));
        lemma_message_nat(ms[n]);
    } else {
        assert(ms.take(n) =~= ms);
    }
}

proof fn lemma_history_nat(ms: Seq<MessageView>)
    ensures
        history_tokens(ms) >= 0,
    decreases ms.len(),
{
    if ms.len() > 0 {
        lemma_history_nat(ms.drop_last());
        lemma_message_nat(ms.last());
    }
}

/// About how many tokens a message takes.
pub fn estimate_message_tokens(msg: &Message) -> (r: u64)
    requires
        message_tokens(msg@) <= u64::MAX,
    ensures
        r == message_tokens(msg@),
{
    match &msg.content {
        Content::Text(t) => estimate_tokens(t),
        Content::Blocks(bs) => {
            let mut total: u64 = 0;
            let mut i: usize = 0;
            while i < bs.len()
                invariant
                    i <= bs@.len(),
                    total == blocks_tokens(views(bs@).take(i as int)),
                    blocks_tokens(views(bs@)) <= u64::MAX,
                decreases bs@.len() - i,
            {
                proof {
                    assert(views(bs@).take(i + 1).drop_last() =~= views(bs@).take(i as int));
                    lemma_blocks_prefix(views(bs@), i + 1);
                }
                let n: u64 = match &bs[i] {
                    ContentBlock::Text { text } => estimate_tokens(text),
                    ContentBlock::Thinking { thinking, .. } => estimate_tokens(thinking),
                    _ => 0,
                };
                total = total + n;
                i = i + 1;
            }
            assert(views(bs@).take(i as int) =~= views(bs@));
            total
        },
    }
}

/// About how many tokens some messages take.
pub fn estimate_history(messages: &Vec<Message>) -> (r: u64)
    requires
        history_tokens(views(messages@)) <= u64::MAX,
    ensures
        r == history_tokens(views(messages@)),
{
    let mut total: u64 = 0;
    let mut i: usize = 0;
    while i < messages.len()
        invariant
            i <= messages@.len(),
            total == history_tokens(views(messages@).take(i as int)),
            history_tokens(views(messages@)) <= u64::MAX,
        decreases messages@.len() - i,
    {
        proof {
            assert(views(messages@).take(i + 1).drop_last() =~= views(messages@).take(i as int));
            lemma_history_prefix(views(messages@), i + 1);
            lemma_history_prefix(views(messages@), i as int);
        }
        total = total + estimate_message_tokens(&messages[i]);
        i = i + 1;
    }
    assert(views(messages@).take(i as int) =~= views(messages@));
    total
}

/// How many of the latest messages are never summarized.
pub const KEPT_VERBATIM: usize = 6;

/// The cut moved back so that it does not part a tool call from its answer.
pub open spec fn pulled_back(ms: Seq<MessageView>, n: int) -> int
    decreases n,
{
    if 0 < n < ms.len() && uses_tool(ms[n - 1].content) && has_result(ms[n].content) {
        pulled_back(ms, n - 1)
    } else {
        n
    }
}

/// Where the history is cut: what stands before is summarized, the rest is kept.
pub open spec fn cut_place(ms: Seq<MessageView>) -> int {
    pulled_back(
        ms,
        if ms.len() > KEPT_VERBATIM {
            ms.len() - KEPT_VERBATIM
        } else {
            0
        },
    )
}

proof fn lemma_pulled_back(ms: Seq<MessageView>, n: int)
    requires
        0 <= n <= ms.len(),
    ensures
        0 <= pulled_back(ms, n) <= n,
        0 < pulled_back(ms, n) < ms.len() ==> !(uses_tool(ms[pulled_back(ms, n) - 1].content)
            && has_result(ms[pulled_back(ms, n)].content)),
    decreases n,
{
    if 0 < n < ms.len() && uses_tool(ms[n - 1].content) && has_result(ms[n].content) {
        lemma_pulled_back(ms, n - 1);
    }
}

/// Where the history is cut for a summary.
pub fn compaction_cut(messages: &Vec<Message>) -> (r: usize)
    ensures
        r == cut_place(views(messages@)),
        r <= messages@.len(),
{
    let ghost ms = views(messages@);
    let mut split: usize = messages.len().saturating_sub(KEPT_VERBATIM);
    while split > 0 && split < messages.len() && asks_for_tool(&messages[split - 1].content)
        && answers_tool(&messages[split].content)
        invariant
            split <= messages@.len(),
            ms == views(messages@),
            pulled_back(ms, split as int) == cut_place(ms),
        decreases split,
    {
        assert(ms[split as int] == messages@[split as int]@);
        assert(ms[split - 1] == messages@[split - 1]@);
        split = split - 1;
    }
    assert(0 < split < messages@.len() ==> ms[split as int] == messages@[split as int]@
        && ms[split - 1] == messages@[split - 1]@);
    split
}

/// What stands for the summarized part.
pub open spec fn summary_message(summary: Text, now: i64) -> MessageView {
    MessageView {
        role: Role::User,
        content: ContentView::Text("## Conversation Summary (compacted earlier)\n\n"@ + summary),
        timestamp: now,
        internal: false,
    }
}

/// The history after a summary: the summary, unless it is blank, and what was
/// kept.
pub open spec fn compacted(kept: Seq<MessageView>, summary: Text, now: i64) -> Seq<MessageView> {
    if is_blank(summary) {
        kept
    } else {
        seq![summary_message(summary, now)] + kept
    }
}

/// The history after a summary.
pub fn rebuild_history(kept: Vec<Message>, summary: &str, now: i64) -> (r: Vec<Message>)
    ensures
        views(r@) == compacted(views(kept@), summary@, now),
{
    if blank(summary) {
        return kept;
    }
    let mut text = "## Conversation Summary (compacted earlier)\n\n".to_string();
    text.push_str(summary);
    let m = Message {
        role: Role::User,
        content: Content::Text(text),
        timestamp: now,
        internal: false,
    };
    let mut out = kept;
    let ghost was = views(out@);
    out.insert(0, m);
    assert(views(out@) =~= seq![m@] + was);
    out
}

/// A summary never parts a tool call from its answer, and at least the latest six
/// messages stay as they are.
pub proof fn cut_keeps_pairs(ms: Seq<MessageView>)
    ensures
        0 <= cut_place(ms) <= ms.len(),
        0 < cut_place(ms) < ms.len() ==> !(uses_tool(ms[cut_place(ms) - 1].content) && has_result(
            ms[cut_place(ms)].content,
        )),
        ms.len() - cut_place(ms) >= (if ms.len() < KEPT_VERBATIM {
            ms.len() as int
        } else {
            KEPT_VERBATIM as int
        }),
{
    lemma_pulled_back(
        ms,
        if ms.len() > KEPT_VERBATIM {
            ms.len() - KEPT_VERBATIM
        } else {
            0
        },
    );
}

/// A history that obeys the protocol still does so after a summary.
pub proof fn compaction_stays_valid(ms: Seq<MessageView>, summary: Text, now: i64)
    requires
        wire_valid(ms),
    ensures
        wire_valid(compacted(ms.skip(cut_place(ms)), summary, now)),
{
    cut_keeps_pairs(ms);
    let cut = cut_place(ms);
    let kept = ms.skip(cut);
    let out = compacted(kept, summary, now);
    let shift = if is_blank(summary) {
        0int
    } else {
        1int
    };
    assert forall|i: int| shift <= i < out.len() implies #[trigger] out[i] == ms[i - shift
        + cut] by {}
    assert forall|i: int, id: Text|
        0 <= i < out.len() && out[i].role is Assistant && #[trigger] calls(
            out[i].content,
            id,
        ) implies answered(out, i, id) by {
        let j = i - shift + cut;
        assert(out[i] == ms[j]);
        assert(calls(ms[j].content, id));
        assert(answered(ms, j, id));
        assert(out[i + 1] == ms[j + 1]);
    }
    assert forall|i: int, id: Text|
        0 <= i < out.len() && out[i].role is User && #[trigger] answers(
            out[i].content,
            id,
        ) implies asked(out, i, id) by {
        let j = i - shift + cut;
        assert(i >= shift);
        assert(out[i] == ms[j]);
        assert(answers(ms[j].content, id));
        assert(asked(ms, j, id));
        if j == cut {
            let bs = ms[j - 1].content->Blocks_0;
            let k = choose|k: int| 0 <= k < bs.len() && is_use(#[trigger] bs[k], id);
            assert(bs[k] is ToolUse);
            assert(uses_tool(ms[j - 1].content));
            let cs = ms[j].content->Blocks_0;
            let l = choose|l: int| 0 <= l < cs.len() && is_result(#[trigger] cs[l], id);
            assert(cs[l] is ToolResult);
            assert(has_result(ms[j].content));
            assert(false);
        }
        assert(out[i - 1] == ms[j - 1]);
    }
    assert forall|i: int| 0 <= i < out.len() implies search_paired((#[trigger] out[i]).content) by {
        if i >= shift {
            assert(out[i] == ms[i - shift + cut]);
        }
    }
}

} // verus!
