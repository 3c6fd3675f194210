//! What is stored of a conversation, and what a summary leaves of it.

use crate::history::{
    block_texts, compacted, cut_place, first_thinking, history_tokens, message_tokens, outward,
    pulled_back, restored_message, snapshot, stored_view,
};
use crate::laws::words::parts_stand_in_whole;
use crate::message::{has_result, uses_tool, BlockView, ContentView, MessageView, Role};
use crate::session::{
    title_of, with_birth, with_session, without_session, MetaView, SessionView, StoredView,
};
use crate::text::{byte_len, ends, is_blank, occurs, occurs_at, replaced, trimmed, Text};
use vstd::prelude::*;
use vstd::utf8::{encode_utf8, encode_utf8_decode_utf8};

verus! {

/// Deleting takes out the session of that id and no other; saving adds one and takes
/// out only what stood under its id. Whatever else was listed still is.
pub proof fn other_sessions_stay(sessions: Seq<MetaView>, id: Text, meta: MetaView, m: MetaView)
    ensures
        without_session(sessions, id).contains(m) <==> sessions.contains(m) && m.id != id,
        with_session(sessions, meta).contains(m) <==> m == meta || (sessions.contains(m) && m.id
            != meta.id),
{
    lemma_without(sessions, id, m);
    lemma_without(sessions, meta.id, m);
    let rest = without_session(sessions, meta.id);
    let all = with_session(sessions, meta);
    assert(all[rest.len() as int] == meta);
    if rest.contains(m) {
        let i = choose|i: int| 0 <= i < rest.len() && rest[i] == m;
        assert(all[i] == m);
    }
}

proof fn lemma_without(sessions: Seq<MetaView>, id: Text, m: MetaView)
    ensures
        without_session(sessions, id).contains(m) <==> sessions.contains(m) && m.id != id,
    decreases sessions.len(),
{
    broadcast use vstd::seq_lib::group_filter_ensures;

    let p = |x: MetaView| x.id != id;
    let out = sessions.filter(p);
    if out.contains(m) {
        let i = choose|i: int| 0 <= i < out.len() && out[i] == m;
        assert(p(out[i]));
        sessions.lemma_filter_contains_rev(p, m);
    }
    if sessions.contains(m) && m.id != id {
        let i = choose|i: int| 0 <= i < sessions.len() && sessions[i] == m;
        assert(p(sessions[i]));
    }
}

/// A saved session is stored with everything it has; only its date of birth is that of
/// the session that is already there.
pub proof fn sessions_are_stored_whole(s: SessionView, existing: Option<SessionView>)
    ensures
        ({
            let w = with_birth(s, existing);
            &&& w.messages == s.messages
            &&& w.goal == s.goal
            &&& w.meta.id == s.meta.id
            &&& w.meta.title == s.meta.title
            &&& w.meta.updated_at == s.meta.updated_at
            &&& w.meta.message_count == s.meta.message_count
            &&& w.meta.workspace == s.meta.workspace
            &&& existing matches Some(e) ==> w.meta.created_at == e.meta.created_at
            &&& existing is None ==> w.meta.created_at == s.meta.created_at
        }),
{
}

/// A short first message of one line is its own title, without the white around it.
pub proof fn short_titles_are_kept(m: Text)
    requires
        !trimmed(m).contains('\n'),
        byte_len(trimmed(m)) <= 50,
    ensures
        title_of(m) == trimmed(m),
{
    lemma_unchanged(trimmed(m), 0);
    assert(trimmed(m).skip(0) =~= trimmed(m));
}

proof fn lemma_encoded(a: Text, b: Text)
    ensures
        encode_utf8(a + b) == encode_utf8(a) + encode_utf8(b),
    decreases a.len(),
{
    if a.len() > 0 {
        lemma_encoded(a.drop_first(), b);
        assert((a + b).drop_first() =~= a.drop_first() + b);
        assert(encode_utf8(a + b) =~= encode_utf8(a) + encode_utf8(b));
    } else {
        assert(a + b =~= b);
        assert(encode_utf8(a) + encode_utf8(b) =~= encode_utf8(b));
    }
}

/// A first message of several lines is put on one line; of one that is longer than fifty
/// bytes the first forty-seven are kept, and that something was cut is shown.
pub proof fn long_titles_are_cut(m: Text, k: int)
    ensures
        ({
            let line = replaced(trimmed(m), "\n"@, " "@);
            &&& byte_len(line) <= 50 ==> title_of(m) == line
            &&& byte_len(line) > 50 && 0 <= k <= line.len() && byte_len(line.take(k)) == 47
                ==> title_of(m) == line.take(k) + "..."@
        }),
{
    let line = replaced(trimmed(m), "\n"@, " "@);
    if byte_len(line) > 50 && 0 <= k <= line.len() && byte_len(line.take(k)) == 47 {
        let a = line.take(k);
        lemma_encoded(a, line.skip(k));
        assert(a + line.skip(k) =~= line);
        assert(encode_utf8(line).subrange(0, 47) =~= encode_utf8(a));
        encode_utf8_decode_utf8(a);
    }
}

proof fn lemma_unchanged(s: Text, from: int)
    requires
        !s.contains('\n'),
        0 <= from <= s.len(),
    ensures
        crate::text::replaced_from(s, "\n"@, " "@, from) == s.skip(from),
    decreases s.len() - from,
{
    reveal_strlit("\n");
    if from < s.len() {
        lemma_unchanged(s, from + 1);
        assert(s.contains(s[from]));
        if occurs_at(s, "\n"@, from) {
            assert(s.subrange(from, from + 1)[0] == s[from]);
        }
        assert(seq![s[from]] + s.skip(from + 1) =~= s.skip(from));
    } else {
        assert(s.skip(from) =~= Seq::<char>::empty());
    }
}

proof fn lemma_texts(bs: Seq<BlockView>, i: int)
    requires
        0 <= i < bs.len(),
        bs[i] is Text,
    ensures
        block_texts(bs).contains(bs[i]->Text_text),
    decreases bs.len(),
{
    let before = block_texts(bs.drop_last());
    let t = bs[i]->Text_text;
    if i < bs.len() - 1 {
        lemma_texts(bs.drop_last(), i);
        let k = choose|k: int| 0 <= k < before.len() && before[k] == t;
        assert(block_texts(bs)[k] == t);
    } else {
        assert(block_texts(bs)[before.len() as int] == t);
    }
}

proof fn lemma_thinking(bs: Seq<BlockView>, from: int, i: int)
    requires
        0 <= from <= i < bs.len(),
        bs[i] is Thinking,
        forall|k: int| from <= k < i ==> !(#[trigger] bs[k] is Thinking),
    ensures
        first_thinking(bs, from) == Some(bs[i]->Thinking_thinking),
    decreases i - from,
{
    if from < i {
        lemma_thinking(bs, from + 1, i);
    }
}

/// A message is stored with its role, its time and all its blocks; for display, with
/// the text of each of its text blocks and its first reasoning.
pub proof fn messages_are_stored_whole(m: MessageView, i: int)
    ensures
        ({
            let s = stored_view(m);
            &&& s.role == (match m.role {
                Role::User => "user"@,
                Role::Assistant => "assistant"@,
            })
            &&& s.timestamp == m.timestamp
            &&& m.content matches ContentView::Text(t) ==> s.content == t && s.blocks is None
                && s.thinking_content is None
            &&& m.content matches ContentView::Blocks(bs) ==> {
                &&& s.blocks == Some(bs)
                &&& 0 <= i < bs.len() && bs[i] is Text ==> occurs(s.content, bs[i]->Text_text)
                &&& 0 <= i < bs.len() && bs[i] is Thinking && (forall|k: int|
                    0 <= k < i ==> !(#[trigger] bs[k] is Thinking)) ==> s.thinking_content == Some(
                    bs[i]->Thinking_thinking,
                )
            }
        }),
{
    if let ContentView::Blocks(bs) = m.content {
        if 0 <= i < bs.len() && bs[i] is Text {
            lemma_texts(bs, i);
            let ts = block_texts(bs);
            let k = choose|k: int| 0 <= k < ts.len() && ts[k] == bs[i]->Text_text;
            parts_stand_in_whole(ts, "\n"@, k);
        }
        if 0 <= i < bs.len() && bs[i] is Thinking && (forall|k: int|
            0 <= k < i ==> !(#[trigger] bs[k] is Thinking)) {
            lemma_thinking(bs, 0, i);
        }
    }
}

/// An answer that was stored without blocks comes back with its reasoning and its text.
pub proof fn old_answers_come_back(s: StoredView)
    requires
        s.role == "assistant"@,
        s.blocks is None,
    ensures
        ({
            let m = restored_message(s)->Some_0;
            let bs = m.content->Blocks_0;
            &&& restored_message(s) is Some
            &&& m.role is Assistant
            &&& m.timestamp == s.timestamp
            &&& m.content is Blocks
            &&& s.content.len() > 0 ==> bs.len() > 0 && bs.last() == (BlockView::Text {
                text: s.content,
            })
            &&& s.thinking_content matches Some(t) ==> t.len() > 0 ==> bs.len() > 0 && bs[0] == (
            BlockView::Thinking { thinking: t, signature: None })
            &&& bs.len() <= 2
        }),
{
    reveal_strlit("user");
    reveal_strlit("assistant");
    assert("user"@.len() != "assistant"@.len());
}

/// What is kept of a conversation is every message that is not a trigger of a
/// continuation turn, in order.
pub proof fn outward_is_all_but_triggers(ms: Seq<MessageView>)
    ensures
        outward(ms) == ms.filter(|m: MessageView| !m.internal),
        snapshot(ms).len() == ms.filter(|m: MessageView| !m.internal).len(),
        forall|i: int|
            0 <= i < snapshot(ms).len() ==> #[trigger] snapshot(ms)[i] == stored_view(
                outward(ms)[i],
            ),
    decreases ms.len(),
{
    let p = |m: MessageView| !m.internal;
    if ms.len() > 0 {
        let t = ms.drop_last();
        outward_is_all_but_triggers(t);
        t.lemma_filter_push(ms.last(), p);
        assert(t.push(ms.last()) =~= ms);
    } else {
        reveal(Seq::filter);
        assert(ms.filter(p) =~= Seq::<MessageView>::empty());
    }
}

proof fn lemma_pulled(ms: Seq<MessageView>, n: int)
    requires
        0 <= n <= ms.len(),
    ensures
        0 <= pulled_back(ms, n) <= n,
        forall|i: int|
            pulled_back(ms, n) < i <= n ==> i < ms.len() && #[trigger] uses_tool(ms[i - 1].content)
                && has_result(ms[i].content),
    decreases n,
{
    if 0 < n < ms.len() && uses_tool(ms[n - 1].content) && has_result(ms[n].content) {
        lemma_pulled(ms, n - 1);
    }
}

/// A summary takes in all but the latest six messages; it stops earlier only so as not
/// to part a call from its answer, and then no earlier than that needs.
pub proof fn summaries_take_in_the_rest(ms: Seq<MessageView>)
    ensures
        ms.len() <= 6 ==> cut_place(ms) == 0,
        ms.len() > 6 ==> cut_place(ms) <= ms.len() - 6,
        ms.len() > 6 && !(uses_tool(ms[ms.len() - 7].content) && has_result(
            ms[ms.len() - 6].content,
        )) ==> cut_place(ms) == ms.len() - 6,
        forall|i: int|
            cut_place(ms) < i <= ms.len() - 6 ==> #[trigger] uses_tool(ms[i - 1].content)
                && has_result(ms[i].content),
{
    if ms.len() > 6 {
        lemma_pulled(ms, ms.len() - 6);
    }
}

/// After a summary the history is what it says, unless it is blank, and then what was
/// kept, as it was.
pub proof fn summaries_stand_first(kept: Seq<MessageView>, summary: Text, now: i64)
    ensures
        ({
            let c = compacted(kept, summary, now);
            &&& is_blank(summary) ==> c == kept
            &&& !is_blank(summary) ==> {
                &&& c.len() == kept.len() + 1
                &&& c.skip(1) == kept
                &&& c[0].role is User
                &&& c[0].timestamp == now
                &&& !c[0].internal
                &&& c[0].content matches ContentView::Text(t) && ends(t, summary)
            }
        }),
{
    let c = compacted(kept, summary, now);
    if !is_blank(summary) {
        assert(c.skip(1) =~= kept);
        let t = c[0].content->Text_0;
        assert(t.subrange(t.len() - summary.len(), t.len() as int) =~= summary);
    }
}

/// The tokens of a history add up: those of its parts together, of a message those of
/// its texts and its reasoning.
pub proof fn tokens_add_up(a: Seq<MessageView>, b: Seq<MessageView>, m: MessageView)
    ensures
        history_tokens(a + b) == history_tokens(a) + history_tokens(b),
        history_tokens(seq![m]) == message_tokens(m),
        m.content matches ContentView::Text(t) ==> message_tokens(m)
            == crate::context::token_estimate(t),
    decreases b.len(),
{
    reveal_with_fuel(history_tokens, 2);
    if b.len() > 0 {
        tokens_add_up(a, b.drop_last(), m);
        assert((a + b).drop_last() =~= a + b.drop_last());
    } else {
        assert(a + b =~= a);
    }
    assert(seq![m].drop_last() =~= Seq::<MessageView>::empty());
}

/// The tokens of blocks add up; texts and reasoning count by their words, what tools
/// and searches say does not.
pub proof fn block_tokens_add_up(a: Seq<BlockView>, b: Seq<BlockView>, x: BlockView)
    ensures
        crate::history::blocks_tokens(a + b) == crate::history::blocks_tokens(a)
            + crate::history::blocks_tokens(b),
        crate::history::blocks_tokens(seq![x]) == (match x {
            BlockView::Text { text } => crate::context::token_estimate(text),
            BlockView::Thinking { thinking, .. } => crate::context::token_estimate(thinking),
            _ => 0,
        }),
    decreases b.len(),
{
    reveal_with_fuel(crate::history::blocks_tokens, 2);
    if b.len() > 0 {
        block_tokens_add_up(a, b.drop_last(), x);
        assert((a + b).drop_last() =~= a + b.drop_last());
    } else {
        assert(a + b =~= a);
    }
    assert(seq![x].drop_last() =~= Seq::<BlockView>::empty());
}

} // verus!
