//! When turns go on and end, what is chosen for a turn, and what is printed of it.

use crate::agent::{can_auto_advance, StateView};
use crate::api::{MODEL_FLASH, MODEL_PRO};
use crate::console::{
    displayed, is_last_frame, key_from, options_from, printed_frame, run_launch_of, PrintedView,
    GREY, PLAIN,
};
use crate::driver::{
    chosen_model, end_before_turn, harness_choice, harness_prompt, launch_of, listed_files,
    prompt_of, runtime_of, settled, with_turn, BurstView, FileEntry, FileEntryView,
    RuntimePlacesView,
};
use crate::harness::FrameView;
use crate::json::{field, json_parse, json_text, text_at, JsonView};
use crate::order::ordered_is_sorted;
use crate::paths::path_joined;
use crate::text::{begins, decimal, ends, is_blank, occurs, occurs_at, Text};
use crate::turn::{asks_user, mode_for, TurnResultView};
use vstd::prelude::*;

verus! {

/// Another turn follows exactly where one may, the last one said something, and, after
/// the first one, did not ask the user.
pub proof fn turns_go_on(b: BurstView, s: StateView)
    ensures
        end_before_turn(b, s) is None <==> can_auto_advance(s) && !is_blank(b.result.message) && (
        b.count == 0 || !asks_user(b.result.message)),
        can_auto_advance(s) && is_blank(b.result.message) ==> end_before_turn(b, s) == Some(
            "stalled"@,
        ),
        can_auto_advance(s) && !is_blank(b.result.message) && b.count > 0 && asks_user(
            b.result.message,
        ) ==> end_before_turn(b, s) == Some("needs_input"@),
{
}

/// Why turns rest is told by what stops them: the mode, the state of the goal, or that
/// there are no turns left or no goal.
pub proof fn rests_are_explained(b: BurstView, s: StateView)
    requires
        !can_auto_advance(s),
    ensures
        ({
            let r = end_before_turn(b, s);
            &&& !s.goal_mode ==> r == Some("goal_mode_off"@)
            &&& s.goal_mode ==> (s.goal matches Some(g) ==> {
                &&& g.status is Complete ==> r == Some("goal_complete"@)
                &&& g.status is Blocked ==> r == Some("goal_blocked"@)
                &&& g.status is BudgetLimited ==> r == Some("budget_limited"@)
                &&& g.status is Paused ==> r == Some("goal_paused"@)
                &&& g.status is Active && b.count > 0 ==> r == Some("max_turns"@)
            })
            &&& s.goal_mode && s.goal is None && b.count == 0 ==> r == Some("no_goal"@)
        }),
{
}

/// The answer of some turns is the last one that says something and asks nothing, where
/// they end with a question; otherwise the last one.
pub proof fn answers_are_settled(b: BurstView, s: StateView, r: TurnResultView)
    ensures
        with_turn(b, r).result == r,
        with_turn(b, r).count == b.count,
        with_turn(b, r).last_substantive == (if is_blank(r.message) || asks_user(r.message) {
            b.last_substantive
        } else {
            r
        }),
        end_before_turn(b, s) == Some("needs_input"@) && can_auto_advance(s) ==> settled(
            b,
            s,
        ).result == b.last_substantive,
        !can_auto_advance(s) || end_before_turn(b, s) is None ==> settled(b, s) == b,
        settled(b, s).count == b.count,
{
    reveal_strlit("stalled");
    reveal_strlit("needs_input");
    assert("stalled"@.len() != "needs_input"@.len());
}

/// A short text that ends with a question mark, after the white behind it, asks the
/// user; a text without one does not.
pub proof fn questions_ask(t: Text)
    requires
        crate::text::trimmed(t) == t,
        t.len() > 0,
    ensures
        t.last() == '?' && t.len() < 300 ==> asks_user(t),
        t.last() == '？' && t.len() < 300 ==> asks_user(t),
        t.last() != '?' && t.last() != '？' ==> !asks_user(t),
        t.len() >= 300 ==> !asks_user(t),
{
    reveal_strlit("?");
    reveal_strlit("？");
    let n = t.len() as int;
    assert(t.subrange(n - 1, n) =~= seq![t.last()]);
    assert("?"@ =~= seq!['?']);
    assert("？"@ =~= seq!['？']);
    if t.last() != '?' {
        assert(t.subrange(n - 1, n)[0] != "?"@[0]);
    }
    if t.last() != '？' {
        assert(t.subrange(n - 1, n)[0] != "？"@[0]);
    }
}

/// A model that is known is used as it was asked for; anything else is the fast one.
pub proof fn models_are_chosen(m: Text)
    ensures
        chosen_model(Some(MODEL_FLASH@)) == MODEL_FLASH@,
        chosen_model(Some(MODEL_PRO@)) == MODEL_PRO@,
        m != MODEL_PRO@ ==> chosen_model(Some(m)) == MODEL_FLASH@,
        chosen_model(None) == MODEL_FLASH@,
{
}

/// How hard to think is as it was asked for, with the budget that is set for it.
pub proof fn modes_are_chosen(label: Option<Text>, think: u32, deep: u32)
    ensures
        label == Some("non-think"@) ==> mode_for(label, think, deep) is NonThink,
        label == Some("think-max"@) ==> mode_for(label, think, deep) == (
        crate::api::ThinkingMode::ThinkMax { budget_tokens: deep }),
        label != Some("non-think"@) && label != Some("think-max"@) ==> mode_for(label, think, deep)
            == (crate::api::ThinkingMode::ThinkHigh { budget_tokens: think }),
{
    reveal_strlit("non-think");
    reveal_strlit("think-max");
    assert("non-think"@[0] == 'n' && "think-max"@[0] == 't');
}

/// A turn of the runtime is as it was asked for, with a default for what was not said;
/// it is refused exactly where there is no key or a word that is not known.
pub proof fn runtime_turns_are_chosen(
    key: Text,
    thinking: Option<Text>,
    session: Option<Text>,
    mode: Option<Text>,
    sandbox: Option<Text>,
)
    ensures
        ({
            let c = harness_choice(key, thinking, session, mode, sandbox);
            let m = if mode is Some {
                mode->Some_0
            } else {
                "standard"@
            };
            let s = if sandbox is Some {
                sandbox->Some_0
            } else {
                "workspace-write"@
            };
            &&& c is Ok <==> key.len() > 0 && (s == "read-only"@ || s == "workspace-write"@ || s
                == "danger-full-access"@) && (m == "standard"@ || m == "minimal"@ || m == "ptc"@
                || m == "creative"@ || m == "ralph"@)
            &&& c matches Ok(x) ==> x.mode == m && x.sandbox == s && (session matches Some(i)
                ==> x.session_id == i) && (session is None ==> x.session_id == "main"@) && (thinking
                == Some("non-think"@) ==> x.effort == "off"@) && (thinking == Some("think-max"@)
                ==> x.effort == "max"@) && (thinking is None ==> x.effort == "high"@)
            &&& c matches Err(e) ==> key.len() > 0 ==> ends(e, s) || ends(e, m)
        }),
{
    reveal_strlit("non-think");
    reveal_strlit("think-max");
    assert("non-think"@[0] == 'n' && "think-max"@[0] == 't');
    if let Err(e) = harness_choice(key, thinking, session, mode, sandbox) {
        let m = crate::driver::or_else(mode, "standard"@);
        let s = crate::driver::or_else(sandbox, "workspace-write"@);
        if key.len() > 0 {
            if !crate::driver::is_sandbox(s) {
                assert(e.subrange(e.len() - s.len(), e.len() as int) =~= s);
            } else {
                assert(e.subrange(e.len() - m.len(), e.len() as int) =~= m);
            }
        }
    }
}

/// The runtime that is named comes before the packaged one, and that before the local
/// one; without any the sources are started, where they are named to be.
pub proof fn runtimes_are_found(p: RuntimePlacesView, repo: Text)
    ensures
        p.named matches Some(n) ==> n.len() > 0 ==> runtime_of(p) == Some(n),
        p.named is None || p.named->Some_0.len() == 0 ==> (p.resources matches Some(r) ==> (
        runtime_of(p) matches Some(x) && begins(x, r))),
        (p.named is None || p.named->Some_0.len() == 0) && p.resources is None ==> runtime_of(p)
            == p.local,
        forall|r: Text| #![trigger launch_of(Some(r), Some(repo))]
            launch_of(Some(r), Some(repo)).2 == r && launch_of(Some(r), Some(repo)).1.len() == 0
                && begins(launch_of(Some(r), Some(repo)).0, r),
        launch_of(None, Some(repo)).2 == repo,
        begins(launch_of(None, Some(repo)).0, repo),
        launch_of(None, Some(repo)).1 == seq!["--import"@, "tsx"@],
{
    reveal_strlit("_up_/harness-runtime");
    reveal_strlit("node_modules/@deepseek-ai/dsh-sdk-jsonrpc-demo/lib/packaged-bin.js");
    reveal_strlit("packages/examples/jsonrpc-demo/src/bin.ts");
    if let Some(r) = p.resources {
        lemma_joined(r, "_up_/harness-runtime"@);
    }
    assert forall|r: Text| #![trigger launch_of(Some(r), Some(repo))] launch_of(
        Some(r),
        Some(repo),
    ).2 == r && launch_of(Some(r), Some(repo)).1.len() == 0 && begins(
        launch_of(Some(r), Some(repo)).0,
        r,
    ) by {
        lemma_joined(r, "node_modules/@deepseek-ai/dsh-sdk-jsonrpc-demo/lib/packaged-bin.js"@);
    }
    lemma_joined(repo, "packages/examples/jsonrpc-demo/src/bin.ts"@);
}

proof fn lemma_joined(base: Text, rel: Text)
    requires
        rel.len() > 0,
        rel[0] != '/',
    ensures
        begins(path_joined(base, rel), base),
        ends(path_joined(base, rel), rel),
{
    let p = path_joined(base, rel);
    assert(p.subrange(0, base.len() as int) =~= base);
    assert(p.subrange(p.len() - rel.len(), p.len() as int) =~= rel);
}

/// A path seen from a directory begins with the directory and ends with the path, with
/// one stroke between them; an absolute path stands for itself.
pub proof fn paths_are_joined(base: Text, rel: Text)
    ensures
        rel.len() > 0 && rel[0] == '/' ==> path_joined(base, rel) == rel,
        rel.len() > 0 && rel[0] != '/' ==> begins(path_joined(base, rel), base) && ends(
            path_joined(base, rel),
            rel,
        ),
        rel.len() > 0 && rel[0] != '/' && base.len() > 0 && base.last() != '/' ==> path_joined(
            base,
            rel,
        ).len() == base.len() + 1 + rel.len() && path_joined(base, rel)[base.len() as int] == '/',
        rel.len() > 0 && rel[0] != '/' && base.len() > 0 && base.last() == '/' ==> path_joined(
            base,
            rel,
        ).len() == base.len() + rel.len(),
{
    reveal_strlit("/");
    if rel.len() > 0 && rel[0] != '/' {
        lemma_joined(base, rel);
    }
}

/// What the runtime is asked ends with the message, and holds what was said before.
pub proof fn prompts_hold_the_conversation(context: Option<Text>, message: Text)
    ensures
        ends(prompt_of(context, message), message),
        context matches Some(c) ==> occurs(prompt_of(context, message), c),
        context is None || context->Some_0.len() == 0 ==> prompt_of(context, message) == message,
{
    let p = prompt_of(context, message);
    assert(p.subrange(p.len() - message.len(), p.len() as int) =~= message);
    if let Some(c) = context {
        if c.len() > 0 {
            let k = "## 之前的对话\n\n"@.len() as int;
            assert(p.subrange(k, k + c.len()) =~= c);
            assert(occurs_at(p, c, k));
        } else {
            assert(p.subrange(0, 0) =~= c);
            assert(occurs_at(p, c, 0));
        }
    }
}

/// The runtime is told its persona and how to treat time, the one behind the other.
pub proof fn personas_are_told(persona: Text, tal: Text)
    ensures
        begins(harness_prompt(persona, tal), persona),
        ends(harness_prompt(persona, tal), tal),
{
    let p = harness_prompt(persona, tal);
    assert(p.subrange(0, persona.len() as int) =~= persona);
    assert(p.subrange(p.len() - tal.len(), p.len() as int) =~= tal);
}

/// Everything that is not hidden or generated is listed, and nothing else, directories
/// before files.
pub proof fn files_are_listed(entries: Seq<FileEntryView>, e: FileEntryView)
    ensures
        ({
            let l = listed_files(entries);
            let hidden = (e.name.len() > 0 && e.name[0] == '.') || e.name == "node_modules"@
                || e.name == "target"@ || e.name == "dist"@;
            &&& l.contains(e) <==> entries.contains(e) && !hidden
            &&& forall|i: int, j: int|
                0 <= i < j < l.len() ==> !((#[trigger] l[j]).is_dir && !(#[trigger] l[i]).is_dir)
        }),
{
    broadcast use vstd::seq_lib::group_filter_ensures;
    broadcast use vstd::seq_lib::group_to_multiset_ensures;

    let p = |x: FileEntryView| crate::driver::is_listed(x.name);
    let f = entries.filter(p);
    let l = listed_files(entries);
    ordered_is_sorted::<FileEntry>(f);
    assert(l.to_multiset() == f.to_multiset());
    assert(l.contains(e) <==> f.contains(e)) by {
        assert(l.to_multiset().count(e) == f.to_multiset().count(e));
    }
    reveal_strlit(".");
    if e.name.len() > 0 {
        assert(e.name.subrange(0, 1) =~= seq![e.name[0]]);
        assert("."@ =~= seq!['.']);
        if e.name[0] != '.' {
            assert(e.name.subrange(0, 1)[0] != "."@[0]);
        }
    }
    if f.contains(e) {
        entries.lemma_filter_contains_rev(p, e);
        let i = choose|i: int| 0 <= i < f.len() && f[i] == e;
        assert(p(f[i]));
    }
    if entries.contains(e) && p(e) {
        let i = choose|i: int| 0 <= i < entries.len() && entries[i] == e;
        assert(p(entries[i]));
    }
    assert forall|i: int, j: int| 0 <= i < j < l.len() implies !((#[trigger] l[j]).is_dir && !(
    #[trigger] l[i]).is_dir) by {
        assert(!<FileEntry as crate::order::Ranked>::precedes(l[j], l[i]));
    }
}

proof fn lemma_set_stays(args: Seq<Text>, i: int, have: Map<Text, Text>, key: Text)
    requires
        0 <= i,
        have.contains_key(key),
        forall|k: int| i <= k < args.len() ==> #[trigger] args[k] != "--"@ + key,
        key.len() > 0,
    ensures
        options_from(args, i, have).contains_key(key),
        options_from(args, i, have)[key] == have[key],
    decreases args.len() + 1 - i,
{
    if i < args.len() {
        if begins(args[i], "--"@) {
            reveal_strlit("--");
            assert(args[i] =~= "--"@ + args[i].skip(2)) by {
                assert(args[i].subrange(0, 2) =~= "--"@);
                assert(args[i].take(2) =~= "--"@);
                assert(args[i] =~= args[i].take(2) + args[i].skip(2));
            }
            assert(args[i].skip(2) != key);
            let value = if i + 1 < args.len() {
                args[i + 1]
            } else {
                Seq::empty()
            };
            lemma_set_stays(args, i + 2, have.insert(args[i].skip(2), value), key);
        } else if have.contains_key("prompt"@) {
            lemma_set_stays(args, i + 1, have, key);
        } else {
            lemma_set_stays(args, i + 1, have.insert("prompt"@, args[i]), key);
        }
    }
}

/// An option has the value that stands behind it, where it is not given again; the first
/// argument that is neither is the prompt.
pub proof fn options_are_read(args: Seq<Text>, name: Text, value: Text)
    requires
        args.len() >= 2,
        args[0] == "--"@ + name,
        args[1] == value,
        name.len() > 0,
        forall|k: int| 2 <= k < args.len() ==> #[trigger] args[k] != "--"@ + name,
    ensures
        options_from(args, 0, Map::empty()).contains_key(name),
        options_from(args, 0, Map::empty())[name] == value,
{
    reveal_strlit("--");
    assert(args[0].subrange(0, 2) =~= "--"@);
    assert(args[0].skip(2) =~= name);
    let have = Map::<Text, Text>::empty().insert(name, value);
    lemma_set_stays(args, 2, have, name);
    assert(options_from(args, 0, Map::empty()) == options_from(args, 2, have));
}

/// The first argument that is no option is the prompt, where none was given by name.
pub proof fn prompts_are_read(args: Seq<Text>)
    requires
        args.len() >= 1,
        !begins(args[0], "--"@),
        forall|k: int| 1 <= k < args.len() ==> #[trigger] args[k] != "--prompt"@,
    ensures
        options_from(args, 0, Map::empty()).contains_key("prompt"@),
        options_from(args, 0, Map::empty())["prompt"@] == args[0],
{
    reveal_strlit("--");
    reveal_strlit("prompt");
    reveal_strlit("--prompt");
    assert("--"@ + "prompt"@ =~= "--prompt"@);
    let have = Map::<Text, Text>::empty().insert("prompt"@, args[0]);
    lemma_set_stays(args, 1, have, "prompt"@);
}

/// The key on the command line comes before that of the program variable, and that
/// before the one in the settings.
pub proof fn keys_are_found(cli: Option<Text>, env: Option<Text>, settings: Option<Text>, v: JsonView)
    ensures
        cli matches Some(k) ==> k.len() > 0 ==> key_from(cli, env, settings) == k,
        cli is None || cli->Some_0.len() == 0 ==> (env matches Some(k) ==> k.len() > 0 ==> key_from(
            cli,
            env,
            settings,
        ) == k),
        (cli is None || cli->Some_0.len() == 0) && (env is None || env->Some_0.len() == 0) ==> (
        settings matches Some(raw) ==> json_parse(raw) == Ok::<JsonView, Text>(v) ==> (text_at(
            v,
            "api_key"@,
        ) matches Some(k) ==> key_from(cli, env, settings) == k)),
{
}

/// Whether a frame brings an event.
pub open spec fn prints_event(f: FrameView, kind: Text, data: JsonView) -> bool {
    f matches FrameView::Notification { method, params } && method == "session.event"@ && (field(
        params,
        "event"@,
    ) matches Some(e) && text_at(e, "type"@) == Some(kind) && field(e, "data"@) == Some(data))
}

proof fn lemma_kinds()
    ensures
        "assistant/chunk"@.len() == 15,
        "tool/call"@.len() == 9,
        "tool/result"@.len() == 11,
        "turn/end"@.len() == 8,
        "text-delta"@.len() == 10,
        "reasoning-delta"@.len() == 15,
        "block-end"@.len() == 9,
        "usage"@.len() == 5,
{
    reveal_strlit("assistant/chunk");
    reveal_strlit("tool/call");
    reveal_strlit("tool/result");
    reveal_strlit("turn/end");
    reveal_strlit("text-delta");
    reveal_strlit("reasoning-delta");
    reveal_strlit("block-end");
    reveal_strlit("usage");
}

/// What is printed: the answer as it comes, the reasoning in grey beside it, a call with
/// its name and its arguments, the end of a turn with its reason, and what went wrong.
pub proof fn frames_are_printed(f: FrameView, data: JsonView, t: Text, u: Text)
    ensures
        prints_event(f, "assistant/chunk"@, data) && (field(data, "chunk"@) matches Some(c)
            && text_at(c, "type"@) == Some("text-delta"@) && text_at(c, "text"@) == Some(t))
            ==> printed_frame(f) == Some(PrintedView::Answer { text: t }),
        prints_event(f, "assistant/chunk"@, data) && (field(data, "chunk"@) matches Some(c)
            && text_at(c, "type"@) == Some("reasoning-delta"@) && text_at(c, "text"@) == Some(t))
            ==> printed_frame(f) == Some(PrintedView::Aside { text: GREY@ + t + PLAIN@ }),
        prints_event(f, "tool/call"@, data) && text_at(data, "name"@) == Some(t) && text_at(
            data,
            "arguments"@,
        ) == Some(u) ==> (printed_frame(f) matches Some(PrintedView::Aside { text }) && occurs(
            text,
            t + " "@ + u,
        )),
        prints_event(f, "turn/end"@, data) && text_at(data, "reason"@) == Some(t) ==> (
        printed_frame(f) matches Some(PrintedView::Aside { text }) && occurs(text, t))
            && is_last_frame(f),
        f matches FrameView::Response { id, error: Some(e), .. } ==> (
        printed_frame(f) matches Some(PrintedView::Aside { text }) && occurs(
            text,
            "id="@ + decimal(id as nat) + " "@ + json_text(e),
        )) && is_last_frame(f),
        f matches FrameView::Response { id, error: None, result } ==> (
        printed_frame(f) matches Some(PrintedView::Aside { text }) && occurs(
            text,
            "id="@ + decimal(id as nat) + " "@ + json_text(result),
        )) && !is_last_frame(f),
{
    lemma_kinds();
    if prints_event(f, "tool/call"@, data) && text_at(data, "name"@) == Some(t) && text_at(
        data,
        "arguments"@,
    ) == Some(u) {
        let x = printed_frame(f)->Some_0->Aside_text;
        let w = t + " "@ + u;
        assert(x =~= "\n[tool] "@ + w + "\n"@);
        crate::laws::words::stands_between("\n[tool] "@, w, "\n"@);
    }
    if prints_event(f, "turn/end"@, data) && text_at(data, "reason"@) == Some(t) {
        crate::laws::words::stands_between("\n[turn/end] "@, t, "\n"@);
    }
    if let FrameView::Response { id, error, result } = f {
        let a = "\n[rpc error] id="@;
        let b = "\n[rpc ok] id="@;
        reveal_strlit("\n[rpc error] id=");
        reveal_strlit("\n[rpc ok] id=");
        reveal_strlit("id=");
        assert(a.skip(a.len() - 3) =~= "id="@);
        assert(b.skip(b.len() - 3) =~= "id="@);
        let x = printed_frame(f)->Some_0->Aside_text;
        if let Some(e) = error {
            let w = "id="@ + decimal(id as nat) + " "@ + json_text(e);
            assert(x =~= a.take(a.len() - 3) + w + "\n"@);
            crate::laws::words::stands_between(a.take(a.len() - 3), w, "\n"@);
        } else {
            let w = "id="@ + decimal(id as nat) + " "@ + json_text(result);
            assert(x =~= b.take(b.len() - 3) + w + "\n"@);
            crate::laws::words::stands_between(b.take(b.len() - 3), w, "\n"@);
        }
    }
}

/// The tokens of a turn are printed under their names; of a tool's result the beginning;
/// of a block that has ended the text, unless it is blank.
pub proof fn more_is_printed(f: FrameView, data: JsonView, c: JsonView, u: JsonView, b: JsonView, t: Text)
    ensures
        prints_event(f, "assistant/chunk"@, data) && field(data, "chunk"@) == Some(c) && text_at(
            c,
            "type"@,
        ) == Some("usage"@) && field(c, "usage"@) == Some(u) ==> (
        printed_frame(f) matches Some(PrintedView::Aside { text }) && ({
            let v = |k: Text|
                match field(u, k) {
                    Some(x) => displayed(x),
                    None => Seq::<char>::empty(),
                };
            occurs(
                text,
                "in="@ + v("inputTokens"@) + " out="@ + v("outputTokens"@) + " cache="@ + v(
                    "cacheReadTokens"@,
                ) + " reasoning="@ + v("reasoningTokens"@),
            )
        })),
        prints_event(f, "assistant/chunk"@, data) && field(data, "chunk"@) == Some(c) && text_at(
            c,
            "type"@,
        ) == Some("block-end"@) && field(c, "block"@) == Some(b) && text_at(b, "type"@) == Some(
            "text"@,
        ) && text_at(b, "text"@) == Some(t) && !is_blank(t) ==> printed_frame(f) == Some(
            PrintedView::Answer { text: t },
        ),
        prints_event(f, "tool/result"@, data) && json_text(data).len() <= 260 ==> (
        printed_frame(f) matches Some(PrintedView::Aside { text }) && occurs(text, json_text(data))),
{
    lemma_kinds();
    if prints_event(f, "tool/result"@, data) && json_text(data).len() <= 260 {
        crate::laws::words::stands_between("\n[tool-result] "@, json_text(data), "\n"@);
    }
    if prints_event(f, "assistant/chunk"@, data) && field(data, "chunk"@) == Some(c) && text_at(
        c,
        "type"@,
    ) == Some("usage"@) && field(c, "usage"@) == Some(u) {
        let v = |k: Text|
            match field(u, k) {
                Some(x) => displayed(x),
                None => Seq::<char>::empty(),
            };
        let w = "in="@ + v("inputTokens"@) + " out="@ + v("outputTokens"@) + " cache="@ + v(
            "cacheReadTokens"@,
        ) + " reasoning="@ + v("reasoningTokens"@);
        let a = "\n[usage] in="@;
        reveal_strlit("\n[usage] in=");
        reveal_strlit("in=");
        assert(a.take(a.len() - 3) + "in="@ =~= a);
        let x = printed_frame(f)->Some_0->Aside_text;
        assert(x =~= a.take(a.len() - 3) + w + "\n"@);
        crate::laws::words::stands_between(a.take(a.len() - 3), w, "\n"@);
    }
}

/// What is no text, or blank, is not printed when its block ends; nor is a notification
/// that is no event of a session.
pub proof fn nothing_else_is_printed(f: FrameView, data: JsonView, c: JsonView, b: JsonView)
    ensures
        prints_event(f, "assistant/chunk"@, data) && field(data, "chunk"@) == Some(c) && text_at(
            c,
            "type"@,
        ) == Some("block-end"@) && field(c, "block"@) == Some(b) && (text_at(b, "type"@) != Some(
            "text"@,
        ) || text_at(b, "text"@) is None || is_blank(text_at(b, "text"@)->Some_0)) ==> printed_frame(
            f,
        ) is None,
        f matches FrameView::Notification { method, .. } ==> method != "session.event"@
            ==> printed_frame(f) is None && !is_last_frame(f),
{
    lemma_kinds();
}

/// The program of the runtime and its configuration lie in the directory of the runtime,
/// or else in that of the sources, and the runtime is started there.
pub proof fn runs_are_launched(runtime: Text, repo: Text)
    ensures
        ({
            let l = run_launch_of(Some(runtime), repo);
            &&& begins(l.0, runtime) && begins(l.1, runtime) && ends(l.1, "cordis.yml"@)
            &&& l.2.len() == 0 && l.3 == runtime
        }),
        ({
            let l = run_launch_of(None, repo);
            &&& begins(l.0, repo) && begins(l.1, repo) && ends(l.1, "cordis.yml"@)
            &&& l.2 == seq!["--import"@, "tsx"@] && l.3 == repo
        }),
{
    reveal_strlit("node_modules/@deepseek-ai/dsh-sdk-jsonrpc-demo/lib/packaged-bin.js");
    reveal_strlit("packages/examples/jsonrpc-demo/src/bin.ts");
    reveal_strlit("cordis.yml");
    reveal_strlit("examples/whale-run");
    lemma_joined(runtime, "node_modules/@deepseek-ai/dsh-sdk-jsonrpc-demo/lib/packaged-bin.js"@);
    lemma_joined(runtime, "cordis.yml"@);
    lemma_joined(repo, "packages/examples/jsonrpc-demo/src/bin.ts"@);
    lemma_joined(repo, "examples/whale-run"@);
    let m = path_joined(repo, "examples/whale-run"@);
    lemma_joined(m, "cordis.yml"@);
    let l = path_joined(m, "cordis.yml"@);
    assert(l.subrange(0, repo.len() as int) =~= m.subrange(0, repo.len() as int));
}

/// A value is displayed as itself: a text without quotes, nothing for `null`, anything
/// else as JSON.
pub proof fn values_are_displayed(v: JsonView)
    ensures
        v matches JsonView::Str(t) ==> displayed(v) == t,
        v is Null ==> displayed(v).len() == 0,
        !(v is Str) && !(v is Null) ==> displayed(v) == json_text(v),
{
}

} // verus!
