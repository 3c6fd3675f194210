//! The model is told of its goal, and of the time, in full.

use crate::clock::age_text;
use crate::laws::words::{
    stands_between, stands_first, stands_in_first, stands_in_second, stands_last, stands_within,
};
use crate::message::{BlockView, ContentView, MessageView};
use crate::session::{GoalStatus, GoalView, StepStatus, StepView};
use crate::stamps::{
    annotated, goal_head, goal_rules, goal_section, horizon_of, last_user, plan_lines, span_note,
    stamp_prefix, stamp_text, stamped, step_lines, step_note, StampContext,
};
use crate::text::{decimal, occurs, Text};
use vstd::prelude::*;

verus! {

/// The words for the states of a goal.
pub open spec fn goal_word(s: GoalStatus) -> Text {
    match s {
        GoalStatus::Active => "active"@,
        GoalStatus::Paused => "paused"@,
        GoalStatus::Blocked => "blocked"@,
        GoalStatus::BudgetLimited => "budget_limited"@,
        GoalStatus::Complete => "complete"@,
    }
}

/// The words for the states of a step.
pub open spec fn step_word(s: StepStatus) -> Text {
    match s {
        StepStatus::Pending => "pending"@,
        StepStatus::InProgress => "in_progress"@,
        StepStatus::Completed => "completed"@,
        StepStatus::Cancelled => "cancelled"@,
        StepStatus::Blocked => "blocked"@,
    }
}

/// How the line of a step begins: its number, its state and what is to be done.
pub open spec fn step_begins(i: int, p: StepView) -> Text {
    "  "@ + decimal((i + 1) as nat) + ". ["@ + step_word(p.status) + "] "@ + p.content
}

proof fn lemma_plan_step(
    plan: Seq<StepView>,
    now: i64,
    temporal: bool,
    calibrated: Seq<Text>,
    i: int,
)
    requires
        0 <= i < plan.len(),
    ensures
        occurs(
            plan_lines(plan, now, temporal, calibrated),
            step_lines(i, plan[i], now, temporal, calibrated[i]),
        ),
    decreases plan.len(),
{
    let n = plan.len() - 1;
    let rest = plan_lines(plan.drop_last(), now, temporal, calibrated);
    let own = step_lines(n, plan.last(), now, temporal, calibrated[n]);
    if i < n {
        lemma_plan_step(plan.drop_last(), now, temporal, calibrated, i);
        stands_in_first(rest, own, step_lines(i, plan[i], now, temporal, calibrated[i]));
    } else {
        stands_last(rest, own);
    }
}

/// A step's lines stand in the section of the goal.
proof fn lemma_step_told(g: GoalView, now: i64, temporal: bool, calibrated: Seq<Text>, i: int)
    requires
        0 <= i < g.plan.len(),
    ensures
        occurs(
            goal_section(g, now, temporal, calibrated),
            step_lines(i, g.plan[i], now, temporal, calibrated[i]),
        ),
{
    let own = step_lines(i, g.plan[i], now, temporal, calibrated[i]);
    let lines = plan_lines(g.plan, now, temporal, calibrated);
    lemma_plan_step(g.plan, now, temporal, calibrated, i);
    stands_in_second("Plan:\n"@, lines, own);
    stands_in_second(goal_head(g, now), "Plan:\n"@ + lines, own);
    stands_in_first(goal_head(g, now) + ("Plan:\n"@ + lines), goal_rules(g), own);
}

/// Every step of the plan is told, with the time layer or without it: a line begins
/// with its number and the word for its state and goes on with what is to be done.
pub proof fn every_step_is_told(
    g: GoalView,
    now: i64,
    temporal: bool,
    calibrated: Seq<Text>,
    i: int,
)
    requires
        0 <= i < g.plan.len(),
    ensures
        occurs(goal_section(g, now, temporal, calibrated), step_begins(i, g.plan[i])),
{
    lemma_step_told(g, now, temporal, calibrated, i);
    let p = g.plan[i];
    let own = step_lines(i, p, now, temporal, calibrated[i]);
    let a = step_begins(i, p);
    assert(own.subrange(0, a.len() as int) =~= a);
    assert(crate::text::occurs_at(own, a, 0));
    stands_within(goal_section(g, now, temporal, calibrated), own, a);
}

/// Why a step is blocked is told with it.
pub proof fn every_blocker_is_told(
    g: GoalView,
    now: i64,
    temporal: bool,
    calibrated: Seq<Text>,
    i: int,
)
    requires
        0 <= i < g.plan.len(),
        g.plan[i].status is Blocked,
        g.plan[i].blocked_reason is Some,
        g.plan[i].blocked_reason->Some_0.len() > 0,
    ensures
        occurs(
            goal_section(g, now, temporal, calibrated),
            "("@ + g.plan[i].blocked_reason->Some_0 + ")\n"@,
        ),
{
    lemma_step_told(g, now, temporal, calibrated, i);
    let p = g.plan[i];
    let own = step_lines(i, p, now, temporal, calibrated[i]);
    let note = p.blocked_reason->Some_0;
    let want = "("@ + note + ")\n"@;
    assert(step_note(p, now, temporal, calibrated[i]) =~= note);
    let a = step_begins(i, p);
    let age = if temporal {
        age_text(now - p.created_at)
    } else {
        Seq::empty()
    };
    let b = if age.len() == 0 {
        a
    } else {
        a + " (age="@ + age + ")"@
    };
    reveal_strlit(" (");
    reveal_strlit("(");
    reveal_strlit(")");
    reveal_strlit(")\n");
    reveal_strlit("\n");
    let line = b + " ("@ + note + ")"@ + "\n"@;
    let mid = b + " "@ + want;
    reveal_strlit(" ");
    assert(line =~= mid);
    stands_last(b + " "@, want);
    if temporal && crate::stamps::is_stale(p, now) {
        stands_in_first(
            line,
            "     STALE — re-verify the worktree before resuming.\n"@,
            want,
        );
    }
    stands_within(goal_section(g, now, temporal, calibrated), own, want);
}

/// With the time layer on, a step that has sat idle for an hour or more is called
/// stale on the line behind it.
pub proof fn every_stale_step_is_told(
    g: GoalView,
    now: i64,
    calibrated: Seq<Text>,
    i: int,
)
    requires
        0 <= i < g.plan.len(),
        !(g.plan[i].status is Completed),
        !(g.plan[i].status is InProgress),
        now - g.plan[i].created_at >= 3_600_000,
    ensures
        occurs(
            goal_section(g, now, true, calibrated),
            "\n     STALE — re-verify the worktree before resuming.\n"@,
        ),
{
    lemma_step_told(g, now, true, calibrated, i);
    let own = step_lines(i, g.plan[i], now, true, calibrated[i]);
    let want = "\n     STALE — re-verify the worktree before resuming.\n"@;
    reveal_strlit("\n     STALE — re-verify the worktree before resuming.\n");
    reveal_strlit("     STALE — re-verify the worktree before resuming.\n");
    reveal_strlit("\n");
    assert("\n"@ + "     STALE — re-verify the worktree before resuming.\n"@ =~= want);
    let k = own.len() - want.len();
    assert(own.subrange(k, own.len() as int) =~= want);
    assert(crate::text::occurs_at(own, want, k));
    stands_within(goal_section(g, now, true, calibrated), own, want);
}

/// With the time layer on, the age of each step is told where it has one, how long ago
/// a running step was started, with its estimate and the calibrated one, and how long
/// ago a completed one was finished.
pub proof fn every_age_is_told(g: GoalView, now: i64, calibrated: Seq<Text>, i: int)
    requires
        0 <= i < g.plan.len(),
    ensures
        ({
            let p = g.plan[i];
            let t = goal_section(g, now, true, calibrated);
            let age = age_text(now - p.created_at);
            &&& age.len() > 0 ==> occurs(t, step_begins(i, p) + " (age="@ + age + ")"@)
            &&& p.status is InProgress ==> (p.started_at matches Some(s) ==> age_text(now - s).len()
                > 0 ==> occurs(t, "(started "@ + age_text(now - s) + " ago"@))
            &&& p.status is InProgress ==> (p.estimate_sec matches Some(e) ==> occurs(
                t,
                "model ETA "@ + decimal(e as nat) + "s · calibrated "@ + calibrated[i] + "s)"@,
            ))
            &&& p.status is Completed ==> (p.completed_at matches Some(s) ==> occurs(
                t,
                "(finished "@ + age_text(now - s) + " ago)"@,
            ))
        }),
{
    let p = g.plan[i];
    let t = goal_section(g, now, true, calibrated);
    let note = step_note(p, now, true, calibrated[i]);
    lemma_age_told(g, now, calibrated, i);
    if p.status is InProgress {
        lemma_running_note(p, now, calibrated[i]);
        lemma_note_told(g, now, calibrated, i);
        if p.started_at is Some && age_text(now - p.started_at->Some_0).len() > 0 {
            let want = "(started "@ + age_text(now - p.started_at->Some_0) + " ago"@;
            stands_within(t, "("@ + note + ")"@, want);
        }
        if p.estimate_sec is Some {
            let want = "model ETA "@ + decimal(p.estimate_sec->Some_0 as nat) + "s · calibrated "@
                + calibrated[i] + "s)"@;
            stands_within(t, "("@ + note + ")"@, want);
        }
    } else if p.status is Completed && p.completed_at is Some {
        let want = "(finished "@ + age_text(now - p.completed_at->Some_0) + " ago)"@;
        assert(note == "finished "@ + age_text(now - p.completed_at->Some_0) + " ago"@);
        reveal_strlit("(");
        reveal_strlit(")");
        reveal_strlit("finished ");
        reveal_strlit("(finished ");
        reveal_strlit(" ago");
        reveal_strlit(" ago)");
        assert("("@ + "finished "@ =~= "(finished "@);
        assert(" ago"@ + ")"@ =~= " ago)"@);
        assert("("@ + note + ")"@ =~= want);
        lemma_note_told(g, now, calibrated, i);
    }
}

proof fn lemma_age_told(g: GoalView, now: i64, calibrated: Seq<Text>, i: int)
    requires
        0 <= i < g.plan.len(),
    ensures
        ({
            let p = g.plan[i];
            let age = age_text(now - p.created_at);
            age.len() > 0 ==> occurs(
                goal_section(g, now, true, calibrated),
                step_begins(i, p) + " (age="@ + age + ")"@,
            )
        }),
{
    lemma_step_told(g, now, true, calibrated, i);
    let p = g.plan[i];
    let own = step_lines(i, p, now, true, calibrated[i]);
    let age = age_text(now - p.created_at);
    if age.len() > 0 {
        let b = step_begins(i, p) + " (age="@ + age + ")"@;
        assert(own.subrange(0, b.len() as int) =~= b);
        assert(crate::text::occurs_at(own, b, 0));
        stands_within(goal_section(g, now, true, calibrated), own, b);
    }
}

/// A note on a step stands in brackets behind it.
proof fn lemma_note_told(g: GoalView, now: i64, calibrated: Seq<Text>, i: int)
    requires
        0 <= i < g.plan.len(),
        step_note(g.plan[i], now, true, calibrated[i]).len() > 0,
    ensures
        occurs(
            goal_section(g, now, true, calibrated),
            "("@ + step_note(g.plan[i], now, true, calibrated[i]) + ")"@,
        ),
{
    lemma_step_told(g, now, true, calibrated, i);
    let p = g.plan[i];
    let own = step_lines(i, p, now, true, calibrated[i]);
    let note = step_note(p, now, true, calibrated[i]);
    let age = age_text(now - p.created_at);
    let a = step_begins(i, p);
    let b = if age.len() == 0 {
        a
    } else {
        a + " (age="@ + age + ")"@
    };
    reveal_strlit(" (");
    reveal_strlit("(");
    reveal_strlit(")");
    let want = "("@ + note + ")"@;
    let k: int = b.len() as int + 1;
    assert(own.subrange(k, k + want.len()) =~= want);
    assert(crate::text::occurs_at(own, want, k));
    stands_within(goal_section(g, now, true, calibrated), own, want);
}

proof fn lemma_running_note(p: StepView, now: i64, calibrated: Text)
    requires
        p.status is InProgress,
    ensures
        ({
            let note = step_note(p, now, true, calibrated);
            let shown = "("@ + note + ")"@;
            &&& note.len() > 0
            &&& p.started_at matches Some(s) ==> age_text(now - s).len() > 0 ==> occurs(
                shown,
                "(started "@ + age_text(now - s) + " ago"@,
            )
            &&& p.estimate_sec matches Some(e) ==> occurs(
                shown,
                "model ETA "@ + decimal(e as nat) + "s · calibrated "@ + calibrated + "s)"@,
            )
        }),
{
    let note = step_note(p, now, true, calibrated);
    let shown = "("@ + note + ")"@;
    reveal_strlit("started ");
    reveal_strlit("(started ");
    reveal_strlit("(");
    assert("("@ + "started "@ =~= "(started "@);
    if p.started_at is Some && age_text(now - p.started_at->Some_0).len() > 0 {
        let want = "(started "@ + age_text(now - p.started_at->Some_0) + " ago"@;
        assert(shown.subrange(0, want.len() as int) =~= want);
        assert(crate::text::occurs_at(shown, want, 0));
    }
    if p.estimate_sec is Some {
        let want = "model ETA "@ + decimal(p.estimate_sec->Some_0 as nat) + "s · calibrated "@
            + calibrated + "s)"@;
        reveal_strlit(" · model ETA ");
        reveal_strlit("model ETA ");
        reveal_strlit("s");
        reveal_strlit(")");
        reveal_strlit("s)");
        assert("s"@ + ")"@ =~= "s)"@);
        let eta = " · model ETA "@;
        assert(eta.skip(3) =~= "model ETA "@);
        let at = shown.len() - want.len();
        assert(shown.subrange(at, shown.len() as int) =~= want);
        assert(crate::text::occurs_at(shown, want, at));
    }
}

/// What the goal is and what it has cost is told: its id, its state, its tokens, its
/// budget with what remains of it, its time, its objective, and how often it was
/// blocked. A goal without a budget says nothing of one.
pub proof fn the_goal_is_told(g: GoalView, now: i64, temporal: bool, calibrated: Seq<Text>)
    ensures
        ({
            let t = goal_section(g, now, temporal, calibrated);
            &&& occurs(
                t,
                "[goal id="@ + g.id + " status="@ + goal_word(g.status) + " tokens_used="@ + decimal(
                    g.tokens_used as nat,
                ),
            )
            &&& g.token_budget matches Some(n) ==> occurs(
                t,
                " token_budget="@ + decimal(n as nat) + " remaining="@ + decimal(
                    (if n >= g.tokens_used {
                        n - g.tokens_used
                    } else {
                        0
                    }) as nat,
                ) + " time_used="@,
            )
            &&& occurs(t, " time_used="@ + decimal(g.time_used_seconds as nat) + "s]\n"@)
            &&& occurs(t, "Objective: "@ + g.objective + "\n"@)
            &&& occurs(
                t,
                "(currently "@ + decimal(g.consecutive_blocked_turns as nat) + "/3).\n"@,
            )
            &&& g.plan.len() == 0 ==> occurs(
                t,
                "Plan: (none yet — call update_plan if the work is multi-step.)\n"@,
            )
            &&& g.status is BudgetLimited ==> occurs(
                t,
                "- Budget exhausted: wrap up gracefully, summarize what remains, and do not start new work.\n"@,
            )
        }),
{
    let t = goal_section(g, now, temporal, calibrated);
    let plan = if g.plan.len() == 0 {
        "Plan: (none yet — call update_plan if the work is multi-step.)\n"@
    } else {
        "Plan:\n"@ + plan_lines(g.plan, now, temporal, calibrated)
    };
    let h = goal_head(g, now);
    let r = goal_rules(g);
    assert(t == h + plan + r);
    assert(occurs(t, h)) by {
        stands_first(h, plan);
        stands_in_first(h + plan, r, h);
    }
    assert(occurs(t, plan)) by {
        stands_between(h, plan, r);
    }
    assert(occurs(t, r)) by {
        stands_last(h + plan, r);
    }
    lemma_head(g, now);
    lemma_rules(g);
    let a = "[goal id="@ + g.id + " status="@ + goal_word(g.status) + " tokens_used="@ + decimal(
        g.tokens_used as nat,
    );
    stands_within(t, h, a);
    if g.token_budget is Some {
        stands_within(t, h, budget_words(g));
    }
    stands_within(t, h, " time_used="@ + decimal(g.time_used_seconds as nat) + "s]\n"@);
    stands_within(t, h, "Objective: "@ + g.objective + "\n"@);
    stands_within(t, r, "(currently "@ + decimal(g.consecutive_blocked_turns as nat) + "/3).\n"@);
    if g.status is BudgetLimited {
        stands_within(
            t,
            r,
            "- Budget exhausted: wrap up gracefully, summarize what remains, and do not start new work.\n"@,
        );
    }
}

spec fn budget_words(g: GoalView) -> Text {
    " token_budget="@ + decimal(g.token_budget->Some_0 as nat) + " remaining="@ + decimal(
        (if g.token_budget->Some_0 >= g.tokens_used {
            g.token_budget->Some_0 - g.tokens_used
        } else {
            0
        }) as nat,
    ) + " time_used="@
}

proof fn lemma_head(g: GoalView, now: i64)
    ensures
        ({
            let h = goal_head(g, now);
            &&& occurs(
                h,
                "[goal id="@ + g.id + " status="@ + goal_word(g.status) + " tokens_used="@ + decimal(
                    g.tokens_used as nat,
                ),
            )
            &&& g.token_budget is Some ==> occurs(h, budget_words(g))
            &&& occurs(h, " time_used="@ + decimal(g.time_used_seconds as nat) + "s]\n"@)
            &&& occurs(h, "Objective: "@ + g.objective + "\n"@)
        }),
{
    let h = goal_head(g, now);
    let a = "[goal id="@ + g.id + " status="@ + goal_word(g.status) + " tokens_used="@ + decimal(
        g.tokens_used as nat,
    );
    assert(h.subrange(0, a.len() as int) =~= a);
    assert(crate::text::occurs_at(h, a, 0));
    let k: int = if g.token_budget is Some {
        let w = budget_words(g);
        assert(h.subrange(a.len() as int, (a.len() + w.len()) as int) =~= w);
        assert(crate::text::occurs_at(h, w, a.len() as int));
        a.len() + w.len() - " time_used="@.len()
    } else {
        a.len() as int
    };
    let w = " time_used="@ + decimal(g.time_used_seconds as nat) + "s]\n"@;
    assert(h.subrange(k, k + w.len()) =~= w);
    assert(crate::text::occurs_at(h, w, k));
    let o = "Objective: "@ + g.objective + "\n"@;
    assert(h.subrange(h.len() - o.len(), h.len() as int) =~= o);
    assert(crate::text::occurs_at(h, o, h.len() - o.len()));
}

proof fn lemma_rules(g: GoalView)
    ensures
        ({
            let r = goal_rules(g);
            &&& occurs(
                r,
                "(currently "@ + decimal(g.consecutive_blocked_turns as nat) + "/3).\n"@,
            )
            &&& g.status is BudgetLimited ==> occurs(
                r,
                "- Budget exhausted: wrap up gracefully, summarize what remains, and do not start new work.\n"@,
            )
        }),
{
    let r = goal_rules(g);
    let w = "(currently "@ + decimal(g.consecutive_blocked_turns as nat) + "/3).\n"@;
    let last = "- Mark blocked only after the same blocker persists 3 consecutive turns (currently "@;
    reveal_strlit(
        "- Mark blocked only after the same blocker persists 3 consecutive turns (currently ",
    );
    reveal_strlit("(currently ");
    assert(last.skip(last.len() - "(currently "@.len()) =~= "(currently "@);
    let first = last.take(last.len() - "(currently "@.len());
    assert(first + "(currently "@ =~= last);
    let x = "Rules:\n"@
        + "- Work from current evidence: the worktree and external state are authoritative; inspect before relying on older context.\n"@
        + "- Keep the plan current as steps complete or the next best action changes; at most one step in_progress.\n"@
        + "- Mark the goal complete only after verifying the objective against the current state, requirement by requirement.\n"@
        + "- You may be auto-continuing (goal mode): keep making concrete progress each turn; do not stall by asking the user unless truly blocked, and do not loop on the same step.\n"@;
    let a = x + last + decimal(g.consecutive_blocked_turns as nat) + "/3).\n"@;
    let e = "- Budget exhausted: wrap up gracefully, summarize what remains, and do not start new work.\n"@;
    assert(a =~= x + first + w);
    stands_last(x + first, w);
    if g.status is BudgetLimited {
        stands_in_first(a, e, w);
        stands_last(a, e);
    }
}

/// A result with the time carries when it was produced and for how long it counts as
/// fresh, and ends with what was produced.
pub proof fn results_carry_their_time(tool: Text, content: Text, now: Text)
    ensures
        ({
            let t = annotated(tool, content, now);
            &&& occurs(t, "[data_time="@ + now + " age=0min"@)
            &&& occurs(t, " horizon="@ + horizon_of(tool) + "]\n"@ + content)
            &&& t.skip(t.len() - content.len()) == content
        }),
        tool == "get_stock_price"@ || tool == "get_weather"@ ==> horizon_of(tool) == "30min"@,
        tool == "web_search"@ ==> horizon_of(tool) == "24h"@,
        tool == "run_shell"@ ==> horizon_of(tool) == "1h"@,
{
    let t = annotated(tool, content, now);
    let mid = " age=0min freshness=just_fetched horizon="@;
    reveal_strlit(" age=0min freshness=just_fetched horizon=");
    reveal_strlit(" age=0min");
    reveal_strlit(" horizon=");
    assert(mid.take(" age=0min"@.len() as int) =~= " age=0min"@);
    assert(mid.skip(mid.len() - " horizon="@.len()) =~= " horizon="@);
    let a = "[data_time="@ + now + " age=0min"@;
    assert(t.subrange(0, a.len() as int) =~= a);
    assert(crate::text::occurs_at(t, a, 0));
    let b = " horizon="@ + horizon_of(tool) + "]\n"@ + content;
    assert(t.subrange(t.len() - b.len(), t.len() as int) =~= b);
    assert(crate::text::occurs_at(t, b, t.len() - b.len()));
    assert(t.skip(t.len() - content.len()) =~= content);
    reveal_strlit("get_stock_price");
    reveal_strlit("get_weather");
    reveal_strlit("web_search");
    reveal_strlit("run_shell");
    reveal_strlit("track_package");
    assert("get_weather"@.len() == 11 && "web_search"@.len() == 10 && "run_shell"@.len() == 9);
    assert("get_stock_price"@.len() == 15 && "track_package"@.len() == 13);
}

/// What a step is expected to take is the estimate by how far the model misjudges its
/// speed: the large model by little more than a half, any other almost fourfold.
pub proof fn estimates_are_calibrated(model: Text)
    ensures
        occurs(crate::text::small_text(model), "pro"@) ==> crate::stamps::calibration_of(model)
            == 56,
        !occurs(crate::text::small_text(model), "pro"@) ==> crate::stamps::calibration_of(model)
            == 371,
{
}

/// With the time layer on, a message whose time is known says when it was said and how
/// long ago.
pub proof fn messages_carry_their_time(ms: Seq<MessageView>, i: int, c: StampContext)
    requires
        0 <= i < ms.len(),
        c.enabled,
        age_text(c.now - ms[i].timestamp).len() > 0,
        c.times[i].len() > 0,
    ensures
        occurs(
            stamp_prefix(ms, i, c),
            "[message_time="@ + c.times[i] + " age="@ + age_text(c.now - ms[i].timestamp) + "]"@,
        ),
{
    let a = "[message_time="@ + c.times[i] + " age="@ + age_text(c.now - ms[i].timestamp) + "]"@;
    let s = stamp_text(ms, i, c);
    reveal_strlit("]");
    assert(a.len() > 0);
    assert(s.subrange(0, a.len() as int) =~= a);
    assert(crate::text::occurs_at(s, a, 0));
    lemma_prefix_holds(ms, i, c, a);
}

proof fn lemma_prefix_holds(ms: Seq<MessageView>, i: int, c: StampContext, t: Text)
    requires
        0 <= i < ms.len(),
        occurs(stamp_text(ms, i, c), t),
        stamp_text(ms, i, c).len() > 0,
    ensures
        occurs(stamp_prefix(ms, i, c), t),
{
    let note = if i == 0 {
        span_note(ms, c.now, c.enabled)
    } else {
        Seq::empty()
    };
    let s = stamp_text(ms, i, c);
    stands_in_second(note, s, t);
    stands_in_first(note + s, seq!['\n'], t);
    assert((note + s) + seq!['\n'] =~= (note + s).push('\n'));
}

/// The last message of the user tells of the goal, where there is one, with the time
/// layer or without it; no other does.
pub proof fn the_goal_goes_along(ms: Seq<MessageView>, i: int, c: StampContext)
    requires
        0 <= i < ms.len(),
        c.goal is Some,
        ms[i].role is User,
        forall|j: int| i < j < ms.len() ==> !(#[trigger] ms[j].role is User),
    ensures
        occurs(
            stamp_prefix(ms, i, c),
            goal_section(c.goal->Some_0, c.now, c.enabled, c.calibrated),
        ),
        ms[i].content matches ContentView::Text(t) ==> (
        stamped(ms, c)[i].content matches ContentView::Text(u) && occurs(
            u,
            goal_section(c.goal->Some_0, c.now, c.enabled, c.calibrated),
        ) && u.len() >= t.len() && u.skip(u.len() - t.len()) == t),
        forall|j: int| #![trigger stamped(ms, c)[j]]
            0 <= j < ms.len() && j != i ==> stamped(ms, c)[j] == stamped(
                ms,
                StampContext { goal: None, ..c },
            )[j],
{
    lemma_last(ms, i);
    let g = goal_section(c.goal->Some_0, c.now, c.enabled, c.calibrated);
    the_goal_is_told(c.goal->Some_0, c.now, c.enabled, c.calibrated);
    let s = stamp_text(ms, i, c);
    let k = s.len() - g.len();
    assert(s.skip(k) =~= g);
    assert(s.take(k) + g =~= s);
    stands_last(s.take(k), g);
    reveal_strlit("Objective: ");
    assert(g.len() > 0) by {
        let o = "Objective: "@ + c.goal->Some_0.objective + "\n"@;
        let at = choose|at: int| crate::text::occurs_at(g, o, at);
        assert(crate::text::occurs_at(g, o, at));
    }
    lemma_prefix_holds(ms, i, c, g);
    let p = stamp_prefix(ms, i, c);
    if let ContentView::Text(t) = ms[i].content {
        stands_in_first(p, t, g);
        assert((p + t).skip(p.len() as int) =~= t);
    }
}

proof fn lemma_last(ms: Seq<MessageView>, i: int)
    requires
        0 <= i < ms.len(),
        ms[i].role is User,
        forall|j: int| i < j < ms.len() ==> !(#[trigger] ms[j].role is User),
    ensures
        last_user(ms) == i,
    decreases ms.len(),
{
    if i < ms.len() - 1 {
        assert(!(ms.last().role is User));
        lemma_last(ms.drop_last(), i);
    }
}

proof fn lemma_oldest(ms: Seq<MessageView>, i: int)
    requires
        0 <= i < ms.len(),
        ms[i].timestamp > 0,
        forall|j: int|
            0 <= j < ms.len() && (#[trigger] ms[j]).timestamp > 0 ==> ms[i].timestamp
                <= ms[j].timestamp,
    ensures
        crate::stamps::oldest_time(ms) == Some(ms[i].timestamp),
    decreases ms.len(),
{
    let t = ms.drop_last();
    let n = ms.len() - 1;
    if i < n {
        assert forall|j: int| 0 <= j < t.len() && (#[trigger] t[j]).timestamp > 0 implies t[i].timestamp
            <= t[j].timestamp by {
            assert(t[j] == ms[j]);
        }
        lemma_oldest(t, i);
        assert(ms[n] == ms.last());
    } else {
        lemma_oldest_after(t, ms[i].timestamp);
    }
}

proof fn lemma_oldest_after(ms: Seq<MessageView>, low: i64)
    requires
        forall|j: int| 0 <= j < ms.len() && (#[trigger] ms[j]).timestamp > 0 ==> low <= ms[j].timestamp,
    ensures
        crate::stamps::oldest_time(ms) matches Some(o) ==> low <= o,
    decreases ms.len(),
{
    if ms.len() > 0 {
        let t = ms.drop_last();
        assert forall|j: int| 0 <= j < t.len() && (#[trigger] t[j]).timestamp > 0 implies low
            <= t[j].timestamp by {
            assert(t[j] == ms[j]);
        }
        lemma_oldest_after(t, low);
        assert(ms[ms.len() - 1] == ms.last());
    }
}

/// A conversation that goes back an hour or more says how far, on its first message, and
/// with the time layer on; a shorter one, or one without the layer, says nothing.
pub proof fn long_conversations_say_so(ms: Seq<MessageView>, i: int, now: i64, n: int)
    requires
        0 <= i < ms.len(),
        ms[i].timestamp > 0,
        forall|j: int|
            0 <= j < ms.len() && (#[trigger] ms[j]).timestamp > 0 ==> ms[i].timestamp
                <= ms[j].timestamp,
    ensures
        1 <= n < 48 && n * 3_600_000 <= now - ms[i].timestamp < (n + 1) * 3_600_000 ==> occurs(
            span_note(ms, now, true),
            "this conversation spans from "@ + decimal(n as nat) + "h ago"@,
        ),
        now - ms[i].timestamp < 3_600_000 ==> span_note(ms, now, true).len() == 0,
        span_note(ms, now, false).len() == 0,
{
    lemma_oldest(ms, i);
    let past = now - ms[i].timestamp;
    let age = age_text(past);
    reveal_strlit("h");
    reveal_strlit("d");
    reveal_strlit("min");
    reveal_strlit("0min");
    if 1 <= n < 48 && n * 3_600_000 <= past < (n + 1) * 3_600_000 {
        let rest = past - n * 3_600_000;
        crate::laws::letters::ages_are_told(n, rest);
        assert(age == decimal(n as nat) + "h"@);
        assert(age.subrange(age.len() - 1, age.len() as int) =~= "h"@);
        assert(crate::text::ends(age, "h"@));
        let a = "[time_harness: this conversation spans from "@;
        let b = " ago. Live data mentioned in older messages may be stale — re-verify per the freshness rules before relying on it.]\n"@;
        reveal_strlit("[time_harness: this conversation spans from ");
        reveal_strlit("this conversation spans from ");
        reveal_strlit(
            " ago. Live data mentioned in older messages may be stale — re-verify per the freshness rules before relying on it.]\n",
        );
        reveal_strlit("h ago");
        assert(a.skip(15) =~= "this conversation spans from "@);
        let t = span_note(ms, now, true);
        let w = "this conversation spans from "@ + decimal(n as nat) + "h ago"@;
        assert(t =~= a + age + b);
        assert("h"@ + b.take(4) =~= "h ago"@);
        assert(t.subrange(15, 15int + w.len()) =~= w);
        assert(crate::text::occurs_at(t, w, 15));
    }
    if past < 3_600_000 {
        if past > 0 {
            lemma_minutes(past);
        } else {
            assert(age.len() == 0);
        }
    }
}

proof fn lemma_minutes(past: int)
    requires
        0 < past < 3_600_000,
    ensures
        !crate::text::ends(age_text(past), "h"@),
        !crate::text::ends(age_text(past), "d"@),
{
    reveal_strlit("h");
    reveal_strlit("d");
    reveal_strlit("min");
    reveal_strlit("0min");
    let age = age_text(past);
    assert(past / 60_000 < 60);
    assert(age.last() == 'n');
    let k = age.len() - 1;
    assert(age.subrange(k, k + 1)[0] == 'n');
}

/// What the user and the model said is still there behind the stamps: a stamped
/// message ends with what was said, text or blocks.
pub proof fn stamps_come_before(ms: Seq<MessageView>, c: StampContext, i: int)
    requires
        0 <= i < ms.len(),
    ensures
        stamped(ms, c).len() == ms.len(),
        stamped(ms, c)[i].role == ms[i].role,
        ms[i].content matches ContentView::Text(t) ==> (
        stamped(ms, c)[i].content matches ContentView::Text(u) && u.len() >= t.len() && u.skip(
            u.len() - t.len(),
        ) == t),
        ms[i].content matches ContentView::Blocks(bs) ==> (
        stamped(ms, c)[i].content matches ContentView::Blocks(cs) && bs.len() <= cs.len()
            <= bs.len() + 1 && cs.skip(cs.len() - bs.len()) == bs && (forall|k: int|
            0 <= k < cs.len() - bs.len() ==> #[trigger] cs[k] is Text)),
{
    crate::stamps::stamps_only_prefix(ms, c, i);
    if let ContentView::Text(t) = ms[i].content {
        let p = stamp_prefix(ms, i, c);
        assert((p + t).skip(p.len() as int) =~= t);
    }
}

/// A message of blocks without a result carries its stamp as a text block before the
/// others; one with a result, or without a stamp, stays as it is.
pub proof fn blocks_are_stamped(ms: Seq<MessageView>, c: StampContext, i: int)
    requires
        0 <= i < ms.len(),
        ms[i].content is Blocks,
    ensures
        ({
            let bs = ms[i].content->Blocks_0;
            let cs = stamped(ms, c)[i].content->Blocks_0;
            let result = exists|k: int| 0 <= k < bs.len() && #[trigger] bs[k] is ToolResult;
            let p = stamp_prefix(ms, i, c);
            &&& stamped(ms, c)[i].content is Blocks
            &&& result || p.len() == 0 ==> cs == bs
            &&& !result && p.len() > 0 ==> cs.len() == bs.len() + 1 && cs.skip(1) == bs && (
            cs[0] matches BlockView::Text { text } && crate::text::begins(p, text)
                && crate::text::is_blank(p.skip(text.len() as int)))
        }),
{
    let bs = ms[i].content->Blocks_0;
    let cs = stamped(ms, c)[i].content->Blocks_0;
    let p = stamp_prefix(ms, i, c);
    let t = crate::text::trim_end(p);
    crate::laws::letters::lemma_trim_end(p);
    assert(p.subrange(0, t.len() as int) =~= t);
    if !(exists|k: int| 0 <= k < bs.len() && #[trigger] bs[k] is ToolResult) && p.len() > 0 {
        assert(cs.skip(1) =~= bs);
    }
}

} // verus!
