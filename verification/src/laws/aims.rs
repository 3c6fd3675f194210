//! What the goal tools do to a goal, by what was asked.

use crate::agent::{auto_turn_noted, can_auto_advance, continuation_text, paused_goal, StateView};
use crate::events::EventView;
use crate::goals::{
    answer_block, answer_event, goal_tool, is_meant, meant_place, next_plan, next_step, status_of,
    step_request, GoalCall, StepRequest,
};
use crate::json::{field, json_parse, json_pretty, nat_at, text_at, JsonView};
use crate::laws::told::step_word;
use crate::session::{GoalStatus, GoalView, StepStatus, StepView};
use crate::text::{begins, decimal, ends, Text};
use vstd::prelude::*;

verus! {

/// Whether these are the steps that a call lists: a list, or a text that is the JSON
/// of one.
pub open spec fn lists(args: JsonView, steps: Seq<JsonView>) -> bool {
    match field(args, "plan"@) {
        Some(JsonView::Array(l)) => l == steps,
        Some(JsonView::Str(t)) => json_parse(t) == Ok::<JsonView, Text>(JsonView::Array(steps)),
        _ => false,
    }
}

/// Whether `c` is what a listed step says is to be done.
pub open spec fn says(v: JsonView, c: Text) -> bool {
    text_at(v, "content"@) == Some(c) || (text_at(v, "content"@) is None && text_at(v, "step"@)
        == Some(c))
}

/// Whether a listed step can be taken into a plan: it says what is to be done and in
/// which state it is.
pub open spec fn is_step(v: JsonView) -> bool {
    (text_at(v, "content"@) is Some || text_at(v, "step"@) is Some) && (text_at(
        v,
        "status"@,
    ) matches Some(w) && exists|s: StepStatus| #[trigger] step_word(s) == w)
}

proof fn lemma_words()
    ensures
        "get_goal"@.len() == 8,
        "set_goal"@.len() == 8,
        "get_goal"@[0] == 'g',
        "set_goal"@[0] == 's',
        "update_goal"@.len() == 11,
        "update_plan"@.len() == 11,
        "update_goal"@[7] == 'g',
        "update_plan"@[7] == 'p',
        "pending"@.len() == 7,
        "in_progress"@.len() == 11,
        "completed"@.len() == 9,
        "cancelled"@.len() == 9,
        "completed"@[1] == 'o',
        "cancelled"@[1] == 'a',
        "blocked"@.len() == 7,
        "pending"@[0] == 'p',
        "blocked"@[0] == 'b',
        "complete"@.len() == 8,
{
    reveal_strlit("get_goal");
    reveal_strlit("set_goal");
    reveal_strlit("update_goal");
    reveal_strlit("update_plan");
    reveal_strlit("pending");
    reveal_strlit("in_progress");
    reveal_strlit("completed");
    reveal_strlit("cancelled");
    reveal_strlit("blocked");
    reveal_strlit("complete");
}

proof fn lemma_status(w: Text, s: StepStatus)
    ensures
        status_of(w) == Ok::<StepStatus, Text>(s) <==> w == step_word(s),
{
    lemma_words();
}

proof fn lemma_request(v: JsonView)
    ensures
        step_request(v) is Ok <==> is_step(v),
        step_request(v) matches Ok(r) ==> says(v, r.content) && text_at(v, "status"@) == Some(
            step_word(r.status),
        ) && r.id == text_at(v, "id"@) && r.reason == text_at(v, "blocked_reason"@) && (field(
            v,
            "estimate_sec"@,
        ) matches Some(JsonView::Int(n)) ==> 0 <= n <= u64::MAX ==> r.estimate == Some(n as u64)) && (
        field(v, "estimate_sec"@) is None ==> r.estimate is None),
{
    if let Some(w) = text_at(v, "status"@) {
        lemma_status(w, StepStatus::Pending);
        lemma_status(w, StepStatus::InProgress);
        lemma_status(w, StepStatus::Completed);
        lemma_status(w, StepStatus::Cancelled);
        lemma_status(w, StepStatus::Blocked);
        if exists|s: StepStatus| #[trigger] step_word(s) == w {
            let s = choose|s: StepStatus| #[trigger] step_word(s) == w;
            lemma_status(w, s);
        }
        if let Ok(s) = status_of(w) {
            lemma_status(w, s);
            assert(step_word(s) == w);
        }
    }
}

proof fn lemma_place(plan: Seq<StepView>, r: StepRequest, from: int)
    requires
        0 <= from <= plan.len(),
    ensures
        from <= meant_place(plan, r, from) <= plan.len(),
        forall|i: int| from <= i < meant_place(plan, r, from) ==> !is_meant(#[trigger] plan[i], r),
        meant_place(plan, r, from) < plan.len() ==> is_meant(plan[meant_place(plan, r, from)], r),
    decreases plan.len() - from,
{
    if from < plan.len() && !is_meant(plan[from], r) {
        lemma_place(plan, r, from + 1);
    }
}

proof fn lemma_next(plan: Seq<StepView>, steps: Seq<JsonView>, now: i64, fresh: Seq<Text>)
    ensures
        next_plan(plan, steps, now, fresh) is Ok <==> forall|k: int|
            0 <= k < steps.len() ==> step_request(#[trigger] steps[k]) is Ok,
        next_plan(plan, steps, now, fresh) matches Ok(p) ==> p.len() == steps.len() && forall|k: int|
            0 <= k < steps.len() ==> #[trigger] p[k] == next_step(
                plan,
                step_request(steps[k])->Ok_0,
                now,
                fresh[k],
            ),
    decreases steps.len(),
{
    if steps.len() > 0 {
        let t = steps.drop_last();
        lemma_next(plan, t, now, fresh);
        if next_plan(plan, steps, now, fresh) is Ok {
            assert forall|k: int| 0 <= k < steps.len() implies step_request(
                #[trigger] steps[k],
            ) is Ok by {
                if k < t.len() {
                    assert(t[k] == steps[k]);
                }
            }
            let p = next_plan(plan, steps, now, fresh)->Ok_0;
            let q = next_plan(plan, t, now, fresh)->Ok_0;
            assert forall|k: int| 0 <= k < steps.len() implies #[trigger] p[k] == next_step(
                plan,
                step_request(steps[k])->Ok_0,
                now,
                fresh[k],
            ) by {
                if k < t.len() {
                    assert(t[k] == steps[k]);
                    assert(p[k] == q[k]);
                }
            }
        } else if forall|k: int| 0 <= k < steps.len() ==> step_request(#[trigger] steps[k]) is Ok {
            assert forall|k: int| 0 <= k < t.len() implies step_request(#[trigger] t[k]) is Ok by {
                assert(t[k] == steps[k]);
            }
            assert(step_request(steps[steps.len() - 1]) is Ok);
        }
    }
}

proof fn lemma_running(plan: Seq<StepView>)
    ensures
        crate::goals::in_progress_count(plan) <= 1 <==> forall|i: int, j: int|
            0 <= i < j < plan.len() ==> !(#[trigger] plan[i].status is InProgress
                && #[trigger] plan[j].status is InProgress),
        crate::goals::in_progress_count(plan) == 0 <==> forall|i: int|
            0 <= i < plan.len() ==> !(#[trigger] plan[i].status is InProgress),
    decreases plan.len(),
{
    if plan.len() > 0 {
        let t = plan.drop_last();
        lemma_running(t);
        let n = plan.len() - 1;
        assert forall|i: int| 0 <= i < n implies #[trigger] plan[i] == t[i] by {}
        if plan.last().status is InProgress {
            if crate::goals::in_progress_count(t) > 0 {
                let i = choose|i: int| 0 <= i < t.len() && #[trigger] t[i].status is InProgress;
                assert(plan[i].status is InProgress && plan[n].status is InProgress);
            }
        } else if crate::goals::in_progress_count(t) > 1 {
            let (i, j) = choose|i: int, j: int|
                0 <= i < j < t.len() && #[trigger] t[i].status is InProgress
                    && #[trigger] t[j].status is InProgress;
            assert(plan[i].status is InProgress && plan[j].status is InProgress);
        }
        if crate::goals::in_progress_count(t) > 0 {
            let i = choose|i: int| 0 <= i < t.len() && #[trigger] t[i].status is InProgress;
            assert(plan[i].status is InProgress);
        }
        if plan.last().status is InProgress {
            assert(plan[n].status is InProgress);
        }
    }
}

/// Whether two listed steps are both in progress.
pub open spec fn both_running(v: JsonView, w: JsonView) -> bool {
    text_at(v, "status"@) == Some("in_progress"@) && text_at(w, "status"@) == Some(
        "in_progress"@,
    )
}

/// A plan is taken over exactly where every listed step says what is to be done and in
/// which state it is, and no two are in progress; there has to be a goal for it.
pub proof fn plans_are_accepted(
    c: GoalCall,
    g: GoalView,
    auto: u32,
    steps: Seq<JsonView>,
)
    requires
        lists(c.args, steps),
    ensures
        ({
            let t = goal_tool("update_plan"@, c, Some(g), auto);
            let good = (forall|k: int| 0 <= k < steps.len() ==> is_step(#[trigger] steps[k])) && (
            forall|i: int, j: int|
                0 <= i < j < steps.len() ==> !both_running(#[trigger] steps[i], #[trigger] steps[j]));
            &&& t.changed <==> good
            &&& t.answer is Ok <==> good
            &&& t.auto_turns_used == auto
            &&& t.goal is Some
            &&& !good ==> t.goal == Some(g)
            &&& t.answer matches Ok(a) ==> begins(a, "Plan updated: "@ + decimal(steps.len()) + " steps"@)
            &&& t.answer matches Ok(a) ==> (text_at(c.args, "explanation"@) matches Some(why)
                ==> why.len() > 0 ==> ends(a, " ("@ + why + ")"@))
            &&& goal_tool("update_plan"@, c, None, auto).answer is Err
            &&& goal_tool("update_plan"@, c, None, auto).goal is None
        }),
{
    lemma_words();
    assert forall|k: int| 0 <= k < steps.len() implies (step_request(#[trigger] steps[k]) is Ok
        <==> is_step(steps[k])) by {
        lemma_request(steps[k]);
    }
    lemma_next(g.plan, steps, c.now, c.fresh);
    if let Ok(p) = next_plan(g.plan, steps, c.now, c.fresh) {
        lemma_running(p);
        assert forall|k: int| 0 <= k < steps.len() implies (#[trigger] p[k].status is InProgress
            <==> text_at(steps[k], "status"@) == Some("in_progress"@)) by {
            lemma_request(steps[k]);
        }
        if crate::goals::in_progress_count(p) > 1 {
            let (i, j) = choose|i: int, j: int|
                0 <= i < j < p.len() && #[trigger] p[i].status is InProgress
                    && #[trigger] p[j].status is InProgress;
            assert(both_running(steps[i], steps[j]));
        } else {
            assert forall|i: int, j: int| 0 <= i < j < steps.len() implies !both_running(
                #[trigger] steps[i],
                #[trigger] steps[j],
            ) by {
                if both_running(steps[i], steps[j]) {
                    assert(p[i].status is InProgress && p[j].status is InProgress);
                }
            }
        }
    }
    let t = goal_tool("update_plan"@, c, Some(g), auto);
    if let Ok(a) = t.answer {
        let m = "Plan updated: "@ + decimal(steps.len()) + " steps"@;
        assert(a.subrange(0, m.len() as int) =~= m);
        if let Some(why) = text_at(c.args, "explanation"@) {
            if why.len() > 0 {
                let w = " ("@ + why + ")"@;
                assert(a =~= m + w);
                assert(a.subrange(a.len() - w.len(), a.len() as int) =~= w);
            }
        }
    }
}

/// The plan that is taken over has the listed steps, in their order: each in the state
/// that is asked for. A step with an id is the one of that id, or a new one under it; a
/// step without is the one with that content, or a new one with it. A known step keeps
/// its id, its content and when it was made; a new one says what is to be done.
pub proof fn plans_are_taken_over(
    c: GoalCall,
    g: GoalView,
    auto: u32,
    steps: Seq<JsonView>,
    k: int,
    at: int,
)
    requires
        lists(c.args, steps),
        goal_tool("update_plan"@, c, Some(g), auto).changed,
        0 <= k < steps.len(),
    ensures
        ({
            let n = goal_tool("update_plan"@, c, Some(g), auto).goal->Some_0;
            let new = n.plan[k];
            let v = steps[k];
            &&& n.plan.len() == steps.len()
            &&& text_at(v, "status"@) == Some(step_word(new.status))
            &&& text_at(v, "id"@) matches Some(id) ==> {
                &&& new.id == id
                &&& 0 <= at < g.plan.len() && g.plan[at].id == id && (forall|j: int|
                    0 <= j < at ==> #[trigger] g.plan[j].id != id) ==> new.content
                    == g.plan[at].content && new.created_at == g.plan[at].created_at
                &&& (forall|j: int| 0 <= j < g.plan.len() ==> #[trigger] g.plan[j].id != id) ==> says(
                    v,
                    new.content,
                ) && new.created_at == c.now
            }
            &&& text_at(v, "id"@) is None ==> {
                &&& says(v, new.content)
                &&& 0 <= at < g.plan.len() && g.plan[at].content == new.content && (forall|j: int|
                    0 <= j < at ==> #[trigger] g.plan[j].content != new.content) ==> new.id
                    == g.plan[at].id && new.created_at == g.plan[at].created_at
                &&& (forall|j: int|
                    0 <= j < g.plan.len() ==> #[trigger] g.plan[j].content != new.content) ==> new.id
                    == c.fresh[k] && new.created_at == c.now
            }
            &&& field(v, "estimate_sec"@) matches Some(JsonView::Int(e)) ==> 0 <= e <= u64::MAX
                ==> new.estimate_sec == Some(e as u64)
        }),
{
    lemma_words();
    lemma_next(g.plan, steps, c.now, c.fresh);
    lemma_request(steps[k]);
    let r = step_request(steps[k])->Ok_0;
    lemma_place(g.plan, r, 0);
    let p = meant_place(g.plan, r, 0);
    let n = goal_tool("update_plan"@, c, Some(g), auto).goal->Some_0;
    let new = n.plan[k];
    assert(new == next_step(g.plan, r, c.now, c.fresh[k]));
    if p < g.plan.len() {
        assert(is_meant(g.plan[p], r));
        if 0 <= at < g.plan.len() && is_meant(g.plan[at], r) {
            if at < p {
                assert(!is_meant(g.plan[at], r));
            }
        }
    } else {
        if 0 <= at < g.plan.len() {
            assert(!is_meant(g.plan[at], r));
        }
    }
}

/// The harness keeps the times of a step: it has started when it is first in progress,
/// is finished when it is first completed, and a blocked one says why. A time that is
/// known stays.
pub proof fn times_are_kept(
    c: GoalCall,
    g: GoalView,
    auto: u32,
    steps: Seq<JsonView>,
    k: int,
    at: int,
)
    requires
        lists(c.args, steps),
        goal_tool("update_plan"@, c, Some(g), auto).changed,
        0 <= k < steps.len(),
        0 <= at < g.plan.len(),
        text_at(steps[k], "id"@) == Some(g.plan[at].id),
        forall|j: int| 0 <= j < at ==> #[trigger] g.plan[j].id != g.plan[at].id,
    ensures
        ({
            let new = goal_tool("update_plan"@, c, Some(g), auto).goal->Some_0.plan[k];
            let was = g.plan[at];
            let changed = text_at(steps[k], "status"@) != Some(step_word(was.status));
            &&& was.started_at is Some ==> new.started_at == was.started_at
            &&& was.started_at is None && changed && new.status is InProgress ==> new.started_at
                == Some(c.now)
            &&& was.started_at is None && !(new.status is InProgress) ==> new.started_at is None
            &&& was.completed_at is Some ==> new.completed_at == was.completed_at
            &&& was.completed_at is None && changed && new.status is Completed ==> new.completed_at
                == Some(c.now)
            &&& was.completed_at is None && !(new.status is Completed) ==> new.completed_at is None
            &&& changed && new.status is Blocked && text_at(steps[k], "blocked_reason"@) is Some
                ==> new.blocked_reason == text_at(steps[k], "blocked_reason"@)
            &&& text_at(steps[k], "blocked_reason"@) is None ==> new.blocked_reason
                == was.blocked_reason
            &&& field(steps[k], "estimate_sec"@) is None ==> new.estimate_sec == was.estimate_sec
        }),
{
    lemma_words();
    lemma_next(g.plan, steps, c.now, c.fresh);
    lemma_request(steps[k]);
    let r = step_request(steps[k])->Ok_0;
    lemma_place(g.plan, r, 0);
    let p = meant_place(g.plan, r, 0);
    let new = goal_tool("update_plan"@, c, Some(g), auto).goal->Some_0.plan[k];
    assert(new == next_step(g.plan, r, c.now, c.fresh[k]));
    assert(is_meant(g.plan[at], r));
    if at < p {
        assert(!is_meant(g.plan[at], r));
    }
    assert(p == at);
    lemma_status(text_at(steps[k], "status"@)->Some_0, g.plan[at].status);
    lemma_status(text_at(steps[k], "status"@)->Some_0, r.status);
}

/// A step that is done or given up ends a blockage: the goal is active again and its
/// count of blocked turns starts anew. Otherwise both stay.
pub proof fn progress_ends_a_blockage(c: GoalCall, g: GoalView, auto: u32, steps: Seq<JsonView>)
    requires
        lists(c.args, steps),
        goal_tool("update_plan"@, c, Some(g), auto).changed,
    ensures
        ({
            let n = goal_tool("update_plan"@, c, Some(g), auto).goal->Some_0;
            let moved = exists|k: int|
                0 <= k < steps.len() && (text_at(#[trigger] steps[k], "status"@) == Some(
                    "completed"@,
                ) || text_at(steps[k], "status"@) == Some("cancelled"@));
            &&& n.consecutive_blocked_turns == (if moved {
                0
            } else {
                g.consecutive_blocked_turns
            })
            &&& n.status == (if moved && g.status is Blocked {
                GoalStatus::Active
            } else {
                g.status
            })
            &&& n.updated_at == c.now
        }),
{
    lemma_words();
    lemma_next(g.plan, steps, c.now, c.fresh);
    let n = goal_tool("update_plan"@, c, Some(g), auto).goal->Some_0;
    assert forall|k: int| 0 <= k < steps.len() implies text_at(#[trigger] steps[k], "status"@)
        == Some(step_word(n.plan[k].status)) by {
        lemma_request(steps[k]);
        assert(n.plan[k] == next_step(
            g.plan,
            step_request(steps[k])->Ok_0,
            c.now,
            c.fresh[k],
        ));
    }
    if crate::goals::made_progress(n.plan) {
        let i = choose|i: int|
            0 <= i < n.plan.len() && ((#[trigger] n.plan[i]).status is Completed
                || n.plan[i].status is Cancelled);
        assert(text_at(steps[i], "status"@) == Some(step_word(n.plan[i].status)));
    }
    if exists|k: int|
        0 <= k < steps.len() && (text_at(#[trigger] steps[k], "status"@) == Some("completed"@)
            || text_at(steps[k], "status"@) == Some("cancelled"@)) {
        let k = choose|k: int|
            0 <= k < steps.len() && (text_at(#[trigger] steps[k], "status"@) == Some(
                "completed"@,
            ) || text_at(steps[k], "status"@) == Some("cancelled"@));
        assert(n.plan[k].status is Completed || n.plan[k].status is Cancelled);
    }
}

/// A goal is set where none is unfinished: with the objective and the budget that are
/// asked for, active, without a plan and with nothing used. An unfinished one stays.
pub proof fn goals_are_set(c: GoalCall, goal: Option<GoalView>, auto: u32)
    ensures
        ({
            let t = goal_tool("set_goal"@, c, goal, auto);
            let free = goal is None || goal->Some_0.status is Complete
                || goal->Some_0.status is BudgetLimited;
            &&& t.changed <==> free && text_at(c.args, "objective"@) is Some
            &&& t.answer is Ok <==> t.changed
            &&& !t.changed ==> t.goal == goal && t.auto_turns_used == auto
            &&& t.changed ==> t.auto_turns_used == 0 && (t.goal matches Some(n) && {
                &&& text_at(c.args, "objective"@) == Some(n.objective)
                &&& n.token_budget == nat_at(c.args, "token_budget"@)
                &&& n.id == c.goal_id
                &&& n.status is Active
                &&& n.plan.len() == 0
                &&& n.tokens_used == 0
                &&& n.time_used_seconds == 0
                &&& n.consecutive_blocked_turns == 0
                &&& n.created_at == c.now
                &&& n.updated_at == c.now
                &&& t.answer matches Ok(a) && ends(a, n.objective)
            })
        }),
{
    lemma_words();
    let t = goal_tool("set_goal"@, c, goal, auto);
    if t.changed {
        let o = text_at(c.args, "objective"@)->Some_0;
        let a = t.answer->Ok_0;
        assert(a.subrange(a.len() - o.len(), a.len() as int) =~= o);
    }
}

/// A goal that is called complete is complete, with what was in progress done now; one
/// that is called blocked is blocked once more, with what was in progress blocked for a
/// reason. Every other step, and all else of the goal, stays. No other word is taken.
pub proof fn goals_are_updated(c: GoalCall, g: GoalView, auto: u32)
    requires
        g.consecutive_blocked_turns < u32::MAX,
    ensures
        ({
            let t = goal_tool("update_goal"@, c, Some(g), auto);
            let w = text_at(c.args, "status"@);
            &&& t.changed <==> w == Some("complete"@) || w == Some("blocked"@)
            &&& t.answer is Ok <==> t.changed
            &&& t.auto_turns_used == auto
            &&& !t.changed ==> t.goal == Some(g)
            &&& !t.changed && w is Some ==> (t.answer matches Err(e) && begins(
                e,
                "Invalid status: "@ + w->Some_0,
            ))
            &&& t.changed ==> (t.goal matches Some(n) && {
                &&& n.status is Complete <==> w == Some("complete"@)
                &&& n.status is Blocked <==> w == Some("blocked"@)
                &&& t.answer == Ok::<Text, Text>("Goal status: "@ + w->Some_0)
                &&& n.plan.len() == g.plan.len()
                &&& n.updated_at == c.now
                &&& n.consecutive_blocked_turns == g.consecutive_blocked_turns + (
                if n.status is Blocked {
                    1int
                } else {
                    0
                })
                &&& n == GoalView {
                    status: n.status,
                    plan: n.plan,
                    updated_at: n.updated_at,
                    consecutive_blocked_turns: n.consecutive_blocked_turns,
                    ..g
                }
                &&& forall|k: int|
                    0 <= k < g.plan.len() ==> {
                        let was = g.plan[k];
                        let now = #[trigger] n.plan[k];
                        &&& !(was.status is InProgress) ==> now == was
                        &&& was.status is InProgress && n.status is Complete
                            ==> now.status is Completed && now.completed_at == Some(c.now)
                            && now.blocked_reason == was.blocked_reason
                        &&& was.status is InProgress && n.status is Blocked
                            ==> now.status is Blocked && now.blocked_reason is Some && (
                        was.blocked_reason is Some ==> now.blocked_reason == was.blocked_reason)
                            && now.completed_at == was.completed_at
                        &&& now.id == was.id && now.content == was.content && now.created_at
                            == was.created_at && now.started_at == was.started_at
                            && now.estimate_sec == was.estimate_sec
                    }
            })
        }),
{
    lemma_words();
    let t = goal_tool("update_goal"@, c, Some(g), auto);
    if !t.changed && text_at(c.args, "status"@) is Some {
        let e = t.answer->Err_0;
        let w = "Invalid status: "@ + text_at(c.args, "status"@)->Some_0;
        assert(e.subrange(0, w.len() as int) =~= w);
    }
}

/// Reading the goal changes nothing and hands back what it is.
pub proof fn goals_are_read(c: GoalCall, g: GoalView, auto: u32)
    ensures
        ({
            let t = goal_tool("get_goal"@, c, Some(g), auto);
            &&& t.answer == Ok::<Text, Text>(json_pretty(crate::encode::goal_json(g)))
            &&& t.goal == Some(g)
            &&& t.auto_turns_used == auto
            &&& !t.changed
        }),
        goal_tool("get_goal"@, c, None, auto).answer is Err,
{
}

/// What a goal tool answers goes back under the id of its call: the answer itself, or
/// the error marked as one; it is reported under the same id.
pub proof fn goal_answers_go_back(id: Text, name: Text, answer: Result<Text, Text>)
    ensures
        ({
            let b = answer_block(id, answer);
            let e = answer_event(id, name, answer);
            &&& b is ToolResult && b->ToolResult_tool_use_id == id
            &&& answer matches Ok(a) ==> b->ToolResult_content == a && e is ToolDone
                && e->ToolDone_id == id && e->ToolDone_name == name && begins(a, e->ToolDone_summary)
                && (a.len() <= 80 ==> e->ToolDone_summary == a)
            &&& answer matches Err(x) ==> b->ToolResult_content == "Error: "@ + x && e == (
            EventView::ToolError { id, name, error: x })
        }),
{
    if let Ok(a) = answer {
        let s = crate::text::head(a, 80);
        assert(a.subrange(0, s.len() as int) =~= s);
    }
}

/// Pausing and resuming change the state of a goal and nothing of what it is for;
/// resuming forgets what blocked it.
pub proof fn goals_are_paused(g: GoalView, paused: bool, now: i64)
    ensures
        ({
            let n = paused_goal(g, paused, now);
            &&& n.status is Paused <==> paused
            &&& n.status is Active <==> !paused
            &&& n.consecutive_blocked_turns == (if paused {
                g.consecutive_blocked_turns
            } else {
                0
            })
            &&& n.id == g.id && n.objective == g.objective && n.plan == g.plan
            &&& n.token_budget == g.token_budget && n.tokens_used == g.tokens_used
            &&& n.time_used_seconds == g.time_used_seconds && n.created_at == g.created_at
            &&& n.updated_at == now
        }),
{
}

/// A turn that follows by itself says which goal it is for.
pub proof fn continuations_name_the_goal(g: GoalView)
    ensures
        ends(continuation_text(Some(g)), g.objective),
{
    let t = continuation_text(Some(g));
    assert(t.subrange(t.len() - g.objective.len(), t.len() as int) =~= g.objective);
}

/// A turn follows by itself exactly where goal mode is on, the goal is active and turns
/// are left; each one that does is counted.
pub proof fn turns_follow(s: StateView)
    ensures
        can_auto_advance(s) <==> s.goal_mode && (s.goal matches Some(g) && g.status is Active)
            && s.auto_turns_used < s.goal_max_auto_turns,
        s.auto_turns_used < u32::MAX ==> auto_turn_noted(s).auto_turns_used == s.auto_turns_used
            + 1,
        auto_turn_noted(s).messages == s.messages,
        auto_turn_noted(s).goal == s.goal,
{
}

} // verus!
