//! Goals and plans: the rules by which the model may change them.

use crate::api::opt_views;
use crate::encode::goal_json;
use crate::events::{AgentStreamEvent, EventView};
use crate::ids::{fresh_uuid, is_uuid};
use crate::json::{
    field_or_null, json_parse, json_pretty, nat_at, or_empty, parse_json, pretty_json, text_at,
    whole_of, Json, JsonView,
};
use crate::message::{BlockView, ContentBlock};
use crate::session::{
    goal_status_text, GoalStatus, GoalView, PlanStep, SessionGoal, StepStatus, StepView,
    step_status_text,
};
use crate::text::{
    decimal, first_chars, head, lemma_views_push, number, opt_view, text_eq, views, Text,
};
use vstd::prelude::*;

verus! {

/// The state that a word stands for, or the complaint about it.
pub open spec fn status_of(v: Text) -> Result<StepStatus, Text> {
    if v == "pending"@ {
        Ok(StepStatus::Pending)
    } else if v == "in_progress"@ {
        Ok(StepStatus::InProgress)
    } else if v == "completed"@ {
        Ok(StepStatus::Completed)
    } else if v == "cancelled"@ {
        Ok(StepStatus::Cancelled)
    } else if v == "blocked"@ {
        Ok(StepStatus::Blocked)
    } else {
        Err("Invalid step status: "@ + v)
    }
}

/// A result with its error as a text.
pub open spec fn seen<T>(r: Result<T, String>) -> Result<T, Text> {
    match r {
        Ok(t) => Ok(t),
        Err(e) => Err(e@),
    }
}

/// The state that a word stands for.
pub fn parse_step_status(v: &str) -> (r: Result<StepStatus, String>)
    ensures
        seen(r) == status_of(v@),
{
    if text_eq(v, "pending") {
        Ok(StepStatus::Pending)
    } else if text_eq(v, "in_progress") {
        Ok(StepStatus::InProgress)
    } else if text_eq(v, "completed") {
        Ok(StepStatus::Completed)
    } else if text_eq(v, "cancelled") {
        Ok(StepStatus::Cancelled)
    } else if text_eq(v, "blocked") {
        Ok(StepStatus::Blocked)
    } else {
        let mut e = "Invalid step status: ".to_string();
        e.push_str(v);
        Err(e)
    }
}

/// What is written for a state reads back as that state.
pub proof fn status_reads_back(s: StepStatus)
    ensures
        status_of(step_status_text(s)) == Ok::<StepStatus, Text>(s),
{
    reveal_strlit("pending");
    reveal_strlit("in_progress");
    reveal_strlit("completed");
    reveal_strlit("cancelled");
    reveal_strlit("blocked");
    assert("pending"@[0] == 'p');
    assert("in_progress"@[0] == 'i');
    assert("completed"@[1] == 'o');
    assert("cancelled"@[1] == 'a');
    assert("blocked"@[0] == 'b');
    assert("cancelled"@[0] == 'c');
    assert("completed"@[0] == 'c');
}

/// What the model asks of one step.
#[verifier::ext_equal]
pub struct StepRequest {
    pub content: Text,
    pub status: StepStatus,
    pub id: Option<Text>,
    pub estimate: Option<u64>,
    pub reason: Option<Text>,
}

/// What the model asks of one step, or what is missing. The content may also be
/// called `step`; an estimate may be a fraction.
pub open spec fn step_request(v: JsonView) -> Result<StepRequest, Text> {
    let content = match text_at(v, "content"@) {
        Some(t) => Some(t),
        None => text_at(v, "step"@),
    };
    match content {
        None => Err("Missing step content"@),
        Some(content) => match text_at(v, "status"@) {
            None => Err("Missing step status"@),
            Some(s) => match status_of(s) {
                Err(e) => Err(e),
                Ok(status) => Ok(
                    StepRequest {
                        content,
                        status,
                        id: text_at(v, "id"@),
                        estimate: whole_of(field_or_null(v, "estimate_sec"@)),
                        reason: text_at(v, "blocked_reason"@),
                    },
                ),
            },
        },
    }
}

/// Whether a step of the plan is the one that is meant: by its id, or by its
/// content where no id is given.
pub open spec fn is_meant(p: StepView, r: StepRequest) -> bool {
    match r.id {
        Some(id) => p.id == id,
        None => p.content == r.content,
    }
}

/// The place of the first step that is meant, from `from` on; the length of the
/// plan where there is none.
pub open spec fn meant_place(plan: Seq<StepView>, r: StepRequest, from: int) -> int
    decreases plan.len() - from,
{
    if from >= plan.len() {
        plan.len() as int
    } else if is_meant(plan[from], r) {
        from
    } else {
        meant_place(plan, r, from + 1)
    }
}

/// A step that is not in the plan yet.
pub open spec fn new_step(r: StepRequest, now: i64, fresh: Text) -> StepView {
    StepView {
        id: match r.id {
            Some(id) => id,
            None => fresh,
        },
        content: r.content,
        status: StepStatus::Pending,
        created_at: now,
        started_at: None,
        completed_at: None,
        blocked_reason: None,
        estimate_sec: None,
    }
}

/// A step after the request. Times are set when the state changes, and those that
/// are set stay.
pub open spec fn moved_step(p: StepView, r: StepRequest, now: i64) -> StepView {
    let changed = p.status != r.status;
    StepView {
        status: r.status,
        started_at: if changed && r.status is InProgress && p.started_at is None {
            Some(now)
        } else {
            p.started_at
        },
        completed_at: if changed && r.status is Completed && p.completed_at is None {
            Some(now)
        } else {
            p.completed_at
        },
        blocked_reason: if changed && r.status is Blocked && r.reason is Some {
            r.reason
        } else {
            p.blocked_reason
        },
        estimate_sec: if r.estimate is Some {
            r.estimate
        } else {
            p.estimate_sec
        },
        ..p
    }
}

/// The step that comes out of a request: the one that is meant, or a new one.
pub open spec fn next_step(plan: Seq<StepView>, r: StepRequest, now: i64, fresh: Text) -> StepView {
    let at = meant_place(plan, r, 0);
    moved_step(
        if at < plan.len() {
            plan[at]
        } else {
            new_step(r, now, fresh)
        },
        r,
        now,
    )
}

/// The plan that comes out of a list of requests, or the first complaint. A new
/// step without an id gets the fresh one of its place.
pub open spec fn next_plan(
    plan: Seq<StepView>,
    steps: Seq<JsonView>,
    now: i64,
    fresh: Seq<Text>,
) -> Result<Seq<StepView>, Text>
    decreases steps.len(),
{
    if steps.len() == 0 {
        Ok(Seq::empty())
    } else {
        match next_plan(plan, steps.drop_last(), now, fresh) {
            Err(e) => Err(e),
            Ok(done) => match step_request(steps.last()) {
                Err(e) => Err(e),
                Ok(r) => Ok(done.push(next_step(plan, r, now, fresh[steps.len() - 1]))),
            },
        }
    }
}

/// How many steps are being worked on.
pub open spec fn in_progress_count(plan: Seq<StepView>) -> nat
    decreases plan.len(),
{
    if plan.len() == 0 {
        0
    } else {
        in_progress_count(plan.drop_last()) + (if plan.last().status is InProgress {
            1nat
        } else {
            0nat
        })
    }
}

/// Whether some step is completed or cancelled.
pub open spec fn made_progress(plan: Seq<StepView>) -> bool {
    exists|i: int|
        0 <= i < plan.len() && ((#[trigger] plan[i]).status is Completed
            || plan[i].status is Cancelled)
}

/// The goal after its plan was updated, or the complaint. Progress ends a
/// blockage.
pub open spec fn plan_updated(
    g: GoalView,
    steps: Seq<JsonView>,
    now: i64,
    fresh: Seq<Text>,
) -> Result<GoalView, Text> {
    match next_plan(g.plan, steps, now, fresh) {
        Err(e) => Err(e),
        Ok(plan) => if in_progress_count(plan) > 1 {
            Err("At most one step can be in_progress at a time."@)
        } else {
            Ok(
                GoalView {
                    plan,
                    consecutive_blocked_turns: if made_progress(plan) {
                        0
                    } else {
                        g.consecutive_blocked_turns
                    },
                    status: if made_progress(plan) && g.status is Blocked {
                        GoalStatus::Active
                    } else {
                        g.status
                    },
                    updated_at: now,
                    ..g
                },
            )
        },
    }
}

/// What the model is told after an update of the plan.
pub open spec fn plan_message(steps: nat) -> Text {
    "Plan updated: "@ + decimal(steps) + " steps"@
}

/// A request, as it is worked on.
struct Wanted {
    content: String,
    status: StepStatus,
    id: Option<String>,
    estimate: Option<u64>,
    reason: Option<String>,
}

impl View for Wanted {
    type V = StepRequest;

    closed spec fn view(&self) -> StepRequest {
        StepRequest {
            content: self.content@,
            status: self.status,
            id: opt_view(self.id),
            estimate: self.estimate,
            reason: opt_view(self.reason),
        }
    }
}

fn read_request(st: &Json) -> (r: Result<Wanted, String>)
    ensures
        match r {
            Ok(w) => step_request(st@) == Ok::<StepRequest, Text>(w@),
            Err(e) => step_request(st@) == Err::<StepRequest, Text>(e@),
        },
{
    let content = match st.opt_string_at("content") {
        Some(t) => Some(t),
        None => st.opt_string_at("step"),
    };
    match content {
        None => Err("Missing step content".to_string()),
        Some(content) => match st.str_at("status") {
            None => Err("Missing step status".to_string()),
            Some(s) => match parse_step_status(s) {
                Err(e) => Err(e),
                Ok(status) => Ok(
                    Wanted {
                        content,
                        status,
                        id: st.opt_string_at("id"),
                        estimate: st.value_at("estimate_sec").as_whole(),
                        reason: st.opt_string_at("blocked_reason"),
                    },
                ),
            },
        },
    }
}

fn place_meant(plan: &Vec<PlanStep>, w: &Wanted) -> (r: usize)
    ensures
        r == meant_place(views(plan@), w@, 0),
        r <= plan@.len(),
{
    let mut i: usize = 0;
    while i < plan.len()
        invariant
            i <= plan@.len(),
            meant_place(views(plan@), w@, i as int) == meant_place(views(plan@), w@, 0),
        decreases plan@.len() - i,
    {
        let meant = match &w.id {
            Some(id) => text_eq(&plan[i].id, id),
            None => text_eq(&plan[i].content, &w.content),
        };
        assert(views(plan@)[i as int] == plan@[i as int]@);
        if meant {
            return i;
        }
        i = i + 1;
    }
    i
}

fn make_step(plan: &Vec<PlanStep>, w: Wanted, now: i64, fresh: &str) -> (r: PlanStep)
    ensures
        r@ == next_step(views(plan@), w@, now, fresh@),
{
    let at: usize = place_meant(plan, &w);
    let mut step = if at < plan.len() {
        plan[at].clone()
    } else {
        PlanStep {
            id: match &w.id {
                Some(id) => id.clone(),
                None => fresh.to_string(),
            },
            content: w.content.clone(),
            status: StepStatus::Pending,
            created_at: now,
            started_at: None,
            completed_at: None,
            blocked_reason: None,
            estimate_sec: None,
        }
    };
    if step.status != w.status {
        if w.status == StepStatus::InProgress && step.started_at.is_none() {
            step.started_at = Some(now);
        }
        if w.status == StepStatus::Completed && step.completed_at.is_none() {
            step.completed_at = Some(now);
        }
        if w.status == StepStatus::Blocked && w.reason.is_some() {
            step.blocked_reason = w.reason;
        }
        step.status = w.status;
    }
    if w.estimate.is_some() {
        step.estimate_sec = w.estimate;
    }
    step
}

fn count_in_progress(plan: &Vec<PlanStep>) -> (r: usize)
    ensures
        r == in_progress_count(views(plan@)),
{
    let mut n: usize = 0;
    let mut i: usize = 0;
    while i < plan.len()
        invariant
            i <= plan@.len(),
            n <= i,
            n == in_progress_count(views(plan@).take(i as int)),
        decreases plan@.len() - i,
    {
        assert(views(plan@).take(i + 1).drop_last() =~= views(plan@).take(i as int));
        if plan[i].status == StepStatus::InProgress {
            n = n + 1;
        }
        i = i + 1;
    }
    assert(views(plan@).take(i as int) =~= views(plan@));
    n
}

fn shows_progress(plan: &Vec<PlanStep>) -> (r: bool)
    ensures
        r == made_progress(views(plan@)),
{
    let mut i: usize = 0;
    while i < plan.len()
        invariant
            i <= plan@.len(),
            forall|j: int|
                0 <= j < i ==> !((#[trigger] views(plan@)[j]).status is Completed) && !(
                views(plan@)[j].status is Cancelled),
        decreases plan@.len() - i,
    {
        if plan[i].status == StepStatus::Completed || plan[i].status == StepStatus::Cancelled {
            assert(views(plan@)[i as int] == plan@[i as int]@);
            return true;
        }
        i = i + 1;
    }
    false
}

fn make_plan(plan: &Vec<PlanStep>, steps: &Vec<Json>, now: i64, fresh: &Vec<String>) -> (r: Result<
    Vec<PlanStep>,
    String,
>)
    requires
        fresh@.len() == steps@.len(),
    ensures
        match r {
            Ok(p) => next_plan(views(plan@), views(steps@), now, views(fresh@)) == Ok::<
                Seq<StepView>,
                Text,
            >(views(p@)),
            Err(e) => next_plan(views(plan@), views(steps@), now, views(fresh@)) == Err::<
                Seq<StepView>,
                Text,
            >(e@),
        },
{
    let mut next: Vec<PlanStep> = Vec::new();
    let ghost all = views(steps@);
    let mut i: usize = 0;
    assert(views(next@) =~= Seq::<StepView>::empty());
    while i < steps.len()
        invariant
            i <= steps@.len(),
            fresh@.len() == steps@.len(),
            all == views(steps@),
            next_plan(views(plan@), all.take(i as int), now, views(fresh@)) == Ok::<
                Seq<StepView>,
                Text,
            >(views(next@)),
        decreases steps@.len() - i,
    {
        assert(all.take(i + 1).drop_last() =~= all.take(i as int));
        assert(views(fresh@)[i as int] == fresh@[i as int]@);
        match read_request(&steps[i]) {
            Ok(w) => {
                let step = make_step(plan, w, now, &fresh[i]);
                proof {
                    lemma_views_push(next@, step);
                }
                next.push(step);
            },
            Err(e) => {
                proof {
                    lemma_complaint_stays(views(plan@), all, now, views(fresh@), i + 1);
                }
                return Err(e);
            },
        }
        i = i + 1;
    }
    assert(all.take(i as int) =~= all);
    Ok(next)
}

/// A complaint about the first steps is the complaint about all of them.
proof fn lemma_complaint_stays(
    plan: Seq<StepView>,
    steps: Seq<JsonView>,
    now: i64,
    fresh: Seq<Text>,
    n: int,
)
    requires
        0 <= n <= steps.len(),
        next_plan(plan, steps.take(n), now, fresh) is Err,
    ensures
        next_plan(plan, steps, now, fresh) == next_plan(plan, steps.take(n), now, fresh),
    decreases steps.len() - n,
{
    if n < steps.len() {
        assert(steps.take(n + 1).drop_last() =~= steps.take(n));
        lemma_complaint_stays(plan, steps, now, fresh, n + 1);
    } else {
        assert(steps.take(n) =~= steps);
    }
}

/// Updates the plan of a goal from the model's list of steps. `fresh[i]` names
/// step `i` if it is new and has no id. A list that is refused changes nothing.
pub fn apply_plan_update_with(
    goal: &mut SessionGoal,
    steps: &Vec<Json>,
    now: i64,
    fresh: &Vec<String>,
) -> (r: Result<String, String>)
    requires
        fresh@.len() == steps@.len(),
    ensures
        match r {
            Ok(m) => plan_updated(old(goal)@, views(steps@), now, views(fresh@)) == Ok::<
                GoalView,
                Text,
            >(final(goal)@) && m@ == plan_message(steps@.len()),
            Err(e) => plan_updated(old(goal)@, views(steps@), now, views(fresh@)) == Err::<
                GoalView,
                Text,
            >(e@) && final(goal)@ == old(goal)@,
        },
{
    let plan = match make_plan(&goal.plan, steps, now, fresh) {
        Ok(p) => p,
        Err(e) => {
            return Err(e);
        },
    };
    if count_in_progress(&plan) > 1 {
        return Err("At most one step can be in_progress at a time.".to_string());
    }
    proof {
        lemma_plan_len(goal@.plan, views(steps@), now, views(fresh@));
    }
    let progress = shows_progress(&plan);
    goal.plan = plan;
    if progress {
        goal.consecutive_blocked_turns = 0;
        if goal.status == GoalStatus::Blocked {
            goal.status = GoalStatus::Active;
        }
    }
    goal.updated_at = now;
    let mut m = "Plan updated: ".to_string();
    m.push_str(&number(goal.plan.len() as u64));
    m.push_str(" steps");
    Ok(m)
}

proof fn lemma_plan_len(plan: Seq<StepView>, steps: Seq<JsonView>, now: i64, fresh: Seq<Text>)
    ensures
        next_plan(plan, steps, now, fresh) matches Ok(p) ==> p.len() == steps.len(),
    decreases steps.len(),
{
    if steps.len() > 0 {
        lemma_plan_len(plan, steps.drop_last(), now, fresh);
    }
}

pub open spec fn all_uuids(ids: Seq<Text>) -> bool {
    forall|i: int| 0 <= i < ids.len() ==> is_uuid(#[trigger] ids[i])
}

fn fresh_uuids(n: usize) -> (r: Vec<String>)
    ensures
        r@.len() == n,
        all_uuids(views(r@)),
{
    let mut out: Vec<String> = Vec::new();
    let mut i: usize = 0;
    while i < n
        invariant
            i <= n,
            out@.len() == i,
            all_uuids(views(out@)),
        decreases n - i,
    {
        let id = fresh_uuid();
        proof {
            lemma_views_push(out@, id);
        }
        out.push(id);
        i = i + 1;
    }
    out
}

/// Whether an update of the plan with these fresh ids led from `before` to
/// `after` with the answer `r`.
pub open spec fn plan_update_done(
    before: GoalView,
    after: GoalView,
    steps: Seq<JsonView>,
    now: i64,
    fresh: Seq<Text>,
    r: Result<Text, Text>,
) -> bool {
    match plan_updated(before, steps, now, fresh) {
        Ok(g) => after == g && r == Ok::<Text, Text>(plan_message(steps.len())),
        Err(e) => after == before && r == Err::<Text, Text>(e),
    }
}

/// A result with texts on both sides.
pub open spec fn answer_view(r: Result<String, String>) -> Result<Text, Text> {
    match r {
        Ok(t) => Ok(t@),
        Err(e) => Err(e@),
    }
}

/// Updates the plan of a goal from the model's list of steps: steps are known
/// again by id or content and keep their times, at most one may be in progress,
/// and progress ends a blockage. A list that is refused changes nothing.
pub fn apply_plan_update(goal: &mut SessionGoal, steps: &Vec<Json>, now: i64) -> (r: Result<
    String,
    String,
>)
    ensures
        exists|fresh: Seq<Text>|
            fresh.len() == steps@.len() && all_uuids(fresh) && #[trigger] plan_update_done(
                old(goal)@,
                final(goal)@,
                views(steps@),
                now,
                fresh,
                answer_view(r),
            ),
{
    let fresh = fresh_uuids(steps.len());
    let ghost before = goal@;
    let r = apply_plan_update_with(goal, steps, now, &fresh);
    assert(plan_update_done(before, goal@, views(steps@), now, views(fresh@), answer_view(r)));
    r
}

proof fn lemma_plan_step(
    plan: Seq<StepView>,
    steps: Seq<JsonView>,
    now: i64,
    fresh: Seq<Text>,
    k: int,
)
    requires
        next_plan(plan, steps, now, fresh) is Ok,
        0 <= k < steps.len(),
    ensures
        step_request(steps[k]) matches Ok(r) && next_plan(plan, steps, now, fresh)->Ok_0[k]
            == next_step(plan, r, now, fresh[k]),
        next_plan(plan, steps, now, fresh)->Ok_0.len() == steps.len(),
    decreases steps.len(),
{
    lemma_plan_len(plan, steps, now, fresh);
    lemma_plan_len(plan, steps.drop_last(), now, fresh);
    if k < steps.len() - 1 {
        lemma_plan_step(plan, steps.drop_last(), now, fresh, k);
        assert(steps.drop_last()[k] == steps[k]);
    }
}

proof fn lemma_meant_place(plan: Seq<StepView>, r: StepRequest, from: int)
    requires
        0 <= from <= plan.len(),
    ensures
        from <= meant_place(plan, r, from) <= plan.len(),
        meant_place(plan, r, from) < plan.len() ==> is_meant(plan[meant_place(plan, r, from)], r),
        forall|i: int| from <= i < meant_place(plan, r, from) ==> !is_meant(#[trigger] plan[i], r),
    decreases plan.len() - from,
{
    if from < plan.len() && !is_meant(plan[from], r) {
        lemma_meant_place(plan, r, from + 1);
    }
}

proof fn lemma_two_in_progress(plan: Seq<StepView>, i: int, j: int)
    requires
        0 <= i < j < plan.len(),
        plan[i].status is InProgress,
        plan[j].status is InProgress,
    ensures
        in_progress_count(plan) >= 2,
    decreases plan.len(),
{
    let t = plan.drop_last();
    if j < t.len() {
        assert(t[i] == plan[i] && t[j] == plan[j]);
        lemma_two_in_progress(t, i, j);
    } else {
        assert(t[i] == plan[i]);
        lemma_one_in_progress(t, i);
    }
}

proof fn lemma_one_in_progress(plan: Seq<StepView>, i: int)
    requires
        0 <= i < plan.len(),
        plan[i].status is InProgress,
    ensures
        in_progress_count(plan) >= 1,
    decreases plan.len(),
{
    if i < plan.len() - 1 {
        assert(plan.drop_last()[i] == plan[i]);
        lemma_one_in_progress(plan.drop_last(), i);
    }
}

/// A plan that is accepted has at most one step in progress.
pub proof fn one_step_in_progress(
    g: GoalView,
    steps: Seq<JsonView>,
    now: i64,
    fresh: Seq<Text>,
    i: int,
    j: int,
)
    requires
        plan_updated(g, steps, now, fresh) is Ok,
        0 <= i < j < steps.len(),
    ensures
        plan_updated(g, steps, now, fresh)->Ok_0.plan.len() == steps.len(),
        !(plan_updated(g, steps, now, fresh)->Ok_0.plan[i].status is InProgress
            && plan_updated(g, steps, now, fresh)->Ok_0.plan[j].status is InProgress),
{
    let plan = plan_updated(g, steps, now, fresh)->Ok_0.plan;
    lemma_plan_len(g.plan, steps, now, fresh);
    if plan[i].status is InProgress && plan[j].status is InProgress {
        lemma_two_in_progress(plan, i, j);
    }
}

/// A step that is known again keeps its id, its content and its date of birth,
/// and a start or an end that has been recorded stays; the model supplies no
/// times.
pub proof fn steps_keep_identity(
    g: GoalView,
    steps: Seq<JsonView>,
    now: i64,
    fresh: Seq<Text>,
    k: int,
)
    requires
        plan_updated(g, steps, now, fresh) is Ok,
        0 <= k < steps.len(),
    ensures
        ({
            let r = step_request(steps[k])->Ok_0;
            let at = meant_place(g.plan, r, 0);
            let new = plan_updated(g, steps, now, fresh)->Ok_0.plan[k];
            &&& new.status == r.status
            &&& at < g.plan.len() ==> {
                let old_step = g.plan[at];
                &&& is_meant(old_step, r)
                &&& new.id == old_step.id
                &&& new.content == old_step.content
                &&& new.created_at == old_step.created_at
                &&& old_step.started_at is Some ==> new.started_at == old_step.started_at
                &&& old_step.completed_at is Some ==> new.completed_at == old_step.completed_at
            }
            &&& at >= g.plan.len() ==> new.created_at == now && new.content == r.content
            &&& new.started_at is Some ==> new.started_at.unwrap() == now || (at < g.plan.len()
                && new.started_at == g.plan[at].started_at)
            &&& new.completed_at is Some ==> new.completed_at.unwrap() == now || (at < g.plan.len()
                && new.completed_at == g.plan[at].completed_at)
        }),
{
    lemma_plan_step(g.plan, steps, now, fresh, k);
    let r = step_request(steps[k])->Ok_0;
    lemma_meant_place(g.plan, r, 0);
}

/// An update of the plan leaves the rest of the goal alone.
pub proof fn plan_update_keeps_goal(g: GoalView, steps: Seq<JsonView>, now: i64, fresh: Seq<Text>)
    requires
        plan_updated(g, steps, now, fresh) is Ok,
    ensures
        ({
            let n = plan_updated(g, steps, now, fresh)->Ok_0;
            &&& n.id == g.id
            &&& n.objective == g.objective
            &&& n.token_budget == g.token_budget
            &&& n.tokens_used == g.tokens_used
            &&& n.time_used_seconds == g.time_used_seconds
            &&& n.created_at == g.created_at
            &&& !(g.status is Blocked) ==> n.status == g.status
        }),
{
}

/// Whether a tool works on the goal rather than on files.
pub open spec fn goal_tool_name(name: Text) -> bool {
    name == "set_goal"@ || name == "update_goal"@ || name == "update_plan"@ || name == "get_goal"@
}

/// Whether a tool works on the goal rather than on files.
pub fn is_goal_tool(name: &str) -> (r: bool)
    ensures
        r == goal_tool_name(name@),
{
    text_eq(name, "set_goal") || text_eq(name, "update_goal") || text_eq(name, "update_plan")
        || text_eq(name, "get_goal")
}

/// A goal that has just been set.
pub open spec fn new_goal(id: Text, objective: Text, budget: Option<u64>, now: i64) -> GoalView {
    GoalView {
        id,
        objective,
        status: GoalStatus::Active,
        token_budget: budget,
        tokens_used: 0,
        time_used_seconds: 0,
        created_at: now,
        updated_at: now,
        plan: Seq::empty(),
        consecutive_blocked_turns: 0,
    }
}

/// A goal that has just been set.
pub fn make_goal(id: String, objective: String, budget: Option<u64>, now: i64) -> (r: SessionGoal)
    ensures
        r@ == new_goal(id@, objective@, budget, now),
{
    let g = SessionGoal {
        id,
        objective,
        status: GoalStatus::Active,
        token_budget: budget,
        tokens_used: 0,
        time_used_seconds: 0,
        created_at: now,
        updated_at: now,
        plan: Vec::new(),
        consecutive_blocked_turns: 0,
    };
    assert(g@.plan =~= Seq::<StepView>::empty());
    g
}

/// Whether a goal is over.
pub open spec fn is_over(s: GoalStatus) -> bool {
    s is BudgetLimited || s is Complete
}

/// The plan of a goal that is complete: what was in progress is done now.
pub open spec fn closed_plan(plan: Seq<StepView>, now: i64) -> Seq<StepView> {
    Seq::new(
        plan.len(),
        |i: int|
            if plan[i].status is InProgress {
                StepView { status: StepStatus::Completed, completed_at: Some(now), ..plan[i] }
            } else {
                plan[i]
            },
    )
}

/// The plan of a goal that is blocked: what was in progress is blocked, with the
/// reason it already had or a general one.
pub open spec fn blocked_plan(plan: Seq<StepView>) -> Seq<StepView> {
    Seq::new(
        plan.len(),
        |i: int|
            if plan[i].status is InProgress {
                StepView {
                    status: StepStatus::Blocked,
                    blocked_reason: Some(
                        match plan[i].blocked_reason {
                            Some(r) => r,
                            None => "Blocked by the same condition across consecutive turns."@,
                        },
                    ),
                    ..plan[i]
                }
            } else {
                plan[i]
            },
    )
}

fn close_plan(plan: &Vec<PlanStep>, now: i64) -> (r: Vec<PlanStep>)
    ensures
        views(r@) == closed_plan(views(plan@), now),
{
    let mut out: Vec<PlanStep> = Vec::new();
    let ghost want = closed_plan(views(plan@), now);
    let mut i: usize = 0;
    while i < plan.len()
        invariant
            i <= plan@.len(),
            want == closed_plan(views(plan@), now),
            views(out@) == want.take(i as int),
        decreases plan@.len() - i,
    {
        let mut step = plan[i].clone();
        if step.status == StepStatus::InProgress {
            step.status = StepStatus::Completed;
            step.completed_at = Some(now);
        }
        proof {
            assert(step@ == want[i as int]);
            lemma_views_push(out@, step);
            assert(want.take(i + 1) =~= want.take(i as int).push(want[i as int]));
        }
        out.push(step);
        i = i + 1;
    }
    assert(want.take(i as int) =~= want);
    out
}

fn block_plan(plan: &Vec<PlanStep>) -> (r: Vec<PlanStep>)
    ensures
        views(r@) == blocked_plan(views(plan@)),
{
    let mut out: Vec<PlanStep> = Vec::new();
    let ghost want = blocked_plan(views(plan@));
    let mut i: usize = 0;
    while i < plan.len()
        invariant
            i <= plan@.len(),
            want == blocked_plan(views(plan@)),
            views(out@) == want.take(i as int),
        decreases plan@.len() - i,
    {
        let mut step = plan[i].clone();
        if step.status == StepStatus::InProgress {
            step.status = StepStatus::Blocked;
            if step.blocked_reason.is_none() {
                step.blocked_reason = Some(
                    "Blocked by the same condition across consecutive turns.".to_string(),
                );
            }
        }
        proof {
            assert(step@ == want[i as int]);
            lemma_views_push(out@, step);
            assert(want.take(i + 1) =~= want.take(i as int).push(want[i as int]));
        }
        out.push(step);
        i = i + 1;
    }
    assert(want.take(i as int) =~= want);
    out
}

/// What a goal tool leads to: its answer, the goal and the number of automatic
/// turns used afterwards, and whether the goal was changed.
#[verifier::ext_equal]
pub struct GoalToolView {
    pub answer: Result<Text, Text>,
    pub goal: Option<GoalView>,
    pub auto_turns_used: u32,
    pub changed: bool,
}

/// A call that is refused: nothing changes.
pub open spec fn refused(e: Text, goal: Option<GoalView>, auto: u32) -> GoalToolView {
    GoalToolView { answer: Err(e), goal, auto_turns_used: auto, changed: false }
}

pub open spec fn no_goal_text() -> Text {
    "No active goal — call set_goal first."@
}

/// The goal after its status was set by the model.
pub open spec fn status_updated(g: GoalView, status: Text, now: i64) -> Result<GoalView, Text> {
    if status == "complete"@ {
        Ok(
            GoalView {
                status: GoalStatus::Complete,
                plan: closed_plan(g.plan, now),
                updated_at: now,
                ..g
            },
        )
    } else if status == "blocked"@ {
        Ok(
            GoalView {
                status: GoalStatus::Blocked,
                consecutive_blocked_turns: (g.consecutive_blocked_turns + 1) as u32,
                plan: blocked_plan(g.plan),
                updated_at: now,
                ..g
            },
        )
    } else {
        Err("Invalid status: "@ + status + " (use \"complete\" or \"blocked\")"@)
    }
}

/// What a goal tool is called with.
pub struct GoalCall {
    pub args: JsonView,
    pub now: i64,
    /// The id of a goal that is set.
    pub goal_id: Text,
    /// The ids of new steps of a plan.
    pub fresh: Seq<Text>,
}

/// What `get_goal` leads to: the goal as indented JSON.
pub open spec fn got_goal(goal: Option<GoalView>, auto: u32) -> GoalToolView {
    match goal {
        None => refused(no_goal_text(), goal, auto),
        Some(g) => GoalToolView {
            answer: Ok(json_pretty(goal_json(g))),
            goal,
            auto_turns_used: auto,
            changed: false,
        },
    }
}

/// What `set_goal` leads to: a goal that is not over may not be replaced.
pub open spec fn set_goal_call(c: GoalCall, goal: Option<GoalView>, auto: u32) -> GoalToolView {
    match text_at(c.args, "objective"@) {
        None => refused("Missing objective"@, goal, auto),
        Some(objective) => if goal matches Some(g) && !is_over(g.status) {
            refused(
                "An unfinished goal already exists (status="@ + goal_status_text(
                    goal.unwrap().status,
                )
                    + "). Finish it (update_goal complete) or ask the user to replace it from the UI before setting a new one."@,
                goal,
                auto,
            )
        } else {
            GoalToolView {
                answer: Ok("Goal set: "@ + objective),
                goal: Some(new_goal(c.goal_id, objective, nat_at(c.args, "token_budget"@), c.now)),
                auto_turns_used: 0,
                changed: true,
            }
        },
    }
}

/// What `update_goal` leads to.
pub open spec fn update_goal_call(c: GoalCall, goal: Option<GoalView>, auto: u32) -> GoalToolView {
    match text_at(c.args, "status"@) {
        None => refused("Missing status"@, goal, auto),
        Some(status) => match goal {
            None => refused(no_goal_text(), goal, auto),
            Some(g) => match status_updated(g, status, c.now) {
                Err(e) => refused(e, goal, auto),
                Ok(n) => GoalToolView {
                    answer: Ok("Goal status: "@ + goal_status_text(n.status)),
                    goal: Some(n),
                    auto_turns_used: auto,
                    changed: true,
                },
            },
        },
    }
}

/// The steps that a call lists: `plan` is a list, or a text that holds one.
pub open spec fn steps_in(args: JsonView) -> Option<Seq<JsonView>> {
    match field_or_null(args, "plan"@) {
        JsonView::Array(steps) => Some(steps),
        JsonView::Str(t) => match json_parse(t) {
            Ok(JsonView::Array(steps)) => Some(steps),
            _ => None,
        },
        _ => None,
    }
}

/// What `update_plan` leads to.
pub open spec fn update_plan_call(c: GoalCall, goal: Option<GoalView>, auto: u32) -> GoalToolView {
    match steps_in(c.args) {
        Some(steps) => match goal {
            None => refused(no_goal_text(), goal, auto),
            Some(g) => match plan_updated(g, steps, c.now, c.fresh) {
                Err(e) => refused(e, goal, auto),
                Ok(n) => {
                    let why = or_empty(text_at(c.args, "explanation"@));
                    GoalToolView {
                        answer: Ok(
                            if why.len() == 0 {
                                plan_message(steps.len())
                            } else {
                                plan_message(steps.len()) + " ("@ + why + ")"@
                            },
                        ),
                        goal: Some(n),
                        auto_turns_used: auto,
                        changed: true,
                    }
                },
            },
        },
        None => refused("Missing plan array"@, goal, auto),
    }
}

/// What a goal tool leads to.
pub open spec fn goal_tool(
    name: Text,
    c: GoalCall,
    goal: Option<GoalView>,
    auto: u32,
) -> GoalToolView {
    if name == "get_goal"@ {
        got_goal(goal, auto)
    } else if name == "set_goal"@ {
        set_goal_call(c, goal, auto)
    } else if name == "update_goal"@ {
        update_goal_call(c, goal, auto)
    } else if name == "update_plan"@ {
        update_plan_call(c, goal, auto)
    } else {
        refused("Unknown goal tool"@, goal, auto)
    }
}

/// The answer to the model: a tool result, with errors marked.
pub open spec fn answer_block(id: Text, answer: Result<Text, Text>) -> BlockView {
    BlockView::ToolResult {
        tool_use_id: id,
        content: match answer {
            Ok(c) => c,
            Err(e) => "Error: "@ + e,
        },
    }
}

/// What is reported of the answer.
pub open spec fn answer_event(id: Text, name: Text, answer: Result<Text, Text>) -> EventView {
    match answer {
        Ok(c) => EventView::ToolDone { id, name, summary: head(c, 80) },
        Err(e) => EventView::ToolError { id, name, error: e },
    }
}

/// Whether counting one more blocked turn fits in 32 bits, where the call does so.
pub open spec fn goal_tool_fits(name: Text, args: JsonView, goal: Option<GoalView>) -> bool {
    name == "update_goal"@ && text_at(args, "status"@) == Some("blocked"@) ==> (goal matches Some(g)
        ==> g.consecutive_blocked_turns < u32::MAX)
}

/// How many steps a call lists.
pub open spec fn listed_steps(args: JsonView) -> nat {
    match steps_in(args) {
        Some(steps) => steps.len(),
        None => 0,
    }
}

fn find_steps(args: &Json) -> (r: Option<Vec<Json>>)
    ensures
        opt_views(r) == steps_in(args@),
{
    let plan = args.value_at("plan");
    let held = match &plan {
        Json::Str(t) => match parse_json(t) {
            Ok(v) => v,
            Err(_) => {
                return None;
            },
        },
        Json::Array(_) => plan,
        _ => {
            return None;
        },
    };
    match held {
        Json::Array(steps) => {
            assert(held@->Array_0 =~= views(steps@));
            Some(steps)
        },
        _ => None,
    }
}

fn no_goal() -> (r: String)
    ensures
        r@ == no_goal_text(),
{
    "No active goal — call set_goal first.".to_string()
}

fn call_set_goal(
    args: &Json,
    goal: &mut Option<SessionGoal>,
    auto_turns_used: &mut u32,
    now: i64,
    goal_id: &str,
    Ghost(c): Ghost<GoalCall>,
) -> (r: (Result<String, String>, bool))
    requires
        c.args == args@,
        c.now == now,
        c.goal_id == goal_id@,
    ensures
        (GoalToolView {
            answer: answer_view(r.0),
            goal: opt_view(*final(goal)),
            auto_turns_used: *final(auto_turns_used),
            changed: r.1,
        }) == set_goal_call(c, opt_view(*old(goal)), *old(auto_turns_used)),
{
    let objective = match args.str_at("objective") {
        Some(o) => o.to_string(),
        None => {
            return (Err("Missing objective".to_string()), false);
        },
    };
    if let Some(g) = goal.as_ref() {
        if !g.status.is_terminal() {
            let mut e = "An unfinished goal already exists (status=".to_string();
            e.push_str(g.status.as_str());
            e.push_str(
                "). Finish it (update_goal complete) or ask the user to replace it from the UI before setting a new one.",
            );
            return (Err(e), false);
        }
    }
    let mut m = "Goal set: ".to_string();
    m.push_str(&objective);
    *goal = Some(make_goal(goal_id.to_string(), objective, args.u64_at("token_budget"), now));
    *auto_turns_used = 0;
    (Ok(m), true)
}

fn call_update_goal(
    args: &Json,
    goal: &mut Option<SessionGoal>,
    now: i64,
    Ghost(c): Ghost<GoalCall>,
    Ghost(auto): Ghost<u32>,
) -> (r: (Result<String, String>, bool))
    requires
        c.args == args@,
        c.now == now,
        text_at(args@, "status"@) == Some("blocked"@) ==> (*old(goal) matches Some(g)
            ==> g.consecutive_blocked_turns < u32::MAX),
    ensures
        (GoalToolView {
            answer: answer_view(r.0),
            goal: opt_view(*final(goal)),
            auto_turns_used: auto,
            changed: r.1,
        }) == update_goal_call(c, opt_view(*old(goal)), auto),
{
    let status = match args.str_at("status") {
        Some(s) => s,
        None => {
            return (Err("Missing status".to_string()), false);
        },
    };
    let mut g = match goal.as_ref() {
        Some(g) => g.clone(),
        None => {
            return (Err(no_goal()), false);
        },
    };
    if text_eq(status, "complete") {
        g.status = GoalStatus::Complete;
        g.plan = close_plan(&g.plan, now);
    } else if text_eq(status, "blocked") {
        g.status = GoalStatus::Blocked;
        g.consecutive_blocked_turns = g.consecutive_blocked_turns + 1;
        g.plan = block_plan(&g.plan);
    } else {
        let mut e = "Invalid status: ".to_string();
        e.push_str(status);
        e.push_str(" (use \"complete\" or \"blocked\")");
        return (Err(e), false);
    }
    g.updated_at = now;
    let mut m = "Goal status: ".to_string();
    m.push_str(g.status.as_str());
    *goal = Some(g);
    (Ok(m), true)
}

fn call_update_plan(
    args: &Json,
    goal: &mut Option<SessionGoal>,
    now: i64,
    fresh: &Vec<String>,
    Ghost(c): Ghost<GoalCall>,
    Ghost(auto): Ghost<u32>,
) -> (r: (Result<String, String>, bool))
    requires
        c.args == args@,
        c.now == now,
        c.fresh == views(fresh@),
        fresh@.len() == listed_steps(args@),
    ensures
        (GoalToolView {
            answer: answer_view(r.0),
            goal: opt_view(*final(goal)),
            auto_turns_used: auto,
            changed: r.1,
        }) == update_plan_call(c, opt_view(*old(goal)), auto),
{
    let steps = match find_steps(args) {
        Some(s) => s,
        None => {
            return (Err("Missing plan array".to_string()), false);
        },
    };
    let why = args.string_at("explanation");
    let mut g = match goal.as_ref() {
        Some(g) => g.clone(),
        None => {
            return (Err(no_goal()), false);
        },
    };
    match apply_plan_update_with(&mut g, &steps, now, fresh) {
        Err(e) => (Err(e), false),
        Ok(m) => {
            let mut m = m;
            if !why.as_str().is_empty() {
                m.push_str(" (");
                m.push_str(&why);
                m.push_str(")");
            }
            *goal = Some(g);
            (Ok(m), true)
        },
    }
}

/// What a goal tool hands back.
#[derive(Debug)]
pub struct GoalToolOutcome {
    /// The answer to the model.
    pub block: ContentBlock,
    /// What is reported of it.
    pub event: AgentStreamEvent,
    /// Whether the goal was changed and is to be reported too.
    pub changed: bool,
}

/// Whether this is what a goal tool hands back.
pub open spec fn hands_back(o: GoalToolOutcome, id: Text, name: Text, t: GoalToolView) -> bool {
    &&& o.block@ == answer_block(id, t.answer)
    &&& o.event@ == answer_event(id, name, t.answer)
    &&& o.changed == t.changed
}

/// Runs a goal tool. `goal_id` names a goal that is set, and `fresh` the new steps of
/// a plan.
pub fn handle_goal_tool_with(
    name: &str,
    args: &Json,
    tool_call_id: &str,
    goal: &mut Option<SessionGoal>,
    auto_turns_used: &mut u32,
    now: i64,
    goal_id: &str,
    fresh: &Vec<String>,
) -> (r: GoalToolOutcome)
    requires
        goal_tool_fits(name@, args@, opt_view(*old(goal))),
        fresh@.len() == listed_steps(args@),
    ensures
        ({
            let t = goal_tool(
                name@,
                (GoalCall {
                    args: args@,
                    now,
                    goal_id: goal_id@,
                    fresh: views(fresh@),
                }),
                opt_view(*old(goal)),
                *old(auto_turns_used),
            );
            &&& opt_view(*final(goal)) == t.goal
            &&& *final(auto_turns_used) == t.auto_turns_used
            &&& hands_back(r, tool_call_id@, name@, t)
        }),
{
    let ghost c = GoalCall {
        args: args@,
        now,
        goal_id: goal_id@,
        fresh: views(fresh@),
    };
    let ghost auto = *auto_turns_used;
    let (answer, changed) = if text_eq(name, "get_goal") {
        match goal.as_ref() {
            Some(g) => (Ok(pretty_json(&g.to_json())), false),
            None => (Err(no_goal()), false),
        }
    } else if text_eq(name, "set_goal") {
        call_set_goal(args, goal, auto_turns_used, now, goal_id, Ghost(c))
    } else if text_eq(name, "update_goal") {
        call_update_goal(args, goal, now, Ghost(c), Ghost(auto))
    } else if text_eq(name, "update_plan") {
        call_update_plan(args, goal, now, fresh, Ghost(c), Ghost(auto))
    } else {
        (Err("Unknown goal tool".to_string()), false)
    };
    match answer {
        Ok(content) => GoalToolOutcome {
            event: AgentStreamEvent::ToolDone {
                id: tool_call_id.to_string(),
                name: name.to_string(),
                summary: first_chars(&content, 80),
            },
            block: ContentBlock::ToolResult { tool_use_id: tool_call_id.to_string(), content },
            changed,
        },
        Err(e) => {
            let mut content = "Error: ".to_string();
            content.push_str(&e);
            GoalToolOutcome {
                event: AgentStreamEvent::ToolError {
                    id: tool_call_id.to_string(),
                    name: name.to_string(),
                    error: e,
                },
                block: ContentBlock::ToolResult { tool_use_id: tool_call_id.to_string(), content },
                changed,
            }
        },
    }
}

/// Whether a goal tool with these fresh ids led from one state to the other.
pub open spec fn goal_tool_done(
    name: Text,
    id: Text,
    c: GoalCall,
    before: (Option<GoalView>, u32),
    after: (Option<GoalView>, u32),
    o: GoalToolOutcome,
) -> bool {
    let t = goal_tool(name, c, before.0, before.1);
    &&& after == (t.goal, t.auto_turns_used)
    &&& hands_back(o, id, name, t)
}

/// Runs a goal tool: it reads or changes the goal and its plan, and answers the
/// call under its own id. A call that is refused changes nothing.
pub fn handle_goal_tool(
    name: &str,
    args: &Json,
    tool_call_id: &str,
    goal: &mut Option<SessionGoal>,
    auto_turns_used: &mut u32,
    now: i64,
) -> (r: GoalToolOutcome)
    requires
        goal_tool_fits(name@, args@, opt_view(*old(goal))),
    ensures
        exists|c: GoalCall|
            c.args == args@ && c.now == now && is_uuid(c.goal_id) && all_uuids(c.fresh)
                && c.fresh.len() == listed_steps(args@) && #[trigger] goal_tool_done(
                name@,
                tool_call_id@,
                c,
                (opt_view(*old(goal)), *old(auto_turns_used)),
                (opt_view(*final(goal)), *final(auto_turns_used)),
                r,
            ),
{
    let n: usize = match find_steps(args) {
        Some(steps) => steps.len(),
        None => 0,
    };
    let fresh = fresh_uuids(n);
    let goal_id = fresh_uuid();
    let ghost before = (opt_view(*goal), *auto_turns_used);
    let r = handle_goal_tool_with(
        name,
        args,
        tool_call_id,
        goal,
        auto_turns_used,
        now,
        &goal_id,
        &fresh,
    );
    proof {
        let c = GoalCall {
            args: args@,
            now,
            goal_id: goal_id@,
            fresh: views(fresh@),
        };
        assert(goal_tool_done(
            name@,
            tool_call_id@,
            c,
            before,
            (opt_view(*goal), *auto_turns_used),
            r,
        ));
    }
    r
}

/// A goal tool that answers with an error has changed nothing.
pub proof fn refusal_changes_nothing(name: Text, c: GoalCall, goal: Option<GoalView>, auto: u32)
    requires
        goal_tool(name, c, goal, auto).answer is Err,
    ensures
        goal_tool(name, c, goal, auto).goal == goal,
        goal_tool(name, c, goal, auto).auto_turns_used == auto,
        !goal_tool(name, c, goal, auto).changed,
{
}

/// The model cannot replace a goal that is not over: it stays the same goal, with
/// the same objective and budget, whatever tool is called.
pub proof fn unfinished_goal_stays(name: Text, c: GoalCall, g: GoalView, auto: u32)
    requires
        !is_over(g.status),
    ensures
        goal_tool(name, c, Some(g), auto).goal matches Some(n) && n.id == g.id && n.objective
            == g.objective && n.token_budget == g.token_budget,
{
}

proof fn lemma_none_in_progress(plan: Seq<StepView>)
    requires
        forall|i: int| 0 <= i < plan.len() ==> !((#[trigger] plan[i]).status is InProgress),
    ensures
        in_progress_count(plan) == 0,
    decreases plan.len(),
{
    if plan.len() > 0 {
        let t = plan.drop_last();
        assert forall|i: int| 0 <= i < t.len() implies !((#[trigger] t[i]).status is InProgress) by {
            assert(t[i] == plan[i]);
        }
        lemma_none_in_progress(t);
    }
}

/// At most one step is ever in progress: a goal of which that holds still has it
/// after any goal tool, and a goal that is complete or blocked by the model has none.
pub proof fn one_step_stays_in_progress(name: Text, c: GoalCall, goal: Option<GoalView>, auto: u32)
    requires
        goal matches Some(g) ==> in_progress_count(g.plan) <= 1,
    ensures
        goal_tool(name, c, goal, auto).goal matches Some(n) ==> in_progress_count(n.plan) <= 1,
        name == "update_goal"@ && goal_tool(name, c, goal, auto).changed ==> (goal_tool(
            name,
            c,
            goal,
            auto,
        ).goal matches Some(n) && in_progress_count(n.plan) == 0),
{
    reveal_strlit("get_goal");
    reveal_strlit("set_goal");
    reveal_strlit("update_goal");
    assert("get_goal"@.len() == 8 && "set_goal"@.len() == 8 && "update_goal"@.len() == 11);
    if let Some(g) = goal {
        lemma_none_in_progress(closed_plan(g.plan, c.now));
        lemma_none_in_progress(blocked_plan(g.plan));
    }
}

} // verus!
