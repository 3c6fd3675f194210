//! Time awareness: what the model is told of the age of things when a request is
//! sent.

use crate::clock::{age_text, fits, human_age_ms, is_clock_text, msg_time_str, now_str, shows_time};
use crate::message::{
    answers_tool, has_result, BlockView, Content, ContentBlock, ContentView, Message, MessageView,
    Role,
};
use crate::session::{
    goal_status_text, step_status_text, GoalStatus, GoalView, PlanStep, SessionGoal, StepStatus,
    StepView,
};
use crate::text::{
    decimal, ends, ends_with, lemma_views_push, number, occurs, occurs_at, small_chars, small_text, text_eq,
    trim_end, trim_tail, views, Text,
};
use crate::wire::{
    answered, answers, asked, calls, holds_result, holds_use, is_result, is_use, pairs_valid,
};
use vstd::prelude::*;

verus! {

/// For how long the results of a tool count as fresh.
pub open spec fn horizon_of(tool: Text) -> Text {
    if tool == "get_stock_price"@ || tool == "get_weather"@ {
        "30min"@
    } else if tool == "track_package"@ {
        "6h"@
    } else if tool == "web_search"@ {
        "24h"@
    } else if tool == "run_shell"@ {
        "1h"@
    } else if tool == "read_file"@ {
        "none (file contents don't expire)"@
    } else {
        "1h"@
    }
}

/// For how long the results of a tool count as fresh.
pub fn freshness_horizon(tool: &str) -> (r: &'static str)
    ensures
        r@ == horizon_of(tool@),
{
    if text_eq(tool, "get_stock_price") || text_eq(tool, "get_weather") {
        "30min"
    } else if text_eq(tool, "track_package") {
        "6h"
    } else if text_eq(tool, "web_search") {
        "24h"
    } else if text_eq(tool, "run_shell") {
        "1h"
    } else if text_eq(tool, "read_file") {
        "none (file contents don't expire)"
    } else {
        "1h"
    }
}

/// A tool result with the time at which it was produced.
pub open spec fn annotated(tool: Text, content: Text, now: Text) -> Text {
    "[data_time="@ + now + " age=0min freshness=just_fetched horizon="@ + horizon_of(tool) + "]\n"@
        + content
}

/// A tool result with the time at which it was produced.
pub fn annotate_tool_result(tool: &str, content: &str, now: &str) -> (r: String)
    ensures
        r@ == annotated(tool@, content@, now@),
{
    let mut s = "[data_time=".to_string();
    s.push_str(now);
    s.push_str(" age=0min freshness=just_fetched horizon=");
    s.push_str(freshness_horizon(tool));
    s.push_str("]\n");
    s.push_str(content);
    s
}

/// By how much a model misjudges its own speed, in hundredths: the estimate
/// divided by this factor is what to expect.
pub open spec fn calibration_of(model: Text) -> u32 {
    if occurs(small_text(model), "pro"@) {
        56
    } else {
        371
    }
}

/// By how much a model misjudges its own speed, in hundredths.
pub fn duration_calibration_factor(model: &str) -> (r: u32)
    ensures
        r == calibration_of(model@),
{
    let small = small_chars(model);
    if crate::text::find(&small, &crate::text::chars_of("pro")).is_some() {
        56
    } else {
        371
    }
}

/// The first lines of the goal block: what it has cost, and the objective.
pub open spec fn goal_head(g: GoalView, now: i64) -> Text {
    let a = "[goal id="@ + g.id + " status="@ + goal_status_text(g.status) + " tokens_used="@
        + decimal(g.tokens_used as nat);
    let b = match g.token_budget {
        Some(n) => a + " token_budget="@ + decimal(n as nat) + " remaining="@ + decimal(
            (if n >= g.tokens_used {
                n - g.tokens_used
            } else {
                0
            }) as nat,
        ),
        None => a,
    };
    let c = b + " time_used="@ + decimal(g.time_used_seconds as nat) + "s]\n"@;
    let d = if g.created_at > 0 && now - g.created_at < 120_000 {
        c
            + "[NOTE: this goal was JUST SET — it is the current task. Switch to it now; do not continue unrelated previous work.]\n"@
    } else {
        c
    };
    d + "Objective: "@ + g.objective + "\n"@
}

/// What is said of a step beside its state.
pub open spec fn step_note(p: StepView, now: i64, temporal: bool, calibrated: Text) -> Text {
    let timed = if !temporal {
        Seq::empty()
    } else {
        match p.status {
            StepStatus::InProgress => {
                let since = match p.started_at {
                    Some(t) => age_text(now - t),
                    None => Seq::empty(),
                };
                let started = "started "@ + (if since.len() == 0 {
                    "just now"@
                } else {
                    since
                }) + " ago"@;
                match p.estimate_sec {
                    Some(est) => started + " · model ETA "@ + decimal(est as nat)
                        + "s · calibrated "@ + calibrated + "s"@,
                    None => started,
                }
            },
            StepStatus::Completed => match p.completed_at {
                Some(t) => "finished "@ + age_text(now - t) + " ago"@,
                None => Seq::empty(),
            },
            _ => Seq::empty(),
        }
    };
    match p.blocked_reason {
        Some(reason) => if p.status is Blocked {
            if timed.len() == 0 {
                reason
            } else {
                timed + " · "@ + reason
            }
        } else {
            timed
        },
        None => timed,
    }
}

/// For how long a step may sit idle before it has to be looked at again: an hour.
pub const SESSION_HORIZON_MS: i64 = 3_600_000;

/// Whether a step has sat idle past the session horizon: it is neither done nor
/// being worked on, and an hour or more has gone by since it was made.
pub open spec fn is_stale(p: StepView, now: i64) -> bool {
    !(p.status is Completed) && !(p.status is InProgress) && now - p.created_at
        >= SESSION_HORIZON_MS
}

/// The line (or two) of step `i` of the plan: what it is, its age, and whether it is
/// stale.
pub open spec fn step_lines(
    i: int,
    p: StepView,
    now: i64,
    temporal: bool,
    calibrated: Text,
) -> Text {
    let age = if temporal {
        age_text(now - p.created_at)
    } else {
        Seq::empty()
    };
    let note = step_note(p, now, temporal, calibrated);
    let a = "  "@ + decimal((i + 1) as nat) + ". ["@ + step_status_text(p.status) + "] "@
        + p.content;
    let b = if age.len() == 0 {
        a
    } else {
        a + " (age="@ + age + ")"@
    };
    let c = if note.len() == 0 {
        b
    } else {
        b + " ("@ + note + ")"@
    };
    let d = c + "\n"@;
    if temporal && is_stale(p, now) {
        d + "     STALE — re-verify the worktree before resuming.\n"@
    } else {
        d
    }
}

/// The lines of a plan.
pub open spec fn plan_lines(
    plan: Seq<StepView>,
    now: i64,
    temporal: bool,
    calibrated: Seq<Text>,
) -> Text
    decreases plan.len(),
{
    if plan.len() == 0 {
        Seq::empty()
    } else {
        plan_lines(plan.drop_last(), now, temporal, calibrated) + step_lines(
            plan.len() - 1,
            plan.last(),
            now,
            temporal,
            calibrated[plan.len() - 1],
        )
    }
}

/// The rules that go with a goal.
pub open spec fn goal_rules(g: GoalView) -> Text {
    let a = "Rules:\n"@
        + "- Work from current evidence: the worktree and external state are authoritative; inspect before relying on older context.\n"@
        + "- Keep the plan current as steps complete or the next best action changes; at most one step in_progress.\n"@
        + "- Mark the goal complete only after verifying the objective against the current state, requirement by requirement.\n"@
        + "- You may be auto-continuing (goal mode): keep making concrete progress each turn; do not stall by asking the user unless truly blocked, and do not loop on the same step.\n"@
        + "- Mark blocked only after the same blocker persists 3 consecutive turns (currently "@
        + decimal(g.consecutive_blocked_turns as nat) + "/3).\n"@;
    if g.status is BudgetLimited {
        a
            + "- Budget exhausted: wrap up gracefully, summarize what remains, and do not start new work.\n"@
    } else {
        a
    }
}

/// The block that tells the model of the goal: what it has cost, the plan with
/// live ages, and the rules. `calibrated` holds for each step the text of its
/// calibrated estimate in seconds.
pub open spec fn goal_section(
    g: GoalView,
    now: i64,
    temporal: bool,
    calibrated: Seq<Text>,
) -> Text {
    let plan = if g.plan.len() == 0 {
        "Plan: (none yet — call update_plan if the work is multi-step.)\n"@
    } else {
        "Plan:\n"@ + plan_lines(g.plan, now, temporal, calibrated)
    };
    goal_head(g, now) + plan + goal_rules(g)
}

/// Whether the ages that are computed for a step fit in 64 bits.
pub open spec fn step_fits(p: StepView, now: i64) -> bool {
    &&& fits(now, p.created_at)
    &&& p.status is InProgress && p.started_at is Some ==> fits(now, p.started_at.unwrap())
    &&& p.status is Completed && p.completed_at is Some ==> fits(now, p.completed_at.unwrap())
}

/// Whether the ages that are computed for a goal fit in 64 bits.
pub open spec fn goal_fits(g: GoalView, now: i64, temporal: bool) -> bool {
    &&& g.created_at > 0 ==> fits(now, g.created_at)
    &&& temporal ==> forall|i: int| 0 <= i < g.plan.len() ==> step_fits(#[trigger] g.plan[i], now)
}

fn head_of(goal: &SessionGoal, now_ms: i64) -> (r: String)
    requires
        goal@.created_at > 0 ==> fits(now_ms, goal@.created_at),
    ensures
        r@ == goal_head(goal@, now_ms),
{
    let mut s = "[goal id=".to_string();
    s.push_str(&goal.id);
    s.push_str(" status=");
    s.push_str(goal.status.as_str());
    s.push_str(" tokens_used=");
    s.push_str(&number(goal.tokens_used));
    if let Some(b) = goal.token_budget {
        s.push_str(" token_budget=");
        s.push_str(&number(b));
        s.push_str(" remaining=");
        s.push_str(&number(b.saturating_sub(goal.tokens_used)));
    }
    s.push_str(" time_used=");
    s.push_str(&number(goal.time_used_seconds));
    s.push_str("s]\n");
    if goal.created_at > 0 && now_ms - goal.created_at < 120_000 {
        s.push_str(
            "[NOTE: this goal was JUST SET — it is the current task. Switch to it now; do not continue unrelated previous work.]\n",
        );
    }
    s.push_str("Objective: ");
    s.push_str(&goal.objective);
    s.push_str("\n");
    s
}

fn note_of(step: &PlanStep, now_ms: i64, temporal: bool, calibrated: &str) -> (r: String)
    requires
        temporal ==> step_fits(step@, now_ms),
    ensures
        r@ == step_note(step@, now_ms, temporal, calibrated@),
{
    let mut note = String::new();
    if temporal {
        match step.status {
            StepStatus::InProgress => {
                let since = match step.started_at {
                    Some(t) => human_age_ms(now_ms - t),
                    None => String::new(),
                };
                note = "started ".to_string();
                if since.as_str().is_empty() {
                    note.push_str("just now");
                } else {
                    note.push_str(&since);
                }
                note.push_str(" ago");
                if let Some(est) = step.estimate_sec {
                    note.push_str(" · model ETA ");
                    note.push_str(&number(est));
                    note.push_str("s · calibrated ");
                    note.push_str(calibrated);
                    note.push_str("s");
                }
            },
            StepStatus::Completed => {
                if let Some(t) = step.completed_at {
                    note = "finished ".to_string();
                    note.push_str(&human_age_ms(now_ms - t));
                    note.push_str(" ago");
                }
            },
            _ => {},
        }
    }
    if step.status == StepStatus::Blocked {
        if let Some(reason) = &step.blocked_reason {
            if note.as_str().is_empty() {
                note = reason.clone();
            } else {
                note.push_str(" · ");
                note.push_str(reason);
            }
        }
    }
    note
}

fn lines_of_step(
    i: usize,
    step: &PlanStep,
    now_ms: i64,
    temporal: bool,
    calibrated: &str,
) -> (r: String)
    requires
        temporal ==> step_fits(step@, now_ms),
        i < usize::MAX,
    ensures
        r@ == step_lines(i as int, step@, now_ms, temporal, calibrated@),
{
    let age = if temporal {
        human_age_ms(now_ms - step.created_at)
    } else {
        String::new()
    };
    let note = note_of(step, now_ms, temporal, calibrated);
    let mut s = "  ".to_string();
    s.push_str(&number((i + 1) as u64));
    s.push_str(". [");
    s.push_str(step.status.as_str());
    s.push_str("] ");
    s.push_str(&step.content);
    if !age.as_str().is_empty() {
        s.push_str(" (age=");
        s.push_str(&age);
        s.push_str(")");
    }
    if !note.as_str().is_empty() {
        s.push_str(" (");
        s.push_str(&note);
        s.push_str(")");
    }
    s.push_str("\n");
    if temporal && step.status != StepStatus::Completed && step.status != StepStatus::InProgress
        && now_ms - step.created_at >= SESSION_HORIZON_MS {
        s.push_str("     STALE — re-verify the worktree before resuming.\n");
    }
    s
}

fn rules_of(goal: &SessionGoal) -> (r: String)
    ensures
        r@ == goal_rules(goal@),
{
    let mut s = "Rules:\n".to_string();
    s.push_str(
        "- Work from current evidence: the worktree and external state are authoritative; inspect before relying on older context.\n",
    );
    s.push_str(
        "- Keep the plan current as steps complete or the next best action changes; at most one step in_progress.\n",
    );
    s.push_str(
        "- Mark the goal complete only after verifying the objective against the current state, requirement by requirement.\n",
    );
    s.push_str(
        "- You may be auto-continuing (goal mode): keep making concrete progress each turn; do not stall by asking the user unless truly blocked, and do not loop on the same step.\n",
    );
    s.push_str(
        "- Mark blocked only after the same blocker persists 3 consecutive turns (currently ",
    );
    s.push_str(&number(goal.consecutive_blocked_turns as u64));
    s.push_str("/3).\n");
    if goal.status == GoalStatus::BudgetLimited {
        s.push_str(
            "- Budget exhausted: wrap up gracefully, summarize what remains, and do not start new work.\n",
        );
    }
    s
}

/// The block that tells the model of the goal. `calibrated[i]` is the calibrated
/// estimate of step `i` in seconds, as text.
pub fn goal_section_for_wire(
    goal: &SessionGoal,
    now_ms: i64,
    temporal: bool,
    calibrated: &Vec<String>,
) -> (r: String)
    requires
        goal_fits(goal@, now_ms, temporal),
        calibrated@.len() == goal@.plan.len(),
    ensures
        r@ == goal_section(goal@, now_ms, temporal, views(calibrated@)),
{
    let mut s = head_of(goal, now_ms);
    let ghost head = s@;
    if goal.plan.len() == 0 {
        s.push_str("Plan: (none yet — call update_plan if the work is multi-step.)\n");
    } else {
        let mut plan = "Plan:\n".to_string();
        let ghost steps = views(goal.plan@);
        let ghost cal = views(calibrated@);
        let mut i: usize = 0;
        assert(plan@ + Seq::<char>::empty() =~= plan@);
        assert(plan_lines(steps.take(0), now_ms, temporal, cal) =~= Seq::<char>::empty());
        while i < goal.plan.len()
            invariant
                i <= goal.plan@.len(),
                steps == views(goal.plan@),
                cal == views(calibrated@),
                calibrated@.len() == goal.plan@.len(),
                goal_fits(goal@, now_ms, temporal),
                plan@ == "Plan:\n"@ + plan_lines(steps.take(i as int), now_ms, temporal, cal),
            decreases goal.plan@.len() - i,
        {
            assert(temporal ==> step_fits(goal@.plan[i as int], now_ms));
            let line = lines_of_step(i, &goal.plan[i], now_ms, temporal, &calibrated[i]);
            let ghost before = plan_lines(steps.take(i as int), now_ms, temporal, cal);
            proof {
                assert(steps.take(i + 1).drop_last() =~= steps.take(i as int));
                assert(cal[i as int] == calibrated@[i as int]@);
                assert("Plan:\n"@ + before + line@ =~= "Plan:\n"@ + (before + line@));
            }
            plan.push_str(&line);
            i = i + 1;
        }
        assert(steps.take(i as int) =~= steps);
        s.push_str(&plan);
    }
    s.push_str(&rules_of(goal));
    s
}

/// The earliest known time among the messages.
pub open spec fn oldest_time(ms: Seq<MessageView>) -> Option<i64>
    decreases ms.len(),
{
    if ms.len() == 0 {
        None
    } else {
        let before = oldest_time(ms.drop_last());
        let t = ms.last().timestamp;
        if t <= 0 {
            before
        } else {
            match before {
                Some(o) => if o <= t {
                    Some(o)
                } else {
                    Some(t)
                },
                None => Some(t),
            }
        }
    }
}

/// The note on a conversation that goes back an hour or more.
pub open spec fn span_note(ms: Seq<MessageView>, now: i64, enabled: bool) -> Text {
    if !enabled {
        Seq::empty()
    } else {
        match oldest_time(ms) {
            Some(o) => {
                let age = age_text(now - o);
                if ends(age, "h"@) || ends(age, "d"@) {
                    "[time_harness: this conversation spans from "@ + age
                        + " ago. Live data mentioned in older messages may be stale — re-verify per the freshness rules before relying on it.]\n"@
                } else {
                    Seq::empty()
                }
            },
            None => Seq::empty(),
        }
    }
}

/// What a request knows of the time and the goal.
pub struct StampContext {
    pub now: i64,
    pub enabled: bool,
    pub goal: Option<GoalView>,
    pub calibrated: Seq<Text>,
    /// The written time of each message.
    pub times: Seq<Text>,
    /// The written time now.
    pub clock: Text,
}

/// The place of the last message that the user sent, or -1.
pub open spec fn last_user(ms: Seq<MessageView>) -> int
    decreases ms.len(),
{
    if ms.len() == 0 {
        -1
    } else if ms.last().role is User {
        ms.len() - 1
    } else {
        last_user(ms.drop_last())
    }
}

/// The last message of the user is the only place with that property.
proof fn lemma_last_user(ms: Seq<MessageView>)
    ensures
        -1 <= last_user(ms) < ms.len(),
        last_user(ms) >= 0 ==> ms[last_user(ms)].role is User,
        forall|j: int| last_user(ms) < j < ms.len() ==> !((#[trigger] ms[j]).role is User),
    decreases ms.len(),
{
    if ms.len() > 0 && !(ms.last().role is User) {
        let t = ms.drop_last();
        lemma_last_user(t);
        assert forall|j: int| last_user(ms) < j < ms.len() implies !(
        (#[trigger] ms[j]).role is User) by {
            if j < t.len() {
                assert(t[j] == ms[j]);
            }
        }
    }
}

/// The stamp of message `i`: when it was said and how long ago; the last message of
/// the user also carries the clock and the goal.
pub open spec fn stamp_text(ms: Seq<MessageView>, i: int, c: StampContext) -> Text {
    let age = age_text(c.now - ms[i].timestamp);
    let a = if c.enabled && age.len() > 0 && c.times[i].len() > 0 {
        "[message_time="@ + c.times[i] + " age="@ + age + "]"@
    } else {
        Seq::empty()
    };
    if i == last_user(ms) {
        let b = if a.len() > 0 {
            a.push(' ')
        } else {
            a
        };
        let d = if c.enabled {
            b + "[time_harness now="@ + c.clock + "]"@
        } else {
            b
        };
        match c.goal {
            Some(g) => (if c.enabled {
                d.push('\n')
            } else {
                d
            }) + goal_section(g, c.now, c.enabled, c.calibrated),
            None => d,
        }
    } else {
        a
    }
}

/// What is put before the content of message `i`.
pub open spec fn stamp_prefix(ms: Seq<MessageView>, i: int, c: StampContext) -> Text {
    let note = if i == 0 {
        span_note(ms, c.now, c.enabled)
    } else {
        Seq::empty()
    };
    let stamp = stamp_text(ms, i, c);
    if stamp.len() > 0 {
        (note + stamp).push('\n')
    } else {
        note
    }
}

/// A content with a prefix: before a text, or as a text block of its own. Tool
/// results are left alone, since the protocol wants them right behind their call.
pub open spec fn prefixed(content: ContentView, prefix: Text) -> ContentView {
    if prefix.len() == 0 {
        content
    } else {
        match content {
            ContentView::Text(t) => ContentView::Text(prefix + t),
            ContentView::Blocks(bs) => if has_result(content) {
                content
            } else {
                ContentView::Blocks(
                    seq![BlockView::Text { text: trim_end(prefix) }] + bs,
                )
            },
        }
    }
}

/// The messages with their stamps.
pub open spec fn stamped(ms: Seq<MessageView>, c: StampContext) -> Seq<MessageView> {
    Seq::new(
        ms.len(),
        |i: int|
            MessageView { content: prefixed(ms[i].content, stamp_prefix(ms, i, c)), ..ms[i] },
    )
}

/// Whether the ages of all messages fit in 64 bits.
pub open spec fn messages_fit(ms: Seq<MessageView>, now: i64) -> bool {
    forall|i: int| 0 <= i < ms.len() ==> fits(now, (#[trigger] ms[i]).timestamp)
}

proof fn lemma_oldest_fits(ms: Seq<MessageView>, now: i64)
    requires
        messages_fit(ms, now),
    ensures
        oldest_time(ms) matches Some(o) ==> fits(now, o),
    decreases ms.len(),
{
    if ms.len() > 0 {
        let t = ms.drop_last();
        assert forall|i: int| 0 <= i < t.len() implies fits(now, (#[trigger] t[i]).timestamp) by {
            assert(t[i] == ms[i]);
        }
        lemma_oldest_fits(t, now);
        assert(fits(now, ms[ms.len() - 1].timestamp));
    }
}

fn oldest(messages: &Vec<Message>) -> (r: Option<i64>)
    ensures
        r == oldest_time(views(messages@)),
{
    let mut found: Option<i64> = None;
    let mut i: usize = 0;
    while i < messages.len()
        invariant
            i <= messages@.len(),
            found == oldest_time(views(messages@).take(i as int)),
        decreases messages@.len() - i,
    {
        assert(views(messages@).take(i + 1).drop_last() =~= views(messages@).take(i as int));
        let t: i64 = messages[i].timestamp;
        if t > 0 {
            found = match found {
                Some(o) => if o <= t {
                    Some(o)
                } else {
                    Some(t)
                },
                None => Some(t),
            };
        }
        i = i + 1;
    }
    assert(views(messages@).take(i as int) =~= views(messages@));
    found
}

/// Where the last message of the user stands.
fn find_last_user(messages: &Vec<Message>) -> (r: Option<usize>)
    ensures
        match r {
            Some(k) => k == last_user(views(messages@)),
            None => last_user(views(messages@)) == -1,
        },
{
    let ghost all = views(messages@);
    let mut n: usize = messages.len();
    assert(all.take(n as int) =~= all);
    while n > 0
        invariant
            n <= messages@.len(),
            all == views(messages@),
            last_user(all.take(n as int)) == last_user(all),
        decreases n,
    {
        assert(all.take(n as int).last() == messages@[n - 1]@);
        if messages[n - 1].role == Role::User {
            return Some(n - 1);
        }
        assert(all.take(n as int).drop_last() =~= all.take(n - 1));
        n = n - 1;
    }
    None
}

fn note_on_span(messages: &Vec<Message>, now_ms: i64, enabled: bool) -> (r: String)
    requires
        messages_fit(views(messages@), now_ms),
    ensures
        r@ == span_note(views(messages@), now_ms, enabled),
{
    if enabled {
        if let Some(o) = oldest(messages) {
            proof {
                lemma_oldest_fits(views(messages@), now_ms);
            }
            let age = human_age_ms(now_ms - o);
            if ends_with(&age, "h") || ends_with(&age, "d") {
                let mut s = "[time_harness: this conversation spans from ".to_string();
                s.push_str(&age);
                s.push_str(
                    " ago. Live data mentioned in older messages may be stale — re-verify per the freshness rules before relying on it.]\n",
                );
                return s;
            }
        }
    }
    String::new()
}

fn put_before(content: Content, prefix: &str) -> (r: Content)
    ensures
        r@ == prefixed(content@, prefix@),
{
    if prefix.is_empty() {
        return content;
    }
    let answers = answers_tool(&content);
    match content {
        Content::Text(t) => {
            let mut s = prefix.to_string();
            s.push_str(&t);
            Content::Text(s)
        },
        Content::Blocks(bs) => {
            let mut bs = bs;
            if !answers {
                let ghost was = views(bs@);
                let stamp = ContentBlock::Text { text: trim_tail(prefix) };
                bs.insert(0, stamp);
                assert(views(bs@) =~= seq![stamp@] + was);
            }
            Content::Blocks(bs)
        },
    }
}

/// What the stamps are made from.
pub open spec fn context_view(
    now_ms: i64,
    enabled: bool,
    goal: Option<SessionGoal>,
    calibrated: Seq<String>,
    times: Seq<Text>,
    clock: Text,
) -> StampContext {
    StampContext {
        now: now_ms,
        enabled,
        goal: crate::text::opt_view(goal),
        calibrated: views(calibrated),
        times,
        clock,
    }
}

/// Whether the ages that the stamps need fit in 64 bits, and every step of the
/// goal has its calibrated estimate.
pub open spec fn can_stamp(
    ms: Seq<MessageView>,
    now_ms: i64,
    enabled: bool,
    goal: Option<SessionGoal>,
    calibrated: Seq<String>,
) -> bool {
    &&& messages_fit(ms, now_ms)
    &&& goal matches Some(g) ==> goal_fits(g@, now_ms, enabled) && calibrated.len()
        == g@.plan.len()
}

/// Stamps the messages for a request: `times` are their written times and `clock`
/// the written time now. The stored history stays as it is.
pub fn stamp_with(
    messages: Vec<Message>,
    now_ms: i64,
    enabled: bool,
    goal: &Option<SessionGoal>,
    calibrated: &Vec<String>,
    times: &Vec<String>,
    clock: &str,
) -> (r: Vec<Message>)
    requires
        can_stamp(views(messages@), now_ms, enabled, *goal, calibrated@),
        times@.len() == messages@.len(),
    ensures
        views(r@) == stamped(
            views(messages@),
            context_view(now_ms, enabled, *goal, calibrated@, views(times@), clock@),
        ),
{
    let ghost all = views(messages@);
    let ghost c = context_view(now_ms, enabled, *goal, calibrated@, views(times@), clock@);
    let ghost want = stamped(all, c);
    let note = note_on_span(&messages, now_ms, enabled);
    let clocked = find_last_user(&messages);
    let total: usize = messages.len();
    let mut out: Vec<Message> = Vec::new();
    let mut i: usize = 0;
    while i < total
        invariant
            i <= total == messages@.len(),
            all == views(messages@),
            c == context_view(now_ms, enabled, *goal, calibrated@, views(times@), clock@),
            want == stamped(all, c),
            note@ == span_note(all, now_ms, enabled),
            match clocked {
                Some(k) => k == last_user(all),
                None => last_user(all) == -1,
            },
            can_stamp(all, now_ms, enabled, *goal, calibrated@),
            times@.len() == messages@.len(),
            views(out@) == want.take(i as int),
        decreases total - i,
    {
        assert(fits(now_ms, all[i as int].timestamp));
        let m = &messages[i];
        let age = human_age_ms(now_ms - m.timestamp);
        let mut stamp = String::new();
        assert(views(times@)[i as int] == times@[i as int]@);
        if enabled && !age.as_str().is_empty() && !times[i].as_str().is_empty() {
            stamp = "[message_time=".to_string();
            stamp.push_str(&times[i]);
            stamp.push_str(" age=");
            stamp.push_str(&age);
            stamp.push_str("]");
        }
        if clocked == Some(i) {
            if !stamp.as_str().is_empty() {
                stamp.push(' ');
            }
            if enabled {
                stamp.push_str("[time_harness now=");
                stamp.push_str(clock);
                stamp.push_str("]");
            }
            if let Some(g) = goal {
                if enabled {
                    stamp.push('\n');
                }
                stamp.push_str(&goal_section_for_wire(g, now_ms, enabled, calibrated));
            }
        }
        assert(stamp@ == stamp_text(all, i as int, c));
        let mut prefix = if i == 0 {
            note.clone()
        } else {
            String::new()
        };
        if !stamp.as_str().is_empty() {
            prefix.push_str(&stamp);
            prefix.push('\n');
        }
        assert(prefix@ == stamp_prefix(all, i as int, c));
        let next = Message {
            role: m.role,
            content: put_before(m.content.clone(), &prefix),
            timestamp: m.timestamp,
            internal: m.internal,
        };
        proof {
            lemma_views_push(out@, next);
            assert(next@ == want[i as int]);
            assert(want.take(i + 1) =~= want.take(i as int).push(want[i as int]));
        }
        out.push(next);
        i = i + 1;
    }
    assert(want.take(i as int) =~= want);
    out
}

/// Whether `times` may be shown for the messages.
pub open spec fn times_shown(ms: Seq<MessageView>, times: Seq<Text>) -> bool {
    times.len() == ms.len() && forall|i: int|
        0 <= i < ms.len() ==> shows_time(ms[i].timestamp, #[trigger] times[i])
}

fn times_of(messages: &Vec<Message>) -> (r: Vec<String>)
    ensures
        times_shown(views(messages@), views(r@)),
{
    let mut out: Vec<String> = Vec::new();
    let mut i: usize = 0;
    while i < messages.len()
        invariant
            i <= messages@.len(),
            out@.len() == i,
            forall|j: int|
                0 <= j < i ==> shows_time(
                    views(messages@)[j].timestamp,
                    #[trigger] views(out@)[j],
                ),
        decreases messages@.len() - i,
    {
        let t = msg_time_str(messages[i].timestamp);
        proof {
            lemma_views_push(out@, t);
        }
        out.push(t);
        i = i + 1;
    }
    out
}

/// Stamps the messages for a request with their ages, the clock and the goal. The
/// stored history stays as it is.
pub fn stamp_messages_for_wire(
    messages: Vec<Message>,
    now_ms: i64,
    enabled: bool,
    goal: &Option<SessionGoal>,
    calibrated: &Vec<String>,
) -> (r: Vec<Message>)
    requires
        can_stamp(views(messages@), now_ms, enabled, *goal, calibrated@),
    ensures
        exists|times: Seq<Text>, clock: Text|
            times_shown(views(messages@), times) && is_clock_text(clock) && views(r@)
                == #[trigger] stamped(
                views(messages@),
                context_view(now_ms, enabled, *goal, calibrated@, times, clock),
            ),
{
    let times = times_of(&messages);
    let clock = now_str();
    stamp_with(messages, now_ms, enabled, goal, calibrated, &times, &clock)
}

/// With the layer off and no goal, messages are sent as they are.
pub proof fn disabled_changes_nothing(ms: Seq<MessageView>, c: StampContext)
    requires
        !c.enabled,
        c.goal is None,
    ensures
        stamped(ms, c) == ms,
{
    assert forall|i: int| 0 <= i < ms.len() implies #[trigger] stamped(ms, c)[i] == ms[i] by {
        assert(stamp_text(ms, i, c).len() == 0);
    }
    assert(stamped(ms, c) =~= ms);
}

/// Stamping never touches a message that carries a tool result, and of every
/// other it only adds something in front: who said what when stays.
pub proof fn stamps_only_prefix(ms: Seq<MessageView>, c: StampContext, i: int)
    requires
        0 <= i < ms.len(),
    ensures
        stamped(ms, c).len() == ms.len(),
        stamped(ms, c)[i].role == ms[i].role,
        stamped(ms, c)[i].timestamp == ms[i].timestamp,
        stamped(ms, c)[i].internal == ms[i].internal,
        has_result(ms[i].content) ==> stamped(ms, c)[i] == ms[i],
        ms[i].content matches ContentView::Text(t) ==> (
        stamped(ms, c)[i].content matches ContentView::Text(u) && u == stamp_prefix(ms, i, c) + t),
        ms[i].content matches ContentView::Blocks(bs) ==> (
        stamped(ms, c)[i].content matches ContentView::Blocks(cs) && cs.len() >= bs.len()
            && cs.skip(cs.len() - bs.len()) == bs),
{
    let p = stamp_prefix(ms, i, c);
    match ms[i].content {
        ContentView::Text(t) => {
            if p.len() == 0 {
                assert(p + t =~= t);
            }
        },
        ContentView::Blocks(bs) => {
            let cs = stamped(ms, c)[i].content->Blocks_0;
            assert(cs.skip(cs.len() - bs.len()) =~= bs);
        },
    }
}

proof fn lemma_stamp_hides_nothing(c: ContentView, prefix: Text, id: Text)
    ensures
        calls(prefixed(c, prefix), id) == calls(c, id),
        answers(prefixed(c, prefix), id) == answers(c, id),
{
    if let ContentView::Blocks(bs) = c {
        if prefix.len() > 0 && !has_result(c) {
            let cs = seq![BlockView::Text { text: trim_end(prefix) }] + bs;
            if holds_use(bs, id) {
                let k = choose|k: int| 0 <= k < bs.len() && is_use(#[trigger] bs[k], id);
                assert(is_use(cs[k + 1], id));
            }
            if holds_use(cs, id) {
                let k = choose|k: int| 0 <= k < cs.len() && is_use(#[trigger] cs[k], id);
                assert(is_use(bs[k - 1], id));
            }
            if holds_result(bs, id) {
                let k = choose|k: int| 0 <= k < bs.len() && is_result(#[trigger] bs[k], id);
                assert(is_result(cs[k + 1], id));
            }
            if holds_result(cs, id) {
                let k = choose|k: int| 0 <= k < cs.len() && is_result(#[trigger] cs[k], id);
                assert(is_result(bs[k - 1], id));
            }
        }
    }
}

/// Stamping keeps tool calls and their answers paired.
pub proof fn stamps_keep_pairs(ms: Seq<MessageView>, c: StampContext)
    requires
        pairs_valid(ms),
    ensures
        pairs_valid(stamped(ms, c)),
{
    let out = stamped(ms, c);
    assert forall|i: int, id: Text|
        0 <= i < out.len() && out[i].role is Assistant && #[trigger] calls(
            out[i].content,
            id,
        ) implies answered(out, i, id) by {
        lemma_stamp_hides_nothing(ms[i].content, stamp_prefix(ms, i, c), id);
        assert(calls(ms[i].content, id));
        assert(answered(ms, i, id));
        lemma_stamp_hides_nothing(ms[i + 1].content, stamp_prefix(ms, i + 1, c), id);
        assert(answers(ms[i + 1].content, id));
    }
    assert forall|i: int, id: Text|
        0 <= i < out.len() && out[i].role is User && #[trigger] answers(
            out[i].content,
            id,
        ) implies asked(out, i, id) by {
        lemma_stamp_hides_nothing(ms[i].content, stamp_prefix(ms, i, c), id);
        assert(answers(ms[i].content, id));
        assert(asked(ms, i, id));
        lemma_stamp_hides_nothing(ms[i - 1].content, stamp_prefix(ms, i - 1, c), id);
        assert(calls(ms[i - 1].content, id));
    }
}

/// Only the last message of the user tells the time now.
pub proof fn one_clock(ms: Seq<MessageView>, c: StampContext, other: Text, i: int)
    requires
        0 <= i < ms.len(),
    ensures
        i != last_user(ms) ==> stamped(ms, c)[i] == stamped(ms, StampContext { clock: other, ..c })[i],
        i == last_user(ms) ==> ms[i].role is User && (c.enabled ==> occurs(
            stamp_prefix(ms, i, c),
            "[time_harness now="@ + c.clock + "]"@,
        )),
{
    let d = StampContext { clock: other, ..c };
    lemma_last_user(ms);
    if i != last_user(ms) {
        assert(stamp_text(ms, i, c) == stamp_text(ms, i, d));
    } else if c.enabled {
        let age = age_text(c.now - ms[i].timestamp);
        let a = if age.len() > 0 && c.times[i].len() > 0 {
            ("[message_time="@ + c.times[i] + " age="@ + age + "]"@).push(' ')
        } else {
            Seq::empty()
        };
        let rest = match c.goal {
            Some(g) => seq!['\n'] + goal_section(g, c.now, c.enabled, c.calibrated),
            None => Seq::empty(),
        };
        let note = if i == 0 {
            span_note(ms, c.now, c.enabled)
        } else {
            Seq::empty()
        };
        let clock = "[time_harness now="@ + c.clock + "]"@;
        lemma_clocked_stamp(ms, i, c, a, rest);
        assert(clock.len() > 0) by {
            reveal_strlit("]");
        }
        lemma_stands_inside(note + a, clock, rest.push('\n'));
        assert(stamp_prefix(ms, i, c) =~= (note + a) + clock + rest.push('\n'));
    }
}

proof fn lemma_clocked_stamp(ms: Seq<MessageView>, i: int, c: StampContext, a: Text, rest: Text)
    requires
        i == last_user(ms),
        c.enabled,
        a == ({
            let age = age_text(c.now - ms[i].timestamp);
            if age.len() > 0 && c.times[i].len() > 0 {
                ("[message_time="@ + c.times[i] + " age="@ + age + "]"@).push(' ')
            } else {
                Seq::empty()
            }
        }),
        rest == (match c.goal {
            Some(g) => seq!['\n'] + goal_section(g, c.now, c.enabled, c.calibrated),
            None => Seq::empty(),
        }),
    ensures
        stamp_text(ms, i, c) == a + ("[time_harness now="@ + c.clock + "]"@) + rest,
{
    reveal_strlit("]");
    let clock = "[time_harness now="@ + c.clock + "]"@;
    assert(a + "[time_harness now="@ + c.clock + "]"@ =~= a + clock);
    match c.goal {
        Some(g) => {
            let section = goal_section(g, c.now, c.enabled, c.calibrated);
            assert((a + clock).push('\n') + section =~= a + clock + (seq!['\n'] + section));
        },
        None => {
            assert(a + clock + Seq::<char>::empty() =~= a + clock);
        },
    }
}

proof fn lemma_stands_inside(before: Text, t: Text, behind: Text)
    ensures
        occurs(before + t + behind, t),
{
    let at = before.len() as int;
    assert((before + t + behind).subrange(at, at + t.len()) =~= t);
    assert(occurs_at(before + t + behind, t, at));
}

/// Requests share their beginning: as long as the ages read the same, every message
/// but the one with the clock is sent as it was before, whatever the clock and the
/// goal say.
pub proof fn beginning_is_stable(
    ms: Seq<MessageView>,
    more: Seq<MessageView>,
    a: StampContext,
    b: StampContext,
    i: int,
)
    requires
        0 <= i < ms.len(),
        i != last_user(ms),
        a.enabled == b.enabled,
        a.times[i] == b.times[i],
        age_text(a.now - ms[i].timestamp) == age_text(b.now - ms[i].timestamp),
        span_note(ms, a.now, a.enabled) == span_note(ms + more, b.now, b.enabled),
    ensures
        stamped(ms, a)[i] == stamped(ms + more, b)[i],
{
    let all = ms + more;
    assert(all[i] == ms[i]);
    lemma_last_user(ms);
    lemma_last_user(all);
    if i == last_user(all) {
        assert(ms[i].role is User);
        assert(i < last_user(ms));
        assert(all[last_user(ms)] == ms[last_user(ms)]);
    }
    assert(stamp_text(ms, i, a) == stamp_text(ms + more, i, b));
}

/// With the layer off, the goal is still told, and neither the times of its steps
/// nor their estimates show.
pub proof fn no_times_without_layer(
    g: GoalView,
    h: GoalView,
    now: i64,
    c: Seq<Text>,
    d: Seq<Text>,
)
    requires
        h == (GoalView { plan: h.plan, ..g }),
        g.plan.len() == h.plan.len(),
        forall|i: int|
            0 <= i < g.plan.len() ==> same_but_for_times(#[trigger] g.plan[i], h.plan[i]),
    ensures
        goal_section(g, now, false, c) == goal_section(h, now, false, d),
        occurs(goal_section(g, now, false, c), "Objective: "@ + g.objective),
{
    lemma_untimed_plan(g.plan, h.plan, now, c, d);
    let line = "Objective: "@ + g.objective;
    let head = goal_head(g, now);
    let whole = goal_section(g, now, false, c);
    reveal_strlit("\n");
    let at = head.len() - line.len() - 1;
    assert(head.subrange(at, at + line.len()) =~= line);
    assert(whole.subrange(at, at + line.len()) =~= line);
    assert(occurs_at(whole, line, at));
}

/// Whether two steps differ at most in their times and estimates.
pub open spec fn same_but_for_times(p: StepView, q: StepView) -> bool {
    q == (StepView {
        created_at: q.created_at,
        started_at: q.started_at,
        completed_at: q.completed_at,
        estimate_sec: q.estimate_sec,
        ..p
    })
}

proof fn lemma_untimed_plan(
    p: Seq<StepView>,
    q: Seq<StepView>,
    now: i64,
    c: Seq<Text>,
    d: Seq<Text>,
)
    requires
        p.len() == q.len(),
        forall|i: int| 0 <= i < p.len() ==> same_but_for_times(#[trigger] p[i], q[i]),
    ensures
        plan_lines(p, now, false, c) == plan_lines(q, now, false, d),
    decreases p.len(),
{
    if p.len() > 0 {
        let n = p.len() - 1;
        lemma_untimed_plan(p.drop_last(), q.drop_last(), now, c, d);
        assert(same_but_for_times(p[n], q[n]));
        assert(step_lines(n, p.last(), now, false, c[n]) == step_lines(
            n,
            q.last(),
            now,
            false,
            d[n],
        ));
    }
}

} // verus!
