use deepseek_code::agent::AgentLoop;
use deepseek_code::api::{
    ApiResponse, Content, ContentBlock, DeepSeekClient, Message, Role, ThinkingMode, ToolCall,
    Usage, WebSearchBlock, MODEL_FLASH,
};
use deepseek_code::clock::msg_time_str;
use deepseek_code::context::estimate_tokens;
use deepseek_code::encode::goal_update;
use deepseek_code::events::AgentStreamEvent;
use deepseek_code::goals::{apply_plan_update, apply_plan_update_with, handle_goal_tool};
use deepseek_code::harness::{encode_request, parse_line};
use deepseek_code::history::{compaction_cut, rebuild_history, restore_messages, snapshot_of};
use deepseek_code::json::{json_string, parse_json, Json};
use deepseek_code::session::{
    GoalStatus, PlanStep, SessionGoal, SessionIndex, SessionManager, SessionMeta, StepStatus,
};
use deepseek_code::stamps::{goal_section_for_wire, stamp_messages_for_wire, stamp_with};
use deepseek_code::stream::{ApiStreamEvent, StreamState};
use deepseek_code::tools::charset_of_page;
use deepseek_code::turn::{begin_tool, server_tool_blocks, TurnStep};

fn value(text: &str) -> Json {
    parse_json(text).unwrap()
}

fn list(text: &str) -> Vec<Json> {
    match value(text) {
        Json::Array(items) => items,
        other => panic!("expected a list, got {:?}", other),
    }
}

fn said(role: Role, text: &str, timestamp: i64) -> Message {
    Message { role, content: Content::Text(text.to_string()), timestamp, internal: false }
}

fn blocks(role: Role, bs: Vec<ContentBlock>) -> Message {
    Message { role, content: Content::Blocks(bs), timestamp: 1, internal: false }
}

fn tool_use(id: &str) -> ContentBlock {
    ContentBlock::ToolUse { id: id.to_string(), name: "t".to_string(), input: value("{}") }
}

fn tool_answer(id: &str) -> ContentBlock {
    ContentBlock::ToolResult { tool_use_id: id.to_string(), content: "ok".to_string() }
}

fn goal(now: i64) -> SessionGoal {
    SessionGoal {
        id: "g".to_string(),
        objective: "ship".to_string(),
        status: GoalStatus::Active,
        token_budget: Some(150),
        tokens_used: 0,
        time_used_seconds: 0,
        created_at: now,
        updated_at: now,
        plan: vec![],
        consecutive_blocked_turns: 0,
    }
}

fn response(content: &str, output_tokens: u32) -> ApiResponse {
    ApiResponse {
        content: content.to_string(),
        thinking_content: None,
        thinking_signature: None,
        tool_calls: None,
        server_tool_uses: vec![],
        web_search_results: vec![],
        web_search_used: false,
        usage: Usage {
            input_tokens: 100,
            output_tokens,
            cache_read_input_tokens: 0,
            cache_creation_input_tokens: 0,
        },
        finish_reason: "end_turn".to_string(),
    }
}

#[test]
fn the_beginning_of_a_request_is_stable() {
    let now = 1_800_000_000_000i64;
    let ms = vec![
        said(Role::User, "a", now - 600_000),
        said(Role::Assistant, "b", now - 540_000),
        said(Role::User, "c", now - 1_000),
    ];
    let mut longer = ms.clone();
    longer.push(said(Role::Assistant, "d", now));
    longer.push(said(Role::User, "e", now + 1_000));
    let times = |n: usize| (0..n).map(|i| format!("T{i}")).collect::<Vec<_>>();
    let one = stamp_with(ms, now, true, &None, &vec![], &times(3), "NOW");
    let two = stamp_with(longer, now + 2_000, true, &Some(goal(now)), &vec![], &times(5), "LATER");
    for i in 0..2 {
        assert_eq!(format!("{:?}", one[i]), format!("{:?}", two[i]));
    }
    assert!(format!("{:?}", one[2]).contains("NOW"));
    assert!(!format!("{:?}", two[2]).contains("LATER"));
}

#[test]
fn stamps_leave_pairs_alone() {
    let now = 1_800_000_000_000i64;
    let mut call = blocks(Role::Assistant, vec![tool_use("a")]);
    call.timestamp = now - 60_000;
    let mut answer = blocks(Role::User, vec![tool_answer("a")]);
    answer.timestamp = now - 60_000;
    let times = vec!["T".to_string(), "T".to_string()];
    let out = stamp_with(vec![call, answer.clone()], now, true, &None, &vec![], &times, "NOW");
    assert_eq!(format!("{:?}", out[1]), format!("{:?}", answer));
    let before = format!("{:?}", out);
    let sent = DeepSeekClient::sanitize_messages_for_wire(out);
    assert_eq!(format!("{:?}", sent), before);
}

#[test]
fn a_spent_budget_limits_the_goal() {
    let mut a = AgentLoop::new(MODEL_FLASH.to_string(), "/w".to_string());
    a.restore_goal(Some(goal(1)));
    let (mut p, _) = a.begin_turn("x", &None, true, 2, "NOW".to_string());
    assert!(a.should_auto_advance());
    let r = response("done", 60);
    assert!(a.can_absorb(&p, &r));
    a.absorb_response(&mut p, &r, true, 3, 5);
    let g = a.snapshot_goal().unwrap();
    assert_eq!(g.tokens_used, 160);
    assert_eq!(g.time_used_seconds, 3);
    assert_eq!(g.updated_at, 5);
    assert_eq!(g.status, GoalStatus::BudgetLimited);
    assert!(!a.should_auto_advance());
}

#[test]
fn overthinking_falls_back_twice() {
    let mut a = AgentLoop::new(MODEL_FLASH.to_string(), "/w".to_string());
    let (mut p, _) = a.begin_turn("x", &Some("think-max".to_string()), false, 2, "N".to_string());
    assert_eq!(p.mode, ThinkingMode::ThinkMax { budget_tokens: 32_000 });
    let n = a.state.messages.len();
    for k in 1..=2u32 {
        let (step, events) = a.absorb_response(&mut p, &response(" ", 30_001), true, 0, 3);
        assert_eq!(step, TurnStep::Retry);
        assert_eq!(p.mode, ThinkingMode::NonThink);
        assert_eq!(p.downgrade_count, k);
        let want = format!("Overthinking detected. Downgrading to Non-think ({k}/2).");
        assert!(matches!(&events[0], AgentStreamEvent::Thinking { text } if *text == want));
        assert_eq!(a.state.messages.len(), n);
    }
    let (step, _) = a.absorb_response(&mut p, &response(" ", 30_001), true, 0, 3);
    assert_eq!(step, TurnStep::Finished);
    assert_eq!(a.state.messages.len(), n + 1);
    assert_eq!(a.state.total_thinking_tokens, 90_003);
}

#[test]
fn a_runaway_turn_is_stopped() {
    let mut a = AgentLoop::new(MODEL_FLASH.to_string(), "/w".to_string());
    let (mut p, _) = a.begin_turn("x", &None, false, 2, "N".to_string());
    p.cumulative_thinking_tokens = 1_500_000;
    assert!(a.may_call(&p).is_ok());
    p.cumulative_thinking_tokens = 1_500_001;
    assert_eq!(a.may_call(&p).unwrap_err(), "Agent loop exceeded maximum iterations.");
    a.cancel();
    assert_eq!(a.may_call(&p).unwrap_err(), "Cancelled by user.");
}

#[test]
fn a_cancelled_call_is_answered_without_running() {
    let call = ToolCall {
        id: "c".to_string(),
        call_type: "tool_use".to_string(),
        function: deepseek_code::api::FunctionCall {
            name: "n".to_string(),
            arguments: "{}".to_string(),
        },
    };
    let (start, answer) = begin_tool(&call, true);
    assert!(matches!(start, AgentStreamEvent::ToolStart { id, .. } if id == "c"));
    assert_eq!(answer.as_deref(), Some("Cancelled by user."));
    assert!(begin_tool(&call, false).1.is_none());
}

#[test]
fn a_new_message_resumes_the_goal() {
    let mut a = AgentLoop::new(MODEL_FLASH.to_string(), "/w".to_string());
    let mut g = goal(1);
    g.status = GoalStatus::Paused;
    a.restore_goal(Some(g));
    a.state.auto_turns_used = 4;
    a.begin_turn("x", &None, true, 2, "N".to_string());
    assert_eq!(a.snapshot_goal().unwrap().status, GoalStatus::Active);
    assert_eq!(a.state.auto_turns_used, 4);
    let mut g = goal(1);
    g.status = GoalStatus::Blocked;
    g.consecutive_blocked_turns = 2;
    a.restore_goal(Some(g));
    a.begin_turn("y", &None, false, 3, "N".to_string());
    assert_eq!(a.snapshot_goal().unwrap().consecutive_blocked_turns, 0);
    assert_eq!(a.snapshot_goal().unwrap().status, GoalStatus::Blocked);
    assert_eq!(a.state.auto_turns_used, 0);
}

#[test]
fn steps_are_known_again_by_id_or_content() {
    let mut g = goal(1);
    let fresh = vec!["n1".to_string(), "n2".to_string()];
    let steps = list(r#"[{"id":"s1","content":"a","status":"pending"},{"content":"b","status":"completed","estimate_sec":12.5}]"#);
    assert_eq!(apply_plan_update_with(&mut g, &steps, 5, &fresh).unwrap(), "Plan updated: 2 steps");
    assert_eq!(g.plan[0].id, "s1");
    assert_eq!(g.plan[1].id, "n2");
    assert_eq!(g.plan[1].estimate_sec, Some(13));
    assert_eq!(g.plan[1].completed_at, Some(5));
    let steps = list(r#"[{"id":"s1","content":"renamed","status":"blocked","blocked_reason":"r"},{"content":"b","status":"pending"}]"#);
    apply_plan_update(&mut g, &steps, 9).unwrap();
    assert_eq!(g.plan[0].content, "a");
    assert_eq!(g.plan[0].created_at, 5);
    assert_eq!(g.plan[0].blocked_reason.as_deref(), Some("r"));
    assert_eq!(g.plan[1].completed_at, Some(5));
    assert_eq!(g.updated_at, 9);
    assert_eq!(g.objective, "ship");
}

#[test]
fn plans_that_are_refused_change_nothing() {
    let mut g = goal(1);
    for (steps, complaint) in [
        (r#"[{"status":"pending"}]"#, "Missing step content"),
        (r#"[{"content":"a"}]"#, "Missing step status"),
        (r#"[{"content":"a","status":"odd"}]"#, "Invalid step status: odd"),
        (
            r#"[{"content":"a","status":"in_progress"},{"content":"b","status":"in_progress"}]"#,
            "At most one step can be in_progress at a time.",
        ),
    ] {
        assert_eq!(apply_plan_update(&mut g, &list(steps), 9).unwrap_err(), complaint);
        assert!(g.plan.is_empty());
        assert_eq!(g.updated_at, 1);
    }
}

#[test]
fn a_goal_that_ends_has_no_step_in_progress() {
    for (status, left) in [("complete", StepStatus::Completed), ("blocked", StepStatus::Blocked)] {
        let mut g = Some(goal(1));
        let mut auto: u32 = 0;
        let plan = value(r#"{"plan":[{"content":"a","status":"in_progress"},{"content":"b","status":"pending"}]}"#);
        handle_goal_tool("update_plan", &plan, "c", &mut g, &mut auto, 2);
        let args = value(&format!(r#"{{"status":"{status}"}}"#));
        handle_goal_tool("update_goal", &args, "c", &mut g, &mut auto, 3);
        let plan = &g.as_ref().unwrap().plan;
        assert_eq!(plan[0].status, left);
        assert_eq!(plan[1].status, StepStatus::Pending);
    }
}

#[test]
fn compaction_keeps_pairs_together() {
    let mut ms = vec![said(Role::User, "q", 1)];
    for i in 0..4 {
        let id = format!("c{i}");
        ms.push(blocks(Role::Assistant, vec![tool_use(&id)]));
        ms.push(blocks(Role::User, vec![tool_answer(&id)]));
    }
    ms.push(said(Role::Assistant, "done", 1));
    // Ten messages; the last six start with an answer, so its call stays too.
    let cut = compaction_cut(&ms);
    assert_eq!(cut, 3);
    let kept = ms.split_off(cut);
    let rebuilt = rebuild_history(kept, "S", 7);
    assert_eq!(rebuilt.len(), 8);
    match &rebuilt[0].content {
        Content::Text(t) => assert_eq!(t, "## Conversation Summary (compacted earlier)\n\nS"),
        _ => panic!("expected text"),
    }
    assert_eq!(rebuilt[0].timestamp, 7);
    let before = format!("{:?}", rebuilt);
    assert_eq!(format!("{:?}", DeepSeekClient::sanitize_messages_for_wire(rebuilt)), before);
    assert_eq!(compaction_cut(&vec![said(Role::User, "q", 1)]), 0);
}

#[test]
fn an_agent_compacts_its_history() {
    let mut a = AgentLoop::new(MODEL_FLASH.to_string(), "/w".to_string());
    assert!(a.plan_compaction().is_none());
    for i in 0..12 {
        a.state.messages.push(said(if i % 2 == 0 { Role::User } else { Role::Assistant }, "12345678", 1));
    }
    a.state.context_engine.token_usage = 580_001;
    assert!(a.needs_compaction());
    let (old, kept) = a.plan_compaction().unwrap();
    assert_eq!((old.len(), kept.len()), (6, 6));
    let (answer, events) = a.finish_compaction(kept, "  ", 9);
    assert_eq!(a.state.messages.len(), 6);
    assert_eq!(answer, "Context compacted to ~12 tokens.");
    assert_eq!(events.len(), 2);
    assert_eq!(a.get_token_usage(), 12);
}

#[test]
fn older_sessions_are_restored_too() {
    let stored = |role: &str, content: &str, thinking: Option<&str>| deepseek_code::session::StoredMessage {
        role: role.to_string(),
        content: content.to_string(),
        timestamp: 3,
        thinking_content: thinking.map(str::to_string),
        blocks: None,
    };
    let ms = restore_messages(&vec![
        stored("user", "hi", None),
        stored("assistant", "yo", Some("t")),
        stored("assistant", "", Some("")),
        stored("system", "x", None),
    ]);
    assert_eq!(ms.len(), 3);
    assert!(matches!(&ms[0].content, Content::Text(t) if t == "hi"));
    match &ms[1].content {
        Content::Blocks(b) => {
            assert!(matches!(&b[0], ContentBlock::Thinking { thinking, signature: None } if thinking == "t"));
            assert!(matches!(&b[1], ContentBlock::Text { text } if text == "yo"));
        }
        _ => panic!("expected blocks"),
    }
    assert!(matches!(&ms[2].content, Content::Blocks(b) if b.is_empty()));
    let back = snapshot_of(&ms);
    assert_eq!(back[1].content, "yo");
    assert_eq!(back[1].thinking_content.as_deref(), Some("t"));
    let mut a = AgentLoop::new(MODEL_FLASH.to_string(), "/w".to_string());
    assert_eq!(
        a.restore_session(&vec![stored("system", "x", None)]).unwrap_err(),
        "Session has no usable messages."
    );
}

#[test]
fn every_session_is_listed_once() {
    let meta = |id: &str, at: &str| SessionMeta {
        id: id.to_string(),
        title: String::new(),
        created_at: at.to_string(),
        updated_at: at.to_string(),
        message_count: 0,
        workspace: "/w".to_string(),
    };
    let all = vec![meta("a", "2"), meta("b", "2"), meta("c", "9")];
    let listed = SessionManager::list(Some(SessionIndex { sessions: all }));
    let ids: Vec<&str> = listed.iter().map(|m| m.id.as_str()).collect();
    assert_eq!(ids, vec!["c", "a", "b"]);
}

#[test]
fn estimates_stay_below_the_length() {
    for t in ["", "a", "abcde", "你好 world", "é", "→"] {
        let n = estimate_tokens(t);
        assert!(n <= t.len() as u64);
        assert!(4 * n + 3 >= t.len() as u64);
    }
    assert_eq!(estimate_tokens("你好ab"), 2 + 6 / 4);
}

#[test]
fn a_message_that_loses_all_blocks_says_so() {
    let ms = vec![
        blocks(Role::Assistant, vec![tool_use("a")]),
        said(Role::User, "no", 1),
        blocks(Role::User, vec![tool_answer("z")]),
    ];
    let out = DeepSeekClient::sanitize_messages_for_wire(ms);
    assert_eq!(out.len(), 3);
    assert!(matches!(&out[0].content, Content::Blocks(b)
        if matches!(&b[0], ContentBlock::Text { text } if text == "[tool call omitted: result unavailable in history]")));
    assert!(matches!(&out[2].content, Content::Blocks(b)
        if matches!(&b[0], ContentBlock::Text { text } if text == "[tool result omitted: no matching tool use in history]")));
}

#[test]
fn the_context_is_broken_down() {
    let mut a = AgentLoop::new(MODEL_FLASH.to_string(), "/w".to_string());
    a.state.system_prompt = "x".repeat(40);
    a.state.messages.push(said(Role::User, "12345678", 1));
    let b = a.get_context_breakdown().unwrap();
    assert_eq!(b.system_prompt_tokens, 10);
    assert_eq!(b.conversation_tokens, 2);
    assert!(b.tool_definitions_tokens > 500);
    assert_eq!(b.total_tokens, 12 + b.tool_definitions_tokens);
}

#[test]
fn budgets_and_limits_are_held() {
    let mut a = AgentLoop::new(MODEL_FLASH.to_string(), "/w".to_string());
    assert_eq!(
        a.set_thinking_budgets(1, u32::MAX),
        "Thinking budgets updated: Think=1000 tok, Deep=196608 tok."
    );
    assert_eq!(a.set_goal_max_auto_turns(0), "Max auto turns: 1");
    assert_eq!(a.set_goal_max_auto_turns(500), "Max auto turns: 100");
    assert_eq!(a.set_goal("  ", None, 1).unwrap_err(), "Objective must not be empty.");
    assert_eq!(a.set_goal(" do it ", None, 1).unwrap(), "do it");
    assert_eq!(a.switch_model("x".to_string()).unwrap_err(), "Unknown model: x");
}

fn step(status: StepStatus, created_at: i64) -> PlanStep {
    PlanStep {
        id: "s".to_string(),
        content: "y".to_string(),
        status,
        created_at,
        started_at: None,
        completed_at: None,
        blocked_reason: None,
        estimate_sec: None,
    }
}

#[test]
fn a_written_time_is_the_time_it_stands_for() {
    for ms in [1i64, 951_782_400_000, 1_709_210_096_789, 1_785_978_061_000, 4_107_542_399_000] {
        let t = msg_time_str(ms);
        assert_eq!(t.len(), 25, "got {t}");
        let n = |from: usize, to: usize| t[from..to].parse::<i64>().unwrap();
        let (year, month, day) = (n(0, 4), n(5, 7), n(8, 10));
        let leap = year % 4 == 0 && (year % 100 != 0 || year % 400 == 0);
        let lens = [31, if leap { 29 } else { 28 }, 31, 30, 31, 30, 31, 31, 30, 31, 30, 31];
        let before: i64 = lens[..month as usize - 1].iter().sum();
        let y = year - 1;
        let days = 365 * (year - 1970) + y / 4 - y / 100 + y / 400 - 477 + before + day - 1;
        let secs = days * 86_400 + n(11, 13) * 3600 + n(14, 16) * 60 + n(17, 19);
        let off = (n(21, 23) * 60 + n(23, 25)) * 60;
        let off = if &t[20..21] == "-" { -off } else { off };
        // Old zones may be off by some seconds of a minute.
        assert!((secs - off - ms / 1000).abs() <= 30, "got {t} for {ms}");
    }
    assert_eq!(msg_time_str(i64::MAX), "");
    assert_eq!(msg_time_str(-1), "");
}

#[test]
fn the_clock_stands_on_the_last_message_of_the_user() {
    let ms = vec![said(Role::User, "q", 1_000), said(Role::Assistant, "a", 2_000)];
    let out = stamp_messages_for_wire(ms, 70_000, true, &None, &vec![]);
    assert!(format!("{:?}", out[0]).contains("[time_harness now="));
    assert!(!format!("{:?}", out[1]).contains("[time_harness now="));
    let ms = vec![said(Role::Assistant, "a", 2_000)];
    let out = stamp_messages_for_wire(ms, 70_000, true, &None, &vec![]);
    assert!(!format!("{:?}", out[0]).contains("[time_harness now="));
}

#[test]
fn steps_are_stale_after_an_hour() {
    let now = 1_800_000_000_000i64;
    let stale = |status: StepStatus, age: i64| {
        let mut g = goal(now);
        g.plan = vec![step(status, now - age)];
        goal_section_for_wire(&g, now, true, &vec![String::new()]).contains("STALE")
    };
    assert!(!stale(StepStatus::Pending, 1));
    assert!(!stale(StepStatus::Pending, 3_599_999));
    assert!(stale(StepStatus::Pending, 3_600_000));
    assert!(stale(StepStatus::Blocked, 7_200_000));
    assert!(stale(StepStatus::Cancelled, 7_200_000));
    assert!(!stale(StepStatus::InProgress, 7_200_000));
    assert!(!stale(StepStatus::Completed, 7_200_000));
}

#[test]
fn without_the_layer_no_times_show() {
    let now = 1_800_000_000_000i64;
    for status in [StepStatus::Pending, StepStatus::InProgress, StepStatus::Completed] {
        let mut g = goal(1);
        g.plan = vec![step(status, now)];
        let mut h = g.clone();
        h.plan[0].created_at = 5;
        h.plan[0].started_at = Some(6);
        h.plan[0].completed_at = Some(7);
        h.plan[0].estimate_sec = Some(300);
        let told = goal_section_for_wire(&g, now, false, &vec!["81".to_string()]);
        assert_eq!(told, goal_section_for_wire(&h, now, false, &vec!["9".to_string()]));
        assert!(told.contains("Objective: ship\n"));
    }
}

#[test]
fn a_block_holds_what_was_handed_on_for_it() {
    let mut st = StreamState::default();
    let mut text = String::new();
    let mut thinking = String::new();
    for data in [
        r#"{"type":"content_block_start","index":0,"content_block":{"type":"thinking"}}"#,
        r#"{"type":"content_block_start","index":1,"content_block":{"type":"text"}}"#,
        r#"{"type":"content_block_delta","index":1,"delta":{"type":"text_delta","text":"a"}}"#,
        r#"{"type":"content_block_delta","index":0,"delta":{"type":"thinking_delta","thinking":"x"}}"#,
        r#"{"type":"content_block_delta","index":0,"delta":{"type":"signature_delta","signature":"S"}}"#,
        "no json",
        r#"{"type":"content_block_delta","index":1,"delta":{"type":"text_delta","text":"b"}}"#,
        r#"{"type":"content_block_delta","index":7,"delta":{"type":"text_delta","text":"lost"}}"#,
        r#"{"type":"content_block_stop","index":1}"#,
        r#"{"type":"content_block_stop","index":0}"#,
    ] {
        for e in st.handle_event(data) {
            match e {
                ApiStreamEvent::TextDelta { text: t } => text.push_str(&t),
                ApiStreamEvent::ThinkingDelta { text: t } => thinking.push_str(&t),
            }
        }
    }
    assert_eq!((text.as_str(), thinking.as_str()), ("ab", "x"));
    assert!(matches!(&st.blocks[0], ContentBlock::Text { text: t } if *t == text));
    assert!(matches!(&st.blocks[1], ContentBlock::Thinking { thinking: t, signature: Some(s) }
        if *t == thinking && s == "S"));
}

#[test]
fn a_written_request_is_no_frame() {
    for params in ["{}", "[1.5,null]", r#"{"result":1,"error":2}"#, "\"a\\nb\""] {
        let line = encode_request(7, "session/prompt", value(params));
        assert!(line.ends_with('\n') && line.matches('\n').count() == 1);
        assert!(parse_line(&line).is_none());
        assert_eq!(parse_json(&line).unwrap().u64_at("id"), Some(7));
    }
}

#[test]
fn a_saved_conversation_is_taken_up() {
    let mut a = AgentLoop::new(MODEL_FLASH.to_string(), "/w".to_string());
    let mut hidden = said(Role::User, "go on", 3);
    hidden.internal = true;
    a.state.messages = vec![
        said(Role::User, "12345678", 1),
        hidden,
        blocks(Role::Assistant, vec![tool_use("a")]),
        blocks(Role::User, vec![tool_answer("a")]),
    ];
    let was = a.state.messages.clone();
    let stored = a.snapshot_messages();
    let mut b = AgentLoop::new(MODEL_FLASH.to_string(), "/w".to_string());
    assert_eq!(b.restore_session(&stored).unwrap(), "Restored 3 messages into context.");
    let kept = vec![was[0].clone(), was[2].clone(), was[3].clone()];
    assert_eq!(format!("{:?}", b.state.messages), format!("{:?}", kept));
    assert_eq!(b.get_token_usage(), 2);
}

#[test]
fn a_title_is_its_own_title() {
    for m in ["  hi\nthere ", "", "\n", &"x".repeat(50), &"y z\n".repeat(30), &"é".repeat(10)] {
        let t = SessionManager::generate_title(m);
        assert!(t.len() <= 50 && !t.contains('\n'), "got {t}");
        assert_eq!(SessionManager::generate_title(&t), t);
    }
    assert_eq!(SessionManager::generate_title(&"x".repeat(51)), format!("{}...", "x".repeat(47)));
}

#[test]
fn a_changed_goal_is_reported_as_json() {
    let mut g = goal(1);
    g.plan = vec![step(StepStatus::InProgress, -4)];
    match goal_update(&g) {
        AgentStreamEvent::GoalUpdate { goal_json } => assert_eq!(
            goal_json,
            concat_lines(&[
                r#"{"consecutive_blocked_turns":0,"created_at":1,"id":"g","objective":"ship","#,
                r#""plan":[{"blocked_reason":null,"completed_at":null,"content":"y","created_at":-4,"#,
                r#""estimate_sec":null,"id":"s","started_at":null,"status":"in_progress"}],"#,
                r#""status":"active","time_used_seconds":0,"token_budget":150,"tokens_used":0,"#,
                r#""updated_at":1}"#,
            ])
        ),
        other => panic!("got {:?}", other),
    }
}

fn concat_lines(lines: &[&str]) -> String {
    lines.join("")
}

#[test]
fn charsets_are_read_to_their_end() {
    assert_eq!(charset_of_page("<meta charset=\"GBK\">").as_deref(), Some("gbk"));
    assert_eq!(charset_of_page("<meta charset=utf-8>").as_deref(), Some("utf-8"));
    assert_eq!(charset_of_page("charset=;"), None);
}

fn found(content: &str) -> ApiResponse {
    let mut r = response("answer", 1);
    r.web_search_results = vec![WebSearchBlock {
        tool_use_id: Some("toolu_ws1".to_string()),
        title: None,
        url: None,
        content: value(content),
    }];
    r.web_search_used = true;
    r
}

fn sent_content(b: &ContentBlock) -> String {
    match b {
        ContentBlock::WebSearchResult { content, .. } => json_string(content),
        other => panic!("got {:?}", other),
    }
}

#[test]
fn search_results_go_back_as_lists() {
    let stamp = "[data_time=NOW age=0min freshness=just_fetched horizon=24h]";
    for (content, text) in [
        (r#"[{"text":"DeepSeek rocks","type":"text"}]"#, "DeepSeek rocks"),
        (r#"[{"text":"a"},{"text":"b"}]"#, r"a\nb"),
        (r#""plain""#, "plain"),
        (r#"[{"url":"u"}]"#, r#"[{\"url\":\"u\"}]"#),
        ("[]", ""),
    ] {
        let sent = sent_content(&server_tool_blocks(&found(content), "NOW", true)[0]);
        assert_eq!(sent, format!(r#"[{{"text":"{stamp}\n{text}","type":"text"}}]"#));
    }
    for (content, sent) in [
        (r#"[{"text":"a"},{"url":"u"}]"#, r#"[{"text":"a"},{"url":"u"}]"#),
        (r#""plain""#, r#"[{"text":"plain","type":"text"}]"#),
        ("null", "[]"),
    ] {
        assert_eq!(sent_content(&server_tool_blocks(&found(content), "NOW", false)[0]), sent);
    }
}

#[test]
fn search_results_are_stamped_with_the_layer_only() {
    for on in [true, false] {
        let mut a = AgentLoop::new(MODEL_FLASH.to_string(), "/w".to_string());
        a.state.time_harness = on;
        let (mut p, _) = a.begin_turn("x", &None, false, 2, "N".to_string());
        let r = found(r#"[{"text":"old news","type":"text"}]"#);
        a.absorb_response(&mut p, &r, true, 0, 3);
        let told = format!("{:?}", a.state.messages.last().unwrap());
        assert!(told.contains("old news"));
        assert_eq!(told.contains("[data_time="), on);
    }
}
