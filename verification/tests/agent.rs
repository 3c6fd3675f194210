use chrono::TimeZone;
use deepseek_code::agent::AgentLoop;
use deepseek_code::api::{Content, ContentBlock, Message, Role, MODEL_FLASH, MODEL_PRO};
use deepseek_code::clock::{human_age_ms, msg_time_str, now_millis, now_str, LAST_CLOCK_MS};
use deepseek_code::context::{ContextEngine, ProjectContext};
use deepseek_code::events::{AgentStreamEvent, TokenUsageInfo};
use deepseek_code::goals::apply_plan_update;
use deepseek_code::json::{parse_json, Json};
use deepseek_code::session::{GoalStatus, PlanStep, SessionGoal, StepStatus};
use deepseek_code::stamps::{
    annotate_tool_result, duration_calibration_factor, freshness_horizon, goal_section_for_wire,
    stamp_messages_for_wire, stamp_with,
};
use deepseek_code::turn::{is_stalled_turn, should_stop_after_turn, AgentTurnResult};

fn local(h: u32, m: u32) -> i64 {
    chrono::Local.with_ymd_and_hms(2026, 8, 6, h, m, 0).unwrap().timestamp_millis()
}

fn list(text: &str) -> Vec<Json> {
    match parse_json(text).unwrap() {
        Json::Array(items) => items,
        other => panic!("expected a list, got {:?}", other),
    }
}

fn goal(status: GoalStatus, now: i64, blocked: u32) -> SessionGoal {
    SessionGoal {
        id: "g".to_string(),
        objective: "x".to_string(),
        status,
        token_budget: None,
        tokens_used: 0,
        time_used_seconds: 0,
        created_at: now,
        updated_at: now,
        plan: vec![],
        consecutive_blocked_turns: blocked,
    }
}

fn text_of(m: &Message) -> String {
    match &m.content {
        Content::Text(t) => t.clone(),
        _ => panic!("expected text"),
    }
}

#[test]
fn age_units_are_compact() {
    assert_eq!(human_age_ms(0), "");
    assert_eq!(human_age_ms(-5), "");
    assert_eq!(human_age_ms(30_000), "0min");
    assert_eq!(human_age_ms(10 * 60_000), "10min");
    assert_eq!(human_age_ms(90 * 60_000), "1h");
    assert_eq!(human_age_ms(26 * 3_600_000), "26h");
    assert_eq!(human_age_ms(50 * 24 * 3_600_000), "50d");
}

#[test]
fn message_time_format_is_local_and_readable() {
    let ts = chrono::Local.with_ymd_and_hms(2026, 8, 6, 9, 0, 0).unwrap().timestamp_millis();
    let s = msg_time_str(ts);
    assert!(s.starts_with("2026-08-06 09:00:00"), "got {s}");
    assert_eq!(msg_time_str(0), "");
}

#[test]
fn wire_stamps_apply_ages_and_clock() {
    let now = local(9, 5);
    let two_days = 2 * 24 * 3_600_000i64;
    let msgs = vec![
        Message {
            role: Role::Assistant,
            content: Content::Text("build is fine".to_string()),
            timestamp: now - two_days + 60_000,
            internal: false,
        },
        Message {
            role: Role::User,
            content: Content::Text("check the build".to_string()),
            timestamp: now - two_days,
            internal: false,
        },
    ];

    let stamped = stamp_messages_for_wire(msgs.clone(), now, true, &None, &vec![]);
    match &stamped[0].content {
        Content::Text(t) => {
            assert!(t.contains("spans from 2d ago"), "span note missing: {t}");
            assert!(t.contains("[message_time="), "assistant age stamp missing: {t}");
        }
        _ => panic!("expected text"),
    }
    match &stamped[1].content {
        Content::Text(t) => {
            assert!(t.contains("age=2d"), "expected age=2d: {t}");
            assert!(t.contains("[time_harness now="), "clock stamp missing: {t}");
        }
        _ => panic!("expected text"),
    }

    // Disabled: raw messages pass through untouched.
    let raw = stamp_messages_for_wire(msgs, now, false, &None, &vec![]);
    match &raw[1].content {
        Content::Text(t) => assert_eq!(t, "check the build"),
        _ => panic!("expected text"),
    }
}

#[test]
fn wire_stamps_preserve_tool_result_blocks() {
    let now = local(9, 5);
    let msgs = vec![Message {
        role: Role::User,
        content: Content::Blocks(vec![ContentBlock::ToolResult {
            tool_use_id: "tu_1".to_string(),
            content: "42".to_string(),
        }]),
        timestamp: now - 60_000,
        internal: false,
    }];

    let stamped = stamp_messages_for_wire(msgs, now, true, &None, &vec![]);
    match &stamped[0].content {
        Content::Blocks(b) => {
            assert!(
                matches!(b[0], ContentBlock::ToolResult { .. }),
                "tool result must stay first, got {:?}",
                b[0]
            );
        }
        _ => panic!("expected blocks"),
    }
}

#[test]
fn goal_section_stamps_ages_and_flags_stale_steps() {
    let now = local(9, 0);
    let two_days = 2 * 24 * 3_600_000i64;
    let goal = SessionGoal {
        id: "g1".to_string(),
        objective: "Ship the temporal benchmark paper".to_string(),
        status: GoalStatus::Active,
        token_budget: Some(20_000),
        tokens_used: 12_000,
        time_used_seconds: 3_600,
        created_at: now - two_days,
        updated_at: now,
        consecutive_blocked_turns: 1,
        plan: vec![
            PlanStep {
                id: "s1".to_string(),
                content: "Scale T1 to 30 cases".to_string(),
                status: StepStatus::Pending,
                created_at: now - two_days,
                started_at: None,
                completed_at: None,
                blocked_reason: None,
                estimate_sec: None,
            },
            PlanStep {
                id: "s2".to_string(),
                content: "Run cross-model sweep".to_string(),
                status: StepStatus::InProgress,
                created_at: now - 60_000,
                started_at: Some(now - 60_000),
                completed_at: None,
                blocked_reason: None,
                estimate_sec: Some(300),
            },
        ],
    };
    let calibrated = vec!["".to_string(), format!("{:.0}", 300.0 / 3.71)];

    let section = goal_section_for_wire(&goal, now, true, &calibrated);
    assert!(!section.contains("JUST SET"), "old goal flagged as just set: {section}");
    assert!(section.contains("status=active"), "missing status: {section}");
    assert!(section.contains("remaining=8000"), "budget math wrong: {section}");
    assert!(section.contains("age=2d"), "missing step age: {section}");
    assert!(section.contains("STALE"), "stale step not flagged: {section}");
    assert!(section.contains("calibrated 81s"), "calibrated ETA wrong: {section}");
    assert!(section.contains("(currently 1/3)"), "blocked audit counter wrong: {section}");
    assert!(section.contains("at most one step in_progress"), "rules missing: {section}");

    // Temporal off: goal still visible, timestamps stripped.
    let plain = goal_section_for_wire(&goal, now, false, &calibrated);
    assert!(plain.contains("Objective:"), "objective missing without harness: {plain}");
    assert!(!plain.contains("age=2d"), "age leaked without harness: {plain}");

    // A goal created seconds ago must show the switch signal.
    let mut fresh_goal = goal.clone();
    fresh_goal.created_at = now - 5_000;
    let fresh_section = goal_section_for_wire(&fresh_goal, now, true, &calibrated);
    assert!(
        fresh_section.contains("JUST SET"),
        "fresh goal missing takeover note: {fresh_section}"
    );
}

#[test]
fn auto_advance_stop_conditions() {
    let result = |msg: &str| AgentTurnResult {
        message: msg.to_string(),
        thinking_content: None,
        tool_calls: None,
        token_usage: TokenUsageInfo {
            input: 0,
            output: 0,
            cached: 0,
            cache_savings: 0,
            thinking_tokens: 0,
        },
        total_cost: 0,
        finish_reason: "end_turn".to_string(),
        context_usage: 0,
    };

    assert!(is_stalled_turn(&result("  ")));
    assert!(!is_stalled_turn(&result("progress")));
    assert!(should_stop_after_turn(&result("需要确认一下，用哪个方案？")));
    assert!(should_stop_after_turn(&result("Which API key should I use?")));
    assert!(!should_stop_after_turn(&result("已修复编译错误，并补充了 3 个测试。接下来验证构建……")));
}

#[test]
fn plan_update_preserves_identity_and_timestamps() {
    let t0 = local(9, 0);
    let t1 = t0 + 60_000;
    let t2 = t0 + 120_000;
    let mut goal = goal(GoalStatus::Active, t0, 0);

    // Create two steps.
    let create = list(
        r#"[{"content": "Write fib.py", "status": "pending"},
            {"content": "Run and verify", "status": "pending"}]"#,
    );
    apply_plan_update(&mut goal, &create, t0).unwrap();
    assert_eq!(goal.plan.len(), 2);
    let id1 = goal.plan[0].id.clone();
    assert_eq!(goal.plan[0].created_at, t0);

    // Upsert by content: in_progress stamps started_at, same id.
    let progress = list(
        r#"[{"content": "Write fib.py", "status": "in_progress", "estimate_sec": 30},
            {"content": "Run and verify", "status": "pending"}]"#,
    );
    apply_plan_update(&mut goal, &progress, t1).unwrap();
    assert_eq!(goal.plan[0].id, id1, "identity must survive content match");
    assert_eq!(goal.plan[0].started_at, Some(t1));
    assert_eq!(goal.plan[0].created_at, t0, "created_at is backend-owned");
    assert_eq!(goal.plan[0].estimate_sec, Some(30));

    // Complete: completed_at stamped once, created_at untouched.
    let done = list(
        r#"[{"content": "Write fib.py", "status": "completed"},
            {"content": "Run and verify", "status": "in_progress"}]"#,
    );
    apply_plan_update(&mut goal, &done, t2).unwrap();
    assert_eq!(goal.plan[0].completed_at, Some(t2));
    assert_eq!(goal.plan[0].created_at, t0);
}

#[test]
fn plan_update_enforces_one_in_progress_and_resets_blocked_audit() {
    let t0 = local(9, 0);
    let mut goal = goal(GoalStatus::Blocked, t0, 3);

    let two_ip = list(
        r#"[{"content": "a", "status": "in_progress"},
            {"content": "b", "status": "in_progress"}]"#,
    );
    assert!(apply_plan_update(&mut goal, &two_ip, t0).is_err());

    let progress = list(
        r#"[{"content": "a", "status": "completed"},
            {"content": "b", "status": "in_progress"}]"#,
    );
    apply_plan_update(&mut goal, &progress, t0).unwrap();
    assert_eq!(goal.consecutive_blocked_turns, 0, "progress resets blocked audit");
    assert_eq!(goal.status, GoalStatus::Active, "progress reactivates a blocked goal");
    assert_eq!(goal.plan[1].status, StepStatus::InProgress);
}

#[test]
fn plan_update_accepts_step_alias_for_content() {
    let t0 = local(9, 0);
    let mut goal = goal(GoalStatus::Active, t0, 0);
    let steps = list(r#"[{"step": "Write tests", "status": "in_progress"}]"#);
    apply_plan_update(&mut goal, &steps, t0).unwrap();
    assert_eq!(goal.plan.len(), 1);
    assert_eq!(goal.plan[0].content, "Write tests");
    assert_eq!(goal.plan[0].status, StepStatus::InProgress);
}

#[test]
fn the_clock_stays_in_its_range() {
    assert_eq!(chrono::DateTime::<chrono::Utc>::MAX_UTC.timestamp_millis(), LAST_CLOCK_MS);
    let now = now_millis();
    assert!(0 <= now && now <= LAST_CLOCK_MS);
    assert!(now.checked_sub(LAST_CLOCK_MS).is_some());
    assert!(LAST_CLOCK_MS.checked_sub(now).is_some());
}

#[test]
fn the_clock_is_written_in_full() {
    let before = chrono::Utc::now().timestamp_millis();
    let now = now_millis();
    assert!(now >= before && now - before < 60_000);
    // As in 2026-08-06 09:00:00 +0800.
    let text = now_str();
    assert_eq!(text.len(), 25, "got {text}");
    assert_eq!(&text[4..5], "-");
    assert_eq!(&text[10..11], " ");
    assert_eq!(&text[13..14], ":");
    let year: i32 = text[..4].parse().unwrap();
    assert!(year >= 2024);
}

#[test]
fn stamps_have_an_exact_shape() {
    let now = 1_800_000_000_000i64;
    let msgs = vec![
        Message {
            role: Role::User,
            content: Content::Text("hi".to_string()),
            timestamp: now - 600_000,
            internal: false,
        },
        Message {
            role: Role::Assistant,
            content: Content::Blocks(vec![ContentBlock::Text { text: "yes".to_string() }]),
            timestamp: now - 300_000,
            internal: false,
        },
    ];
    let times = vec!["T0".to_string(), "T1".to_string()];
    let out = stamp_with(msgs, now, true, &None, &vec![], &times, "NOW");
    assert_eq!(text_of(&out[0]), "[message_time=T0 age=10min] [time_harness now=NOW]\nhi");
    match &out[1].content {
        Content::Blocks(b) => {
            assert_eq!(b.len(), 2);
            assert!(matches!(&b[0], ContentBlock::Text { text }
                if text == "[message_time=T1 age=5min]"));
            assert!(matches!(&b[1], ContentBlock::Text { text } if text == "yes"));
        }
        _ => panic!("expected blocks"),
    }
}

#[test]
fn results_of_tools_say_how_long_they_are_fresh() {
    assert_eq!(freshness_horizon("get_weather"), "30min");
    assert_eq!(freshness_horizon("track_package"), "6h");
    assert_eq!(freshness_horizon("web_search"), "24h");
    assert_eq!(freshness_horizon("run_shell"), "1h");
    assert_eq!(duration_calibration_factor("deepseek-v4-flash"), 371);
    assert_eq!(duration_calibration_factor("deepseek-v4-pro"), 56);
    let s = annotate_tool_result("run_shell", "done", "NOW");
    assert!(s.contains("NOW") && s.contains("1h") && s.ends_with("done"), "got {s}");
}

fn project() -> ProjectContext {
    let mut e = ContextEngine::new("/w".to_string());
    e.scan_workspace("tree".to_string(), vec![], None, vec![])
}

#[test]
fn an_agent_starts_clean_and_obeys_its_switches() {
    let mut a = AgentLoop::new(MODEL_FLASH.to_string(), "/w".to_string());
    assert_eq!(a.get_token_usage(), 0);
    assert!(!a.cancelled);
    a.cancel();
    assert!(a.cancelled);
    a.reset_cancel();
    assert!(!a.cancelled);
    let msg = a.initialize(&project());
    assert!(!msg.is_empty());
    assert!(!a.state.system_prompt.is_empty());
    assert!(a.switch_model(MODEL_PRO.to_string()).is_ok());
    assert_eq!(a.state.model, MODEL_PRO);
    assert!(a.switch_model("gpt".to_string()).is_err());
    assert_eq!(a.state.model, MODEL_PRO);
}

#[test]
fn a_goal_drives_turns_until_the_limit() {
    let mut a = AgentLoop::new(MODEL_FLASH.to_string(), "/w".to_string());
    a.set_goal_mode(true);
    a.set_goal_max_auto_turns(2);
    assert!(!a.should_auto_advance());
    a.set_goal("ship it", None, 5).unwrap();
    assert!(a.should_auto_advance());
    assert!(a.auto_continuation_message().ends_with("ship it"));
    assert!(matches!(a.emit_auto_turn(1), AgentStreamEvent::AutoTurn { index: 1, max: 2 }));
    a.note_auto_turn();
    assert!(a.should_auto_advance());
    a.note_auto_turn();
    assert!(!a.should_auto_advance());
    assert_eq!(a.goal_mode_state().u64_at("auto_turns_used"), Some(2));
}

#[test]
fn a_paused_goal_rests_and_resumes() {
    let mut a = AgentLoop::new(MODEL_FLASH.to_string(), "/w".to_string());
    assert!(a.set_goal_paused(true, 1).is_err());
    a.set_goal_mode(true);
    a.set_goal("ship it", Some(100), 5).unwrap();
    assert_eq!(a.set_goal_paused(true, 6).unwrap(), "Goal paused");
    assert_eq!(a.snapshot_goal().unwrap().status, GoalStatus::Paused);
    assert!(!a.should_auto_advance());
    assert_eq!(a.set_goal_paused(false, 7).unwrap(), "Goal resumed");
    assert!(a.should_auto_advance());
    a.restore_goal(None);
    assert!(a.snapshot_goal().is_none());
}
