use deepseek_code::agent::AgentLoop;
use deepseek_code::api::{ApiResponse, Content, ContentBlock, FunctionCall, Message, Role, ToolCall, Usage, MODEL_FLASH, MODEL_PRO};
use deepseek_code::console::{display, read_args, read_key, render_frame, run_launch, run_options, Printed};
use deepseek_code::driver::{
    choose_effort, choose_harness, choose_model, choose_workspace, current_session, harness_config,
    harness_message, RuntimePlaces,
    list_files, Burst, FileEntry,
};
use deepseek_code::events::{AgentStreamEvent, TokenUsageInfo};
use deepseek_code::goals::{handle_goal_tool, is_goal_tool, parse_step_status};
use deepseek_code::harness::parse_line;
use deepseek_code::history::{
    compaction_cut, estimate_history, estimate_message_tokens, rebuild_history, restore_messages,
    snapshot_of,
};
use deepseek_code::json::{json_string, parse_json, round_double, Json};
use deepseek_code::order::{less, sort};
use deepseek_code::paths::{components, join_path, resolve_path, under, workspace_file};
use deepseek_code::session::{
    GoalStatus, Session, SessionIndex, SessionManager, SessionMeta, StepStatus,
};
use deepseek_code::stream::{ApiStreamEvent};
use deepseek_code::text::{lines, number, replace, trim};
use deepseek_code::tools::{
    charset_of_header, decode_page, edit_text, fetch_output, fetch_output_at, file_size_complaint,
    get_tool_definitions_json, is_long_output, listing_line, listing_output, long_output_path,
    long_output_text, memory_output, plan_tool, search_output, shell_output, sniff_content_time,
    sniff_content_time_at, sniff_meta_charset, strip_html, summarize_tool_result, tool_result,
    ToolPlan,
};
use deepseek_code::turn::{
    after_stream, call_args, diff_event, estimate_text_tokens, report_tool_result, tracks_diff,
    AgentTurnResult, ChatStep, StreamPump, TurnStep,
};

fn value(text: &str) -> Json {
    parse_json(text).unwrap()
}

fn said(role: Role, text: &str) -> Message {
    Message { role, content: Content::Text(text.to_string()), timestamp: 1, internal: false }
}

fn result(message: &str) -> AgentTurnResult {
    AgentTurnResult {
        message: message.to_string(),
        thinking_content: None,
        tool_calls: None,
        token_usage: TokenUsageInfo {
            input: 0,
            output: 0,
            cached: 0,
            cache_savings: 0,
            thinking_tokens: 0,
        },
        total_cost: 0,
        finish_reason: "end_turn".to_string(),
        context_usage: 0,
    }
}

fn response(content: &str, calls: Option<Vec<ToolCall>>) -> ApiResponse {
    ApiResponse {
        content: content.to_string(),
        thinking_content: None,
        thinking_signature: None,
        tool_calls: calls,
        server_tool_uses: vec![],
        web_search_results: vec![],
        web_search_used: false,
        usage: Usage {
            input_tokens: 100,
            output_tokens: 20,
            cache_read_input_tokens: 50,
            cache_creation_input_tokens: 0,
        },
        finish_reason: "end_turn".to_string(),
    }
}

fn call(id: &str, name: &str, arguments: &str) -> ToolCall {
    ToolCall {
        id: id.to_string(),
        call_type: "function".to_string(),
        function: FunctionCall { name: name.to_string(), arguments: arguments.to_string() },
    }
}

// Text and values

#[test]
fn texts_are_cut_into_lines() {
    assert_eq!(lines("a\r\nb\n\nc"), vec!["a", "b", "", "c"]);
    assert_eq!(trim(" \u{3000}a \n"), "a");
    assert_eq!(replace("aXbX", "X", "--"), "a--b--");
    assert_eq!(number(0), "0");
    assert_eq!(number(u64::MAX), "18446744073709551615");
}

#[test]
fn values_survive_their_text() {
    let text = r#"{"a":[1,-2,true,null,"x\n"],"b":{"c":18446744073709551615}}"#;
    let v = value(text);
    assert_eq!(json_string(&v), text);
    assert!(parse_json("{").is_err());
    assert!(matches!(value("1.5"), Json::Float(_)));
    assert_eq!(value("7").as_u64(), Some(7));
    assert_eq!(value(r#"{"k":1,"k":2}"#).u64_at("k"), Some(2));
}

#[test]
fn fractions_are_rounded_to_whole_numbers() {
    assert_eq!(value("2.5").as_whole(), Some(3));
    assert_eq!(value("2.4").as_whole(), Some(2));
    assert_eq!(value("-3").as_whole(), Some(0));
    assert_eq!(value("-0.7").as_whole(), Some(0));
    assert_eq!(value("30").as_whole(), Some(30));
    assert_eq!(value("\"x\"").as_whole(), None);
    assert_eq!(round_double(1.0f64.to_bits()), 1);
    assert_eq!(round_double(1e30f64.to_bits()), u64::MAX);
}

#[test]
fn sorting_keeps_equals_in_place() {
    let names = vec!["b".to_string(), "a".to_string(), "é".to_string(), "Z".to_string()];
    assert_eq!(sort(names), vec!["Z", "a", "b", "é"]);
    assert!(less("a", "ab"));
    assert!(!less("b", "ab"));
}

// Paths

#[test]
fn paths_are_compared_by_component() {
    assert_eq!(components("/a//b/./c"), vec!["/", "a", "b", "c"]);
    assert_eq!(components("./a"), vec![".", "a"]);
    assert_eq!(join_path("/w", "a"), "/w/a");
    assert_eq!(join_path("/w/", "a"), "/w/a");
    assert_eq!(join_path("/w", "/etc"), "/etc");
    assert!(under("/w", "/w/a"));
    assert!(under("/w/", "/w"));
    assert!(!under("/w", "/ww/a"));
    for (root, p) in [("/w", "/w/a"), ("/w", "/ww"), ("w", "./w"), ("/w/./x", "/w/x/y")] {
        assert_eq!(
            under(root, p),
            std::path::Path::new(p).starts_with(std::path::Path::new(root)),
            "{root} {p}"
        );
    }
}

#[test]
fn tools_stay_in_the_workspace() {
    assert_eq!(resolve_path("a", "/w", "/w/a").unwrap(), "/w/a");
    assert_eq!(resolve_path("/w/a", "/real", "/real/a").unwrap(), "/real/a");
    assert_eq!(resolve_path("/etc/x", "/w", "/etc/x").unwrap_err(), "Access denied: /etc/x");
    for seen in ["/secret.txt", "/w/../secret.txt", "/w/a/../../secret.txt", "/w/.."] {
        assert_eq!(
            resolve_path("../secret.txt", "/w", seen).unwrap_err(),
            "Access denied: ../secret.txt"
        );
        assert!(!under("/w", seen));
    }
    assert!(under("/w", "/w/..a/b"));
    assert_eq!(workspace_file("/w", "/w/a").unwrap(), "/w/a");
    assert_eq!(workspace_file("/w", "/etc/x").unwrap_err(), "Access denied.");
    assert_eq!(workspace_file("/w", "/w/../x").unwrap_err(), "Access denied.");
}

// Sessions

fn meta(id: &str, updated: &str) -> SessionMeta {
    SessionMeta {
        id: id.to_string(),
        title: "t".to_string(),
        created_at: "2026-01-01".to_string(),
        updated_at: updated.to_string(),
        message_count: 0,
        workspace: "/w".to_string(),
    }
}

#[test]
fn sessions_are_listed_newest_first() {
    let ix = SessionIndex { sessions: vec![meta("a", "1"), meta("b", "3"), meta("c", "2")] };
    let ids: Vec<String> = SessionManager::list(Some(ix)).into_iter().map(|m| m.id).collect();
    assert_eq!(ids, vec!["b", "c", "a"]);
    assert!(SessionManager::list(None).is_empty());
    let m = SessionManager::new("/w");
    assert_eq!(m.session_path("x"), "/w/.deepseek-code/sessions/x.json");
    assert_eq!(m.index_path(), "/w/.deepseek-code/sessions/index.json");
}

#[test]
fn saving_keeps_the_date_of_birth_and_one_entry() {
    let s = current_session("a".to_string(), "T".to_string(), "now", "/w".to_string(), vec![], None);
    let old = current_session("a".to_string(), "T".to_string(), "then", "/w".to_string(), vec![], None);
    let ix = SessionIndex { sessions: vec![meta("a", "1"), meta("b", "2")] };
    let (stored, ix) = SessionManager::save(&s, &Some(old), Some(ix));
    assert_eq!(stored.meta.created_at, "then");
    assert_eq!(stored.meta.updated_at, "now");
    assert_eq!(ix.sessions.iter().filter(|m| m.id == "a").count(), 1);
    assert_eq!(ix.sessions.len(), 2);
    let at = SessionManager::latest_for(&ix.sessions, "/w");
    assert_eq!(at, Some(0));
    assert_eq!(SessionManager::latest_for(&ix.sessions, "/x"), None);
    let ix = SessionManager::delete("a", Some(ix));
    assert_eq!(ix.sessions.len(), 1);
    let (fresh, _) = SessionManager::save(&Session { meta: meta("n", "5"), messages: vec![], goal: None }, &None, None);
    assert_eq!(fresh.meta.created_at, "2026-01-01");
}

#[test]
fn titles_are_short_and_on_one_line() {
    assert_eq!(SessionManager::generate_title("  a\nb "), "a b");
    let long = "x".repeat(60);
    assert_eq!(SessionManager::generate_title(&long), format!("{}...", "x".repeat(47)));
    let fifty = "y".repeat(50);
    assert_eq!(SessionManager::generate_title(&fifty), fifty);
}

#[test]
fn states_of_goals_and_steps_have_names() {
    assert_eq!(GoalStatus::BudgetLimited.as_str(), "budget_limited");
    assert!(GoalStatus::Complete.is_terminal());
    assert!(!GoalStatus::Blocked.is_terminal());
    for s in [StepStatus::Pending, StepStatus::InProgress, StepStatus::Completed, StepStatus::Cancelled, StepStatus::Blocked] {
        assert_eq!(parse_step_status(s.as_str()).unwrap(), s);
    }
    assert!(parse_step_status("nope").is_err());
}

// History

#[test]
fn a_snapshot_restores_what_was_said() {
    let mut trigger = said(Role::User, "go on");
    trigger.internal = true;
    let ms = vec![
        said(Role::User, "hi"),
        Message {
            role: Role::Assistant,
            content: Content::Blocks(vec![
                ContentBlock::Thinking { thinking: "t".to_string(), signature: None },
                ContentBlock::Text { text: "hello".to_string() },
            ]),
            timestamp: 2,
            internal: false,
        },
        trigger,
    ];
    let stored = snapshot_of(&ms);
    assert_eq!(stored.len(), 2);
    let back = restore_messages(&stored);
    assert_eq!(back.len(), 2);
    assert_eq!(format!("{:?}", back[1]), format!("{:?}", ms[1]));
    let mut a = AgentLoop::new(MODEL_FLASH.to_string(), "/w".to_string());
    assert!(a.restore_session(&stored).is_ok());
    assert_eq!(a.snapshot_messages().len(), 2);
}

#[test]
fn a_history_is_cut_between_turns() {
    let mut ms = Vec::new();
    for i in 0..20 {
        ms.push(said(if i % 2 == 0 { Role::User } else { Role::Assistant }, "12345678"));
    }
    assert_eq!(estimate_message_tokens(&ms[0]), 2);
    assert_eq!(estimate_history(&ms), 40);
    let cut = compaction_cut(&ms);
    assert!(cut <= ms.len());
    let kept = ms.split_off(cut);
    let n = kept.len();
    let rebuilt = rebuild_history(kept, "SUMMARY", 7);
    assert!(rebuilt.len() > n);
    assert!(format!("{:?}", rebuilt[0]).contains("SUMMARY"));
}

// Goals

fn answer(block: &ContentBlock) -> String {
    match block {
        ContentBlock::ToolResult { content, .. } => content.clone(),
        other => panic!("expected a result, got {:?}", other),
    }
}

#[test]
fn the_model_manages_its_goal() {
    let mut goal = None;
    let mut auto: u32 = 3;
    assert!(is_goal_tool("set_goal"));
    assert!(!is_goal_tool("read_file"));
    let out = handle_goal_tool("get_goal", &value("{}"), "c0", &mut goal, &mut auto, 4);
    assert_eq!(answer(&out.block), "Error: No active goal — call set_goal first.");
    let out = handle_goal_tool("set_goal", &value("{}"), "c0", &mut goal, &mut auto, 4);
    assert_eq!(answer(&out.block), "Error: Missing objective");
    assert_eq!(auto, 3);
    let out = handle_goal_tool(
        "set_goal",
        &value(r#"{"objective":"ship","token_budget":9}"#),
        "c1",
        &mut goal,
        &mut auto,
        5,
    );
    assert!(out.changed);
    assert_eq!(auto, 0);
    assert_eq!(answer(&out.block), "Goal set: ship");
    assert!(matches!(&out.block, ContentBlock::ToolResult { tool_use_id, .. } if tool_use_id == "c1"));
    assert!(matches!(&out.event, AgentStreamEvent::ToolDone { id, .. } if id == "c1"));
    assert_eq!(goal.as_ref().unwrap().token_budget, Some(9));
    assert_eq!(goal.as_ref().unwrap().id.len(), 36);
    // A goal that is not over is not replaced.
    let out = handle_goal_tool("set_goal", &value(r#"{"objective":"other"}"#), "c2", &mut goal, &mut auto, 6);
    assert!(!out.changed);
    assert!(answer(&out.block).contains("status=active"));
    assert_eq!(goal.as_ref().unwrap().objective, "ship");
    let out = handle_goal_tool(
        "update_plan",
        &value(r#"{"plan":[{"content":"a","status":"in_progress"}],"explanation":"why"}"#),
        "c3",
        &mut goal,
        &mut auto,
        7,
    );
    assert!(out.changed);
    assert!(answer(&out.block).ends_with(" (why)"));
    assert_eq!(goal.as_ref().unwrap().plan.len(), 1);
    let out = handle_goal_tool("update_plan", &value("{}"), "c4", &mut goal, &mut auto, 8);
    assert_eq!(answer(&out.block), "Error: Missing plan array");
    let out = handle_goal_tool("get_goal", &value("{}"), "c5", &mut goal, &mut auto, 8);
    let told = answer(&out.block);
    assert!(told.starts_with("{\n  \"consecutive_blocked_turns\": 0,\n  \"created_at\": 5,\n"), "got {told}");
    let told = value(&told);
    assert_eq!(told.string_at("objective"), "ship");
    assert_eq!(told.u64_at("token_budget"), Some(9));
    let plan = told.value_at("plan");
    assert_eq!(plan.as_array().unwrap()[0].string_at("status"), "in_progress");
    assert!(matches!(plan.as_array().unwrap()[0].get("completed_at"), Some(Json::Null)));
}

#[test]
fn a_plan_may_come_as_text() {
    let mut goal = None;
    let mut auto: u32 = 0;
    handle_goal_tool("set_goal", &value(r#"{"objective":"ship"}"#), "c", &mut goal, &mut auto, 5);
    let args = value(r#"{"plan":"[{\"content\":\"Fix bug\",\"status\":\"in_progress\"}]"}"#);
    let out = handle_goal_tool("update_plan", &args, "c", &mut goal, &mut auto, 6);
    assert_eq!(answer(&out.block), "Plan updated: 1 steps");
    let plan = &goal.as_ref().unwrap().plan;
    assert_eq!((plan.len(), plan[0].content.as_str()), (1, "Fix bug"));
    assert_eq!(plan[0].status, StepStatus::InProgress);
    for plan in [r#""no list""#, r#""{}""#, "7"] {
        let args = value(&format!("{{\"plan\":{plan}}}"));
        let out = handle_goal_tool("update_plan", &args, "c", &mut goal, &mut auto, 7);
        assert_eq!(answer(&out.block), "Error: Missing plan array");
        assert!(!out.changed);
    }
}

#[test]
fn the_model_ends_or_blocks_its_goal() {
    let mut goal = None;
    let mut auto: u32 = 0;
    handle_goal_tool("set_goal", &value(r#"{"objective":"ship"}"#), "c", &mut goal, &mut auto, 5);
    handle_goal_tool(
        "update_plan",
        &value(r#"{"plan":[{"content":"a","status":"in_progress"}]}"#),
        "c",
        &mut goal,
        &mut auto,
        6,
    );
    let mut other = goal.clone();
    let out = handle_goal_tool("update_goal", &value(r#"{"status":"blocked"}"#), "c", &mut goal, &mut auto, 7);
    assert_eq!(answer(&out.block), "Goal status: blocked");
    let g = goal.as_ref().unwrap();
    assert_eq!(g.consecutive_blocked_turns, 1);
    assert_eq!(g.plan[0].status, StepStatus::Blocked);
    assert!(g.plan[0].blocked_reason.is_some());
    handle_goal_tool("update_goal", &value(r#"{"status":"complete"}"#), "c", &mut other, &mut auto, 8);
    let g = other.as_ref().unwrap();
    assert_eq!(g.status, GoalStatus::Complete);
    assert_eq!(g.plan[0].completed_at, Some(8));
    let out = handle_goal_tool("update_goal", &value(r#"{"status":"x"}"#), "c", &mut goal, &mut auto, 9);
    assert_eq!(
        answer(&out.block),
        "Error: Invalid status: x (use \"complete\" or \"blocked\")"
    );
    // What is over may be replaced.
    let out = handle_goal_tool("set_goal", &value(r#"{"objective":"next"}"#), "c", &mut other, &mut auto, 9);
    assert!(out.changed);
}

// Tools

#[test]
fn tool_calls_are_planned_or_refused() {
    assert!(matches!(plan_tool("read_file", &value(r#"{"path":"a"}"#)), Ok(ToolPlan::ReadFile { path }) if path == "a"));
    assert_eq!(plan_tool("read_file", &value("{}")).unwrap_err(), "Missing path");
    assert_eq!(plan_tool("write_file", &value(r#"{"path":"a"}"#)).unwrap_err(), "Missing content");
    assert!(matches!(plan_tool("edit_file", &value(r#"{"path":"a","old_string":"x","new_string":"y"}"#)), Ok(ToolPlan::EditFile { .. })));
    assert!(matches!(plan_tool("run_shell", &value(r#"{"command":"ls"}"#)), Ok(ToolPlan::RunShell { .. })));
    assert!(matches!(plan_tool("list_directory", &value("{}")), Ok(ToolPlan::ListDirectory { path: None })));
    assert_eq!(
        plan_tool("web_fetch", &value(r#"{"url":"ftp://x"}"#)).unwrap_err(),
        "URL must start with http:// or https://"
    );
    assert!(matches!(plan_tool("todo_write", &value(r#"{"tasks_json":"[1]"}"#)), Ok(ToolPlan::Answer { content }) if content == "Tasks updated: [1]"));
    assert!(plan_tool("todo_write", &value(r#"{"tasks_json":"["}"#)).unwrap_err().starts_with("Invalid JSON: "));
    assert_eq!(plan_tool("fly", &value("{}")).unwrap_err(), "Unknown tool: fly");
    assert_eq!(get_tool_definitions_json().len(), 14);
    let r = tool_result("id", Err("bad".to_string()));
    assert!(!r.success && r.content.contains("bad") && r.tool_call_id == "id");
}

#[test]
fn an_edit_changes_one_place() {
    assert_eq!(edit_text("a b a", "a", "c").unwrap(), "c b a");
    assert_eq!(edit_text("abc", "x", "y").unwrap_err(), "old_string not found");
    assert_eq!(edit_text("abc", "", "y").unwrap(), "yabc");
}

#[test]
fn outputs_are_shaped_for_the_model() {
    assert!(file_size_complaint(2_097_152, "2.0").is_none());
    assert_eq!(
        file_size_complaint(2_097_153, "2.0").unwrap(),
        "File too large (2.0 MB, max 2 MB). Use run_shell to inspect it in parts."
    );
    assert_eq!(search_output(""), "No matches found.");
    let many = (0..150).map(|i| i.to_string()).collect::<Vec<_>>().join("\n");
    assert_eq!(search_output(&many).lines().count(), 100);
    assert_eq!(listing_output(vec![listing_line(false, "b"), listing_line(true, "a")]), "D a\nF b");
    assert_eq!(memory_output(&vec!["a.md".to_string(), "x.txt".to_string()]), "a");
    assert_eq!(memory_output(&vec![]), "No memories.");
    let s = shell_output("out", "err", "exit status: 1", "0.5");
    assert!(s.contains("out") && s.contains("err"), "got {s}");
    assert!(!is_long_output("short"));
    assert!(long_output_path("web_fetch", "id9").contains("id9"));
    assert!(long_output_text(&"z".repeat(20_000), "f.txt", "19.5").contains("f.txt"));
    assert!(!summarize_tool_result("read_file", "a\nb").is_empty());
}

#[test]
fn pages_are_decoded_by_their_charset() {
    assert_eq!(charset_of_header("text/html; charset=gbk").as_deref(), Some("gbk"));
    assert!(charset_of_header("text/html").is_none());
    assert_eq!(sniff_meta_charset(b"<meta charset=\"GB2312\">").as_deref(), Some("gb2312"));
    assert_eq!(sniff_meta_charset(b"<meta charset=utf-8>").as_deref(), Some("utf-8"));
    assert!(sniff_meta_charset(b"<p>none</p>").is_none());
    let (bytes, _, _) = encoding_rs::GBK.encode("中文");
    assert_eq!(decode_page(&Some("text/html; charset=gbk".to_string()), &bytes), "中文");
    assert_eq!(decode_page(&None, "中文".as_bytes()), "中文");
    assert_eq!(decode_page(&Some("text/html; charset=nonsense".to_string()), b"a"), "a");
}

#[test]
fn markup_is_taken_out() {
    assert_eq!(strip_html("<p> a &amp; b </p>\n\n<b>c</b>"), "a & b\nc");
    let text = fetch_output(&None, b"<p>hi</p>", "http://x");
    assert_eq!(text, "hi");
}

#[test]
fn the_age_of_a_page_is_hinted_at() {
    let now = 1_800_000_000_000i64;
    assert_eq!(
        sniff_content_time_at("posted 21 minutes ago", "u", now).as_deref(),
        Some("relative_time=21 minute ago (content)")
    );
    assert_eq!(
        sniff_content_time_at("3天前", "u", now).as_deref(),
        Some("relative_time=3 天前 (content)")
    );
    let hint = sniff_content_time_at("x", "http://a?r=1504921726666", now).unwrap();
    assert!(hint.starts_with("cache_param=1504921726666 (page ~9 years"), "got {hint}");
    assert!(sniff_content_time("nothing", "http://a").is_none());
    let text = fetch_output_at("<p>5 hours ago</p>", "u", now);
    assert_eq!(text, "5 hours ago\n[content_time_hint=relative_time=5 hour ago (content)]");
}

// Turns

#[test]
fn a_turn_with_a_tool_is_answered_in_order() {
    let mut a = AgentLoop::new(MODEL_FLASH.to_string(), "/w".to_string());
    let (mut progress, start) = a.begin_turn("do it", &None, false, 10, "NOW".to_string());
    assert!(matches!(start, AgentStreamEvent::TurnStart { .. }));
    assert!(!a.needs_compaction());
    assert!(a.may_call(&progress).is_ok());
    let calls = vec![call("c1", "read_file", r#"{"path":"a"}"#), call("c2", "run_shell", "{}")];
    let r = response("", Some(calls.clone()));
    let (step, _) = a.absorb_response(&mut progress, &r, false, 1, 11);
    assert!(matches!(step, TurnStep::RunTools));
    a.push_tool_results(&calls, &vec![("c2".to_string(), "two".to_string()), ("c1".to_string(), "one".to_string())], 12);
    let last = &a.state.messages[a.state.messages.len() - 1];
    match &last.content {
        Content::Blocks(b) => {
            assert!(matches!(&b[0], ContentBlock::ToolResult { tool_use_id, content } if tool_use_id == "c1" && content == "one"));
            assert!(matches!(&b[1], ContentBlock::ToolResult { tool_use_id, content } if tool_use_id == "c2" && content == "two"));
        }
        _ => panic!("expected blocks"),
    }
    let done = response("finished", None);
    let (step, events) = a.absorb_response(&mut progress, &done, false, 1, 13);
    assert!(matches!(step, TurnStep::Finished));
    assert!(events.iter().any(|e| matches!(e, AgentStreamEvent::Text { content } if content == "finished")));
    let (result, end) = a.finish_turn(&done);
    assert_eq!(result.message, "finished");
    assert_eq!(result.token_usage.input, 200);
    assert_eq!(result.token_usage.output, 40);
    assert_eq!(result.token_usage.cached, 100);
    assert!(result.tool_calls.is_none());
    assert!(matches!(end, AgentStreamEvent::TurnEnd { .. }));
    a.cancel();
    assert!(a.may_call(&progress).is_err());
}

#[test]
fn tool_reports_are_summaries_and_stamps() {
    assert_eq!(call_args(&call("c", "t", "{\"a\":1}")).u64_at("a"), Some(1));
    let (content, events) = report_tool_result("c1", "run_shell", &value("{}"), true, "done", true, "NOW");
    assert!(content.contains("NOW") && content.ends_with("done"), "got {content}");
    assert!(matches!(&events[0], AgentStreamEvent::ToolDone { id, .. } if id == "c1"));
    let (_, events) = report_tool_result("c1", "run_shell", &value("{}"), false, "no", false, "NOW");
    assert!(matches!(&events[0], AgentStreamEvent::ToolError { error, .. } if error.contains("no")));
    assert!(tracks_diff("write_file") && tracks_diff("edit_file") && !tracks_diff("read_file"));
    assert!(diff_event("p", "a", "a").is_none());
    assert!(matches!(diff_event("p", "a", "b"), Some(AgentStreamEvent::DiffCreated { .. })));
    assert_eq!(estimate_text_tokens("12345678"), 2);
}

#[test]
fn streamed_pieces_are_all_shown() {
    let mut p = StreamPump::new();
    assert!(p.flush().is_empty());
    for t in ["a", "b"] {
        p.take(&ApiStreamEvent::TextDelta { text: t.to_string() });
        p.take(&ApiStreamEvent::ThinkingDelta { text: t.to_uppercase() });
    }
    let events = p.flush();
    assert!(events.iter().any(|e| matches!(e, AgentStreamEvent::Text { content } if content == "ab")));
    assert!(events.iter().any(|e| matches!(e, AgentStreamEvent::Thinking { text } if text == "AB")));
    assert!(p.flush().is_empty());
    assert!(p.streamed);
    assert!(matches!(after_stream(Ok(response("x", None)), true), ChatStep::Deliver { .. }));
    assert!(matches!(after_stream(Err("e".to_string()), false), ChatStep::CallUnstreamed));
    assert!(matches!(after_stream(Err("e".to_string()), true), ChatStep::Fail { error } if error == "e"));
}

// What the user interface decides

#[test]
fn a_question_does_not_replace_the_deliverable() {
    let mut a = AgentLoop::new(MODEL_FLASH.to_string(), "/w".to_string());
    let mut b = Burst::new(result("started"));
    a.set_goal_mode(false);
    assert_eq!(b.before_turn(&a).as_deref(), Some("goal_mode_off"));
    assert!(!b.tells_end());
    a.set_goal_mode(true);
    assert_eq!(b.before_turn(&a).as_deref(), Some("no_goal"));
    a.set_goal_max_auto_turns(5);
    a.set_goal("ship", None, 1).unwrap();
    assert!(b.before_turn(&a).is_none());
    assert!(b.start_turn(false).is_none());
    b.turn_done(&mut a, result("the report"));
    assert!(b.before_turn(&a).is_none());
    assert!(b.start_turn(false).is_none());
    b.turn_done(&mut a, result("Which one?"));
    assert_eq!(b.before_turn(&a).as_deref(), Some("needs_input"));
    assert_eq!(b.result.message, "the report");
    assert!(b.tells_end());
    assert_eq!(b.start_turn(true).as_deref(), Some("cancelled"));
    assert_eq!(b.turn_failed(true), "cancelled");
    assert_eq!(b.turn_failed(false), "error");
    a.set_goal_paused(true, 3).unwrap();
    assert_eq!(b.before_turn(&a).as_deref(), Some("goal_paused"));
}

#[test]
fn the_first_turn_may_ask_and_an_empty_one_stalls() {
    let mut a = AgentLoop::new(MODEL_FLASH.to_string(), "/w".to_string());
    a.set_goal_mode(true);
    a.set_goal_max_auto_turns(1);
    a.set_goal("ship", None, 1).unwrap();
    let mut b = Burst::new(result("Ready?"));
    assert!(b.before_turn(&a).is_none());
    let mut b = Burst::new(result("  "));
    assert_eq!(b.before_turn(&a).as_deref(), Some("stalled"));
    let mut b = Burst::new(result("x"));
    b.start_turn(false);
    b.turn_done(&mut a, result("y"));
    assert_eq!(b.before_turn(&a).as_deref(), Some("max_turns"));
}

#[test]
fn models_and_workspaces_have_defaults() {
    assert_eq!(choose_model(None), MODEL_FLASH);
    assert_eq!(choose_model(Some(MODEL_PRO.to_string())), MODEL_PRO);
    assert_eq!(choose_model(Some("gpt".to_string())), MODEL_FLASH);
    assert_eq!(choose_workspace(None, "/home/u"), "/home/u/DeepSeekCodeWorkspace");
    assert_eq!(choose_workspace(Some(String::new()), "/home/u"), "/home/u/DeepSeekCodeWorkspace");
    assert_eq!(choose_workspace(Some("/w".to_string()), "/home/u"), "/w");
}

#[test]
fn a_runtime_is_started_as_asked() {
    let c = choose_harness("k", &Some("think-max".to_string()), None, None, None).unwrap();
    assert_eq!((c.mode.as_str(), c.sandbox.as_str(), c.effort.as_str(), c.session_id.as_str()), ("standard", "workspace-write", "max", "main"));
    assert_eq!(choose_harness("", &None, None, None, None).unwrap_err(), "no DeepSeek API key configured");
    assert_eq!(
        choose_harness("k", &None, None, Some("x".to_string()), None).unwrap_err(),
        "unknown harness mode: x"
    );
    assert_eq!(
        choose_harness("k", &None, None, Some("x".to_string()), Some("y".to_string())).unwrap_err(),
        "unknown sandbox mode: y"
    );
    assert_eq!(choose_effort(&Some("non-think".to_string())), "off");
    assert_eq!(choose_effort(&None), "high");
    let places = |named: Option<&str>, resources: Option<&str>, local: Option<&str>| RuntimePlaces {
        named: named.map(str::to_string),
        resources: resources.map(str::to_string),
        local: local.map(str::to_string),
    };
    let config = |p: RuntimePlaces, persona: &str, tal: &str| {
        harness_config(&c, p, None, "/cfg", "/data", "k".to_string(), "/w".to_string(), persona, tal)
    };
    let cfg = config(places(None, None, None), "P", "T");
    assert_eq!(cfg.session_root, "/data/harness-sessions");
    assert_eq!(cfg.bin, "/tmp/dsh-harness-upstream/packages/examples/jsonrpc-demo/src/bin.ts");
    assert_eq!(cfg.cordis, "/cfg/cordis.yml");
    assert_eq!(cfg.node_args, vec!["--import", "tsx"]);
    assert_eq!(cfg.system_prompt, "P\n\nT");
    let env = cfg.environment();
    assert_eq!(env[0], ("DEEPSEEK_API_KEY".to_string(), "k".to_string()));
    assert_eq!(env[3], ("DSH_REASONING_EFFORT".to_string(), "max".to_string()));
    assert_eq!(cfg.initialize_params().max_tokens, Some(4096));
    assert_eq!(config(places(Some(""), None, None), "", "").cwd, "/tmp/dsh-harness-upstream");
    assert_eq!(config(places(None, None, Some("/repo/rt")), "", "").cwd, "/repo/rt");
    let cfg = config(places(None, Some("/app"), Some("/repo/rt")), "", "");
    assert_eq!(cfg.cwd, "/app/_up_/harness-runtime");
    let cfg = config(places(Some("/rt"), Some("/app"), None), "", "");
    assert_eq!(cfg.cwd, "/rt");
    assert!(cfg.node_args.is_empty());
}

#[test]
fn the_runtime_is_told_what_was_said_before() {
    assert_eq!(harness_message(&None, "hi"), "hi");
    assert_eq!(harness_message(&Some(String::new()), "hi"), "hi");
    assert_eq!(
        harness_message(&Some("user: 42".to_string()), "hi"),
        "## 之前的对话\n\nuser: 42\n\nhi"
    );
}

#[test]
fn files_are_listed_directories_first() {
    let e = |name: &str, is_dir: bool| FileEntry { name: name.to_string(), is_dir };
    let files = list_files(&vec![e("b", false), e("target", true), e("z", true), e(".git", true), e("a", false), e("c", true)]);
    let names: Vec<&str> = files.iter().map(|f| f.name.as_str()).collect();
    assert_eq!(names, vec!["c", "z", "a", "b"]);
}

// The command line

#[test]
fn arguments_are_read() {
    let args: Vec<String> =
        ["do it", "--model", "m", "again", "--effort"].iter().map(|s| s.to_string()).collect();
    let o = read_args(&args);
    let r = run_options(&o).unwrap();
    assert_eq!(r.prompt, "do it");
    assert_eq!(r.model, "m");
    assert_eq!(r.effort, "");
    assert_eq!(r.workspace, "/tmp");
    assert_eq!(r.session, "main");
    assert!(run_options(&read_args(&vec![])).is_none());
    let (bin, cordis, args, cwd) = run_launch(None, "/repo");
    assert_eq!(bin, "/repo/packages/examples/jsonrpc-demo/src/bin.ts");
    assert_eq!(cordis, "/repo/examples/whale-run/cordis.yml");
    assert_eq!(args.len(), 2);
    assert_eq!(cwd, "/repo");
}

#[test]
fn the_key_comes_from_the_first_source() {
    let s = |t: &str| Some(t.to_string());
    assert_eq!(read_key(s("a"), s("b"), None), "a");
    assert_eq!(read_key(s(""), s("b"), None), "b");
    assert_eq!(read_key(None, None, s(r#"{"api_key":"c"}"#)), "c");
    assert_eq!(read_key(None, None, s("junk")), "");
    assert_eq!(display(&value("3")), "3");
    assert_eq!(display(&value("\"t\"")), "t");
    assert_eq!(display(&value("null")), "");
    assert_eq!(display(&value("[1]")), "[1]");
}

#[test]
fn frames_are_printed() {
    let f = |event: &str| {
        parse_line(&format!(
            r#"{{"jsonrpc":"2.0","method":"session.event","params":{{"event":{event}}}}}"#
        ))
        .unwrap()
    };
    let (p, last) = render_frame(&f(r#"{"type":"assistant/chunk","data":{"chunk":{"type":"text-delta","text":"a"}}}"#));
    assert!(matches!(p, Some(Printed::Answer { text }) if text == "a"));
    assert!(!last);
    let (p, _) = render_frame(&f(r#"{"type":"assistant/chunk","data":{"chunk":{"type":"reasoning-delta","text":"a"}}}"#));
    assert!(matches!(p, Some(Printed::Aside { text }) if text == "\u{1b}[90ma\u{1b}[0m"));
    let (p, _) = render_frame(&f(r#"{"type":"assistant/chunk","data":{"chunk":{"type":"usage","usage":{"inputTokens":1}}}}"#));
    assert!(matches!(p, Some(Printed::Aside { text }) if text == "\n[usage] in=1 out= cache= reasoning=\n"));
    let (p, last) = render_frame(&f(r#"{"type":"turn/end","data":{"reason":"done"}}"#));
    assert!(matches!(p, Some(Printed::Aside { text }) if text == "\n[turn/end] done\n"));
    assert!(last);
    let (p, last) = render_frame(&parse_line(r#"{"jsonrpc":"2.0","id":1,"error":"e"}"#).unwrap());
    assert!(matches!(p, Some(Printed::Aside { text }) if text == "\n[rpc error] id=1 \"e\"\n"));
    assert!(last);
}
