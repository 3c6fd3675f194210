use deepseek_code::events::AgentStreamEvent;
use deepseek_code::harness::{parse_line, HarnessFrame};
use deepseek_code::harness_backend::{
    join_texts, text_of, trajectory_summary, translate_harness_event, HarnessTurn,
};
use deepseek_code::json::{parse_json, Json};
use deepseek_code::table::TextTable;

fn value(text: &str) -> Json {
    parse_json(text).unwrap()
}

fn event_frame(session: &str, event: &str) -> HarnessFrame {
    let line = format!(
        r#"{{"jsonrpc":"2.0","method":"session.event","params":{{"sessionId":"{session}","event":{event}}}}}"#
    );
    parse_line(&line).unwrap()
}

#[test]
fn translates_tool_call_and_result_with_name_pairing() {
    let mut names = TextTable::new();
    let call = value(r#"{"type":"tool/call","data":{"callId":"c1","name":"bash","arguments":"{\"command\":\"ls\"}"}}"#);
    let ev = translate_harness_event(&call, "max", &mut names).unwrap();
    match ev {
        AgentStreamEvent::ToolStart { id, name, args } => {
            assert_eq!(id, "c1");
            assert_eq!(name, "bash");
            assert!(args.contains("ls"));
        }
        _ => panic!("expected ToolStart"),
    }

    let result = value(
        r#"{"type":"tool/result","data":{"message":{"content":[
            {"type":"tool-result","toolCallId":"c1","isError":false,"content":[
                {"type":"text","text":"[data_time=...]\n"},{"type":"text","text":"ok\n"}]}
        ]}}}"#,
    );
    let ev = translate_harness_event(&result, "max", &mut names).unwrap();
    match ev {
        AgentStreamEvent::ToolDone { id, name, summary } => {
            assert_eq!(id, "c1");
            assert_eq!(name, "bash");
            assert!(summary.contains("ok"));
        }
        _ => panic!("expected ToolDone"),
    }
}

#[test]
fn translates_reasoning_and_text_deltas() {
    let mut names = TextTable::new();
    let reasoning = value(r#"{"type":"assistant/chunk","data":{"chunk":{"type":"reasoning-delta","text":"think"}}}"#);
    assert!(matches!(
        translate_harness_event(&reasoning, "high", &mut names),
        Some(AgentStreamEvent::Thinking { .. })
    ));
    let text = value(r#"{"type":"assistant/chunk","data":{"chunk":{"type":"text-delta","text":"hi"}}}"#);
    match translate_harness_event(&text, "high", &mut names) {
        Some(AgentStreamEvent::Text { content }) => assert_eq!(content, "hi"),
        _ => panic!("expected Text"),
    }
}

#[test]
fn a_failed_tool_is_an_error_under_its_name() {
    let mut names = TextTable::new();
    names.insert("c1", "old");
    names.insert("c1", "bash");
    let result = value(
        r#"{"type":"tool/result","data":{"message":{"content":[
            {"toolCallId":"c1","isError":true,"content":[{"type":"text","text":"no"}]}]}}}"#,
    );
    assert!(matches!(
        translate_harness_event(&result, "x", &mut names),
        Some(AgentStreamEvent::ToolError { id, name, error }) if id == "c1" && name == "bash" && error == "no"
    ));
    let empty = value(r#"{"type":"tool/result","data":{}}"#);
    assert!(matches!(
        translate_harness_event(&empty, "x", &mut names),
        Some(AgentStreamEvent::ToolDone { id, name, .. }) if id.is_empty() && name.is_empty()
    ));
    assert!(translate_harness_event(&value(r#"{"type":"turn/end"}"#), "x", &mut names).is_none());
    assert!(translate_harness_event(&value("{}"), "x", &mut names).is_none());
}

#[test]
fn texts_are_joined_and_cut() {
    assert_eq!(join_texts(&value(r#"["a",1,"b"]"#)).as_deref(), Some("ab"));
    assert!(join_texts(&value("[]")).is_none());
    assert!(join_texts(&value("{}")).is_none());
    assert_eq!(text_of(&value(r#"[{"type":"text","text":"a"},{"type":"x","text":"b"}]"#)), "a");
    let long = format!(
        r#"{{"type":"user/message","data":{{"content":[{{"type":"text","text":" {} "}}]}}}}"#,
        "é".repeat(141)
    );
    assert_eq!(trajectory_summary(&value(&long)), format!("{}…", "é".repeat(140)));
    assert_eq!(
        trajectory_summary(&value(r#"{"type":"tool/call","data":{"name":"ls","arguments":"-l"}}"#)),
        "ls -l"
    );
    assert_eq!(trajectory_summary(&value(r#"{"type":"tool/result"}"#)), "→ tool result");
    assert_eq!(
        trajectory_summary(&value(r#"{"type":"session/title","data":{"title":"T"}}"#)),
        "title: T"
    );
    assert_eq!(trajectory_summary(&value(r#"{"type":"time-context"}"#)), "clock injected");
    assert_eq!(trajectory_summary(&value("{}")), "?");
    assert_eq!(trajectory_summary(&value(r#"{"type":"other"}"#)), "other");
}

#[test]
fn a_turn_gathers_text_and_usage() {
    let mut t = HarnessTurn::new("s1", "high");
    let frames = [
        event_frame("s1", r#"{"type":"turn/start"}"#),
        event_frame("s1", r#"{"type":"assistant/chunk","data":{"chunk":{"type":"reasoning-delta","text":"hm"}}}"#),
        event_frame("s1", r#"{"type":"assistant/chunk","data":{"chunk":{"type":"text-delta","text":"Hel"}}}"#),
        event_frame("s1", r#"{"type":"text-chunks","data":{"texts":["lo"]}}"#),
        event_frame("s1", r#"{"type":"assistant/chunk","data":{"chunk":{"type":"usage","usage":{"inputTokens":10,"outputTokens":4,"cacheReadTokens":6,"reasoningTokens":1}}}}"#),
        event_frame("s1", r#"{"type":"assistant/message","data":{"message":{"content":[{"type":"text","text":"other"}]}}}"#),
        event_frame("s2", r#"{"type":"assistant/chunk","data":{"chunk":{"type":"text-delta","text":"foreign"}}}"#),
    ];
    let mut shown = 0;
    for f in &frames {
        assert!(t.fits(f));
        shown += t.on_frame(f).unwrap().len();
    }
    // turn/start: trajectory and start; three pieces; nothing for the usage; one line
    // for the message; nothing for the other session.
    assert_eq!(shown, 6);
    assert!(!t.done);
    let end = event_frame("s1", r#"{"type":"turn/end","data":{"reason":{"kind":"max_steps"}}}"#);
    t.on_frame(&end).unwrap();
    assert!(t.done);
    let (result, event) = t.finish();
    assert_eq!(result.message, "Hello");
    assert_eq!(result.thinking_content, "hm");
    assert_eq!(result.finish_reason, "max_steps");
    assert_eq!(result.token_usage.input, 10);
    assert_eq!(result.token_usage.output, 4);
    assert_eq!(result.token_usage.cached, 6);
    assert_eq!(result.token_usage.thinking_tokens, 1);
    assert!(matches!(event, AgentStreamEvent::TurnEnd { context_usage: 0, .. }));
}

#[test]
fn a_whole_message_counts_where_nothing_was_streamed() {
    let mut t = HarnessTurn::new("s1", "high");
    let f = event_frame("s1", r#"{"type":"assistant/message","data":{"message":{"content":[
        {"type":"text","text":""},{"type":"reasoning","text":"r"},{"type":"text","text":"a"},{"type":"text","text":"b"}]}}}"#);
    t.on_frame(&f).unwrap();
    t.close();
    assert!(t.done);
    let (result, _) = t.finish();
    assert_eq!(result.message, "a");
    assert_eq!(result.thinking_content, "r");
    assert_eq!(result.finish_reason, "completed");
}

#[test]
fn failures_and_subagents_are_reported() {
    let mut t = HarnessTurn::new("s1", "high");
    let err = parse_line(r#"{"jsonrpc":"2.0","id":4,"error":{"code":-1}}"#).unwrap();
    assert_eq!(t.on_frame(&err).unwrap_err(), "harness rpc error id=4: {\"code\":-1}");
    let ok = parse_line(r#"{"jsonrpc":"2.0","id":4,"result":1}"#).unwrap();
    assert!(t.on_frame(&ok).unwrap().is_empty());
    let start = parse_line(r#"{"jsonrpc":"2.0","method":"subagent.started","params":{"parentSessionId":"p","childSessionId":"c"}}"#).unwrap();
    let shown = t.on_frame(&start).unwrap();
    assert!(matches!(&shown[0], AgentStreamEvent::SubagentStarted { parent_session_id, child_session_id }
        if parent_session_id == "p" && child_session_id == "c"));
    let done = parse_line(r#"{"jsonrpc":"2.0","method":"subagent.finished","params":{"childSessionId":"c","status":"ok","lastAssistantMessage":[{"type":"text","text":"bye"}]}}"#).unwrap();
    let shown = t.on_frame(&done).unwrap();
    assert!(matches!(&shown[0], AgentStreamEvent::SubagentFinished { status, summary, .. }
        if status == "ok" && summary == "bye"));
    let status = parse_line(r#"{"jsonrpc":"2.0","method":"session.status","params":{"sessionId":"s1"}}"#).unwrap();
    assert!(t.on_frame(&status).unwrap().is_empty());
}

#[test]
fn counts_that_do_not_fit_are_noticed() {
    let mut t = HarnessTurn::new("s1", "high");
    t.usage.input = u64::MAX - 1;
    let usage = |n: u64| {
        event_frame("s1", &format!(r#"{{"type":"assistant/chunk","data":{{"chunk":{{"type":"usage","usage":{{"inputTokens":{n}}}}}}}}}"#))
    };
    assert!(t.fits(&usage(1)));
    assert!(!t.fits(&usage(2)));
}
