use deepseek_code::harness::{
    encode_request, notification_session_id, parse_line, receive_line, text_block, text_prompt,
    HarnessFrame, HarnessProcess, InitializeParams,
};
use deepseek_code::json::{parse_json, Json};
use serde_json::Value;

fn value(text: &str) -> Json {
    parse_json(text).unwrap()
}

#[test]
fn request_encoding_is_newline_delimited_jsonrpc() {
    let line = encode_request(7, "initialize", value(r#"{"model": "deepseek-v4-flash"}"#));
    assert!(line.ends_with('\n'));
    let v: Value = serde_json::from_str(line.trim_end()).unwrap();
    assert_eq!(v["jsonrpc"], "2.0");
    assert_eq!(v["id"], 7);
    assert_eq!(v["method"], "initialize");
    assert_eq!(v["params"]["model"], "deepseek-v4-flash");
}

#[test]
fn notification_parses_with_session_id() {
    let line = r#"{"jsonrpc":"2.0","method":"session.status","params":{"sessionId":"s1","status":"running"}}"#;
    let frame = parse_line(line).unwrap();
    assert_eq!(notification_session_id(&frame), Some("s1"));
    match frame {
        HarnessFrame::Notification { method, params } => {
            assert_eq!(method, "session.status");
            assert_eq!(params.str_at("status"), Some("running"));
        }
        _ => panic!("expected notification"),
    }
}

#[test]
fn response_parses_result_and_error() {
    let ok = r#"{"jsonrpc":"2.0","id":3,"result":{"messageId":"m9"}}"#;
    match parse_line(ok).unwrap() {
        HarnessFrame::Response { id, result, error } => {
            assert_eq!(id, 3);
            assert_eq!(result.str_at("messageId"), Some("m9"));
            assert!(error.is_none());
        }
        _ => panic!("expected response"),
    }
    let err = r#"{"jsonrpc":"2.0","id":4,"error":{"code":-32603,"message":"boom"}}"#;
    match parse_line(err).unwrap() {
        HarnessFrame::Response { error, .. } => {
            assert!(matches!(error.unwrap().get("code"), Some(Json::NegInt(-32603))));
        }
        _ => panic!("expected error response"),
    }
}

#[test]
fn malformed_and_foreign_lines_are_ignored() {
    assert!(parse_line("").is_none());
    assert!(parse_line("not json").is_none());
    // Wrong protocol version is ignored.
    assert!(parse_line(r#"{"jsonrpc":"1.0","method":"x"}"#).is_none());
    // A bare log line with no method/id is ignored.
    assert!(parse_line(r#"{"hello":"world"}"#).is_none());
}

#[test]
fn text_prompt_builds_verbatim_text_block() {
    let p = text_prompt("sess-1", "say hi");
    assert_eq!(p.session_id, "sess-1");
    assert_eq!(p.content_blocks.len(), 1);
    assert_eq!(p.content_blocks[0].str_at("type"), Some("text"));
    assert_eq!(p.content_blocks[0].str_at("text"), Some("say hi"));
}

#[test]
fn params_serialize_to_camel_case_wire_names() {
    let v = text_prompt("s1", "hi").to_json();
    assert_eq!(v.str_at("sessionId"), Some("s1"));
    let blocks = v.get("contentBlocks").unwrap().as_array().unwrap();
    assert_eq!(blocks[0].str_at("text"), Some("hi"));
    assert!(v.get("session_id").is_none(), "snake_case leaked: {:?}", v);
    assert!(v.get("content_blocks").is_none(), "snake_case leaked: {:?}", v);

    let init = InitializeParams {
        cwd: "/x".to_string(),
        provider: "deepseek-official".to_string(),
        model: "deepseek-v4-flash".to_string(),
        max_tokens: Some(9),
    };
    let iv = init.to_json();
    assert_eq!(iv.u64_at("maxTokens"), Some(9));
    assert!(iv.get("max_tokens").is_none(), "snake_case leaked: {:?}", iv);
}

#[test]
fn subagent_notifications_map_to_child_session() {
    let line = r#"{"jsonrpc":"2.0","method":"subagent.finished","params":{"parentSessionId":"p","childSessionId":"c","status":"ok"}}"#;
    let frame = parse_line(line).unwrap();
    assert_eq!(notification_session_id(&frame), Some("c"));
}

#[test]
fn requests_are_numbered_and_wrap_around() {
    let mut p = HarnessProcess::new();
    assert_eq!(p.take_id(), 0);
    let (id, line) = p.prompt(text_prompt("s", "line\nbreak"));
    assert_eq!(id, 1);
    assert_eq!(line.matches('\n').count(), 1);
    let (id, line) = p.shutdown();
    assert_eq!(id, 2);
    assert_eq!(line, "{\"id\":2,\"jsonrpc\":\"2.0\",\"method\":\"shutdown\",\"params\":{}}\n");
    p.next_id = u64::MAX;
    assert_eq!(p.take_id(), u64::MAX);
    assert_eq!(p.take_id(), 0);
    let init = InitializeParams {
        cwd: "/x".to_string(),
        provider: "p".to_string(),
        model: "m".to_string(),
        max_tokens: None,
    };
    let (id, line) = p.initialize(&init);
    assert_eq!(id, 1);
    let v: Value = serde_json::from_str(&line).unwrap();
    assert!(v["params"].get("maxTokens").is_none());
}

#[test]
fn a_request_is_no_frame_for_its_sender() {
    let line = encode_request(1, "session/prompt", value("{}"));
    assert!(parse_line(&line).is_none());
}

#[test]
fn an_error_of_null_is_still_an_error() {
    let frame = parse_line(r#"{"jsonrpc":"2.0","id":1,"error":null}"#).unwrap();
    assert!(matches!(frame, HarnessFrame::Response { id: 1, error: Some(Json::Null), .. }));
    assert!(notification_session_id(&frame).is_none());
    assert!(parse_line(r#"{"jsonrpc":"2.0","id":1}"#).is_none());
    assert!(parse_line(r#"{"jsonrpc":"2.0","id":-1,"method":"m"}"#).is_some());
    assert!(receive_line("  \t").is_none());
    assert!(receive_line(r#"{"jsonrpc":"2.0","method":"m"}"#).is_some());
    assert_eq!(text_block("a").str_at("text"), Some("a"));
}
