use deepseek_code::api::{
    api_response_from_blocks, extract_search_text, is_cancelled, parse_partial_json,
    response_from_reply, ApiStreamEvent, Content, ContentBlock, DeepSeekClient, Message,
    MessagesResponse, Pricing, RetryStep, Role, SendOutcome, StreamState, ThinkingMode,
    ToolDefinition, Usage, MODEL_FLASH, MODEL_PRO,
};
use deepseek_code::ids::{fresh_tool_id, fresh_uuid, id_or, sanitize_tool_use_id};
use deepseek_code::json::{json_string, parse_json, Json};
use deepseek_code::stream::{append_web_search_text, normalize_search_content, text_from_bytes, SseReader};

fn value(text: &str) -> Json {
    parse_json(text).unwrap()
}

fn run_events(events: &[&str]) -> (StreamState, Vec<ApiStreamEvent>) {
    let mut state = StreamState::default();
    let mut deltas = Vec::new();
    for e in events {
        deltas.extend(state.handle_event(e));
    }
    (state, deltas)
}

fn message(role: Role, blocks: Vec<ContentBlock>) -> Message {
    Message { role, content: Content::Blocks(blocks), timestamp: 0, internal: false }
}

fn tool_use(id: &str) -> ContentBlock {
    ContentBlock::ToolUse {
        id: id.to_string(),
        name: "read_file".to_string(),
        input: value("{}"),
    }
}

#[test]
fn accumulates_text_thinking_and_usage_from_sse_events() {
    let events = [
        r#"{"type":"message_start","message":{"usage":{"input_tokens":10,"cache_read_input_tokens":5,"cache_creation_input_tokens":2}}}"#,
        r#"{"type":"content_block_start","index":0,"content_block":{"type":"thinking","thinking":""}}"#,
        r#"{"type":"content_block_delta","index":0,"delta":{"type":"thinking_delta","thinking":"Let me think"}}"#,
        r#"{"type":"content_block_delta","index":0,"delta":{"type":"signature_delta","signature":"sig_abc123"}}"#,
        r#"{"type":"content_block_stop","index":0}"#,
        r#"{"type":"content_block_start","index":1,"content_block":{"type":"text","text":""}}"#,
        r#"{"type":"content_block_delta","index":1,"delta":{"type":"text_delta","text":"Hello"}}"#,
        r#"{"type":"content_block_delta","index":1,"delta":{"type":"text_delta","text":" world"}}"#,
        r#"{"type":"content_block_stop","index":1}"#,
        r#"{"type":"message_delta","delta":{"stop_reason":"end_turn"},"usage":{"output_tokens":42}}"#,
        r#"{"type":"message_stop"}"#,
    ];
    let (state, deltas) = run_events(&events);

    let resp = api_response_from_blocks(state.blocks, state.usage, state.stop_reason);
    assert_eq!(resp.content, "Hello world");
    assert_eq!(resp.thinking_content.as_deref(), Some("Let me think"));
    assert_eq!(resp.thinking_signature.as_deref(), Some("sig_abc123"));
    assert_eq!(resp.usage.input_tokens, 10);
    assert_eq!(resp.usage.cache_read_input_tokens, 5);
    assert_eq!(resp.usage.output_tokens, 42);
    assert_eq!(resp.finish_reason, "end_turn");
    // Live deltas must arrive in order for the UI.
    assert!(matches!(deltas[0], ApiStreamEvent::ThinkingDelta { ref text } if text == "Let me think"));
    assert!(matches!(deltas[1], ApiStreamEvent::TextDelta { ref text } if text == "Hello"));
    assert!(matches!(deltas[2], ApiStreamEvent::TextDelta { ref text } if text == " world"));
}

#[test]
fn accumulates_tool_use_partial_json() {
    let events = [
        r#"{"type":"content_block_start","index":0,"content_block":{"type":"tool_use","id":"tu_1","name":"read_file","input":{}}}"#,
        r#"{"type":"content_block_delta","index":0,"delta":{"type":"input_json_delta","partial_json":"{\"path\":\"src"}}"#,
        r#"{"type":"content_block_delta","index":0,"delta":{"type":"input_json_delta","partial_json":"/main.rs\"}"}}"#,
        r#"{"type":"content_block_stop","index":0}"#,
        r#"{"type":"message_stop"}"#,
    ];
    let (state, _) = run_events(&events);
    assert_eq!(state.blocks.len(), 1);
    match &state.blocks[0] {
        ContentBlock::ToolUse { id, name, input } => {
            assert_eq!(id, "tu_1");
            assert_eq!(name, "read_file");
            assert_eq!(input.str_at("path"), Some("src/main.rs"));
        }
        other => panic!("expected tool_use block, got {:?}", other),
    }
}

#[test]
fn captures_server_side_web_search_and_stream_errors() {
    let events = [
        r#"{"type":"content_block_start","index":0,"content_block":{"type":"server_tool_use","id":"st_1","name":"web_search","input":{}}}"#,
        r#"{"type":"content_block_delta","index":0,"delta":{"type":"input_json_delta","partial_json":"{\"query\":\"deepseek\"}"}}"#,
        r#"{"type":"content_block_stop","index":0}"#,
        r#"{"type":"content_block_start","index":1,"content_block":{"type":"web_search_tool_result","tool_use_id":"toolu_ws1","title":"Result","url":"https://example.com","content":[{"type":"text","text":"DeepSeek rocks"}]}}"#,
        r#"{"type":"content_block_stop","index":1}"#,
        r#"{"type":"message_stop"}"#,
    ];
    let (state, _) = run_events(&events);
    let resp = api_response_from_blocks(state.blocks, state.usage, state.stop_reason);
    assert!(resp.web_search_used);
    assert_eq!(resp.server_tool_uses.len(), 1);
    assert_eq!(resp.server_tool_uses[0].function.name, "web_search");
    assert_eq!(resp.web_search_results.len(), 1);
    assert_eq!(resp.web_search_results[0].tool_use_id.as_deref(), Some("toolu_ws1"));
    assert_eq!(resp.web_search_results[0].title.as_deref(), Some("Result"));
    assert!(resp.content.contains("DeepSeek rocks"));
}

#[test]
fn echoes_web_search_result_with_tool_use_id() {
    let block = ContentBlock::WebSearchResult {
        tool_use_id: "toolu_ws1".to_string(),
        title: Some("Result".to_string()),
        url: Some("https://example.com".to_string()),
        content: value(r#"[{"type": "text", "text": "DeepSeek rocks"}]"#),
    };
    let json = block.to_json();
    assert_eq!(json.str_at("type"), Some("web_search_tool_result"));
    assert_eq!(json.str_at("tool_use_id"), Some("toolu_ws1"));
    assert!(json.get("tool_use_id").is_some());
}

#[test]
fn empty_tool_use_input_serializes_as_object() {
    let block = ContentBlock::ToolUse {
        id: "toolu_1".to_string(),
        name: "read_file".to_string(),
        input: parse_partial_json(""),
    };
    let json = block.to_json();
    match json.get("input").unwrap() {
        Json::Object(fields) => assert!(fields.is_empty()),
        other => panic!("expected an object, got {:?}", other),
    }
}

#[test]
fn sanitizes_orphaned_web_search_blocks_from_old_history() {
    let msg = message(
        Role::Assistant,
        vec![
            ContentBlock::Text { text: "Searching...".to_string() },
            ContentBlock::WebSearchResult {
                tool_use_id: String::new(),
                title: None,
                url: None,
                content: value("[]"),
            },
            ContentBlock::ServerToolUse {
                id: "toolu_ws9".to_string(),
                name: "web_search".to_string(),
                input: value(r#"{"query": "x"}"#),
            },
            ContentBlock::WebSearchResult {
                tool_use_id: "toolu_ws9".to_string(),
                title: Some("T".to_string()),
                url: None,
                content: value(r#"[{"type": "text", "text": "result"}]"#),
            },
        ],
    );
    let cleaned = DeepSeekClient::sanitize_messages_for_wire(vec![msg]);
    let Content::Blocks(blocks) = &cleaned[0].content else {
        panic!("expected blocks");
    };
    assert_eq!(blocks.len(), 3);
    assert!(matches!(blocks[0], ContentBlock::Text { .. }));
    assert!(matches!(blocks[1], ContentBlock::ServerToolUse { .. }));
    assert!(matches!(blocks[2], ContentBlock::WebSearchResult { ref tool_use_id, .. } if tool_use_id == "toolu_ws9"));
}

#[test]
fn keeps_paired_client_tool_use_and_result() {
    let messages = vec![
        message(Role::Assistant, vec![tool_use("call_00_paired")]),
        message(
            Role::User,
            vec![ContentBlock::ToolResult {
                tool_use_id: "call_00_paired".to_string(),
                content: "ok".to_string(),
            }],
        ),
    ];
    let cleaned = DeepSeekClient::sanitize_messages_for_wire(messages);
    let Content::Blocks(b0) = &cleaned[0].content else {
        panic!("expected blocks");
    };
    assert!(b0.iter().any(|b| matches!(b, ContentBlock::ToolUse { id, .. } if id == "call_00_paired")));
    let Content::Blocks(b1) = &cleaned[1].content else {
        panic!("expected blocks");
    };
    assert!(b1.iter().any(|b| matches!(b, ContentBlock::ToolResult { tool_use_id, .. } if tool_use_id == "call_00_paired")));
}

#[test]
fn sanitizes_orphaned_client_tool_use_and_result() {
    let messages = vec![
        message(
            Role::Assistant,
            vec![
                tool_use("call_00_orphan"),
                ContentBlock::Text { text: "reading...".to_string() },
            ],
        ),
        Message {
            role: Role::User,
            content: Content::Text("no result".to_string()),
            timestamp: 0,
            internal: false,
        },
        message(
            Role::User,
            vec![ContentBlock::ToolResult {
                tool_use_id: "call_00_missing_use".to_string(),
                content: "orphan result".to_string(),
            }],
        ),
    ];
    let cleaned = DeepSeekClient::sanitize_messages_for_wire(messages);
    let Content::Blocks(b0) = &cleaned[0].content else {
        panic!("expected blocks");
    };
    assert!(
        !b0.iter().any(|b| matches!(b, ContentBlock::ToolUse { .. })),
        "orphan tool_use must be dropped"
    );
    assert!(
        b0.iter().any(|b| matches!(b, ContentBlock::Text { .. })),
        "message must stay non-empty"
    );
    let Content::Blocks(b2) = &cleaned[2].content else {
        panic!("expected blocks");
    };
    assert!(
        !b2.iter().any(|b| matches!(b, ContentBlock::ToolResult { .. })),
        "orphan tool_result must be dropped"
    );
    assert!(
        b2.iter().any(|b| matches!(b, ContentBlock::Text { .. })),
        "message must stay non-empty"
    );
}

#[test]
fn cache_savings_reflects_cache_hit_rate_differential() {
    let usage = Usage {
        input_tokens: 1_000_000,
        output_tokens: 0,
        cache_read_input_tokens: 1_000_000,
        cache_creation_input_tokens: 0,
    };
    let dollars = |pico: u64| pico as f64 / 1e12;
    // Flash: $0.14 input vs $0.0028 cache hit: $0.1372 saved per 1M.
    let savings = dollars(Pricing::for_model(MODEL_FLASH).cache_savings(&usage));
    assert!((savings - 0.1372).abs() < 1e-9);
    // Pro: $0.435 vs $0.003625: $0.431375 saved per 1M.
    let savings = dollars(Pricing::for_model(MODEL_PRO).cache_savings(&usage));
    assert!((savings - 0.431375).abs() < 1e-9);
}

#[test]
fn cost_and_savings_add_up_to_the_full_price() {
    let usage = Usage {
        input_tokens: 1000,
        output_tokens: 10,
        cache_read_input_tokens: 600,
        cache_creation_input_tokens: 100,
    };
    let flash = Pricing::for_model(MODEL_FLASH);
    // 600 hits, 100 written, 300 plain and 10 out.
    assert_eq!(flash.calculate(&usage), 600 * 2_800 + 400 * 140_000 + 10 * 280_000);
    assert_eq!(flash.cache_savings(&usage), 600 * (140_000 - 2_800));
    let pro = Pricing::for_model("anything else");
    assert_eq!(pro.calculate(&usage), 600 * 3_625 + 400 * 435_000 + 10 * 870_000);
}

#[test]
fn pieces_of_a_stream_do_not_matter() {
    let stream = "data: {\"type\":\"content_block_start\",\"index\":0,\"content_block\":{\"type\":\"text\"}}\n\n\
                  data: {\"type\":\"content_block_delta\",\"index\":0,\"delta\":{\"type\":\"text_delta\",\"text\":\"你好\"}}\r\n\r\n\
                  data: {\"type\":\"content_block_stop\",\"index\":0}\n\n";
    let mut whole = SseReader::new();
    let a = whole.feed(stream.as_bytes());
    let mut parts = SseReader::new();
    let mut b = Vec::new();
    for byte in stream.as_bytes() {
        b.extend(parts.feed(&[*byte]));
    }
    assert_eq!(a.len(), 1);
    assert_eq!(b.len(), 1);
    assert!(matches!(&b[0], ApiStreamEvent::TextDelta { text } if text == "你好"));
    let (x, _) = whole.finish();
    let (y, _) = parts.finish();
    assert_eq!(x.unwrap().content, "你好");
    assert_eq!(y.unwrap().content, "你好");
}

#[test]
fn a_stream_error_is_returned() {
    let mut r = SseReader::new();
    r.feed(b"data: {\"type\":\"error\",\"error\":{\"message\":\"overloaded\"}}\n\n");
    let (outcome, _) = r.finish();
    assert!(outcome.unwrap_err().contains("overloaded"));
    let mut r = SseReader::new();
    r.feed(b"data: [DONE]\n\nnoise\n\n");
    let (outcome, deltas) = r.finish();
    assert_eq!(outcome.unwrap().content, "");
    assert!(deltas.is_empty());
}

#[test]
fn what_is_not_text_is_replaced() {
    assert_eq!(text_from_bytes(b"abc"), "abc");
    assert_eq!(text_from_bytes(&[0x61, 0xff, 0x62]), "a\u{fffd}b");
}

#[test]
fn search_content_is_read_in_every_shape() {
    assert_eq!(extract_search_text(&value("\"plain\"")), "plain");
    assert_eq!(extract_search_text(&value(r#"[{"text":"a"},{"x":1},{"text":"b"}]"#)), "a\nb");
    assert_eq!(extract_search_text(&value("{}")), "");
    assert!(matches!(normalize_search_content(value("null")), Json::Array(v) if v.is_empty()));
    let one = normalize_search_content(value("\"plain\""));
    assert_eq!(json_string(&one), r#"[{"text":"plain","type":"text"}]"#);
    let list = r#"[{"text":"a","type":"text"}]"#;
    assert_eq!(json_string(&normalize_search_content(value(list))), list);
    let grown = append_web_search_text(value("[]"), "more");
    assert_eq!(extract_search_text(&grown), "more");
}

#[test]
fn ids_are_made_where_they_are_missing() {
    assert_eq!(sanitize_tool_use_id("tu_1"), "tu_1");
    let made = sanitize_tool_use_id("  ");
    assert!(made.len() > 4);
    assert_ne!(made, sanitize_tool_use_id(""));
    assert_eq!(id_or("", "f"), "f");
    assert_eq!(id_or("a", "f"), "a");
    let id = fresh_uuid();
    assert_eq!(id.len(), 36);
    assert_eq!(id.matches('-').count(), 4);
    assert_ne!(fresh_tool_id(), fresh_tool_id());
}

#[test]
fn a_request_carries_the_limits_of_its_mode() {
    let client = DeepSeekClient::new("key".to_string());
    let m = Message {
        role: Role::User,
        content: Content::Text("hi".to_string()),
        timestamp: 9,
        internal: true,
    };
    let r = client.build_request("sys", vec![m], None, ThinkingMode::NonThink, MODEL_FLASH, false);
    assert_eq!(r.max_tokens, 8_192);
    assert!(r.thinking.is_none());
    assert!(r.stream.is_none());
    let tools = r.tools.as_ref().unwrap();
    assert_eq!(tools.len(), 1);
    assert_eq!(tools[0].name, "web_search");
    assert_eq!(tools[0].max_uses, Some(8));
    let body = parse_json(&r.body()).unwrap();
    assert_eq!(body.str_at("system"), Some("sys"));
    assert!(body.get("stream").is_none());
    let sent = &body.get("messages").unwrap().as_array().unwrap()[0];
    assert_eq!(sent.str_at("role"), Some("user"));
    assert!(sent.get("timestamp").is_none());
    assert!(sent.get("internal").is_none());

    let defs = vec![
        value(r#"{"function":{"name":"t","description":"d","parameters":{}}}"#),
        value(r#"{"function":{"name":"broken"}}"#),
    ];
    let r = client.build_request(
        "sys",
        vec![],
        Some(defs),
        ThinkingMode::ThinkMax { budget_tokens: 7 },
        MODEL_PRO,
        true,
    );
    assert_eq!(r.max_tokens, 196_608);
    assert_eq!(r.stream, Some(true));
    assert_eq!(r.thinking.as_ref().unwrap().budget_tokens, Some(7));
    assert_eq!(r.tools.as_ref().unwrap().len(), 2);
    let body = parse_json(&r.body()).unwrap();
    assert_eq!(body.get("thinking").unwrap().u64_at("budget_tokens"), Some(7));
    let t = ToolDefinition::client_tool("n", "d", value("{}")).to_json();
    assert_eq!(t.str_at("name"), Some("n"));
    assert!(t.get("type").is_none());
}

#[test]
fn transient_failures_are_tried_three_times() {
    let busy = SendOutcome::Replied { status: 503, reply: "503".to_string(), body: "b".to_string() };
    assert!(matches!(DeepSeekClient::after_attempt(1, &busy), RetryStep::WaitAndRetry { millis: 500 }));
    assert!(matches!(DeepSeekClient::after_attempt(2, &busy), RetryStep::WaitAndRetry { millis: 1000 }));
    assert!(matches!(DeepSeekClient::after_attempt(3, &busy), RetryStep::GiveUp { error } if error == "API error 503: b"));
    let denied = SendOutcome::Replied { status: 401, reply: "401".to_string(), body: "no".to_string() };
    assert!(matches!(DeepSeekClient::after_attempt(1, &denied), RetryStep::GiveUp { .. }));
    let ok = SendOutcome::Replied { status: 200, reply: "200".to_string(), body: String::new() };
    assert!(matches!(DeepSeekClient::after_attempt(1, &ok), RetryStep::Deliver));
    let lost = SendOutcome::Failed { error: "e".to_string() };
    assert!(matches!(DeepSeekClient::after_attempt(3, &lost), RetryStep::GiveUp { error } if error == "API request failed: e"));
    assert!(!is_cancelled(&None));
    assert!(is_cancelled(&Some(true)));
}

#[test]
fn a_whole_reply_becomes_a_response() {
    let reply = MessagesResponse {
        content: vec![
            ContentBlock::Thinking { thinking: "t".to_string(), signature: Some("s".to_string()) },
            ContentBlock::Text { text: "a".to_string() },
            tool_use("c1"),
        ],
        stop_reason: Some("tool_use".to_string()),
        usage: Usage::default(),
    };
    let r = response_from_reply(reply);
    assert_eq!(r.content, "a");
    assert_eq!(r.finish_reason, "tool_use");
    let calls = r.tool_calls.unwrap();
    assert_eq!(calls.len(), 1);
    assert_eq!(calls[0].id, "c1");
    assert_eq!(calls[0].function.arguments, "{}");
}

#[test]
fn a_valid_history_is_sent_unchanged() {
    let messages = vec![
        message(Role::Assistant, vec![tool_use("a"), tool_use("b")]),
        message(
            Role::User,
            vec![
                ContentBlock::ToolResult { tool_use_id: "a".to_string(), content: "1".to_string() },
                ContentBlock::ToolResult { tool_use_id: "b".to_string(), content: "2".to_string() },
            ],
        ),
    ];
    let once = DeepSeekClient::sanitize_messages_for_wire(messages.clone());
    let twice = DeepSeekClient::sanitize_messages_for_wire(once.clone());
    assert_eq!(format!("{:?}", once), format!("{:?}", messages));
    assert_eq!(format!("{:?}", twice), format!("{:?}", once));
}

#[test]
fn one_unanswered_call_goes_and_the_other_stays() {
    let messages = vec![
        message(Role::Assistant, vec![tool_use("a"), tool_use("b")]),
        message(
            Role::User,
            vec![ContentBlock::ToolResult { tool_use_id: "b".to_string(), content: "2".to_string() }],
        ),
    ];
    let cleaned = DeepSeekClient::sanitize_messages_for_wire(messages);
    let Content::Blocks(b0) = &cleaned[0].content else {
        panic!("expected blocks");
    };
    assert_eq!(b0.len(), 1);
    assert!(matches!(&b0[0], ContentBlock::ToolUse { id, .. } if id == "b"));
    let Content::Blocks(b1) = &cleaned[1].content else {
        panic!("expected blocks");
    };
    assert_eq!(b1.len(), 1);
}
