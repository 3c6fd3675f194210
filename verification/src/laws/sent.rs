//! What goes over the wire says all that it is meant to say, and where.

use crate::api::{RequestView, ThinkingView, ToolDefinitionView};
use crate::encode::{
    block_json, content_json, goal_json, message_json, request_value, step_json, thinking_json,
    tool_definition_json,
};
use crate::json::{field, text_at, JsonView};
use crate::message::{BlockView, ContentView, MessageView};
use crate::session::{
    goal_status_text, step_status_text, GoalStatus, GoalView, StepStatus, StepView,
};
use crate::text::Text;
use vstd::prelude::*;

verus! {

/// The keys and the types of blocks are all different words.
proof fn words_differ()
    ensures
        "type"@.len() == 4 && "type"@[0] == 't' && "type"@[1] == 'y',
        "text"@.len() == 4 && "text"@[1] == 'e' && "text"@[0] == 't',
        "name"@.len() == 4 && "name"@[0] == 'n',
        "data"@.len() == 4 && "data"@[0] == 'd',
        "id"@.len() == 2,
        "url"@.len() == 3,
        "input"@.len() == 5 && "input"@[0] == 'i',
        "title"@.len() == 5 && "title"@[0] == 't',
        "tool_use_id"@.len() == 11 && "tool_use_id"@[5] == 'u',
        "content"@.len() == 7 && "content"@[0] == 'c',
        "thinking"@.len() == 8 && "thinking"@[1] == 'h',
        "signature"@.len() == 9,
        "tool_use"@.len() == 8 && "tool_use"@[1] == 'o',
        "tool_result"@.len() == 11 && "tool_result"@[5] == 'r',
        "web_search_tool_result"@.len() == 22,
        "server_tool_use"@.len() == 15,
        "redacted_thinking"@.len() == 17,
        "unknown"@.len() == 7 && "unknown"@[0] == 'u',
        "role"@.len() == 4 && "role"@[0] == 'r',
        "user"@.len() == 4 && "user"@[0] == 'u',
        "assistant"@.len() == 9,
{
    reveal_strlit("type");
    reveal_strlit("text");
    reveal_strlit("name");
    reveal_strlit("data");
    reveal_strlit("id");
    reveal_strlit("url");
    reveal_strlit("input");
    reveal_strlit("title");
    reveal_strlit("tool_use_id");
    reveal_strlit("content");
    reveal_strlit("thinking");
    reveal_strlit("signature");
    reveal_strlit("tool_use");
    reveal_strlit("tool_result");
    reveal_strlit("web_search_tool_result");
    reveal_strlit("server_tool_use");
    reveal_strlit("redacted_thinking");
    reveal_strlit("unknown");
    reveal_strlit("role");
    reveal_strlit("user");
    reveal_strlit("assistant");
}

/// A block is sent under its type, with each of its parts under its key and nothing
/// else.
pub proof fn blocks_are_sent_whole(b: BlockView)
    ensures
        ({
            let j = block_json(b);
            match b {
                BlockView::Text { text } => {
                    &&& text_at(j, "type"@) == Some("text"@)
                    &&& text_at(j, "text"@) == Some(text)
                    &&& j->Object_0.dom() == set!["type"@, "text"@]
                },
                BlockView::ToolUse { id, name, input } => {
                    &&& text_at(j, "type"@) == Some("tool_use"@)
                    &&& text_at(j, "id"@) == Some(id)
                    &&& text_at(j, "name"@) == Some(name)
                    &&& field(j, "input"@) == Some(input)
                    &&& j->Object_0.dom() == set!["type"@, "id"@, "name"@, "input"@]
                },
                BlockView::ToolResult { tool_use_id, content } => {
                    &&& text_at(j, "type"@) == Some("tool_result"@)
                    &&& text_at(j, "tool_use_id"@) == Some(tool_use_id)
                    &&& text_at(j, "content"@) == Some(content)
                    &&& j->Object_0.dom() == set!["type"@, "tool_use_id"@, "content"@]
                },
                BlockView::WebSearchResult { tool_use_id, title, url, content } => {
                    &&& text_at(j, "type"@) == Some("web_search_tool_result"@)
                    &&& text_at(j, "tool_use_id"@) == Some(tool_use_id)
                    &&& text_at(j, "title"@) == title
                    &&& text_at(j, "url"@) == url
                    &&& field(j, "title"@) is Some && field(j, "url"@) is Some
                    &&& title is None ==> field(j, "title"@) == Some(JsonView::Null)
                    &&& url is None ==> field(j, "url"@) == Some(JsonView::Null)
                    &&& field(j, "content"@) == Some(content)
                    &&& j->Object_0.dom() == set![
                        "type"@,
                        "tool_use_id"@,
                        "title"@,
                        "url"@,
                        "content"@,
                    ]
                },
                BlockView::ServerToolUse { id, name, input } => {
                    &&& text_at(j, "type"@) == Some("server_tool_use"@)
                    &&& text_at(j, "id"@) == Some(id)
                    &&& text_at(j, "name"@) == Some(name)
                    &&& field(j, "input"@) == Some(input)
                    &&& j->Object_0.dom() == set!["type"@, "id"@, "name"@, "input"@]
                },
                BlockView::Thinking { thinking, signature } => {
                    &&& text_at(j, "type"@) == Some("thinking"@)
                    &&& text_at(j, "thinking"@) == Some(thinking)
                    &&& text_at(j, "signature"@) == signature
                    &&& signature is None ==> field(j, "signature"@) is None
                },
                BlockView::RedactedThinking { data } => {
                    &&& text_at(j, "type"@) == Some("redacted_thinking"@)
                    &&& text_at(j, "data"@) == Some(data)
                },
                BlockView::Unknown => text_at(j, "type"@) == Some("unknown"@),
            }
        }),
{
    words_differ();
    let m = block_json(b)->Object_0;
    match b {
        BlockView::Text { .. } => {
            assert(m["type"@] == JsonView::Str("text"@));
            assert(m.dom() =~= set!["type"@, "text"@]);
        },
        BlockView::ToolUse { .. } => {
            assert(m["type"@] == JsonView::Str("tool_use"@));
            assert(m.dom() =~= set!["type"@, "id"@, "name"@, "input"@]);
        },
        BlockView::ToolResult { .. } => {
            assert(m["type"@] == JsonView::Str("tool_result"@));
            assert(m.dom() =~= set!["type"@, "tool_use_id"@, "content"@]);
        },
        BlockView::WebSearchResult { .. } => {
            assert(m["type"@] == JsonView::Str("web_search_tool_result"@));
            assert(m.dom() =~= set!["type"@, "tool_use_id"@, "title"@, "url"@, "content"@]);
        },
        BlockView::ServerToolUse { .. } => {
            assert(m["type"@] == JsonView::Str("server_tool_use"@));
            assert(m.dom() =~= set!["type"@, "id"@, "name"@, "input"@]);
        },
        BlockView::Thinking { .. } => {
            assert(m["type"@] == JsonView::Str("thinking"@));
        },
        BlockView::RedactedThinking { .. } => {
            assert(m["type"@] == JsonView::Str("redacted_thinking"@));
        },
        BlockView::Unknown => {
            assert(m["type"@] == JsonView::Str("unknown"@));
        },
    }
}

/// What is sent of a block determines the block.
pub proof fn blocks_are_told_apart(a: BlockView, b: BlockView)
    requires
        block_json(a) == block_json(b),
    ensures
        a == b,
{
    words_differ();
    blocks_are_sent_whole(a);
    blocks_are_sent_whole(b);
}

/// A message is sent with who speaks and what they say: a text as it is, blocks as a
/// list, each in its place.
pub proof fn messages_are_sent_whole(m: MessageView)
    ensures
        text_at(message_json(m), "role"@) == Some(
            if m.role is User {
                "user"@
            } else {
                "assistant"@
            },
        ),
        m.content matches ContentView::Text(t) ==> text_at(message_json(m), "content"@) == Some(t),
        m.content matches ContentView::Blocks(bs) ==> (field(
            message_json(m),
            "content"@,
        ) matches Some(JsonView::Array(js)) && js.len() == bs.len() && forall|k: int|
            0 <= k < bs.len() ==> #[trigger] js[k] == block_json(bs[k])),
{
    words_differ();
}

/// What is sent determines the conversation: messages that look the same are said by
/// the same side and say the same.
pub proof fn messages_are_told_apart(a: MessageView, b: MessageView)
    requires
        message_json(a) == message_json(b),
    ensures
        a.role == b.role,
        a.content == b.content,
{
    words_differ();
    messages_are_sent_whole(a);
    messages_are_sent_whole(b);
    match (a.content, b.content) {
        (ContentView::Blocks(x), ContentView::Blocks(y)) => {
            assert(content_json(a.content) == content_json(b.content));
            let js = content_json(a.content)->Array_0;
            assert(x.len() == y.len());
            assert forall|k: int| 0 <= k < x.len() implies x[k] == y[k] by {
                assert(js[k] == block_json(x[k]));
                assert(js[k] == block_json(y[k]));
                blocks_are_told_apart(x[k], y[k]);
            }
            assert(x =~= y);
        },
        _ => {},
    }
}

proof fn request_words_differ()
    ensures
        "type"@.len() == 4 && "type"@[0] == 't',
        "name"@.len() == 4 && "name"@[0] == 'n',
        "description"@.len() == 11,
        "input_schema"@.len() == 12,
        "max_uses"@.len() == 8 && "max_uses"@[0] == 'm',
        "budget_tokens"@.len() == 13,
        "model"@.len() == 5 && "model"@[0] == 'm',
        "system"@.len() == 6 && "system"@[1] == 'y',
        "stream"@.len() == 6 && "stream"@[1] == 't',
        "messages"@.len() == 8 && "messages"@[0] == 'm' && "messages"@[1] == 'e',
        "max_uses"@[1] == 'a',
        "max_tokens"@.len() == 10,
        "tools"@.len() == 5 && "tools"@[0] == 't',
        "thinking"@.len() == 8 && "thinking"@[0] == 't',
{
    reveal_strlit("type");
    reveal_strlit("name");
    reveal_strlit("description");
    reveal_strlit("input_schema");
    reveal_strlit("max_uses");
    reveal_strlit("budget_tokens");
    reveal_strlit("model");
    reveal_strlit("system");
    reveal_strlit("stream");
    reveal_strlit("messages");
    reveal_strlit("max_tokens");
    reveal_strlit("tools");
    reveal_strlit("thinking");
}

/// A tool is offered with its name, and with each of its other parts where it has
/// one.
pub proof fn tools_are_offered_whole(t: ToolDefinitionView)
    ensures
        ({
            let j = tool_definition_json(t);
            &&& text_at(j, "name"@) == Some(t.name)
            &&& text_at(j, "type"@) == t.tool_type
            &&& text_at(j, "description"@) == t.description
            &&& field(j, "input_schema"@) == t.input_schema
            &&& t.max_uses matches Some(n) ==> field(j, "max_uses"@) == Some(JsonView::Int(n as int))
            &&& t.max_uses is None ==> field(j, "max_uses"@) is None
            &&& t.tool_type is None ==> field(j, "type"@) is None
            &&& t.description is None ==> field(j, "description"@) is None
        }),
{
    request_words_differ();
}

/// What is sent of a tool determines the tool.
pub proof fn tools_are_told_apart(a: ToolDefinitionView, b: ToolDefinitionView)
    requires
        tool_definition_json(a) == tool_definition_json(b),
    ensures
        a == b,
{
    tools_are_offered_whole(a);
    tools_are_offered_whole(b);
}

/// The thinking mode is sent with its type and its budget.
pub proof fn thinking_is_sent_whole(t: ThinkingView)
    ensures
        text_at(thinking_json(t), "type"@) == Some(t.thinking_type),
        t.budget_tokens matches Some(n) ==> field(thinking_json(t), "budget_tokens"@) == Some(
            JsonView::Int(n as int),
        ),
        t.budget_tokens is None ==> field(thinking_json(t), "budget_tokens"@) is None,
{
    request_words_differ();
}

/// A request is sent with its model, its system prompt, all its messages in order,
/// the tools it offers, its limits, and whether it streams.
pub proof fn requests_are_sent_whole(r: RequestView)
    ensures
        ({
            let j = request_value(r);
            &&& text_at(j, "model"@) == Some(r.model)
            &&& text_at(j, "system"@) == Some(r.system)
            &&& field(j, "max_tokens"@) == Some(JsonView::Int(r.max_tokens as int))
            &&& field(j, "messages"@) matches Some(JsonView::Array(js)) && js.len()
                == r.messages.len() && forall|k: int|
                0 <= k < js.len() ==> #[trigger] js[k] == message_json(r.messages[k])
            &&& r.tools matches Some(ts) ==> (field(j, "tools"@) matches Some(JsonView::Array(js))
                && js.len() == ts.len() && forall|k: int|
                0 <= k < js.len() ==> #[trigger] js[k] == tool_definition_json(ts[k]))
            &&& r.tools is None ==> field(j, "tools"@) is None
            &&& r.thinking matches Some(t) ==> field(j, "thinking"@) == Some(thinking_json(t))
            &&& r.thinking is None ==> field(j, "thinking"@) is None
            &&& r.stream matches Some(b) ==> field(j, "stream"@) == Some(JsonView::Bool(b))
            &&& r.stream is None ==> field(j, "stream"@) is None
        }),
{
    request_words_differ();
}

/// What is sent determines the request, but for the times of its messages.
pub proof fn requests_are_told_apart(a: RequestView, b: RequestView)
    requires
        request_value(a) == request_value(b),
    ensures
        a.model == b.model,
        a.system == b.system,
        a.max_tokens == b.max_tokens,
        a.stream == b.stream,
        a.thinking == b.thinking,
        a.tools == b.tools,
        a.messages.len() == b.messages.len(),
        forall|k: int|
            0 <= k < a.messages.len() ==> (#[trigger] a.messages[k]).role == b.messages[k].role
                && a.messages[k].content == b.messages[k].content,
{
    requests_are_sent_whole(a);
    requests_are_sent_whole(b);
    let v = request_value(a);
    assert forall|k: int| 0 <= k < a.messages.len() implies (#[trigger] a.messages[k]).role
        == b.messages[k].role && a.messages[k].content == b.messages[k].content by {
        let js = field(v, "messages"@)->Some_0->Array_0;
        assert(js[k] == message_json(a.messages[k]));
        assert(js[k] == message_json(b.messages[k]));
        messages_are_told_apart(a.messages[k], b.messages[k]);
    }
    match (a.thinking, b.thinking) {
        (Some(x), Some(y)) => {
            thinking_is_sent_whole(x);
            thinking_is_sent_whole(y);
        },
        _ => {},
    }
    match (a.tools, b.tools) {
        (Some(x), Some(y)) => {
            let js = field(v, "tools"@)->Some_0->Array_0;
            assert forall|k: int| 0 <= k < x.len() implies x[k] == y[k] by {
                assert(js[k] == tool_definition_json(x[k]));
                assert(js[k] == tool_definition_json(y[k]));
                tools_are_told_apart(x[k], y[k]);
            }
            assert(x =~= y);
        },
        _ => {},
    }
}

proof fn goal_words_differ()
    ensures
        "id"@.len() == 2,
        "plan"@.len() == 4,
        "status"@.len() == 6,
        "content"@.len() == 7,
        "objective"@.len() == 9,
        "created_at"@.len() == 10 && "created_at"@[0] == 'c',
        "started_at"@.len() == 10 && "started_at"@[0] == 's',
        "updated_at"@.len() == 10 && "updated_at"@[0] == 'u',
        "tokens_used"@.len() == 11,
        "completed_at"@.len() == 12 && "completed_at"@[0] == 'c',
        "estimate_sec"@.len() == 12 && "estimate_sec"@[0] == 'e',
        "token_budget"@.len() == 12 && "token_budget"@[0] == 't',
        "blocked_reason"@.len() == 14,
        "time_used_seconds"@.len() == 17,
        "consecutive_blocked_turns"@.len() == 25,
        "pending"@.len() == 7 && "pending"@[0] == 'p',
        "blocked"@.len() == 7 && "blocked"@[0] == 'b',
        "in_progress"@.len() == 11,
        "completed"@.len() == 9 && "completed"@[1] == 'o',
        "cancelled"@.len() == 9 && "cancelled"@[1] == 'a',
        "active"@.len() == 6 && "active"@[0] == 'a',
        "paused"@.len() == 6 && "paused"@[0] == 'p',
        "budget_limited"@.len() == 14,
        "complete"@.len() == 8,
{
    reveal_strlit("id");
    reveal_strlit("plan");
    reveal_strlit("status");
    reveal_strlit("content");
    reveal_strlit("objective");
    reveal_strlit("created_at");
    reveal_strlit("started_at");
    reveal_strlit("updated_at");
    reveal_strlit("tokens_used");
    reveal_strlit("completed_at");
    reveal_strlit("estimate_sec");
    reveal_strlit("token_budget");
    reveal_strlit("blocked_reason");
    reveal_strlit("time_used_seconds");
    reveal_strlit("consecutive_blocked_turns");
    reveal_strlit("pending");
    reveal_strlit("blocked");
    reveal_strlit("in_progress");
    reveal_strlit("completed");
    reveal_strlit("cancelled");
    reveal_strlit("active");
    reveal_strlit("paused");
    reveal_strlit("budget_limited");
    reveal_strlit("complete");
}

/// The words for the state of a step.
pub proof fn step_words(s: StepStatus)
    ensures
        step_status_text(s) == (match s {
            StepStatus::Pending => "pending"@,
            StepStatus::InProgress => "in_progress"@,
            StepStatus::Completed => "completed"@,
            StepStatus::Cancelled => "cancelled"@,
            StepStatus::Blocked => "blocked"@,
        }),
{
}

/// The words for the state of a goal.
pub proof fn goal_words(s: GoalStatus)
    ensures
        goal_status_text(s) == (match s {
            GoalStatus::Active => "active"@,
            GoalStatus::Paused => "paused"@,
            GoalStatus::Blocked => "blocked"@,
            GoalStatus::BudgetLimited => "budget_limited"@,
            GoalStatus::Complete => "complete"@,
        }),
{
}

/// Whether a field holds this number, or `null` where there is none.
pub open spec fn holds_number(v: JsonView, key: Text, n: Option<int>) -> bool {
    field(v, key) == Some(
        match n {
            Some(n) => JsonView::Int(n),
            None => JsonView::Null,
        },
    )
}

/// A step is told with all its parts, each under its key.
pub proof fn steps_are_told_whole(p: StepView)
    ensures
        ({
            let j = step_json(p);
            &&& text_at(j, "id"@) == Some(p.id)
            &&& text_at(j, "content"@) == Some(p.content)
            &&& text_at(j, "status"@) == Some(step_status_text(p.status))
            &&& holds_number(j, "created_at"@, Some(p.created_at as int))
            &&& p.started_at matches Some(t) ==> holds_number(j, "started_at"@, Some(t as int))
            &&& p.started_at is None ==> holds_number(j, "started_at"@, None)
            &&& p.completed_at matches Some(t) ==> holds_number(j, "completed_at"@, Some(t as int))
            &&& p.completed_at is None ==> holds_number(j, "completed_at"@, None)
            &&& p.estimate_sec matches Some(t) ==> holds_number(j, "estimate_sec"@, Some(t as int))
            &&& p.estimate_sec is None ==> holds_number(j, "estimate_sec"@, None)
            &&& text_at(j, "blocked_reason"@) == p.blocked_reason
        }),
{
    goal_words_differ();
}

/// A goal is told with all its parts, each under its key, and its whole plan in
/// order.
pub proof fn goals_are_told_whole(g: GoalView)
    ensures
        ({
            let j = goal_json(g);
            &&& text_at(j, "id"@) == Some(g.id)
            &&& text_at(j, "objective"@) == Some(g.objective)
            &&& text_at(j, "status"@) == Some(goal_status_text(g.status))
            &&& g.token_budget matches Some(n) ==> holds_number(j, "token_budget"@, Some(n as int))
            &&& g.token_budget is None ==> holds_number(j, "token_budget"@, None)
            &&& holds_number(j, "tokens_used"@, Some(g.tokens_used as int))
            &&& holds_number(j, "time_used_seconds"@, Some(g.time_used_seconds as int))
            &&& holds_number(j, "created_at"@, Some(g.created_at as int))
            &&& holds_number(j, "updated_at"@, Some(g.updated_at as int))
            &&& holds_number(
                j,
                "consecutive_blocked_turns"@,
                Some(g.consecutive_blocked_turns as int),
            )
            &&& field(j, "plan"@) matches Some(JsonView::Array(js)) && js.len() == g.plan.len()
                && forall|k: int|
                0 <= k < js.len() ==> #[trigger] js[k] == step_json(g.plan[k])
        }),
{
    goal_words_differ();
}

/// What is told of a goal determines the goal.
pub proof fn goals_are_told_apart(a: GoalView, b: GoalView)
    requires
        goal_json(a) == goal_json(b),
    ensures
        a == b,
{
    goal_words_differ();
    goals_are_told_whole(a);
    goals_are_told_whole(b);
    goal_words(a.status);
    goal_words(b.status);
    let js = field(goal_json(a), "plan"@)->Some_0->Array_0;
    assert forall|k: int| 0 <= k < a.plan.len() implies a.plan[k] == b.plan[k] by {
        assert(js[k] == step_json(a.plan[k]));
        assert(js[k] == step_json(b.plan[k]));
        steps_are_told_whole(a.plan[k]);
        steps_are_told_whole(b.plan[k]);
        step_words(a.plan[k].status);
        step_words(b.plan[k].status);
    }
    assert(a.plan =~= b.plan);
}

} // verus!
