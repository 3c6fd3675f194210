//! Messages and requests as the JSON values that go over the wire.

use crate::api::{
    MessagesRequest, RequestView, ThinkingConfig, ThinkingView, ToolDefinition, ToolDefinitionView,
};
use crate::events::{AgentStreamEvent, EventView};
use crate::json::{
    array, empty_object, integer, json_string, json_text, string, with_field, Json, JsonView,
};
use crate::message::{
    role_text, BlockView, Content, ContentBlock, ContentView, Message, MessageView, Role,
};
use crate::session::{
    goal_status_text, step_status_text, GoalView, PlanStep, SessionGoal, StepView,
};
use crate::text::{lemma_views_push, opt_view, views, Text};
use vstd::prelude::*;

verus! {

/// An object with a type.
pub open spec fn typed(tag: Text) -> Map<Text, JsonView> {
    Map::<Text, JsonView>::empty().insert("type"@, JsonView::Str(tag))
}

/// A text, or `null`.
pub open spec fn text_or_null(t: Option<Text>) -> JsonView {
    match t {
        Some(s) => JsonView::Str(s),
        None => JsonView::Null,
    }
}

/// A block as it is sent.
pub open spec fn block_json(b: BlockView) -> JsonView {
    JsonView::Object(
        match b {
            BlockView::Text { text } => typed("text"@).insert("text"@, JsonView::Str(text)),
            BlockView::ToolUse { id, name, input } => typed("tool_use"@).insert(
                "id"@,
                JsonView::Str(id),
            ).insert("name"@, JsonView::Str(name)).insert("input"@, input),
            BlockView::ToolResult { tool_use_id, content } => typed("tool_result"@).insert(
                "tool_use_id"@,
                JsonView::Str(tool_use_id),
            ).insert("content"@, JsonView::Str(content)),
            BlockView::WebSearchResult { tool_use_id, title, url, content } => typed(
                "web_search_tool_result"@,
            ).insert("tool_use_id"@, JsonView::Str(tool_use_id)).insert(
                "title"@,
                text_or_null(title),
            ).insert("url"@, text_or_null(url)).insert("content"@, content),
            BlockView::ServerToolUse { id, name, input } => typed("server_tool_use"@).insert(
                "id"@,
                JsonView::Str(id),
            ).insert("name"@, JsonView::Str(name)).insert("input"@, input),
            BlockView::Thinking { thinking, signature } => {
                let t = typed("thinking"@).insert("thinking"@, JsonView::Str(thinking));
                match signature {
                    Some(s) => t.insert("signature"@, JsonView::Str(s)),
                    None => t,
                }
            },
            BlockView::RedactedThinking { data } => typed("redacted_thinking"@).insert(
                "data"@,
                JsonView::Str(data),
            ),
            BlockView::Unknown => typed("unknown"@),
        },
    )
}

/// An integer, or `null`.
pub open spec fn int_or_null(n: Option<int>) -> JsonView {
    match n {
        Some(n) => JsonView::Int(n),
        None => JsonView::Null,
    }
}

/// What a message holds, as it is sent.
pub open spec fn content_json(c: ContentView) -> JsonView {
    match c {
        ContentView::Text(t) => JsonView::Str(t),
        ContentView::Blocks(bs) => JsonView::Array(bs.map_values(|b: BlockView| block_json(b))),
    }
}

/// A message as it is sent: without its time and without the mark of a trigger.
pub open spec fn message_json(m: MessageView) -> JsonView {
    JsonView::Object(
        Map::<Text, JsonView>::empty().insert("role"@, JsonView::Str(role_text(m.role))).insert(
            "content"@,
            content_json(m.content),
        ),
    )
}

/// A map with a field more where there is a value for it.
pub open spec fn with_some(
    m: Map<Text, JsonView>,
    key: Text,
    value: Option<JsonView>,
) -> Map<Text, JsonView> {
    match value {
        Some(v) => m.insert(key, v),
        None => m,
    }
}

pub open spec fn as_str_value(t: Option<Text>) -> Option<JsonView> {
    match t {
        Some(s) => Some(JsonView::Str(s)),
        None => None,
    }
}

pub open spec fn as_int_value(n: Option<u32>) -> Option<JsonView> {
    match n {
        Some(n) => Some(JsonView::Int(n as int)),
        None => None,
    }
}

/// A tool as it is offered.
pub open spec fn tool_definition_json(t: ToolDefinitionView) -> JsonView {
    let a = with_some(Map::empty(), "type"@, as_str_value(t.tool_type)).insert(
        "name"@,
        JsonView::Str(t.name),
    );
    let b = with_some(a, "description"@, as_str_value(t.description));
    let c = with_some(b, "input_schema"@, t.input_schema);
    JsonView::Object(with_some(c, "max_uses"@, as_int_value(t.max_uses)))
}

pub open spec fn thinking_json(t: ThinkingView) -> JsonView {
    JsonView::Object(
        with_some(typed(t.thinking_type), "budget_tokens"@, as_int_value(t.budget_tokens)),
    )
}

/// A request as it is sent.
pub open spec fn request_value(r: RequestView) -> JsonView {
    let a = Map::<Text, JsonView>::empty().insert("model"@, JsonView::Str(r.model)).insert(
        "system"@,
        JsonView::Str(r.system),
    ).insert(
        "messages"@,
        JsonView::Array(r.messages.map_values(|m: MessageView| message_json(m))),
    ).insert("max_tokens"@, JsonView::Int(r.max_tokens as int));
    let b = with_some(
        a,
        "tools"@,
        match r.tools {
            Some(ts) => Some(
                JsonView::Array(ts.map_values(|t: ToolDefinitionView| tool_definition_json(t))),
            ),
            None => None,
        },
    );
    let c = with_some(
        b,
        "thinking"@,
        match r.thinking {
            Some(t) => Some(thinking_json(t)),
            None => None,
        },
    );
    JsonView::Object(
        with_some(
            c,
            "stream"@,
            match r.stream {
                Some(s) => Some(JsonView::Bool(s)),
                None => None,
            },
        ),
    )
}

fn typed_object(tag: &str) -> (r: Json)
    ensures
        r@ == JsonView::Object(typed(tag@)),
{
    with_field(empty_object(), "type", string(tag))
}

fn nullable(t: &Option<String>) -> (r: Json)
    ensures
        r@ == text_or_null(opt_view(*t)),
{
    match t {
        Some(s) => string(s),
        None => Json::Null,
    }
}

fn field_if(object: Json, key: &str, value: Option<Json>) -> (r: Json)
    requires
        object@ is Object,
    ensures
        r@ == JsonView::Object(with_some(object@->Object_0, key@, opt_view(value))),
{
    match value {
        Some(v) => with_field(object, key, v),
        None => object,
    }
}

fn str_value(t: &Option<String>) -> (r: Option<Json>)
    ensures
        opt_view(r) == as_str_value(opt_view(*t)),
{
    match t {
        Some(s) => Some(string(s)),
        None => None,
    }
}

fn int_value(n: Option<u32>) -> (r: Option<Json>)
    ensures
        opt_view(r) == as_int_value(n),
{
    match n {
        Some(n) => Some(Json::PosInt(n as u64)),
        None => None,
    }
}

impl ContentBlock {
    /// The block as it is sent.
    pub fn to_json(&self) -> (r: Json)
        ensures
            r@ == block_json(self@),
    {
        match self {
            ContentBlock::Text { text } => with_field(typed_object("text"), "text", string(text)),
            ContentBlock::ToolUse { id, name, input } => with_field(
                with_field(
                    with_field(typed_object("tool_use"), "id", string(id)),
                    "name",
                    string(name),
                ),
                "input",
                input.clone(),
            ),
            ContentBlock::ToolResult { tool_use_id, content } => with_field(
                with_field(typed_object("tool_result"), "tool_use_id", string(tool_use_id)),
                "content",
                string(content),
            ),
            ContentBlock::WebSearchResult { tool_use_id, title, url, content } => with_field(
                with_field(
                    with_field(
                        with_field(
                            typed_object("web_search_tool_result"),
                            "tool_use_id",
                            string(tool_use_id),
                        ),
                        "title",
                        nullable(title),
                    ),
                    "url",
                    nullable(url),
                ),
                "content",
                content.clone(),
            ),
            ContentBlock::ServerToolUse { id, name, input } => with_field(
                with_field(
                    with_field(typed_object("server_tool_use"), "id", string(id)),
                    "name",
                    string(name),
                ),
                "input",
                input.clone(),
            ),
            ContentBlock::Thinking { thinking, signature } => {
                let t = with_field(typed_object("thinking"), "thinking", string(thinking));
                match signature {
                    Some(s) => with_field(t, "signature", string(s)),
                    None => t,
                }
            },
            ContentBlock::RedactedThinking { data } => with_field(
                typed_object("redacted_thinking"),
                "data",
                string(data),
            ),
            ContentBlock::Unknown => typed_object("unknown"),
        }
    }
}

fn blocks_to_json(blocks: &Vec<ContentBlock>) -> (r: Vec<Json>)
    ensures
        views(r@) == views(blocks@).map_values(|b: BlockView| block_json(b)),
{
    let ghost want = views(blocks@).map_values(|b: BlockView| block_json(b));
    let mut out: Vec<Json> = Vec::new();
    let mut i: usize = 0;
    while i < blocks.len()
        invariant
            i <= blocks@.len(),
            want == views(blocks@).map_values(|b: BlockView| block_json(b)),
            views(out@) == want.take(i as int),
        decreases blocks@.len() - i,
    {
        let j = blocks[i].to_json();
        proof {
            lemma_views_push(out@, j);
            assert(want.take(i + 1) =~= want.take(i as int).push(j@));
        }
        out.push(j);
        i = i + 1;
    }
    assert(want.take(i as int) =~= want);
    out
}

impl Message {
    /// The message as it is sent.
    pub fn to_json(&self) -> (r: Json)
        ensures
            r@ == message_json(self@),
    {
        let role = match self.role {
            Role::User => "user",
            Role::Assistant => "assistant",
        };
        let content = match &self.content {
            Content::Text(t) => string(t),
            Content::Blocks(bs) => array(blocks_to_json(bs)),
        };
        with_field(with_field(empty_object(), "role", string(role)), "content", content)
    }
}

fn messages_to_json(messages: &Vec<Message>) -> (r: Vec<Json>)
    ensures
        views(r@) == views(messages@).map_values(|m: MessageView| message_json(m)),
{
    let ghost want = views(messages@).map_values(|m: MessageView| message_json(m));
    let mut out: Vec<Json> = Vec::new();
    let mut i: usize = 0;
    while i < messages.len()
        invariant
            i <= messages@.len(),
            want == views(messages@).map_values(|m: MessageView| message_json(m)),
            views(out@) == want.take(i as int),
        decreases messages@.len() - i,
    {
        let j = messages[i].to_json();
        proof {
            lemma_views_push(out@, j);
            assert(want.take(i + 1) =~= want.take(i as int).push(j@));
        }
        out.push(j);
        i = i + 1;
    }
    assert(want.take(i as int) =~= want);
    out
}

impl ToolDefinition {
    /// The tool as it is offered.
    pub fn to_json(&self) -> (r: Json)
        ensures
            r@ == tool_definition_json(self@),
    {
        let schema = match &self.input_schema {
            Some(s) => Some(s.clone()),
            None => None,
        };
        let a = with_field(
            field_if(empty_object(), "type", str_value(&self.tool_type)),
            "name",
            string(&self.name),
        );
        field_if(
            field_if(
                field_if(a, "description", str_value(&self.description)),
                "input_schema",
                schema,
            ),
            "max_uses",
            int_value(self.max_uses),
        )
    }
}

fn tools_to_json(tools: &Vec<ToolDefinition>) -> (r: Vec<Json>)
    ensures
        views(r@) == views(tools@).map_values(|t: ToolDefinitionView| tool_definition_json(t)),
{
    let ghost want = views(tools@).map_values(|t: ToolDefinitionView| tool_definition_json(t));
    let mut out: Vec<Json> = Vec::new();
    let mut i: usize = 0;
    while i < tools.len()
        invariant
            i <= tools@.len(),
            want == views(tools@).map_values(|t: ToolDefinitionView| tool_definition_json(t)),
            views(out@) == want.take(i as int),
        decreases tools@.len() - i,
    {
        let j = tools[i].to_json();
        proof {
            lemma_views_push(out@, j);
            assert(want.take(i + 1) =~= want.take(i as int).push(j@));
        }
        out.push(j);
        i = i + 1;
    }
    assert(want.take(i as int) =~= want);
    out
}

impl ThinkingConfig {
    /// The mode of reasoning as it is sent.
    pub fn to_json(&self) -> (r: Json)
        ensures
            r@ == thinking_json(self@),
    {
        field_if(
            typed_object(&self.thinking_type),
            "budget_tokens",
            int_value(self.budget_tokens),
        )
    }
}

impl MessagesRequest {
    /// The request as it is sent.
    pub fn to_json(&self) -> (r: Json)
        ensures
            r@ == request_value(self@),
    {
        let a = with_field(
            with_field(
                with_field(
                    with_field(empty_object(), "model", string(&self.model)),
                    "system",
                    string(&self.system),
                ),
                "messages",
                array(messages_to_json(&self.messages)),
            ),
            "max_tokens",
            Json::PosInt(self.max_tokens as u64),
        );
        let tools = match &self.tools {
            Some(ts) => Some(array(tools_to_json(ts))),
            None => None,
        };
        let thinking = match &self.thinking {
            Some(t) => Some(t.to_json()),
            None => None,
        };
        let stream = match self.stream {
            Some(s) => Some(Json::Bool(s)),
            None => None,
        };
        field_if(field_if(field_if(a, "tools", tools), "thinking", thinking), "stream", stream)
    }

    /// The body of the request.
    pub fn body(&self) -> (r: String)
        ensures
            r@ == json_text(request_value(self@)),
    {
        json_string(&self.to_json())
    }
}

/// What is sent of a message does not tell when it came, nor whether it only
/// started a turn: messages that differ in that alone look the same.
pub proof fn times_stay_off_the_wire(a: MessageView, b: MessageView)
    requires
        a.role == b.role,
        a.content == b.content,
    ensures
        message_json(a) == message_json(b),
{
}

/// A step of a plan as JSON.
pub open spec fn step_json(p: StepView) -> JsonView {
    JsonView::Object(
        Map::<Text, JsonView>::empty().insert("id"@, JsonView::Str(p.id)).insert(
            "content"@,
            JsonView::Str(p.content),
        ).insert("status"@, JsonView::Str(step_status_text(p.status))).insert(
            "created_at"@,
            JsonView::Int(p.created_at as int),
        ).insert("started_at"@, int_or_null(opt_int(p.started_at))).insert(
            "completed_at"@,
            int_or_null(opt_int(p.completed_at)),
        ).insert("blocked_reason"@, text_or_null(p.blocked_reason)).insert(
            "estimate_sec"@,
            int_or_null(opt_nat(p.estimate_sec)),
        ),
    )
}

/// A goal as JSON, with its plan.
pub open spec fn goal_json(g: GoalView) -> JsonView {
    JsonView::Object(
        Map::<Text, JsonView>::empty().insert("id"@, JsonView::Str(g.id)).insert(
            "objective"@,
            JsonView::Str(g.objective),
        ).insert("status"@, JsonView::Str(goal_status_text(g.status))).insert(
            "token_budget"@,
            int_or_null(opt_nat(g.token_budget)),
        ).insert("tokens_used"@, JsonView::Int(g.tokens_used as int)).insert(
            "time_used_seconds"@,
            JsonView::Int(g.time_used_seconds as int),
        ).insert("created_at"@, JsonView::Int(g.created_at as int)).insert(
            "updated_at"@,
            JsonView::Int(g.updated_at as int),
        ).insert("plan"@, JsonView::Array(Seq::new(g.plan.len(), |i: int| step_json(g.plan[i])))).insert(
            "consecutive_blocked_turns"@,
            JsonView::Int(g.consecutive_blocked_turns as int),
        ),
    )
}

pub open spec fn opt_int(n: Option<i64>) -> Option<int> {
    match n {
        Some(n) => Some(n as int),
        None => None,
    }
}

pub open spec fn opt_nat(n: Option<u64>) -> Option<int> {
    match n {
        Some(n) => Some(n as int),
        None => None,
    }
}

fn time_json(n: Option<i64>) -> (r: Json)
    ensures
        r@ == int_or_null(opt_int(n)),
{
    match n {
        Some(n) => integer(n),
        None => Json::Null,
    }
}

fn count_json(n: Option<u64>) -> (r: Json)
    ensures
        r@ == int_or_null(opt_nat(n)),
{
    match n {
        Some(n) => Json::PosInt(n),
        None => Json::Null,
    }
}

impl PlanStep {
    /// The step as JSON.
    pub fn to_json(&self) -> (r: Json)
        ensures
            r@ == step_json(self@),
    {
        let j = with_field(empty_object(), "id", string(&self.id));
        let j = with_field(j, "content", string(&self.content));
        let j = with_field(j, "status", string(self.status.as_str()));
        let j = with_field(j, "created_at", integer(self.created_at));
        let j = with_field(j, "started_at", time_json(self.started_at));
        let j = with_field(j, "completed_at", time_json(self.completed_at));
        let reason = match &self.blocked_reason {
            Some(t) => string(t),
            None => Json::Null,
        };
        let j = with_field(j, "blocked_reason", reason);
        with_field(j, "estimate_sec", count_json(self.estimate_sec))
    }
}

impl SessionGoal {
    /// The goal as JSON.
    pub fn to_json(&self) -> (r: Json)
        ensures
            r@ == goal_json(self@),
    {
        let mut steps: Vec<Json> = Vec::new();
        let mut i: usize = 0;
        let ghost want = Seq::new(self@.plan.len(), |k: int| step_json(self@.plan[k]));
        assert(views(steps@) =~= want.take(0));
        while i < self.plan.len()
            invariant
                i <= self.plan@.len(),
                want == Seq::new(self@.plan.len(), |k: int| step_json(self@.plan[k])),
                views(steps@) == want.take(i as int),
            decreases self.plan@.len() - i,
        {
            let step = self.plan[i].to_json();
            proof {
                lemma_views_push(steps@, step);
                assert(step@ == want[i as int]);
                assert(want.take(i + 1) =~= want.take(i as int).push(want[i as int]));
            }
            steps.push(step);
            i = i + 1;
        }
        assert(want.take(i as int) =~= want);
        let j = with_field(empty_object(), "id", string(&self.id));
        let j = with_field(j, "objective", string(&self.objective));
        let j = with_field(j, "status", string(self.status.as_str()));
        let j = with_field(j, "token_budget", count_json(self.token_budget));
        let j = with_field(j, "tokens_used", Json::PosInt(self.tokens_used));
        let j = with_field(j, "time_used_seconds", Json::PosInt(self.time_used_seconds));
        let j = with_field(j, "created_at", integer(self.created_at));
        let j = with_field(j, "updated_at", integer(self.updated_at));
        let j = with_field(j, "plan", array(steps));
        with_field(
            j,
            "consecutive_blocked_turns",
            Json::PosInt(self.consecutive_blocked_turns as u64),
        )
    }
}

/// What is reported of a goal that has changed.
pub fn goal_update(goal: &SessionGoal) -> (r: AgentStreamEvent)
    ensures
        r@ == (EventView::GoalUpdate { goal_json: json_text(goal_json(goal@)) }),
{
    AgentStreamEvent::GoalUpdate { goal_json: json_string(&goal.to_json()) }
}

} // verus!
