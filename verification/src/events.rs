//! What the agent reports while it works.

use crate::text::Text;
use vstd::prelude::*;

verus! {

/// Token counts of a session so far. The savings are in millionths of a
/// millionth of a dollar.
#[derive(Debug, Clone, Copy, PartialEq, Eq, Structural)]
pub struct TokenUsageInfo {
    pub input: u64,
    pub output: u64,
    pub cached: u64,
    pub cache_savings: u128,
    pub thinking_tokens: u64,
}

/// What the agent reports while it works.
#[allow(inconsistent_fields)]
#[derive(Debug)]
pub enum AgentStreamEvent {
    TurnStart { thinking_mode: String },
    Thinking { text: String },
    ToolStart { id: String, name: String, args: String },
    ToolDone { id: String, name: String, summary: String },
    ToolError { id: String, name: String, error: String },
    Text { content: String },
    DiffCreated { path: String, original: String, modified: String },
    TaskList { tasks_json: String },
    GoalUpdate { goal_json: String },
    /// A continuation turn is about to start.
    AutoTurn { index: u32, max: u32 },
    /// No further continuation turn starts, and why: `goal_complete`, `goal_blocked`,
    /// `goal_paused`, `budget_limited`, `max_turns`, `goal_mode_off`, `no_goal`,
    /// `stalled`, `needs_input`, `cancelled` or `error`.
    AutoTurnEnd { reason: String },
    TurnEnd { finish_reason: String, token_usage: TokenUsageInfo, context_usage: u64 },
    SubagentStarted { parent_session_id: String, child_session_id: String },
    SubagentFinished {
        parent_session_id: String,
        child_session_id: String,
        status: String,
        summary: String,
    },
    /// A step of a harness session that is shown in the trajectory only.
    Trajectory { event_type: String, summary: String },
}

#[verifier::ext_equal]
#[allow(inconsistent_fields)]
pub enum EventView {
    TurnStart { thinking_mode: Text },
    Thinking { text: Text },
    ToolStart { id: Text, name: Text, args: Text },
    ToolDone { id: Text, name: Text, summary: Text },
    ToolError { id: Text, name: Text, error: Text },
    Text { content: Text },
    DiffCreated { path: Text, original: Text, modified: Text },
    TaskList { tasks_json: Text },
    GoalUpdate { goal_json: Text },
    AutoTurn { index: u32, max: u32 },
    AutoTurnEnd { reason: Text },
    TurnEnd { finish_reason: Text, token_usage: TokenUsageInfo, context_usage: u64 },
    SubagentStarted { parent_session_id: Text, child_session_id: Text },
    SubagentFinished {
        parent_session_id: Text,
        child_session_id: Text,
        status: Text,
        summary: Text,
    },
    Trajectory { event_type: Text, summary: Text },
}

impl View for AgentStreamEvent {
    type V = EventView;

    open spec fn view(&self) -> EventView {
        match *self {
            AgentStreamEvent::TurnStart { thinking_mode } => EventView::TurnStart {
                thinking_mode: thinking_mode@,
            },
            AgentStreamEvent::Thinking { text } => EventView::Thinking { text: text@ },
            AgentStreamEvent::ToolStart { id, name, args } => EventView::ToolStart {
                id: id@,
                name: name@,
                args: args@,
            },
            AgentStreamEvent::ToolDone { id, name, summary } => EventView::ToolDone {
                id: id@,
                name: name@,
                summary: summary@,
            },
            AgentStreamEvent::ToolError { id, name, error } => EventView::ToolError {
                id: id@,
                name: name@,
                error: error@,
            },
            AgentStreamEvent::Text { content } => EventView::Text { content: content@ },
            AgentStreamEvent::DiffCreated { path, original, modified } => EventView::DiffCreated {
                path: path@,
                original: original@,
                modified: modified@,
            },
            AgentStreamEvent::TaskList { tasks_json } => EventView::TaskList {
                tasks_json: tasks_json@,
            },
            AgentStreamEvent::GoalUpdate { goal_json } => EventView::GoalUpdate {
                goal_json: goal_json@,
            },
            AgentStreamEvent::AutoTurn { index, max } => EventView::AutoTurn { index, max },
            AgentStreamEvent::AutoTurnEnd { reason } => EventView::AutoTurnEnd { reason: reason@ },
            AgentStreamEvent::TurnEnd { finish_reason, token_usage, context_usage } => {
                EventView::TurnEnd { finish_reason: finish_reason@, token_usage, context_usage }
            },
            AgentStreamEvent::SubagentStarted { parent_session_id, child_session_id } => {
                EventView::SubagentStarted {
                    parent_session_id: parent_session_id@,
                    child_session_id: child_session_id@,
                }
            },
            AgentStreamEvent::SubagentFinished {
                parent_session_id,
                child_session_id,
                status,
                summary,
            } => EventView::SubagentFinished {
                parent_session_id: parent_session_id@,
                child_session_id: child_session_id@,
                status: status@,
                summary: summary@,
            },
            AgentStreamEvent::Trajectory { event_type, summary } => EventView::Trajectory {
                event_type: event_type@,
                summary: summary@,
            },
        }
    }
}

} // verus!
