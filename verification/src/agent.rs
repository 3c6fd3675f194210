//! The agent: its state, what the user can set, and how sessions and goals are
//! taken up.

use crate::api::{MODEL_FLASH, MODEL_PRO};
use crate::context::{
    build_system_prompt, engine_breakdown, estimate_is_bounded, estimate_tokens, listed_tokens,
    system_prompt_for, token_estimate, BreakdownView, ContextBreakdown, ContextEngine, EngineView,
    ProjectContext, SYSTEM_PROMPT,
};
use crate::events::{AgentStreamEvent, EventView};
use crate::goals::{answer_view, make_goal, new_goal};
use crate::history::{
    compacted, compaction_cut, cut_place, estimate_history, history_comes_back, history_tokens,
    outward, rebuild_history, restored, restore_messages, snapshot, snapshot_of,
    unknown_roles_are_dropped,
};
use crate::ids::{fresh_uuid, is_uuid};
use crate::json::{array, empty_object, json_string, json_text, with_field, Json, JsonView};
use crate::message::{copy_messages, Message, MessageView};
use crate::session::{copy_goal, GoalStatus, GoalView, SessionGoal, StoredMessage, StoredView};
use crate::text::{blank, decimal, is_blank, number, opt_view, text_eq, trim, trimmed, views, Text};
use crate::tools::{get_tool_definitions_json, tool_definitions};
use vstd::prelude::*;

verus! {

/// What the agent knows.
#[derive(Debug)]
pub struct AgentState {
    pub system_prompt: String,
    pub messages: Vec<Message>,
    pub context_engine: ContextEngine,
    pub model: String,
    pub total_input_tokens: u64,
    pub total_output_tokens: u64,
    pub total_cached_tokens: u64,
    /// In millionths of a millionth of a dollar.
    pub total_cost: u128,
    /// In millionths of a millionth of a dollar.
    pub total_cache_savings: u128,
    pub total_thinking_tokens: u64,
    /// The reasoning budgets of the two thinking modes.
    pub think_budget: u32,
    pub deep_budget: u32,
    /// Whether the model is told of the age of things.
    pub time_harness: bool,
    pub goal: Option<SessionGoal>,
    /// Whether turns follow one another by themselves while a goal is active.
    pub goal_mode: bool,
    pub goal_max_auto_turns: u32,
    /// Continuation turns since the last message of the user.
    pub auto_turns_used: u32,
}

#[verifier::ext_equal]
pub struct StateView {
    pub system_prompt: Text,
    pub messages: Seq<MessageView>,
    pub context_engine: EngineView,
    pub model: Text,
    pub total_input_tokens: u64,
    pub total_output_tokens: u64,
    pub total_cached_tokens: u64,
    pub total_cost: u128,
    pub total_cache_savings: u128,
    pub total_thinking_tokens: u64,
    pub think_budget: u32,
    pub deep_budget: u32,
    pub time_harness: bool,
    pub goal: Option<GoalView>,
    pub goal_mode: bool,
    pub goal_max_auto_turns: u32,
    pub auto_turns_used: u32,
}

impl View for AgentState {
    type V = StateView;

    open spec fn view(&self) -> StateView {
        StateView {
            system_prompt: self.system_prompt@,
            messages: views(self.messages@),
            context_engine: self.context_engine@,
            model: self.model@,
            total_input_tokens: self.total_input_tokens,
            total_output_tokens: self.total_output_tokens,
            total_cached_tokens: self.total_cached_tokens,
            total_cost: self.total_cost,
            total_cache_savings: self.total_cache_savings,
            total_thinking_tokens: self.total_thinking_tokens,
            think_budget: self.think_budget,
            deep_budget: self.deep_budget,
            time_harness: self.time_harness,
            goal: opt_view(self.goal),
            goal_mode: self.goal_mode,
            goal_max_auto_turns: self.goal_max_auto_turns,
            auto_turns_used: self.auto_turns_used,
        }
    }
}

/// The agent of one workspace.
#[derive(Debug)]
pub struct AgentLoop {
    pub state: AgentState,
    pub cancelled: bool,
}

/// The state of a new agent: goal mode on with 20 turns, the time layer on.
pub open spec fn initial_state(model: Text, engine: EngineView) -> StateView {
    StateView {
        system_prompt: Seq::empty(),
        messages: Seq::empty(),
        context_engine: engine,
        model,
        total_input_tokens: 0,
        total_output_tokens: 0,
        total_cached_tokens: 0,
        total_cost: 0,
        total_cache_savings: 0,
        total_thinking_tokens: 0,
        think_budget: 16_000,
        deep_budget: 32_000,
        time_harness: true,
        goal: None,
        goal_mode: true,
        goal_max_auto_turns: 20,
        auto_turns_used: 0,
    }
}

/// What the model is told when it takes over from another.
pub open spec fn takeover_note(model: Text) -> Text {
    "\n\n## Model Takeover\n\nYou have taken over this conversation from another DeepSeek model. Current model: "@
        + (if model == MODEL_FLASH@ {
        "DeepSeek V4 Flash — agent-tuned, fast and cost-efficient"@
    } else {
        "DeepSeek V4 Pro — full-size, deliberate"@
    })
        + ". The complete conversation history — every user message, your predecessor's responses, thinking traces, and tool results — is in your context window; nothing was lost or reset by the switch. Continue the existing work seamlessly: keep the user's goals, prior decisions, and file changes in mind. Do not announce the switch. If the user asks whether you can see the conversation, confirm from context and summarize it directly — do not re-read files to verify."@
}

/// Whether a model can be chosen.
pub open spec fn is_known_model(model: Text) -> bool {
    model == MODEL_FLASH@ || model == MODEL_PRO@
}

/// `n` held between `low` and `high`.
pub open spec fn held(n: u32, low: u32, high: u32) -> u32 {
    if n < low {
        low
    } else if n > high {
        high
    } else {
        n
    }
}

fn hold(n: u32, low: u32, high: u32) -> (r: u32)
    ensures
        r == held(n, low, high),
{
    if n < low {
        low
    } else if n > high {
        high
    } else {
        n
    }
}

/// How the model is asked for a summary.
pub const SUMMARIZER_PROMPT: &'static str = "You are a conversation summarizer. Compress the conversation below into a dense summary preserving: the user's goals and requirements, all decisions made, file paths touched, tool outputs that still matter, and outstanding tasks. Output compact plain prose with at most a few short bullets. No markdown headers, no code fences. Target under 600 tokens.";

/// Whether another turn may follow by itself.
pub open spec fn can_auto_advance(s: StateView) -> bool {
    &&& s.goal_mode
    &&& s.goal matches Some(g)
    &&& g.status is Active
    &&& s.auto_turns_used < s.goal_max_auto_turns
}

/// The state after a continuation turn has been counted.
pub open spec fn auto_turn_noted(s: StateView) -> StateView {
    StateView {
        auto_turns_used: if s.auto_turns_used == u32::MAX {
            u32::MAX
        } else {
            (s.auto_turns_used + 1) as u32
        },
        ..s
    }
}

/// What starts a continuation turn.
pub open spec fn continuation_text(goal: Option<GoalView>) -> Text {
    "（目标模式自动续作）继续推进当前目标，不要为了等待输入而停步。基于现有上下文与目标直接推进；若确实被阻塞、需要用户输入或无法再取得进展，停止并明确说明。当前目标："@
        + (match goal {
        Some(g) => g.objective,
        None => Seq::empty(),
    })
}

/// The goal after the user paused or resumed it: resuming starts a fresh count of
/// blocked turns.
pub open spec fn paused_goal(g: GoalView, paused: bool, now: i64) -> GoalView {
    GoalView {
        status: if paused {
            GoalStatus::Paused
        } else {
            GoalStatus::Active
        },
        consecutive_blocked_turns: if paused {
            g.consecutive_blocked_turns
        } else {
            0
        },
        updated_at: now,
        ..g
    }
}

/// What takes up the window, with all parts filled in.
pub open spec fn full_breakdown(s: StateView) -> BreakdownView {
    let b = engine_breakdown(s.context_engine);
    let system = token_estimate(s.system_prompt);
    let tools = token_estimate(json_text(JsonView::Array(tool_definitions())));
    BreakdownView {
        system_prompt_tokens: (if system >= b.structure_tokens {
            system - b.structure_tokens
        } else {
            0
        }) as u64,
        conversation_tokens: history_tokens(s.messages) as u64,
        tool_definitions_tokens: tools as u64,
        total_tokens: (system + history_tokens(s.messages) + tools) as u64,
        ..b
    }
}

/// The tokens of the system prompt and the conversation.
pub open spec fn prompt_tokens(s: StateView) -> int {
    token_estimate(s.system_prompt) + history_tokens(s.messages)
}

/// What is reported of a summary of the history.
pub open spec fn compaction_events(tokens: nat) -> Seq<EventView> {
    seq![
        EventView::ToolStart {
            id: "ctx-compact"@,
            name: "compact_context"@,
            args: "Summarizing history to keep the context window healthy"@,
        },
        EventView::ToolDone {
            id: "ctx-compact"@,
            name: "compact_context"@,
            summary: "History compressed to ~"@ + decimal(tokens) + " tokens"@,
        },
    ]
}

impl AgentLoop {
    pub fn new(model: String, workspace_root: String) -> (r: AgentLoop)
        ensures
            r.state@ == initial_state(
                model@,
                (EngineView {
                    token_usage: 0,
                    soft_forget_threshold: 580_000,
                    max_tokens: 1_048_576,
                    output_reservation: 384_000,
                    workspace_root: workspace_root@,
                    file_index: Seq::empty(),
                    structure_tokens: 0,
                    system_prompt_tokens: token_estimate(SYSTEM_PROMPT@) as u64,
                }),
            ),
            !r.cancelled,
    {
        let state = AgentState {
            system_prompt: String::new(),
            messages: Vec::new(),
            context_engine: ContextEngine::new(workspace_root),
            model,
            total_input_tokens: 0,
            total_output_tokens: 0,
            total_cached_tokens: 0,
            total_cost: 0,
            total_cache_savings: 0,
            total_thinking_tokens: 0,
            think_budget: 16_000,
            deep_budget: 32_000,
            time_harness: true,
            goal: None,
            goal_mode: true,
            goal_max_auto_turns: 20,
            auto_turns_used: 0,
        };
        assert(state@.messages =~= Seq::<MessageView>::empty());
        AgentLoop { state, cancelled: false }
    }

    /// Asks the turn that is running to stop.
    pub fn cancel(&mut self)
        ensures
            final(self).cancelled,
            final(self).state@ == old(self).state@,
    {
        self.cancelled = true;
    }

    pub fn reset_cancel(&mut self)
        ensures
            !final(self).cancelled,
            final(self).state@ == old(self).state@,
    {
        self.cancelled = false;
    }

    /// Changes the model and keeps the conversation; the incoming model is told
    /// that it takes over.
    pub fn switch_model(&mut self, model: String) -> (r: Result<String, String>)
        ensures
            is_known_model(model@) ==> answer_view(r) == Ok::<Text, Text>(model@)
                && final(self).state@ == (StateView {
                model: model@,
                system_prompt: old(self).state@.system_prompt + takeover_note(model@),
                ..old(self).state@
            }),
            !is_known_model(model@) ==> answer_view(r) == Err::<Text, Text>(
                "Unknown model: "@ + model@,
            ) && final(self).state@ == old(self).state@,
            final(self).cancelled == old(self).cancelled,
    {
        let flash = text_eq(&model, MODEL_FLASH);
        if !flash && !text_eq(&model, MODEL_PRO) {
            let mut e = "Unknown model: ".to_string();
            e.push_str(&model);
            return Err(e);
        }
        let mut note = "\n\n## Model Takeover\n\nYou have taken over this conversation from another DeepSeek model. Current model: ".to_string();
        if flash {
            note.push_str("DeepSeek V4 Flash — agent-tuned, fast and cost-efficient");
        } else {
            note.push_str("DeepSeek V4 Pro — full-size, deliberate");
        }
        note.push_str(
            ". The complete conversation history — every user message, your predecessor's responses, thinking traces, and tool results — is in your context window; nothing was lost or reset by the switch. Continue the existing work seamlessly: keep the user's goals, prior decisions, and file changes in mind. Do not announce the switch. If the user asks whether you can see the conversation, confirm from context and summarize it directly — do not re-read files to verify.",
        );
        let mut prompt = self.state.system_prompt.clone();
        prompt.push_str(&note);
        self.state.system_prompt = prompt;
        self.state.model = model.clone();
        Ok(model)
    }

    /// Sets the reasoning budgets, within what the endpoint can do.
    pub fn set_thinking_budgets(&mut self, think_budget: u32, deep_budget: u32) -> (r: String)
        ensures
            final(self).state@ == (StateView {
                think_budget: held(think_budget, 1_000, 64_000),
                deep_budget: held(deep_budget, 4_000, 196_608),
                ..old(self).state@
            }),
            r@ == "Thinking budgets updated: Think="@ + decimal(
                held(think_budget, 1_000, 64_000) as nat,
            ) + " tok, Deep="@ + decimal(held(deep_budget, 4_000, 196_608) as nat) + " tok."@,
            final(self).cancelled == old(self).cancelled,
    {
        let think: u32 = hold(think_budget, 1_000, 64_000);
        let deep: u32 = hold(deep_budget, 4_000, 196_608);
        self.state.think_budget = think;
        self.state.deep_budget = deep;
        let mut s = "Thinking budgets updated: Think=".to_string();
        s.push_str(&number(think as u64));
        s.push_str(" tok, Deep=");
        s.push_str(&number(deep as u64));
        s.push_str(" tok.");
        s
    }

    /// Switches the time layer and rebuilds the prompt for the project as it was
    /// scanned just now.
    pub fn set_time_harness(&mut self, enabled: bool, project_ctx: &ProjectContext) -> (r: String)
        ensures
            final(self).state@ == (StateView {
                time_harness: enabled,
                system_prompt: system_prompt_for(project_ctx@, enabled),
                ..old(self).state@
            }),
            r@ == (if enabled {
                "Time Awareness Layer enabled — tool results now carry freshness stamps."@
            } else {
                "Time Awareness Layer disabled."@
            }),
            final(self).cancelled == old(self).cancelled,
    {
        self.state.time_harness = enabled;
        self.state.system_prompt = build_system_prompt(project_ctx, enabled);
        if enabled {
            "Time Awareness Layer enabled — tool results now carry freshness stamps.".to_string()
        } else {
            "Time Awareness Layer disabled.".to_string()
        }
    }

    /// Starts a new session in a project: no messages, no goal.
    pub fn initialize(&mut self, project_ctx: &ProjectContext) -> (r: String)
        ensures
            final(self).state@ == (StateView {
                system_prompt: system_prompt_for(project_ctx@, old(self).state@.time_harness),
                messages: Seq::empty(),
                goal: None,
                ..old(self).state@
            }),
            r@ == "Session initialized. "@ + decimal(project_ctx@.key_files.len())
                + " files indexed, "@ + decimal(project_ctx@.total_estimated_tokens as nat)
                + " tokens loaded."@,
            final(self).cancelled == old(self).cancelled,
    {
        self.state.system_prompt = build_system_prompt(project_ctx, self.state.time_harness);
        self.state.messages = Vec::new();
        self.state.goal = None;
        assert(self.state@.messages =~= Seq::<MessageView>::empty());
        let mut s = "Session initialized. ".to_string();
        s.push_str(&number(project_ctx.key_files.len() as u64));
        s.push_str(" files indexed, ");
        s.push_str(&number(project_ctx.total_estimated_tokens));
        s.push_str(" tokens loaded.");
        s
    }

    /// What a summary of the history would work on: the messages to summarize and
    /// those to keep. `None` where there is nothing to summarize.
    pub fn plan_compaction(&self) -> (r: Option<(Vec<Message>, Vec<Message>)>)
        ensures
            match r {
                None => cut_place(self.state@.messages) == 0,
                Some((old_part, kept)) => cut_place(self.state@.messages) > 0 && views(old_part@)
                    == self.state@.messages.take(cut_place(self.state@.messages)) && views(kept@)
                    == self.state@.messages.skip(cut_place(self.state@.messages)),
            },
    {
        let cut: usize = compaction_cut(&self.state.messages);
        if cut == 0 {
            return None;
        }
        let total: usize = self.state.messages.len();
        let a = copy_messages(&self.state.messages, 0, cut);
        let b = copy_messages(&self.state.messages, cut, total);
        assert(views(a@) =~= self.state@.messages.take(cut as int));
        assert(views(b@) =~= self.state@.messages.skip(cut as int));
        Some((a, b))
    }

    /// Puts a summary in place of what was summarized, and counts the history
    /// anew.
    pub fn finish_compaction(&mut self, kept: Vec<Message>, summary: &str, now: i64) -> (r: (
        String,
        Vec<AgentStreamEvent>,
    ))
        requires
            history_tokens(compacted(views(kept@), summary@, now)) <= u64::MAX,
        ensures
            ({
                let ms = compacted(views(kept@), summary@, now);
                let n = history_tokens(ms);
                &&& final(self).state@ == (StateView {
                    messages: ms,
                    context_engine: EngineView {
                        token_usage: n as u64,
                        ..old(self).state@.context_engine
                    },
                    ..old(self).state@
                })
                &&& r.0@ == "Context compacted to ~"@ + decimal(n as nat) + " tokens."@
                &&& views(r.1@) == compaction_events(n as nat)
            }),
            final(self).cancelled == old(self).cancelled,
    {
        let messages = rebuild_history(kept, summary, now);
        let n: u64 = estimate_history(&messages);
        self.state.messages = messages;
        self.state.context_engine.token_usage = n;
        let mut events: Vec<AgentStreamEvent> = Vec::new();
        events.push(
            AgentStreamEvent::ToolStart {
                id: "ctx-compact".to_string(),
                name: "compact_context".to_string(),
                args: "Summarizing history to keep the context window healthy".to_string(),
            },
        );
        let mut summary_text = "History compressed to ~".to_string();
        summary_text.push_str(&number(n));
        summary_text.push_str(" tokens");
        events.push(
            AgentStreamEvent::ToolDone {
                id: "ctx-compact".to_string(),
                name: "compact_context".to_string(),
                summary: summary_text,
            },
        );
        assert(views(events@) =~= compaction_events(n as nat));
        let mut s = "Context compacted to ~".to_string();
        s.push_str(&number(n));
        s.push_str(" tokens.");
        (s, events)
    }

    /// Takes up a stored conversation. One without any usable message is refused
    /// and changes nothing.
    pub fn restore_session(&mut self, stored: &Vec<StoredMessage>) -> (r: Result<String, String>)
        requires
            history_tokens(restored(views(stored@))) <= u64::MAX,
        ensures
            (answer_view(r), final(self).state@) == taken_up(old(self).state@, views(stored@)),
            final(self).cancelled == old(self).cancelled,
    {
        let messages = restore_messages(stored);
        if messages.len() == 0 {
            return Err("Session has no usable messages.".to_string());
        }
        let n: u64 = estimate_history(&messages);
        let mut s = "Restored ".to_string();
        s.push_str(&number(messages.len() as u64));
        s.push_str(" messages into context.");
        self.state.messages = messages;
        self.state.context_engine.token_usage = n;
        Ok(s)
    }

    /// What is stored of the conversation.
    pub fn snapshot_messages(&self) -> (r: Vec<StoredMessage>)
        ensures
            views(r@) == snapshot(self.state@.messages),
    {
        snapshot_of(&self.state.messages)
    }

    /// The goal, for storage.
    pub fn snapshot_goal(&self) -> (r: Option<SessionGoal>)
        ensures
            opt_view(r) == self.state@.goal,
    {
        copy_goal(&self.state.goal)
    }

    /// Takes up a stored goal.
    pub fn restore_goal(&mut self, goal: Option<SessionGoal>)
        ensures
            final(self).state@ == (StateView { goal: opt_view(goal), ..old(self).state@ }),
            final(self).cancelled == old(self).cancelled,
    {
        self.state.goal = goal;
    }

    /// Sets the goal for the user, in place of any other; `id` names it.
    pub fn set_goal_with(
        &mut self,
        objective: &str,
        token_budget: Option<u64>,
        now: i64,
        id: String,
    ) -> (r: Result<String, String>)
        ensures
            is_blank(objective@) ==> answer_view(r) == Err::<Text, Text>(
                "Objective must not be empty."@,
            ) && final(self).state@ == old(self).state@,
            !is_blank(objective@) ==> answer_view(r) == Ok::<Text, Text>(trimmed(objective@))
                && final(self).state@ == (StateView {
                goal: Some(new_goal(id@, trimmed(objective@), token_budget, now)),
                auto_turns_used: 0,
                ..old(self).state@
            }),
            final(self).cancelled == old(self).cancelled,
    {
        if blank(objective) {
            return Err("Objective must not be empty.".to_string());
        }
        let text = trim(objective);
        self.state.goal = Some(make_goal(id, text.clone(), token_budget, now));
        self.state.auto_turns_used = 0;
        Ok(text)
    }

    /// Sets the goal for the user, in place of any other.
    pub fn set_goal(&mut self, objective: &str, token_budget: Option<u64>, now: i64) -> (r: Result<
        String,
        String,
    >)
        ensures
            is_blank(objective@) ==> answer_view(r) == Err::<Text, Text>(
                "Objective must not be empty."@,
            ) && final(self).state@ == old(self).state@,
            !is_blank(objective@) ==> answer_view(r) == Ok::<Text, Text>(trimmed(objective@))
                && exists|id: Text|
                is_uuid(id) && final(self).state@ == (StateView {
                    goal: Some(#[trigger] new_goal(id, trimmed(objective@), token_budget, now)),
                    auto_turns_used: 0,
                    ..old(self).state@
                }),
            final(self).cancelled == old(self).cancelled,
    {
        let id = fresh_uuid();
        self.set_goal_with(objective, token_budget, now, id)
    }

    /// Switches goal mode.
    pub fn set_goal_mode(&mut self, enabled: bool) -> (r: String)
        ensures
            final(self).state@ == (StateView {
                goal_mode: enabled,
                auto_turns_used: if enabled {
                    old(self).state@.auto_turns_used
                } else {
                    0
                },
                ..old(self).state@
            }),
            r@ == (if enabled {
                "Goal mode enabled"@
            } else {
                "Goal mode disabled"@
            }),
            final(self).cancelled == old(self).cancelled,
    {
        self.state.goal_mode = enabled;
        if !enabled {
            self.state.auto_turns_used = 0;
        }
        if enabled {
            "Goal mode enabled".to_string()
        } else {
            "Goal mode disabled".to_string()
        }
    }

    /// Sets how many turns may follow by themselves, between 1 and 100.
    pub fn set_goal_max_auto_turns(&mut self, max: u32) -> (r: String)
        ensures
            final(self).state@ == (StateView {
                goal_max_auto_turns: held(max, 1, 100),
                ..old(self).state@
            }),
            r@ == "Max auto turns: "@ + decimal(held(max, 1, 100) as nat),
            final(self).cancelled == old(self).cancelled,
    {
        self.state.goal_max_auto_turns = hold(max, 1, 100);
        let mut s = "Max auto turns: ".to_string();
        s.push_str(&number(self.state.goal_max_auto_turns as u64));
        s
    }

    /// Pauses or resumes the goal for the user.
    pub fn set_goal_paused(&mut self, paused: bool, now: i64) -> (r: Result<String, String>)
        ensures
            match old(self).state@.goal {
                None => answer_view(r) == Err::<Text, Text>("No active goal."@)
                    && final(self).state@ == old(self).state@,
                Some(g) => answer_view(r) == Ok::<Text, Text>(
                    if paused {
                        "Goal paused"@
                    } else {
                        "Goal resumed"@
                    },
                ) && final(self).state@ == (StateView {
                    goal: Some(paused_goal(g, paused, now)),
                    ..old(self).state@
                }),
            },
            final(self).cancelled == old(self).cancelled,
    {
        let mut goal = match self.state.goal.as_ref() {
            Some(g) => g.clone(),
            None => {
                return Err("No active goal.".to_string());
            },
        };
        if paused {
            goal.status = GoalStatus::Paused;
        } else {
            goal.consecutive_blocked_turns = 0;
            goal.status = GoalStatus::Active;
        }
        goal.updated_at = now;
        self.state.goal = Some(goal);
        Ok(
            if paused {
                "Goal paused".to_string()
            } else {
                "Goal resumed".to_string()
            },
        )
    }

    /// Goal mode as the user sees it.
    pub fn goal_mode_state(&self) -> (r: Json)
        ensures
            r@ == JsonView::Object(
                Map::<Text, JsonView>::empty().insert(
                    "goal_mode"@,
                    JsonView::Bool(self.state@.goal_mode),
                ).insert(
                    "goal_max_auto_turns"@,
                    JsonView::Int(self.state@.goal_max_auto_turns as int),
                ).insert("auto_turns_used"@, JsonView::Int(self.state@.auto_turns_used as int)),
            ),
    {
        with_field(
            with_field(
                with_field(empty_object(), "goal_mode", Json::Bool(self.state.goal_mode)),
                "goal_max_auto_turns",
                Json::PosInt(self.state.goal_max_auto_turns as u64),
            ),
            "auto_turns_used",
            Json::PosInt(self.state.auto_turns_used as u64),
        )
    }

    /// Whether another turn may follow by itself.
    pub fn should_auto_advance(&self) -> (r: bool)
        ensures
            r == can_auto_advance(self.state@),
    {
        if !self.state.goal_mode {
            return false;
        }
        match &self.state.goal {
            Some(g) => g.status == GoalStatus::Active && self.state.auto_turns_used
                < self.state.goal_max_auto_turns,
            None => false,
        }
    }

    /// What starts a continuation turn.
    pub fn auto_continuation_message(&self) -> (r: String)
        ensures
            r@ == continuation_text(self.state@.goal),
    {
        let mut s =
            "（目标模式自动续作）继续推进当前目标，不要为了等待输入而停步。基于现有上下文与目标直接推进；若确实被阻塞、需要用户输入或无法再取得进展，停止并明确说明。当前目标：".to_string();
        if let Some(g) = &self.state.goal {
            s.push_str(&g.objective);
        } else {
            assert(s@ + Seq::<char>::empty() =~= s@);
        }
        s
    }

    /// What is reported before a continuation turn.
    pub fn emit_auto_turn(&self, index: u32) -> (r: AgentStreamEvent)
        ensures
            r@ == (EventView::AutoTurn { index, max: self.state@.goal_max_auto_turns }),
    {
        AgentStreamEvent::AutoTurn { index, max: self.state.goal_max_auto_turns }
    }

    /// What is reported when no further turn follows.
    pub fn emit_auto_turn_end(&self, reason: &str) -> (r: AgentStreamEvent)
        ensures
            r@ == (EventView::AutoTurnEnd { reason: reason@ }),
    {
        AgentStreamEvent::AutoTurnEnd { reason: reason.to_string() }
    }

    /// Counts a finished continuation turn.
    pub fn note_auto_turn(&mut self)
        ensures
            final(self).state@ == auto_turn_noted(old(self).state@),
            final(self).cancelled == old(self).cancelled,
    {
        self.state.auto_turns_used = self.state.auto_turns_used.saturating_add(1);
    }

    /// How much of the window is taken.
    pub fn get_token_usage(&self) -> (r: u64)
        ensures
            r == self.state@.context_engine.token_usage,
    {
        self.state.context_engine.token_usage
    }

    /// What takes up the window, part by part; `None` where the total does not fit
    /// in 64 bits.
    pub fn get_context_breakdown(&self) -> (r: Option<ContextBreakdown>)
        requires
            listed_tokens(self.state@.context_engine.file_index) <= u64::MAX,
            prompt_tokens(self.state@) <= u64::MAX,
        ensures
            ({
                let total = prompt_tokens(self.state@) + token_estimate(
                    json_text(JsonView::Array(tool_definitions())),
                );
                if total <= u64::MAX {
                    opt_view(r) == Some(full_breakdown(self.state@))
                } else {
                    r is None
                }
            }),
    {
        proof {
            estimate_is_bounded(self.state@.system_prompt);
            crate::history::lemma_history_prefix(self.state@.messages, 0);
        }
        let system: u64 = estimate_tokens(&self.state.system_prompt);
        let conversation: u64 = estimate_history(&self.state.messages);
        let tools: u64 = estimate_tokens(&json_string(&array(get_tool_definitions_json())));
        let total: u64 = match (system + conversation).checked_add(tools) {
            Some(t) => t,
            None => {
                return None;
            },
        };
        let mut b = self.state.context_engine.breakdown();
        b.system_prompt_tokens = system.saturating_sub(b.structure_tokens);
        b.conversation_tokens = conversation;
        b.tool_definitions_tokens = tools;
        b.total_tokens = total;
        Some(b)
    }
}

/// What comes of taking up a stored conversation: the answer, and the state.
pub open spec fn taken_up(s: StateView, stored: Seq<StoredView>) -> (
    Result<Text, Text>,
    StateView,
) {
    let ms = restored(stored);
    if ms.len() == 0 {
        (Err("Session has no usable messages."@), s)
    } else {
        (
            Ok("Restored "@ + decimal(ms.len()) + " messages into context."@),
            StateView {
                messages: ms,
                context_engine: EngineView {
                    token_usage: history_tokens(ms) as u64,
                    ..s.context_engine
                },
                ..s
            },
        )
    }
}

/// A conversation that was stored is taken up where it was left: with every message
/// but the triggers of continuation turns, each as it was, and counted anew. What the
/// agent had before is gone, and nothing else changes.
pub proof fn sessions_are_taken_up(was: Seq<MessageView>, s: StateView)
    requires
        forall|i: int|
            0 <= i < was.len() && (#[trigger] was[i]).role is Assistant ==> was[i].content is Blocks,
        exists|i: int| 0 <= i < was.len() && !(#[trigger] was[i]).internal,
    ensures
        ({
            let (answer, n) = taken_up(s, snapshot(was));
            &&& answer == Ok::<Text, Text>(
                "Restored "@ + decimal(outward(was).len()) + " messages into context."@,
            )
            &&& n == (StateView { messages: n.messages, context_engine: n.context_engine, ..s })
            &&& n.messages == outward(was)
            &&& n.context_engine == (EngineView {
                token_usage: history_tokens(outward(was)) as u64,
                ..s.context_engine
            })
        }),
{
    history_comes_back(was);
    lemma_outward_some(was);
}

proof fn lemma_outward_some(ms: Seq<MessageView>)
    requires
        exists|i: int| 0 <= i < ms.len() && !(#[trigger] ms[i]).internal,
    ensures
        outward(ms).len() > 0,
    decreases ms.len(),
{
    if ms.last().internal {
        let i = choose|i: int| 0 <= i < ms.len() && !(#[trigger] ms[i]).internal;
        assert(ms.drop_last()[i] == ms[i]);
        lemma_outward_some(ms.drop_last());
    }
}

/// A stored conversation without a message of the user or the assistant is refused,
/// and nothing changes.
pub proof fn unusable_sessions_are_refused(s: StateView, stored: Seq<StoredView>)
    requires
        forall|i: int|
            0 <= i < stored.len() ==> (#[trigger] stored[i]).role != "user"@ && stored[i].role
                != "assistant"@,
    ensures
        taken_up(s, stored).0 is Err,
        taken_up(s, stored).1 == s,
{
    unknown_roles_are_dropped(stored);
}

/// Turns that follow by themselves never exceed the limit that is set.
pub proof fn auto_turns_are_bounded(s: StateView)
    requires
        can_auto_advance(s),
    ensures
        auto_turn_noted(s).auto_turns_used == s.auto_turns_used + 1,
        auto_turn_noted(s).auto_turns_used <= s.goal_max_auto_turns,
        auto_turn_noted(s).auto_turns_used == s.goal_max_auto_turns ==> !can_auto_advance(
            auto_turn_noted(s),
        ),
{
}

/// No turn follows by itself while a goal is paused, blocked, over its budget or
/// complete, or while there is none.
pub proof fn only_active_goals_advance(s: StateView)
    requires
        s.goal is None || !(s.goal.unwrap().status is Active) || !s.goal_mode,
    ensures
        !can_auto_advance(s),
{
}

} // verus!
