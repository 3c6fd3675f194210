//! What an agent starts with, how it is set, and what it reports of itself.

use crate::agent::{compaction_events, held, initial_state, is_known_model};
use crate::api::ThinkingMode;
use crate::context::EngineView;
use crate::events::EventView;
use crate::json::{json_parse, text_at, JsonView};
use crate::laws::words::{stands_between, stands_last};
use crate::text::{decimal, occurs, Text};
use crate::turn::{changes_file, downgrade_event, mode_text, search_query};
use vstd::prelude::*;

verus! {

/// An agent starts with nothing said and nothing used, with the model it was given, and
/// with goal mode and the time layer on.
pub proof fn agents_start_empty(model: Text, engine: EngineView)
    ensures
        ({
            let s = initial_state(model, engine);
            &&& s.model == model
            &&& s.context_engine == engine
            &&& s.messages.len() == 0
            &&& s.system_prompt.len() == 0
            &&& s.goal is None
            &&& s.goal_mode
            &&& s.time_harness
            &&& s.total_input_tokens == 0 && s.total_output_tokens == 0 && s.total_cached_tokens == 0
            &&& s.total_cost == 0 && s.total_cache_savings == 0 && s.total_thinking_tokens == 0
            &&& s.auto_turns_used == 0 && s.auto_turns_used < s.goal_max_auto_turns
            &&& s.think_budget == 16_000 && s.deep_budget == 32_000 && s.goal_max_auto_turns == 20
        }),
{
}

/// A number that is held between two others is one of them where it lies beyond, and
/// stays where it does not.
pub proof fn numbers_are_held(n: u32, low: u32, high: u32)
    requires
        low <= high,
    ensures
        low <= held(n, low, high) <= high,
        low <= n <= high ==> held(n, low, high) == n,
        n < low ==> held(n, low, high) == low,
        n > high ==> held(n, low, high) == high,
{
}

/// A model can be chosen exactly where it is one of the two.
pub proof fn two_models_are_known(model: Text)
    ensures
        is_known_model(model) <==> model == "deepseek-v4-flash"@ || model == "deepseek-v4-pro"@,
{
}

/// A summary is reported as one tool that starts and is done, with how many tokens are
/// left.
pub proof fn summaries_are_reported(tokens: nat)
    ensures
        ({
            let e = compaction_events(tokens);
            &&& e.len() == 2
            &&& e[0] is ToolStart && e[1] is ToolDone
            &&& e[0]->ToolStart_id == e[1]->ToolDone_id
            &&& e[0]->ToolStart_name == e[1]->ToolDone_name
            &&& occurs(e[1]->ToolDone_summary, "~"@ + decimal(tokens) + " tokens"@)
        }),
{
    let t = compaction_events(tokens)[1]->ToolDone_summary;
    reveal_strlit("History compressed to ~");
    reveal_strlit("~");
    let a = "History compressed to ~"@;
    let w = "~"@ + decimal(tokens) + " tokens"@;
    assert(a.take(a.len() - 1) + "~"@ =~= a);
    assert(t =~= a.take(a.len() - 1) + w);
    stands_last(a.take(a.len() - 1), w);
}

/// A mode is reported with its budget, and no two alike.
pub proof fn modes_are_reported(a: ThinkingMode, b: ThinkingMode)
    ensures
        a matches ThinkingMode::ThinkHigh { budget_tokens } ==> occurs(
            mode_text(a),
            decimal(budget_tokens as nat),
        ),
        a matches ThinkingMode::ThinkMax { budget_tokens } ==> occurs(
            mode_text(a),
            decimal(budget_tokens as nat),
        ),
        a is NonThink ==> mode_text(a) == "NonThink"@,
        mode_text(a) == mode_text(b) ==> (a is NonThink <==> b is NonThink) && (a is ThinkMax
            <==> b is ThinkMax),
{
    match a {
        ThinkingMode::ThinkHigh { budget_tokens } => {
            stands_between(
                "ThinkHigh { budget_tokens: "@,
                decimal(budget_tokens as nat),
                " }"@,
            );
        },
        ThinkingMode::ThinkMax { budget_tokens } => {
            stands_between("ThinkMax { budget_tokens: "@, decimal(budget_tokens as nat), " }"@);
        },
        ThinkingMode::NonThink => {},
    }
    reveal_strlit("NonThink");
    reveal_strlit("ThinkHigh { budget_tokens: ");
    reveal_strlit("ThinkMax { budget_tokens: ");
    lemma_starts(a);
    lemma_starts(b);
}

proof fn lemma_starts(m: ThinkingMode)
    ensures
        mode_text(m).len() >= 8,
        m is NonThink ==> mode_text(m)[0] == 'N',
        m is ThinkHigh ==> mode_text(m)[0] == 'T' && mode_text(m)[5] == 'H',
        m is ThinkMax ==> mode_text(m)[0] == 'T' && mode_text(m)[5] == 'M',
{
    reveal_strlit("NonThink");
    reveal_strlit("ThinkHigh { budget_tokens: ");
    reveal_strlit("ThinkMax { budget_tokens: ");
    assert("ThinkHigh { budget_tokens: "@[0] == 'T' && "ThinkHigh { budget_tokens: "@[5] == 'H');
    assert("ThinkMax { budget_tokens: "@[0] == 'T' && "ThinkMax { budget_tokens: "@[5] == 'M');
    assert("NonThink"@[0] == 'N');
}

/// A turn that falls back to answering without reasoning says how often it has.
pub proof fn fallbacks_are_reported(n: int)
    requires
        n >= 0,
    ensures
        downgrade_event(n) matches EventView::Thinking { text } && occurs(
            text,
            "("@ + decimal(n as nat) + "/"@ + decimal(2) + ")."@,
        ),
{
    let t = downgrade_event(n)->Thinking_text;
    let a = "Overthinking detected. Downgrading to Non-think ("@;
    reveal_strlit("Overthinking detected. Downgrading to Non-think (");
    reveal_strlit("(");
    let w = "("@ + decimal(n as nat) + "/"@ + decimal(2) + ")."@;
    assert(a.take(a.len() - 1) + "("@ =~= a);
    assert(t =~= a.take(a.len() - 1) + w);
    stands_last(a.take(a.len() - 1), w);
}

/// What is searched for is told where the search says it.
pub proof fn searches_are_told(r: crate::api::ResponseView, v: JsonView)
    ensures
        r.server_tool_uses.len() > 0 && json_parse(r.server_tool_uses[0].arguments) == Ok::<
            JsonView,
            Text,
        >(v) ==> (text_at(v, "query"@) matches Some(q) ==> search_query(r) == q),
        r.server_tool_uses.len() == 0 ==> search_query(r) == "Searching the web..."@,
{
}

/// Only writing and editing change a file.
pub proof fn two_tools_change_files(name: Text)
    ensures
        changes_file(name) <==> name == "edit_file"@ || name == "write_file"@,
{
}

} // verus!
