//! What the commands of the user interface decide: which turns follow by
//! themselves, how a runtime is started, which files are listed.

use crate::agent::{can_auto_advance, AgentLoop, StateView};
use crate::api::{MODEL_FLASH, MODEL_PRO};
use crate::harness_backend::HarnessTurnConfig;
use crate::order::{less, ordered, sort, text_less, text_order, Ranked};
use crate::paths::{join_path, path_joined};
use crate::session::{
    GoalStatus, MetaView, Session, SessionGoal, SessionMeta, SessionView, StoredMessage,
};
use crate::text::{
    begins, blank, is_blank, lemma_views_push, opt_view, starts_with, text_eq, views, Text,
};
use crate::turn::{
    asks_user, is_stalled_turn, should_stop_after_turn, AgentTurnResult, TurnResultView,
};
use vstd::prelude::*;

verus! {

/// Why no turn follows by itself.
pub open spec fn rest_reason(s: StateView, burst: u32) -> Text {
    if !s.goal_mode {
        "goal_mode_off"@
    } else {
        match s.goal {
            Some(g) => match g.status {
                GoalStatus::Complete => "goal_complete"@,
                GoalStatus::Blocked => "goal_blocked"@,
                GoalStatus::BudgetLimited => "budget_limited"@,
                GoalStatus::Paused => "goal_paused"@,
                GoalStatus::Active => if burst > 0 {
                    "max_turns"@
                } else {
                    "no_goal"@
                },
            },
            None => if burst > 0 {
                "max_turns"@
            } else {
                "no_goal"@
            },
        }
    }
}

/// The turns that follow one message of the user by themselves.
#[derive(Debug)]
pub struct Burst {
    /// How many have been started.
    pub count: u32,
    /// What the last turn came to.
    pub result: AgentTurnResult,
    /// What the last turn that said something and asked nothing came to.
    pub last_substantive: AgentTurnResult,
}

#[verifier::ext_equal]
pub struct BurstView {
    pub count: u32,
    pub result: TurnResultView,
    pub last_substantive: TurnResultView,
}

impl View for Burst {
    type V = BurstView;

    open spec fn view(&self) -> BurstView {
        BurstView {
            count: self.count,
            result: self.result@,
            last_substantive: self.last_substantive@,
        }
    }
}

/// Why the turns end here, before another one: `None` where it may follow.
pub open spec fn end_before_turn(b: BurstView, s: StateView) -> Option<Text> {
    if !can_auto_advance(s) {
        Some(rest_reason(s, b.count))
    } else if is_blank(b.result.message) {
        Some("stalled"@)
    } else if b.count > 0 && asks_user(b.result.message) {
        Some("needs_input"@)
    } else {
        None
    }
}

/// What is answered where the turns end before another one: a question at the end
/// does not replace the last real answer.
pub open spec fn settled(b: BurstView, s: StateView) -> BurstView {
    if end_before_turn(b, s) is Some && can_auto_advance(s) && !is_blank(b.result.message) {
        BurstView { result: b.last_substantive, ..b }
    } else {
        b
    }
}

/// The turns after another one came to `r`.
pub open spec fn with_turn(b: BurstView, r: TurnResultView) -> BurstView {
    BurstView {
        result: r,
        last_substantive: if !is_blank(r.message) && !asks_user(r.message) {
            r
        } else {
            b.last_substantive
        },
        ..b
    }
}

impl Burst {
    /// After the turn that the user asked for.
    pub fn new(result: AgentTurnResult) -> (r: Burst)
        ensures
            r@ == (BurstView { count: 0, result: result@, last_substantive: result@ }),
    {
        let last_substantive = result.clone();
        Burst { count: 0, result, last_substantive }
    }

    fn rest(&self, agent: &AgentLoop) -> (r: String)
        ensures
            r@ == rest_reason(agent.state@, self@.count),
    {
        if !agent.state.goal_mode {
            return "goal_mode_off".to_string();
        }
        if let Some(g) = &agent.state.goal {
            match g.status {
                GoalStatus::Complete => {
                    return "goal_complete".to_string();
                },
                GoalStatus::Blocked => {
                    return "goal_blocked".to_string();
                },
                GoalStatus::BudgetLimited => {
                    return "budget_limited".to_string();
                },
                GoalStatus::Paused => {
                    return "goal_paused".to_string();
                },
                GoalStatus::Active => {},
            }
        }
        if self.count > 0 {
            "max_turns".to_string()
        } else {
            "no_goal".to_string()
        }
    }

    /// Whether the turns end before another one, and why.
    pub fn before_turn(&mut self, agent: &AgentLoop) -> (r: Option<String>)
        ensures
            opt_view(r) == end_before_turn(old(self)@, agent.state@),
            final(self)@ == settled(old(self)@, agent.state@),
    {
        if !agent.should_auto_advance() {
            return Some(self.rest(agent));
        }
        if is_stalled_turn(&self.result) {
            return Some("stalled".to_string());
        }
        if self.count > 0 && should_stop_after_turn(&self.result) {
            self.result = self.last_substantive.clone();
            return Some("needs_input".to_string());
        }
        None
    }

    /// After the pause before a turn: whether the user has cancelled, and why the
    /// turns end then. Otherwise the turn is counted.
    pub fn start_turn(&mut self, cancelled: bool) -> (r: Option<String>)
        requires
            old(self)@.count < u32::MAX,
        ensures
            cancelled ==> opt_view(r) == Some("cancelled"@) && final(self)@ == old(self)@,
            !cancelled ==> r is None && final(self)@ == (BurstView {
                count: (old(self)@.count + 1) as u32,
                ..old(self)@
            }),
    {
        if cancelled {
            return Some("cancelled".to_string());
        }
        self.count = self.count + 1;
        None
    }

    /// A turn came to something.
    pub fn turn_done(&mut self, agent: &mut AgentLoop, result: AgentTurnResult)
        ensures
            final(self)@ == with_turn(old(self)@, result@),
            final(agent).state@ == crate::agent::auto_turn_noted(old(agent).state@),
            final(agent).cancelled == old(agent).cancelled,
    {
        agent.note_auto_turn();
        if !blank(&result.message) && !should_stop_after_turn(&result) {
            self.last_substantive = result.clone();
        }
        self.result = result;
    }

    /// A turn failed: why the turns end. The last good result stays.
    pub fn turn_failed(&self, cancelled: bool) -> (r: String)
        ensures
            r@ == (if cancelled {
                "cancelled"@
            } else {
                "error"@
            }),
    {
        if cancelled {
            "cancelled".to_string()
        } else {
            "error".to_string()
        }
    }

    /// Whether the user is told why the turns ended: only where one was started.
    pub fn tells_end(&self) -> (r: bool)
        ensures
            r == (self@.count > 0),
    {
        self.count > 0
    }
}

/// A question at the end never replaces what was achieved: where turns end for want
/// of the user's word, the answer is the last one that said something and asked
/// nothing.
pub proof fn deliverable_survives(b: BurstView, s: StateView, r: TurnResultView)
    requires
        b.count > 0,
        can_auto_advance(s),
        asks_user(r.message),
        !is_blank(r.message),
    ensures
        end_before_turn(with_turn(b, r), s) == Some("needs_input"@),
        settled(with_turn(b, r), s).result == b.last_substantive,
{
}

/// The turn that the user asked for never ends the work by a question.
pub proof fn kickoff_goes_on(r: TurnResultView, s: StateView)
    requires
        can_auto_advance(s),
        !is_blank(r.message),
    ensures
        end_before_turn(
            BurstView { count: 0, result: r, last_substantive: r },
            s,
        ) is None,
{
}

/// The model that is used: one of the two that are known.
pub open spec fn chosen_model(model: Option<Text>) -> Text {
    match model {
        Some(m) => if m == MODEL_FLASH@ || m == MODEL_PRO@ {
            m
        } else {
            MODEL_FLASH@
        },
        None => MODEL_FLASH@,
    }
}

/// The model that is used where the user asks for `model`.
pub fn choose_model(model: Option<String>) -> (r: String)
    ensures
        r@ == chosen_model(opt_view(model)),
{
    match model {
        Some(m) => if text_eq(&m, MODEL_FLASH) || text_eq(&m, MODEL_PRO) {
            m
        } else {
            MODEL_FLASH.to_string()
        },
        None => MODEL_FLASH.to_string(),
    }
}

pub const DEFAULT_WORKSPACE: &'static str = "DeepSeekCodeWorkspace";

/// The workspace where the user names none: a directory of its own in their home.
pub fn default_workspace_root(home: &str) -> (r: String)
    ensures
        r@ == path_joined(home@, DEFAULT_WORKSPACE@),
{
    join_path(home, DEFAULT_WORKSPACE)
}

/// The workspace.
pub fn choose_workspace(path: Option<String>, home: &str) -> (r: String)
    ensures
        r@ == (if path is Some && path->Some_0@.len() > 0 {
            path->Some_0@
        } else {
            path_joined(home@, DEFAULT_WORKSPACE@)
        }),
{
    match path {
        Some(p) => if p.as_str().is_empty() {
            default_workspace_root(home)
        } else {
            p
        },
        None => default_workspace_root(home),
    }
}

/// What a turn of the runtime is asked to be.
#[derive(Debug)]
pub struct HarnessChoice {
    pub mode: String,
    pub sandbox: String,
    pub effort: String,
    pub session_id: String,
}

#[verifier::ext_equal]
pub struct HarnessChoiceView {
    pub mode: Text,
    pub sandbox: Text,
    pub effort: Text,
    pub session_id: Text,
}

impl View for HarnessChoice {
    type V = HarnessChoiceView;

    open spec fn view(&self) -> HarnessChoiceView {
        HarnessChoiceView {
            mode: self.mode@,
            sandbox: self.sandbox@,
            effort: self.effort@,
            session_id: self.session_id@,
        }
    }
}

pub open spec fn or_else(t: Option<Text>, other: Text) -> Text {
    match t {
        Some(t) => t,
        None => other,
    }
}

pub open spec fn is_sandbox(s: Text) -> bool {
    s == "read-only"@ || s == "workspace-write"@ || s == "danger-full-access"@
}

pub open spec fn is_mode(m: Text) -> bool {
    m == "standard"@ || m == "minimal"@ || m == "ptc"@ || m == "creative"@ || m == "ralph"@
}

/// How hard the runtime thinks.
pub open spec fn effort_of(thinking_mode: Option<Text>) -> Text {
    if thinking_mode == Some("non-think"@) {
        "off"@
    } else if thinking_mode == Some("think-max"@) {
        "max"@
    } else {
        "high"@
    }
}

/// What a turn of the runtime is asked to be, or why it is refused.
pub open spec fn harness_choice(
    api_key: Text,
    thinking_mode: Option<Text>,
    session_id: Option<Text>,
    mode: Option<Text>,
    sandbox: Option<Text>,
) -> Result<HarnessChoiceView, Text> {
    let s = or_else(sandbox, "workspace-write"@);
    let m = or_else(mode, "standard"@);
    if api_key.len() == 0 {
        Err("no DeepSeek API key configured"@)
    } else if !is_sandbox(s) {
        Err("unknown sandbox mode: "@ + s)
    } else if !is_mode(m) {
        Err("unknown harness mode: "@ + m)
    } else {
        Ok(
            HarnessChoiceView {
                mode: m,
                sandbox: s,
                effort: effort_of(thinking_mode),
                session_id: or_else(session_id, "main"@),
            },
        )
    }
}

fn given_or(t: Option<String>, other: &str) -> (r: String)
    ensures
        r@ == or_else(opt_view(t), other@),
{
    match t {
        Some(t) => t,
        None => other.to_string(),
    }
}

/// How hard the runtime thinks.
pub fn choose_effort(thinking_mode: &Option<String>) -> (r: String)
    ensures
        r@ == effort_of(opt_view(*thinking_mode)),
{
    match thinking_mode {
        Some(t) => if text_eq(t, "non-think") {
            "off".to_string()
        } else if text_eq(t, "think-max") {
            "max".to_string()
        } else {
            "high".to_string()
        },
        None => "high".to_string(),
    }
}

/// What a turn of the runtime is asked to be, or why it is refused.
pub fn choose_harness(
    api_key: &str,
    thinking_mode: &Option<String>,
    session_id: Option<String>,
    mode: Option<String>,
    sandbox: Option<String>,
) -> (r: Result<HarnessChoice, String>)
    ensures
        match harness_choice(
            api_key@,
            opt_view(*thinking_mode),
            opt_view(session_id),
            opt_view(mode),
            opt_view(sandbox),
        ) {
            Ok(c) => r is Ok && r->Ok_0@ == c,
            Err(e) => r is Err && r->Err_0@ == e,
        },
{
    if api_key.is_empty() {
        return Err("no DeepSeek API key configured".to_string());
    }
    let mode = given_or(mode, "standard");
    let sandbox = given_or(sandbox, "workspace-write");
    if !(text_eq(&sandbox, "read-only") || text_eq(&sandbox, "workspace-write") || text_eq(
        &sandbox,
        "danger-full-access",
    )) {
        let mut e = "unknown sandbox mode: ".to_string();
        e.push_str(&sandbox);
        return Err(e);
    }
    if !(text_eq(&mode, "standard") || text_eq(&mode, "minimal") || text_eq(&mode, "ptc")
        || text_eq(&mode, "creative") || text_eq(&mode, "ralph")) {
        let mut e = "unknown harness mode: ".to_string();
        e.push_str(&mode);
        return Err(e);
    }
    Ok(
        HarnessChoice {
            mode,
            sandbox,
            effort: choose_effort(thinking_mode),
            session_id: given_or(session_id, "main"),
        },
    )
}

pub const PACKAGED_BIN: &'static str = "node_modules/@deepseek-ai/dsh-sdk-jsonrpc-demo/lib/packaged-bin.js";

pub const SOURCE_BIN: &'static str = "packages/examples/jsonrpc-demo/src/bin.ts";

pub const DEFAULT_HARNESS_REPO: &'static str = "/tmp/dsh-harness-upstream";

/// Where the runtime lies below the resources of an installed program.
pub const PACKAGED_RUNTIME: &'static str = "_up_/harness-runtime";

/// Where the sessions of the runtime lie below the data of the program.
pub const HARNESS_SESSIONS: &'static str = "harness-sessions";

/// The directories in which a complete runtime may lie.
#[derive(Debug)]
pub struct RuntimePlaces {
    /// The one that the user names.
    pub named: Option<String>,
    /// The resources of the installed program, where they hold one.
    pub resources: Option<String>,
    /// The one built beside the sources of the program, where there is one.
    pub local: Option<String>,
}

#[verifier::ext_equal]
pub struct RuntimePlacesView {
    pub named: Option<Text>,
    pub resources: Option<Text>,
    pub local: Option<Text>,
}

impl View for RuntimePlaces {
    type V = RuntimePlacesView;

    open spec fn view(&self) -> RuntimePlacesView {
        RuntimePlacesView {
            named: opt_view(self.named),
            resources: opt_view(self.resources),
            local: opt_view(self.local),
        }
    }
}

/// The complete runtime that is taken: the one that is named, else the packaged one,
/// else the local one.
pub open spec fn runtime_of(p: RuntimePlacesView) -> Option<Text> {
    if p.named is Some && p.named->Some_0.len() > 0 {
        p.named
    } else if p.resources is Some {
        Some(path_joined(p.resources->Some_0, PACKAGED_RUNTIME@))
    } else {
        p.local
    }
}

/// Where the runtime is and with what it is started: a complete one where there is
/// one, or else the sources.
pub open spec fn launch_of(runtime: Option<Text>, repo: Option<Text>) -> (Text, Seq<Text>, Text) {
    match runtime {
        Some(r) => (path_joined(r, PACKAGED_BIN@), Seq::empty(), r),
        None => {
            let r = or_else(repo, DEFAULT_HARNESS_REPO@);
            (path_joined(r, SOURCE_BIN@), seq!["--import"@, "tsx"@], r)
        },
    }
}

fn find_runtime(places: RuntimePlaces) -> (r: Option<String>)
    ensures
        opt_view(r) == runtime_of(places@),
{
    let named = match &places.named {
        Some(n) => !n.as_str().is_empty(),
        None => false,
    };
    if named {
        places.named
    } else {
        match places.resources {
            Some(dir) => Some(join_path(&dir, PACKAGED_RUNTIME)),
            None => places.local,
        }
    }
}

/// What the runtime is asked: the message, and before it what has been said so far,
/// since the runtime itself remembers nothing between two turns.
pub open spec fn prompt_of(context: Option<Text>, message: Text) -> Text {
    match context {
        Some(c) => if c.len() > 0 {
            "## 之前的对话\n\n"@ + c + "\n\n"@ + message
        } else {
            message
        },
        None => message,
    }
}

/// What the runtime is asked.
pub fn harness_message(context: &Option<String>, message: &str) -> (r: String)
    ensures
        r@ == prompt_of(opt_view(*context), message@),
{
    if let Some(c) = context {
        if !c.as_str().is_empty() {
            let mut s = "## 之前的对话\n\n".to_string();
            s.push_str(c);
            s.push_str("\n\n");
            s.push_str(message);
            return s;
        }
    }
    message.to_string()
}

/// The persona, and behind it how to treat time.
pub open spec fn harness_prompt(persona: Text, tal: Text) -> Text {
    persona + "\n\n"@ + tal
}

/// How a runtime is started for a turn. Its sessions are kept in `data_dir`, the
/// data directory of the program.
pub fn harness_config(
    choice: &HarnessChoice,
    places: RuntimePlaces,
    repo: Option<String>,
    config_dir: &str,
    data_dir: &str,
    api_key: String,
    workspace: String,
    persona: &str,
    tal: &str,
) -> (r: HarnessTurnConfig)
    ensures
        ({
            let launch = launch_of(runtime_of(places@), opt_view(repo));
            &&& r.node_bin@ == "/opt/homebrew/bin/node"@
            &&& r.bin@ == launch.0
            &&& views(r.node_args@) == launch.1
            &&& r.cwd@ == launch.2
            &&& r.cordis@ == path_joined(config_dir@, "cordis.yml"@)
            &&& r.api_key@ == api_key@
            &&& r.workspace@ == workspace@
            &&& r.session_root@ == path_joined(data_dir@, HARNESS_SESSIONS@)
            &&& r.model@ == "deepseek-v4-flash"@
            &&& r.effort@ == choice@.effort
            &&& r.sandbox@ == choice@.sandbox
            &&& r.max_tokens == 4096
            &&& r.system_prompt@ == harness_prompt(persona@, tal@)
        }),
{
    let mut node_args: Vec<String> = Vec::new();
    assert(views(node_args@) =~= Seq::<Text>::empty());
    let (bin, cwd) = match find_runtime(places) {
        Some(rt) => (join_path(&rt, PACKAGED_BIN), rt),
        None => {
            let source = given_or(repo, DEFAULT_HARNESS_REPO);
            node_args.push("--import".to_string());
            node_args.push("tsx".to_string());
            assert(views(node_args@) =~= seq!["--import"@, "tsx"@]);
            (join_path(&source, SOURCE_BIN), source)
        },
    };
    let mut system_prompt = persona.to_string();
    system_prompt.push_str("\n\n");
    system_prompt.push_str(tal);
    HarnessTurnConfig {
        node_bin: "/opt/homebrew/bin/node".to_string(),
        bin,
        cordis: join_path(config_dir, "cordis.yml"),
        node_args,
        cwd,
        api_key,
        workspace,
        session_root: join_path(data_dir, HARNESS_SESSIONS),
        model: "deepseek-v4-flash".to_string(),
        effort: choice.effort.clone(),
        sandbox: choice.sandbox.clone(),
        max_tokens: 4096,
        system_prompt,
    }
}

/// The session that is written when the user saves.
pub fn current_session(
    id: String,
    title: String,
    now: &str,
    workspace: String,
    messages: Vec<StoredMessage>,
    goal: Option<SessionGoal>,
) -> (r: Session)
    ensures
        r@ == (SessionView {
            meta: MetaView {
                id: id@,
                title: title@,
                created_at: now@,
                updated_at: now@,
                message_count: messages@.len() as usize,
                workspace: workspace@,
            },
            messages: views(messages@),
            goal: opt_view(goal),
        }),
{
    Session {
        meta: SessionMeta {
            id,
            title,
            created_at: now.to_string(),
            updated_at: now.to_string(),
            message_count: messages.len(),
            workspace,
        },
        messages,
        goal,
    }
}

/// A file or directory of the workspace.
#[derive(Debug)]
pub struct FileEntry {
    pub name: String,
    pub is_dir: bool,
}

#[verifier::ext_equal]
pub struct FileEntryView {
    pub name: Text,
    pub is_dir: bool,
}

impl View for FileEntry {
    type V = FileEntryView;

    open spec fn view(&self) -> FileEntryView {
        FileEntryView { name: self.name@, is_dir: self.is_dir }
    }
}

/// Directories stand before files, and each by name.
impl Ranked for FileEntry {
    open spec fn precedes(a: FileEntryView, b: FileEntryView) -> bool {
        (a.is_dir && !b.is_dir) || (a.is_dir == b.is_dir && text_less(a.name, b.name))
    }

    proof fn is_order(a: FileEntryView, b: FileEntryView, c: FileEntryView) {
        text_order(a.name, b.name, c.name);
    }

    fn comes_before(&self, other: &FileEntry) -> (r: bool) {
        (self.is_dir && !other.is_dir) || (self.is_dir == other.is_dir && less(
            &self.name,
            &other.name,
        ))
    }
}

/// Whether a name is listed: what is hidden or generated is not.
pub open spec fn is_listed(name: Text) -> bool {
    !begins(name, "."@) && name != "node_modules"@ && name != "target"@ && name != "dist"@
}

/// Whether a name is listed.
pub fn lists_name(name: &str) -> (r: bool)
    ensures
        r == is_listed(name@),
{
    !starts_with(name, ".") && !text_eq(name, "node_modules") && !text_eq(name, "target")
        && !text_eq(name, "dist")
}

/// What is listed of a directory: what is hidden or generated left out, directories
/// first, each by name.
pub open spec fn listed_files(entries: Seq<FileEntryView>) -> Seq<FileEntryView> {
    ordered::<FileEntry>(entries.filter(|e: FileEntryView| is_listed(e.name)))
}

/// What is listed of a directory.
pub fn list_files(entries: &Vec<FileEntry>) -> (r: Vec<FileEntry>)
    ensures
        views(r@) == listed_files(views(entries@)),
{
    let mut out: Vec<FileEntry> = Vec::new();
    let ghost p = |e: FileEntryView| is_listed(e.name);
    let ghost all = views(entries@);
    assert(views(out@) =~= Seq::<FileEntryView>::empty());
    assert(all.take(0).filter(p) =~= Seq::<FileEntryView>::empty()) by {
        reveal(Seq::filter);
    }
    let mut i: usize = 0;
    while i < entries.len()
        invariant
            i <= entries@.len(),
            all == views(entries@),
            p == (|e: FileEntryView| is_listed(e.name)),
            views(out@) == all.take(i as int).filter(p),
        decreases entries@.len() - i,
    {
        proof {
            assert(all.take(i + 1) =~= all.take(i as int).push(all[i as int]));
            all.take(i as int).lemma_filter_push(all[i as int], p);
        }
        if lists_name(&entries[i].name) {
            let copy = FileEntry { name: entries[i].name.clone(), is_dir: entries[i].is_dir };
            proof {
                lemma_views_push(out@, copy);
            }
            out.push(copy);
        }
        i = i + 1;
    }
    assert(all.take(i as int) =~= all);
    sort(out)
}

} // verus!
