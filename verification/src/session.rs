//! Saved sessions: what is stored of a conversation, the goal that goes with it,
//! and the index of all sessions.

use crate::message::{copy_blocks, copy_opt, BlockView, ContentBlock};
use crate::order::{ordered, sort, text_less, text_order, less, Ranked};
use crate::paths::{join_path, path_joined};
use crate::text::{
    byte_len, is_white, lemma_views_push, occurs_at, opt_view, replace, replaced, replaced_from,
    size, text_eq, trim, trim_end, trim_start, trimmed, views, Text,
};
use vstd::prelude::*;
use vstd::string::*;
use vstd::utf8::*;

verus! {

/// Where sessions are stored, seen from a root directory.
pub const SESSIONS_DIR: &'static str = ".deepseek-code/sessions";

/// The file that lists all sessions.
pub const INDEX_FILE: &'static str = "index.json";

/// The state of a goal.
#[derive(Debug, Clone, Copy, PartialEq, Eq, Structural)]
pub enum GoalStatus {
    Active,
    Paused,
    Blocked,
    BudgetLimited,
    Complete,
}

pub open spec fn goal_status_text(s: GoalStatus) -> Text {
    match s {
        GoalStatus::Active => "active"@,
        GoalStatus::Paused => "paused"@,
        GoalStatus::Blocked => "blocked"@,
        GoalStatus::BudgetLimited => "budget_limited"@,
        GoalStatus::Complete => "complete"@,
    }
}

impl GoalStatus {
    pub fn as_str(&self) -> (r: &'static str)
        ensures
            r@ == goal_status_text(*self),
    {
        match self {
            GoalStatus::Active => "active",
            GoalStatus::Paused => "paused",
            GoalStatus::Blocked => "blocked",
            GoalStatus::BudgetLimited => "budget_limited",
            GoalStatus::Complete => "complete",
        }
    }

    /// Whether a goal in this state is over, so that a new one may be set.
    pub fn is_terminal(&self) -> (r: bool)
        ensures
            r == (*self is BudgetLimited || *self is Complete),
    {
        matches!(self, GoalStatus::BudgetLimited | GoalStatus::Complete)
    }
}

/// The state of a step of a plan.
#[derive(Debug, Clone, Copy, PartialEq, Eq, Structural)]
pub enum StepStatus {
    Pending,
    InProgress,
    Completed,
    Cancelled,
    Blocked,
}

pub open spec fn step_status_text(s: StepStatus) -> Text {
    match s {
        StepStatus::Pending => "pending"@,
        StepStatus::InProgress => "in_progress"@,
        StepStatus::Completed => "completed"@,
        StepStatus::Cancelled => "cancelled"@,
        StepStatus::Blocked => "blocked"@,
    }
}

impl StepStatus {
    pub fn as_str(&self) -> (r: &'static str)
        ensures
            r@ == step_status_text(*self),
    {
        match self {
            StepStatus::Pending => "pending",
            StepStatus::InProgress => "in_progress",
            StepStatus::Completed => "completed",
            StepStatus::Cancelled => "cancelled",
            StepStatus::Blocked => "blocked",
        }
    }
}

/// One step of a plan. Its times are set by the harness when the state changes,
/// never by the model.
#[derive(Debug)]
pub struct PlanStep {
    pub id: String,
    pub content: String,
    pub status: StepStatus,
    pub created_at: i64,
    pub started_at: Option<i64>,
    pub completed_at: Option<i64>,
    pub blocked_reason: Option<String>,
    /// The model's own estimate, in seconds.
    pub estimate_sec: Option<u64>,
}

#[verifier::ext_equal]
pub struct StepView {
    pub id: Text,
    pub content: Text,
    pub status: StepStatus,
    pub created_at: i64,
    pub started_at: Option<i64>,
    pub completed_at: Option<i64>,
    pub blocked_reason: Option<Text>,
    pub estimate_sec: Option<u64>,
}

impl View for PlanStep {
    type V = StepView;

    open spec fn view(&self) -> StepView {
        StepView {
            id: self.id@,
            content: self.content@,
            status: self.status,
            created_at: self.created_at,
            started_at: self.started_at,
            completed_at: self.completed_at,
            blocked_reason: opt_view(self.blocked_reason),
            estimate_sec: self.estimate_sec,
        }
    }
}

impl Clone for PlanStep {
    fn clone(&self) -> (r: PlanStep)
        ensures
            r@ == self@,
    {
        PlanStep {
            id: self.id.clone(),
            content: self.content.clone(),
            status: self.status,
            created_at: self.created_at,
            started_at: self.started_at,
            completed_at: self.completed_at,
            blocked_reason: copy_opt(&self.blocked_reason),
            estimate_sec: self.estimate_sec,
        }
    }
}

/// Copies of the steps, in order.
pub fn copy_plan(plan: &Vec<PlanStep>) -> (r: Vec<PlanStep>)
    ensures
        views(r@) == views(plan@),
{
    let mut out: Vec<PlanStep> = Vec::new();
    let mut i: usize = 0;
    while i < plan.len()
        invariant
            i <= plan@.len(),
            views(out@) == views(plan@).take(i as int),
        decreases plan@.len() - i,
    {
        let copy = plan[i].clone();
        proof {
            lemma_views_push(out@, copy);
            assert(views(plan@).take(i + 1) =~= views(plan@).take(i as int).push(copy@));
        }
        out.push(copy);
        i = i + 1;
    }
    assert(views(plan@).take(i as int) =~= views(plan@));
    out
}

/// A goal that is pursued across turns, with what it has cost so far and a plan.
#[derive(Debug)]
pub struct SessionGoal {
    pub id: String,
    pub objective: String,
    pub status: GoalStatus,
    pub token_budget: Option<u64>,
    pub tokens_used: u64,
    pub time_used_seconds: u64,
    pub created_at: i64,
    pub updated_at: i64,
    pub plan: Vec<PlanStep>,
    /// For how many turns in a row the goal has been blocked.
    pub consecutive_blocked_turns: u32,
}

#[verifier::ext_equal]
pub struct GoalView {
    pub id: Text,
    pub objective: Text,
    pub status: GoalStatus,
    pub token_budget: Option<u64>,
    pub tokens_used: u64,
    pub time_used_seconds: u64,
    pub created_at: i64,
    pub updated_at: i64,
    pub plan: Seq<StepView>,
    pub consecutive_blocked_turns: u32,
}

impl View for SessionGoal {
    type V = GoalView;

    open spec fn view(&self) -> GoalView {
        GoalView {
            id: self.id@,
            objective: self.objective@,
            status: self.status,
            token_budget: self.token_budget,
            tokens_used: self.tokens_used,
            time_used_seconds: self.time_used_seconds,
            created_at: self.created_at,
            updated_at: self.updated_at,
            plan: views(self.plan@),
            consecutive_blocked_turns: self.consecutive_blocked_turns,
        }
    }
}

impl Clone for SessionGoal {
    fn clone(&self) -> (r: SessionGoal)
        ensures
            r@ == self@,
    {
        SessionGoal {
            id: self.id.clone(),
            objective: self.objective.clone(),
            status: self.status,
            token_budget: self.token_budget,
            tokens_used: self.tokens_used,
            time_used_seconds: self.time_used_seconds,
            created_at: self.created_at,
            updated_at: self.updated_at,
            plan: copy_plan(&self.plan),
            consecutive_blocked_turns: self.consecutive_blocked_turns,
        }
    }
}

/// A copy of an optional goal.
pub fn copy_goal(goal: &Option<SessionGoal>) -> (r: Option<SessionGoal>)
    ensures
        opt_view(r) == opt_view(*goal),
{
    match goal {
        Some(g) => Some(g.clone()),
        None => None,
    }
}

/// A message as it is stored.
#[derive(Debug)]
pub struct StoredMessage {
    pub role: String,
    pub content: String,
    pub timestamp: i64,
    pub thinking_content: Option<String>,
    /// The full content blocks; older sessions have none.
    pub blocks: Option<Vec<ContentBlock>>,
}

#[verifier::ext_equal]
pub struct StoredView {
    pub role: Text,
    pub content: Text,
    pub timestamp: i64,
    pub thinking_content: Option<Text>,
    pub blocks: Option<Seq<BlockView>>,
}

impl View for StoredMessage {
    type V = StoredView;

    open spec fn view(&self) -> StoredView {
        StoredView {
            role: self.role@,
            content: self.content@,
            timestamp: self.timestamp,
            thinking_content: opt_view(self.thinking_content),
            blocks: match self.blocks {
                Some(bs) => Some(views(bs@)),
                None => None,
            },
        }
    }
}

impl Clone for StoredMessage {
    fn clone(&self) -> (r: StoredMessage)
        ensures
            r@ == self@,
    {
        StoredMessage {
            role: self.role.clone(),
            content: self.content.clone(),
            timestamp: self.timestamp,
            thinking_content: copy_opt(&self.thinking_content),
            blocks: match &self.blocks {
                Some(bs) => Some(copy_blocks(bs)),
                None => None,
            },
        }
    }
}

fn copy_stored(messages: &Vec<StoredMessage>) -> (r: Vec<StoredMessage>)
    ensures
        views(r@) == views(messages@),
{
    let mut out: Vec<StoredMessage> = Vec::new();
    let mut i: usize = 0;
    while i < messages.len()
        invariant
            i <= messages@.len(),
            views(out@) == views(messages@).take(i as int),
        decreases messages@.len() - i,
    {
        let copy = messages[i].clone();
        proof {
            lemma_views_push(out@, copy);
            assert(views(messages@).take(i + 1) =~= views(messages@).take(i as int).push(copy@));
        }
        out.push(copy);
        i = i + 1;
    }
    assert(views(messages@).take(i as int) =~= views(messages@));
    out
}

/// What the index says of a session.
#[derive(Debug)]
pub struct SessionMeta {
    pub id: String,
    pub title: String,
    pub created_at: String,
    pub updated_at: String,
    pub message_count: usize,
    pub workspace: String,
}

#[verifier::ext_equal]
pub struct MetaView {
    pub id: Text,
    pub title: Text,
    pub created_at: Text,
    pub updated_at: Text,
    pub message_count: usize,
    pub workspace: Text,
}

impl View for SessionMeta {
    type V = MetaView;

    open spec fn view(&self) -> MetaView {
        MetaView {
            id: self.id@,
            title: self.title@,
            created_at: self.created_at@,
            updated_at: self.updated_at@,
            message_count: self.message_count,
            workspace: self.workspace@,
        }
    }
}

impl Clone for SessionMeta {
    fn clone(&self) -> (r: SessionMeta)
        ensures
            r@ == self@,
    {
        SessionMeta {
            id: self.id.clone(),
            title: self.title.clone(),
            created_at: self.created_at.clone(),
            updated_at: self.updated_at.clone(),
            message_count: self.message_count,
            workspace: self.workspace.clone(),
        }
    }
}

/// Sessions are listed with the one updated last first.
impl Ranked for SessionMeta {
    open spec fn precedes(a: MetaView, b: MetaView) -> bool {
        text_less(b.updated_at, a.updated_at)
    }

    proof fn is_order(a: MetaView, b: MetaView, c: MetaView) {
        text_order(a.updated_at, a.updated_at, a.updated_at);
        text_order(c.updated_at, b.updated_at, a.updated_at);
    }

    fn comes_before(&self, other: &SessionMeta) -> (r: bool) {
        less(&other.updated_at, &self.updated_at)
    }
}

/// The list of all sessions.
#[derive(Debug)]
pub struct SessionIndex {
    pub sessions: Vec<SessionMeta>,
}

impl View for SessionIndex {
    type V = Seq<MetaView>;

    open spec fn view(&self) -> Seq<MetaView> {
        views(self.sessions@)
    }
}

/// A session as it is stored.
#[derive(Debug)]
pub struct Session {
    pub meta: SessionMeta,
    pub messages: Vec<StoredMessage>,
    pub goal: Option<SessionGoal>,
}

#[verifier::ext_equal]
pub struct SessionView {
    pub meta: MetaView,
    pub messages: Seq<StoredView>,
    pub goal: Option<GoalView>,
}

impl View for Session {
    type V = SessionView;

    open spec fn view(&self) -> SessionView {
        SessionView {
            meta: self.meta@,
            messages: views(self.messages@),
            goal: opt_view(self.goal),
        }
    }
}

/// The sessions of an index, or none where there is no index.
pub open spec fn known_sessions(index: Option<SessionIndex>) -> Seq<MetaView> {
    match index {
        Some(i) => i@,
        None => Seq::empty(),
    }
}

/// A session with the date of birth it already has on disk.
pub open spec fn with_birth(session: SessionView, existing: Option<SessionView>) -> SessionView {
    SessionView {
        meta: MetaView {
            created_at: match existing {
                Some(e) => e.meta.created_at,
                None => session.meta.created_at,
            },
            ..session.meta
        },
        ..session
    }
}

/// The sessions other than `id`.
pub open spec fn without_session(sessions: Seq<MetaView>, id: Text) -> Seq<MetaView> {
    sessions.filter(|m: MetaView| m.id != id)
}

/// The sessions with the entry of `meta` replaced, or added, at the end.
pub open spec fn with_session(sessions: Seq<MetaView>, meta: MetaView) -> Seq<MetaView> {
    without_session(sessions, meta.id).push(meta)
}

/// Keeps the sessions of one directory.
#[derive(Debug)]
pub struct SessionManager {
    pub sessions_dir: String,
}

impl SessionManager {
    /// The sessions under a root directory.
    pub fn new(workspace_root: &str) -> (r: SessionManager)
        ensures
            r.sessions_dir@ == path_joined(workspace_root@, SESSIONS_DIR@),
    {
        SessionManager { sessions_dir: join_path(workspace_root, SESSIONS_DIR) }
    }

    /// The file of the index.
    pub fn index_path(&self) -> (r: String)
        ensures
            r@ == path_joined(self.sessions_dir@, INDEX_FILE@),
    {
        join_path(&self.sessions_dir, INDEX_FILE)
    }

    /// The file of a session.
    pub fn session_path(&self, id: &str) -> (r: String)
        ensures
            r@ == path_joined(self.sessions_dir@, id@ + ".json"@),
    {
        let mut name = id.to_string();
        name.push_str(".json");
        join_path(&self.sessions_dir, &name)
    }

    /// All sessions of the index, the one updated last first.
    pub fn list(index: Option<SessionIndex>) -> (r: Vec<SessionMeta>)
        ensures
            views(r@) == ordered::<SessionMeta>(known_sessions(index)),
    {
        match index {
            Some(i) => sort(i.sessions),
            None => {
                let none: Vec<SessionMeta> = Vec::new();
                assert(views(none@) =~= Seq::<MetaView>::empty());
                none
            },
        }
    }

    /// What is written when a session is saved: the session, with the date of
    /// birth that `existing` (the file as it stands) has, and the new index.
    pub fn save(
        session: &Session,
        existing: &Option<Session>,
        index: Option<SessionIndex>,
    ) -> (r: (Session, SessionIndex))
        ensures
            r.0@ == with_birth(session@, opt_view(*existing)),
            r.1@ == with_session(known_sessions(index), r.0@.meta),
    {
        let mut meta = session.meta.clone();
        if let Some(e) = existing {
            meta.created_at = e.meta.created_at.clone();
        }
        let entry = meta.clone();
        let stored = Session {
            meta,
            messages: copy_stored(&session.messages),
            goal: copy_goal(&session.goal),
        };
        let mut sessions = Self::others(&index, &stored.meta.id);
        proof {
            lemma_views_push(sessions@, entry);
        }
        sessions.push(entry);
        (stored, SessionIndex { sessions })
    }

    /// The index after a session has been deleted.
    pub fn delete(id: &str, index: Option<SessionIndex>) -> (r: SessionIndex)
        ensures
            r@ == without_session(known_sessions(index), id@),
    {
        SessionIndex { sessions: Self::others(&index, id) }
    }

    fn others(index: &Option<SessionIndex>, id: &str) -> (r: Vec<SessionMeta>)
        ensures
            views(r@) == without_session(known_sessions(*index), id@),
    {
        let mut out: Vec<SessionMeta> = Vec::new();
        let ghost p = |m: MetaView| m.id != id@;
        let ghost all = known_sessions(*index);
        assert(views(out@) =~= Seq::<MetaView>::empty());
        assert(all.take(0).filter(p) =~= Seq::<MetaView>::empty()) by {
            reveal(Seq::filter);
        }
        if let Some(ix) = index {
            let mut i: usize = 0;
            while i < ix.sessions.len()
                invariant
                    i <= ix.sessions@.len(),
                    all == views(ix.sessions@),
                    p == (|m: MetaView| m.id != id@),
                    views(out@) == all.take(i as int).filter(p),
                decreases ix.sessions@.len() - i,
            {
                proof {
                    assert(all.take(i + 1) =~= all.take(i as int).push(all[i as int]));
                    all.take(i as int).lemma_filter_push(all[i as int], p);
                }
                if !text_eq(&ix.sessions[i].id, id) {
                    let copy = ix.sessions[i].clone();
                    proof {
                        lemma_views_push(out@, copy);
                    }
                    out.push(copy);
                }
                i = i + 1;
            }
            assert(all.take(i as int) =~= all);
        } else {
            assert(all.take(0) =~= all);
        }
        out
    }

    /// The place, in a list of sessions, of the first one of this workspace.
    pub fn latest_for(sessions: &Vec<SessionMeta>, workspace: &str) -> (r: Option<usize>)
        ensures
            match r {
                Some(i) => i < sessions@.len() && views(sessions@)[i as int].workspace == workspace@
                    && forall|j: int|
                    0 <= j < i ==> (#[trigger] views(sessions@)[j]).workspace != workspace@,
                None => forall|j: int|
                    0 <= j < sessions@.len() ==> (#[trigger] views(sessions@)[j]).workspace
                        != workspace@,
            },
    {
        let mut i: usize = 0;
        while i < sessions.len()
            invariant
                i <= sessions@.len(),
                forall|j: int|
                    0 <= j < i ==> (#[trigger] views(sessions@)[j]).workspace != workspace@,
            decreases sessions@.len() - i,
        {
            if text_eq(&sessions[i].workspace, workspace) {
                return Some(i);
            }
            i = i + 1;
        }
        None
    }

    /// A title from the first user message: without the whitespace around it, on
    /// one line, and cut to 47 bytes with dots behind where it has more than 50.
    pub fn generate_title(first_message: &str) -> (r: String)
        requires
            byte_len(title_line(first_message@)) > 50 ==> is_char_boundary(
                encode_utf8(title_line(first_message@)),
                47,
            ),
        ensures
            r@ == title_of(first_message@),
    {
        let line = trim(first_message);
        let cleaned = replace(&line, "\n", " ");
        if size(&cleaned) <= 50 {
            return cleaned;
        }
        let (head, _) = cleaned.as_str().split_at(47);
        proof {
            encode_utf8_decode_utf8(head@);
        }
        let mut r = head.to_string();
        r.push_str("...");
        r
    }
}

/// A message on one line.
pub open spec fn title_line(m: Text) -> Text {
    replaced(trimmed(m), "\n"@, " "@)
}

/// The title for a first message.
pub open spec fn title_of(m: Text) -> Text {
    let line = title_line(m);
    if byte_len(line) <= 50 {
        line
    } else {
        decode_utf8(encode_utf8(line).subrange(0, 47)) + "..."@
    }
}

proof fn lemma_trimmed_ends(s: Text)
    ensures
        trimmed(s).len() > 0 ==> !is_white(trimmed(s)[0]) && !is_white(trimmed(s).last()),
{
    lemma_start_kept(s);
    lemma_end_kept(trim_start(s));
}

proof fn lemma_start_kept(s: Text)
    ensures
        trim_start(s).len() > 0 ==> !is_white(trim_start(s)[0]),
    decreases s.len(),
{
    if s.len() > 0 && is_white(s[0]) {
        lemma_start_kept(s.skip(1));
    }
}

proof fn lemma_end_kept(s: Text)
    ensures
        trim_end(s).len() > 0 ==> trim_end(s)[0] == s[0] && !is_white(trim_end(s).last()),
    decreases s.len(),
{
    if s.len() > 0 && is_white(s.last()) {
        lemma_end_kept(s.drop_last());
    }
}

/// On one line every line feed becomes a space, and nothing else changes.
proof fn lemma_one_line(s: Text, from: int)
    requires
        0 <= from <= s.len(),
    ensures
        replaced_from(s, "\n"@, " "@, from).len() == s.len() - from,
        forall|i: int|
            0 <= i < s.len() - from ==> #[trigger] replaced_from(s, "\n"@, " "@, from)[i] == (if s[from
                + i] == '\n' {
                ' '
            } else {
                s[from + i]
            }),
    decreases s.len() - from,
{
    reveal_strlit("\n");
    reveal_strlit(" ");
    if from < s.len() {
        lemma_one_line(s, from + 1);
        let rest = replaced_from(s, "\n"@, " "@, from + 1);
        if s[from] == '\n' {
            assert(s.subrange(from, from + 1) =~= "\n"@);
        } else if occurs_at(s, "\n"@, from) {
            assert(s.subrange(from, from + 1)[0] == s[from]);
        }
        assert forall|i: int| 0 <= i < s.len() - from implies #[trigger] replaced_from(
            s,
            "\n"@,
            " "@,
            from,
        )[i] == (if s[from + i] == '\n' {
            ' '
        } else {
            s[from + i]
        }) by {
            if i > 0 {
                assert(replaced_from(s, "\n"@, " "@, from)[i] == rest[i - 1]);
                assert(rest[i - 1] == (if s[from + 1 + (i - 1)] == '\n' {
                    ' '
                } else {
                    s[from + 1 + (i - 1)]
                }));
            }
        }
    }
}

/// Whether a text is one line without whitespace around it.
pub open spec fn is_title_line(t: Text) -> bool {
    &&& !t.contains('\n')
    &&& t.len() > 0 ==> !is_white(t[0]) && !is_white(t.last())
}

proof fn lemma_title_line(m: Text)
    ensures
        is_title_line(title_line(m)),
        is_title_line(m) ==> title_line(m) == m,
{
    let t = trimmed(m);
    let line = title_line(m);
    lemma_trimmed_ends(m);
    lemma_one_line(t, 0);
    if line.contains('\n') {
        let i = choose|i: int| 0 <= i < line.len() && line[i] == '\n';
        assert(t[0 + i] == t[i]);
    }
    if t.len() > 0 {
        assert(line[0] == t[0]);
        assert(line[t.len() - 1] == t[0 + (t.len() - 1)]);
    }
    if is_title_line(m) {
        assert(t == m);
        assert forall|i: int| 0 <= i < m.len() implies line[i] == m[i] by {
            assert(m[0 + i] == m[i]);
            if m[i] == '\n' {
                assert(m.contains('\n'));
            }
        }
        assert(line =~= m);
    }
}

proof fn lemma_encode_concat(a: Text, b: Text)
    ensures
        encode_utf8(a + b) == encode_utf8(a) + encode_utf8(b),
    decreases a.len(),
{
    if a.len() == 0 {
        assert(a + b =~= b);
        assert(encode_utf8(a) + encode_utf8(b) =~= encode_utf8(b));
    } else {
        lemma_encode_concat(a.drop_first(), b);
        assert((a + b).drop_first() =~= a.drop_first() + b);
        let first = encode_scalar(a[0] as u32);
        assert(first + (encode_utf8(a.drop_first()) + encode_utf8(b)) =~= (first + encode_utf8(
            a.drop_first(),
        )) + encode_utf8(b));
    }
}

/// A title is one line of at most 50 bytes, and its own title.
pub proof fn titles_are_short(m: Text)
    requires
        byte_len(title_line(m)) > 50 ==> is_char_boundary(encode_utf8(title_line(m)), 47),
    ensures
        byte_len(title_of(m)) <= 50,
        !title_of(m).contains('\n'),
        title_of(title_of(m)) == title_of(m),
{
    let line = title_line(m);
    let title = title_of(m);
    lemma_title_line(m);
    if byte_len(line) > 50 {
        let bytes = encode_utf8(line);
        let first = bytes.subrange(0, 47);
        let head = decode_utf8(first);
        encode_utf8_valid_utf8(line);
        encode_utf8_decode_utf8(line);
        valid_utf8_split(bytes, 47);
        decode_utf8_split(bytes, 47);
        decode_utf8_encode_utf8(first);
        let rest = decode_utf8(bytes.subrange(47, bytes.len() as int));
        assert(line == head + rest);
        assert(head.len() > 0) by {
            if head.len() == 0 {
                assert(encode_utf8(head).len() == 0);
            }
        }
        reveal_strlit("...");
        assert(is_ascii_chars("..."@));
        is_ascii_chars_encode_utf8("..."@);
        lemma_encode_concat(head, "..."@);
        assert(title[0] == line[0]);
        assert(title.last() == '.');
        if title.contains('\n') {
            let i = choose|i: int| 0 <= i < title.len() && title[i] == '\n';
            assert(i < head.len());
            assert(line[i] == '\n');
        }
    }
    lemma_title_line(title);
}

/// Listing puts the sessions in order and loses none.
pub proof fn list_is_complete(sessions: Seq<MetaView>)
    ensures
        forall|i: int, j: int|
            0 <= i < j < sessions.len() ==> !text_less(
                (#[trigger] ordered::<SessionMeta>(sessions)[i]).updated_at,
                (#[trigger] ordered::<SessionMeta>(sessions)[j]).updated_at,
            ),
        ordered::<SessionMeta>(sessions).to_multiset() == sessions.to_multiset(),
{
    crate::order::ordered_is_sorted::<SessionMeta>(sessions);
}

proof fn lemma_filter_ids(sessions: Seq<MetaView>, id: Text)
    ensures
        forall|i: int|
            0 <= i < without_session(sessions, id).len() ==> (#[trigger] without_session(
                sessions,
                id,
            )[i]).id != id,
        (forall|i: int| 0 <= i < sessions.len() ==> (#[trigger] sessions[i]).id != id)
            ==> without_session(sessions, id) == sessions,
    decreases sessions.len(),
{
    reveal(Seq::filter);
    let p = |m: MetaView| m.id != id;
    if sessions.len() > 0 {
        let t = sessions.drop_last();
        lemma_filter_ids(t, id);
        if forall|i: int| 0 <= i < sessions.len() ==> (#[trigger] sessions[i]).id != id {
            assert forall|i: int| 0 <= i < t.len() implies (#[trigger] t[i]).id != id by {
                assert(t[i] == sessions[i]);
            }
            assert(t.push(sessions.last()) =~= sessions);
        }
    } else {
        assert(without_session(sessions, id) =~= sessions);
    }
}

/// After a save the index has exactly one entry for the session, the last one,
/// and the others as they were.
pub proof fn save_leaves_one_entry(sessions: Seq<MetaView>, meta: MetaView)
    ensures
        ({
            let now = with_session(sessions, meta);
            &&& now.last() == meta
            &&& forall|i: int| 0 <= i < now.len() - 1 ==> (#[trigger] now[i]).id != meta.id
            &&& now.drop_last() == without_session(sessions, meta.id)
        }),
{
    lemma_filter_ids(sessions, meta.id);
    let now = with_session(sessions, meta);
    assert(now.drop_last() =~= without_session(sessions, meta.id));
    assert forall|i: int| 0 <= i < now.len() - 1 implies (#[trigger] now[i]).id != meta.id by {
        assert(now[i] == without_session(sessions, meta.id)[i]);
    }
}

/// Deleting a session right after saving it leaves the index without it, as if
/// only the delete had happened.
pub proof fn delete_undoes_save(sessions: Seq<MetaView>, meta: MetaView)
    ensures
        without_session(with_session(sessions, meta), meta.id) == without_session(
            sessions,
            meta.id,
        ),
        forall|i: int|
            0 <= i < without_session(sessions, meta.id).len() ==> (#[trigger] without_session(
                sessions,
                meta.id,
            )[i]).id != meta.id,
{
    let rest = without_session(sessions, meta.id);
    lemma_filter_ids(sessions, meta.id);
    lemma_filter_ids(rest, meta.id);
    rest.lemma_filter_push(meta, |m: MetaView| m.id != meta.id);
}

/// A session keeps its date of birth however often it is saved.
pub proof fn birth_survives_saves(first: SessionView, again: SessionView)
    ensures
        with_birth(again, Some(first)).meta.created_at == first.meta.created_at,
        with_birth(again, Some(first)).meta.updated_at == again.meta.updated_at,
{
}

/// What is stored of a session is the session itself, but for the date of birth that
/// it already had; and the index lists it just so.
pub proof fn saves_keep_everything(
    s: SessionView,
    existing: Option<SessionView>,
    sessions: Seq<MetaView>,
)
    ensures
        existing is None ==> with_birth(s, existing) == s,
        with_birth(s, existing).messages == s.messages,
        with_birth(s, existing).goal == s.goal,
        with_birth(s, existing).meta == (MetaView {
            created_at: with_birth(s, existing).meta.created_at,
            ..s.meta
        }),
        with_session(sessions, with_birth(s, existing).meta).last() == with_birth(s, existing).meta,
{
    save_leaves_one_entry(sessions, with_birth(s, existing).meta);
}

} // verus!
