//! The context engine: what of a project goes into the model's window, and how
//! much of the window is taken.

use crate::order::{less, ordered, sort, text_less, text_order, Ranked};
use crate::text::{
    byte_len, chars_of, ends, ends_with, join, joined, lemma_views_push, number, decimal, opt_view,
    size, starts_with, text_eq, views, Text, begins,
};
use vstd::prelude::*;
use vstd::utf8::*;

verus! {

/// What the model is told of itself and its work.
pub const SYSTEM_PROMPT: &'static str = r#"You are DeepSeek Code — 小鲸鱼 (Little Whale), a versatile AI assistant with a 1M-token context window. You have access to tools for reading and writing files, running shell commands, searching code and the web, and managing persistent memory.

You work in a workspace — a folder on the user's computer. You can explore it, create and edit files, run commands, search the web, and remember things across sessions. Adapt to whatever the user needs: software development, research, writing, data analysis, or general problem-solving.

Guidelines:
- Read files before editing them. Don't guess.
- Use the right tool for the job. Shell commands for building/testing. Web search for current information. File tools for content.
- Use markdown naturally when it helps readability — but keep it minimal. No formal report structures or decorative sections.
- Match the user's language. If they write in Chinese, respond in Chinese.
- If you're unsure about something, ask or search rather than assuming.

Persona:
- You go by "小鲸鱼" ("Little Whale") and greet/wrap up with an occasional light ocean-flavored touch — but never at the cost of clarity, precision, or professionalism. A rare whale pun or 摸鱼 joke is welcome; emoji spam is not.
- Stay a calm, reliable companion: cheerful depth, no drama."#;

/// How the model is to deal with time. It names no time of its own: the clock
/// stands on the last message of the user.
pub const TIME_SECTION: &'static str = r#"
## Time Awareness Layer

The authoritative wall-clock time is stamped on the current user message as
[time_harness now=...]. Ignore any other time hints unless they are data
timestamps on tool results.

Every tool result in this conversation carries a [data_time=...] annotation
marking the moment the data was produced. Follow these rules:

- Data within its freshness horizon is still valid — reuse it, do not re-query.
- Data older than the horizon is STALE — re-fetch before presenting it, and
  never present stale data as current.
- Decision procedure for every observation (the TAL decision chain):
  1. Read data_time and the current [time_harness now=...] stamp.
  2. Compute the age yourself: now minus data_time. Timestamps carry local
     timezone offsets (e.g. +0800) — convert to one zone before subtracting,
     and do not let a calendar-date rollover fool you (Aug 6 09:00 +0800 is
     still Aug 5 in New York).
  3. Treat the freshness label as potentially wrong — verify from the raw age
     against the horizon, never from the label alone.
  4. Age < horizon → reuse; age >= horizon → re-fetch; never present stale
     data as current.
- Freshness horizons: stock/weather quotes ≈ 15–30 min; package tracking ≈ 6 h;
  web search ≈ 24 h; shell/system state ≈ 1 h; file contents have no expiry
  unless the user asks about current state (then re-read the file).
- Search results can contain pages older than the fetch itself — when content
  carries its own timestamp (e.g. "21 minutes ago", a publication date, or a
  cache-busting URL parameter) that conflicts with fetch time, prefer the
  content-embedded evidence and say so.
- If a claim asserts that something is still valid based on an observation
  older than its horizon, that claim is stale — flag it instead of repeating it.
- When you report a value, mention how fresh it is when it matters.
"#;

/// How the model is to deal with time.
pub fn time_harness_system_section() -> (r: String)
    ensures
        r@ == TIME_SECTION@,
{
    TIME_SECTION.to_string()
}

/// How many characters lie beyond U+2000; those count as a token each.
pub open spec fn wide_chars(s: Text) -> nat
    decreases s.len(),
{
    if s.len() == 0 {
        0
    } else {
        wide_chars(s.drop_last()) + (if s.last() as u32 > 0x2000 {
            1nat
        } else {
            0nat
        })
    }
}

/// About how many tokens a text takes: one for each wide character, and one for
/// every four of the remaining bytes.
pub open spec fn token_estimate(s: Text) -> int {
    wide_chars(s) + (byte_len(s) - wide_chars(s)) / 4
}

proof fn lemma_bytes_cover_chars(s: Text)
    ensures
        s.len() <= byte_len(s),
    decreases s.len(),
{
    if s.len() > 0 {
        lemma_bytes_cover_chars(s.drop_first());
    }
}

proof fn lemma_wide_chars(s: Text)
    ensures
        wide_chars(s) <= s.len(),
    decreases s.len(),
{
    if s.len() > 0 {
        lemma_wide_chars(s.drop_last());
    }
}

/// About how many tokens a text takes.
pub fn estimate_tokens(text: &str) -> (r: u64)
    ensures
        r == token_estimate(text@),
{
    let len: u64 = size(text) as u64;
    let v = chars_of(text);
    let mut wide: u64 = 0;
    let mut i: usize = 0;
    while i < v.len()
        invariant
            v@ == text@,
            i <= v@.len(),
            wide <= i,
            wide == wide_chars(text@.take(i as int)),
        decreases v@.len() - i,
    {
        assert(text@.take(i + 1).drop_last() =~= text@.take(i as int));
        if v[i] as u32 > 0x2000 {
            wide = wide + 1;
        }
        i = i + 1;
    }
    proof {
        assert(text@.take(i as int) =~= text@);
        lemma_bytes_cover_chars(text@);
        lemma_wide_chars(text@);
    }
    wide + (len - wide) / 4
}

/// An estimate never exceeds the length in bytes.
pub proof fn estimate_is_bounded(s: Text)
    ensures
        0 <= token_estimate(s) <= byte_len(s),
        4 * token_estimate(s) + 3 >= byte_len(s),
{
    lemma_bytes_cover_chars(s);
    lemma_wide_chars(s);
}

/// A file of the project with its content.
#[derive(Debug)]
pub struct FileContext {
    pub path: String,
    pub content: String,
    pub language: String,
    pub estimated_tokens: u64,
}

#[verifier::ext_equal]
pub struct FileView {
    pub path: Text,
    pub content: Text,
    pub language: Text,
    pub estimated_tokens: u64,
}

impl View for FileContext {
    type V = FileView;

    open spec fn view(&self) -> FileView {
        FileView {
            path: self.path@,
            content: self.content@,
            language: self.language@,
            estimated_tokens: self.estimated_tokens,
        }
    }
}

/// Smaller files come first.
impl Ranked for FileContext {
    open spec fn precedes(a: FileView, b: FileView) -> bool {
        a.estimated_tokens < b.estimated_tokens
    }

    proof fn is_order(a: FileView, b: FileView, c: FileView) {
    }

    fn comes_before(&self, other: &FileContext) -> (r: bool) {
        self.estimated_tokens < other.estimated_tokens
    }
}

/// How much of the window a file takes.
#[derive(Debug)]
pub struct KeyFileBreakdown {
    pub path: String,
    pub tokens: u64,
}

#[verifier::ext_equal]
pub struct KeyFileView {
    pub path: Text,
    pub tokens: u64,
}

impl View for KeyFileBreakdown {
    type V = KeyFileView;

    open spec fn view(&self) -> KeyFileView {
        KeyFileView { path: self.path@, tokens: self.tokens }
    }
}

/// Larger files come first.
impl Ranked for KeyFileBreakdown {
    open spec fn precedes(a: KeyFileView, b: KeyFileView) -> bool {
        a.tokens > b.tokens
    }

    proof fn is_order(a: KeyFileView, b: KeyFileView, c: KeyFileView) {
    }

    fn comes_before(&self, other: &KeyFileBreakdown) -> (r: bool) {
        self.tokens > other.tokens
    }
}

impl Clone for KeyFileBreakdown {
    fn clone(&self) -> (r: KeyFileBreakdown)
        ensures
            r@ == self@,
    {
        KeyFileBreakdown { path: self.path.clone(), tokens: self.tokens }
    }
}

/// What the project looks like to the model.
#[derive(Debug)]
pub struct ProjectContext {
    pub workspace_root: String,
    pub structure: String,
    pub key_files: Vec<FileContext>,
    pub git_status: Option<String>,
    pub recent_memories: Vec<String>,
    pub total_estimated_tokens: u64,
}

#[verifier::ext_equal]
pub struct ProjectView {
    pub workspace_root: Text,
    pub structure: Text,
    pub key_files: Seq<FileView>,
    pub git_status: Option<Text>,
    pub recent_memories: Seq<Text>,
    pub total_estimated_tokens: u64,
}

impl View for ProjectContext {
    type V = ProjectView;

    open spec fn view(&self) -> ProjectView {
        ProjectView {
            workspace_root: self.workspace_root@,
            structure: self.structure@,
            key_files: views(self.key_files@),
            git_status: opt_view(self.git_status),
            recent_memories: views(self.recent_memories@),
            total_estimated_tokens: self.total_estimated_tokens,
        }
    }
}

/// What takes up the window, part by part.
#[derive(Debug)]
pub struct ContextBreakdown {
    pub system_prompt_tokens: u64,
    pub structure_tokens: u64,
    pub key_files_tokens: u64,
    pub key_files: Vec<KeyFileBreakdown>,
    pub conversation_tokens: u64,
    pub tool_definitions_tokens: u64,
    pub total_tokens: u64,
    pub max_tokens: u64,
}

#[verifier::ext_equal]
pub struct BreakdownView {
    pub system_prompt_tokens: u64,
    pub structure_tokens: u64,
    pub key_files_tokens: u64,
    pub key_files: Seq<KeyFileView>,
    pub conversation_tokens: u64,
    pub tool_definitions_tokens: u64,
    pub total_tokens: u64,
    pub max_tokens: u64,
}

impl View for ContextBreakdown {
    type V = BreakdownView;

    open spec fn view(&self) -> BreakdownView {
        BreakdownView {
            system_prompt_tokens: self.system_prompt_tokens,
            structure_tokens: self.structure_tokens,
            key_files_tokens: self.key_files_tokens,
            key_files: views(self.key_files@),
            conversation_tokens: self.conversation_tokens,
            tool_definitions_tokens: self.tool_definitions_tokens,
            total_tokens: self.total_tokens,
            max_tokens: self.max_tokens,
        }
    }
}

/// Keeps track of what goes into each request.
///
/// The window holds 1M tokens, of which 384K are reserved for the answer; history
/// is summarized from 580K on, well before the endpoint refuses a request.
#[derive(Debug)]
pub struct ContextEngine {
    pub token_usage: u64,
    pub soft_forget_threshold: u64,
    pub max_tokens: u64,
    pub output_reservation: u64,
    pub workspace_root: String,
    /// The key files of the last scan, each path once.
    pub file_index: Vec<KeyFileBreakdown>,
    pub structure_tokens: u64,
    pub system_prompt_tokens: u64,
}

#[verifier::ext_equal]
pub struct EngineView {
    pub token_usage: u64,
    pub soft_forget_threshold: u64,
    pub max_tokens: u64,
    pub output_reservation: u64,
    pub workspace_root: Text,
    pub file_index: Seq<KeyFileView>,
    pub structure_tokens: u64,
    pub system_prompt_tokens: u64,
}

impl View for ContextEngine {
    type V = EngineView;

    open spec fn view(&self) -> EngineView {
        EngineView {
            token_usage: self.token_usage,
            soft_forget_threshold: self.soft_forget_threshold,
            max_tokens: self.max_tokens,
            output_reservation: self.output_reservation,
            workspace_root: self.workspace_root@,
            file_index: views(self.file_index@),
            structure_tokens: self.structure_tokens,
            system_prompt_tokens: self.system_prompt_tokens,
        }
    }
}

/// The tokens of all listed files together.
pub open spec fn listed_tokens(files: Seq<KeyFileView>) -> nat
    decreases files.len(),
{
    if files.len() == 0 {
        0
    } else {
        listed_tokens(files.drop_last()) + files.last().tokens as nat
    }
}

/// The tokens of all files together.
pub open spec fn file_tokens(files: Seq<FileView>) -> nat
    decreases files.len(),
{
    if files.len() == 0 {
        0
    } else {
        file_tokens(files.drop_last()) + files.last().estimated_tokens as nat
    }
}

/// The index of some files: each path once, with the tokens of its last file.
pub open spec fn index_of(files: Seq<FileView>) -> Seq<KeyFileView>
    decreases files.len(),
{
    if files.len() == 0 {
        Seq::empty()
    } else {
        let f = files.last();
        index_of(files.drop_last()).filter(|k: KeyFileView| k.path != f.path).push(
            KeyFileView { path: f.path, tokens: f.estimated_tokens },
        )
    }
}

proof fn lemma_listed_split(files: Seq<KeyFileView>, k: int)
    requires
        0 <= k < files.len(),
    ensures
        listed_tokens(files) == listed_tokens(files.remove(k)) + files[k].tokens,
    decreases files.len(),
{
    if k < files.len() - 1 {
        let t = files.drop_last();
        lemma_listed_split(t, k);
        assert(files.remove(k).drop_last() =~= t.remove(k));
    } else {
        assert(files.remove(k) =~= files.drop_last());
    }
}

proof fn lemma_listed_ordered(files: Seq<KeyFileView>)
    ensures
        listed_tokens(ordered::<KeyFileBreakdown>(files)) == listed_tokens(files),
    decreases files.len(),
{
    if files.len() > 0 {
        let t = files.skip(1);
        let x = files[0];
        lemma_listed_ordered(t);
        let rest = ordered::<KeyFileBreakdown>(t);
        crate::order::ordered_is_sorted::<KeyFileBreakdown>(t);
        crate::order::ordered_is_sorted::<KeyFileBreakdown>(files);
        let k = crate::order::slot::<KeyFileBreakdown>(rest, x, 0);
        crate::order::lemma_slot::<KeyFileBreakdown>(rest, x, 0);
        let out = rest.insert(k, x);
        assert(out.remove(k) =~= rest);
        lemma_listed_split(out, k);
        assert(files.remove(0) =~= t);
        lemma_listed_split(files, 0);
    }
}

proof fn lemma_listed_prefix(files: Seq<KeyFileView>, n: int)
    requires
        0 <= n <= files.len(),
    ensures
        listed_tokens(files.take(n)) <= listed_tokens(files),
    decreases files.len() - n,
{
    if n < files.len() {
        lemma_listed_prefix(files, n + 1);
        assert(files.take(n + 1).drop_last() =~= files.take(n));
    } else {
        assert(files.take(n) =~= files);
    }
}

/// Which part of the window the engine knows of: the largest files first.
pub open spec fn engine_breakdown(e: EngineView) -> BreakdownView {
    BreakdownView {
        system_prompt_tokens: 0,
        structure_tokens: e.structure_tokens,
        key_files_tokens: listed_tokens(e.file_index) as u64,
        key_files: ordered::<KeyFileBreakdown>(e.file_index),
        conversation_tokens: 0,
        tool_definitions_tokens: 0,
        total_tokens: 0,
        max_tokens: e.max_tokens,
    }
}

impl ContextEngine {
    pub fn new(workspace_root: String) -> (r: ContextEngine)
        ensures
            r@ == (EngineView {
                token_usage: 0,
                soft_forget_threshold: 580_000,
                max_tokens: 1_048_576,
                output_reservation: 384_000,
                workspace_root: workspace_root@,
                file_index: Seq::empty(),
                structure_tokens: 0,
                system_prompt_tokens: token_estimate(SYSTEM_PROMPT@) as u64,
            }),
    {
        let r = ContextEngine {
            token_usage: 0,
            soft_forget_threshold: 580_000,
            max_tokens: 1_048_576,
            output_reservation: 384_000,
            workspace_root,
            file_index: Vec::new(),
            structure_tokens: 0,
            system_prompt_tokens: estimate_tokens(SYSTEM_PROMPT),
        };
        assert(r@.file_index =~= Seq::<KeyFileView>::empty());
        r
    }

    /// The parts of the window that the engine knows of. Those that it does not
    /// (prompt, conversation, tools) are left at 0 for the agent to fill in.
    pub fn breakdown(&self) -> (r: ContextBreakdown)
        requires
            listed_tokens(self@.file_index) <= u64::MAX,
        ensures
            r@ == engine_breakdown(self@),
    {
        let key_files = sort(copy_index(&self.file_index));
        proof {
            lemma_listed_ordered(self@.file_index);
        }
        let mut total: u64 = 0;
        let mut i: usize = 0;
        while i < key_files.len()
            invariant
                i <= key_files@.len(),
                total == listed_tokens(views(key_files@).take(i as int)),
                listed_tokens(views(key_files@)) <= u64::MAX,
            decreases key_files@.len() - i,
        {
            proof {
                assert(views(key_files@).take(i + 1).drop_last() =~= views(key_files@).take(
                    i as int,
                ));
                lemma_listed_prefix(views(key_files@), i + 1);
            }
            total = total + key_files[i].tokens;
            i = i + 1;
        }
        assert(views(key_files@).take(i as int) =~= views(key_files@));
        ContextBreakdown {
            system_prompt_tokens: 0,
            structure_tokens: self.structure_tokens,
            key_files_tokens: total,
            key_files,
            conversation_tokens: 0,
            tool_definitions_tokens: 0,
            total_tokens: 0,
            max_tokens: self.max_tokens,
        }
    }

    /// Whether the history has to be summarized.
    pub fn should_compact(&self) -> (r: bool)
        ensures
            r == (self@.token_usage > self@.soft_forget_threshold),
    {
        self.token_usage > self.soft_forget_threshold
    }
}

fn copy_index(index: &Vec<KeyFileBreakdown>) -> (r: Vec<KeyFileBreakdown>)
    ensures
        views(r@) == views(index@),
{
    let mut out: Vec<KeyFileBreakdown> = Vec::new();
    let mut i: usize = 0;
    while i < index.len()
        invariant
            i <= index@.len(),
            views(out@) == views(index@).take(i as int),
        decreases index@.len() - i,
    {
        let copy = index[i].clone();
        proof {
            lemma_views_push(out@, copy);
            assert(views(index@).take(i + 1) =~= views(index@).take(i as int).push(copy@));
        }
        out.push(copy);
        i = i + 1;
    }
    assert(views(index@).take(i as int) =~= views(index@));
    out
}

/// Directories that hold nothing of the project's own.
pub open spec fn is_build_dir(name: Text) -> bool {
    name == "node_modules"@ || name == "target"@ || name == "dist"@ || name == "build"@ || name
        == "__pycache__"@ || name == ".git"@
}

/// Whether a name is shown in the project's structure: hidden ones are not, but
/// for the agent's own directory.
pub open spec fn is_shown(name: Text) -> bool {
    !(begins(name, "."@) && name != ".deepseek-code"@) && !is_build_dir(name)
}

/// Whether a name is looked at when key files are collected.
pub open spec fn is_searched(name: Text) -> bool {
    !begins(name, "."@) && !is_build_dir(name)
}

fn build_dir(name: &str) -> (r: bool)
    ensures
        r == is_build_dir(name@),
{
    text_eq(name, "node_modules") || text_eq(name, "target") || text_eq(name, "dist") || text_eq(
        name,
        "build",
    ) || text_eq(name, "__pycache__") || text_eq(name, ".git")
}

/// Whether a name is shown in the project's structure.
pub fn shows_entry(name: &str) -> (r: bool)
    ensures
        r == is_shown(name@),
{
    !(starts_with(name, ".") && !text_eq(name, ".deepseek-code")) && !build_dir(name)
}

/// Whether a name is looked at when key files are collected.
pub fn searches_entry(name: &str) -> (r: bool)
    ensures
        r == is_searched(name@),
{
    !starts_with(name, ".") && !build_dir(name)
}

/// An entry of a directory, with what is in it where it is one itself.
#[derive(Debug)]
pub struct TreeEntry {
    pub name: String,
    pub is_dir: bool,
    pub children: Vec<TreeEntry>,
}

#[verifier::ext_equal]
pub struct TreeView {
    pub name: Text,
    pub is_dir: bool,
    pub children: Seq<TreeView>,
}

pub open spec fn tree_view(e: TreeEntry) -> TreeView
    decreases e,
{
    TreeView {
        name: e.name@,
        is_dir: e.is_dir,
        children: Seq::new(
            e.children@.len(),
            |i: int|
                if 0 <= i < e.children@.len() {
                    tree_view(e.children@[i])
                } else {
                    arbitrary()
                },
        ),
    }
}

impl View for TreeEntry {
    type V = TreeView;

    open spec fn view(&self) -> TreeView {
        tree_view(*self)
    }
}

/// Entries are listed by name.
impl Ranked for TreeEntry {
    open spec fn precedes(a: TreeView, b: TreeView) -> bool {
        text_less(a.name, b.name)
    }

    proof fn is_order(a: TreeView, b: TreeView, c: TreeView) {
        text_order(a.name, b.name, c.name);
    }

    fn comes_before(&self, other: &TreeEntry) -> (r: bool) {
        less(&self.name, &other.name)
    }
}

/// How deep the structure is shown: this many levels below the root.
pub const STRUCTURE_DEPTH: u64 = 3;

/// Two spaces for each level.
pub open spec fn indent(depth: nat) -> Text
    decreases depth,
{
    if depth == 0 {
        Seq::empty()
    } else {
        indent((depth - 1) as nat) + "  "@
    }
}

/// The lines of one entry and of what is in it.
pub open spec fn entry_lines(e: TreeView, depth: nat) -> Text
    decreases STRUCTURE_DEPTH + 1 - depth, 1nat, 0nat,
{
    if depth > STRUCTURE_DEPTH || !is_shown(e.name) {
        Seq::empty()
    } else if e.is_dir {
        indent(depth) + e.name + "/\n"@ + tree_lines(
            ordered::<TreeEntry>(e.children),
            depth + 1,
        )
    } else {
        indent(depth) + e.name + "\n"@
    }
}

/// The lines of some entries, in the order given.
pub open spec fn tree_lines(entries: Seq<TreeView>, depth: nat) -> Text
    decreases STRUCTURE_DEPTH + 1 - depth, 2nat, entries.len(),
{
    if depth > STRUCTURE_DEPTH || entries.len() == 0 {
        Seq::empty()
    } else {
        tree_lines(entries.drop_last(), depth) + entry_lines(entries.last(), depth)
    }
}

/// The structure of a project: a tree of names, each level in order.
pub open spec fn structure_text(entries: Seq<TreeView>) -> Text {
    "## Project Structure\n\n```\n"@ + tree_lines(ordered::<TreeEntry>(entries), 0) + "```\n"@
}

fn indent_text(depth: u64) -> (r: String)
    ensures
        r@ == indent(depth as nat),
    decreases depth,
{
    if depth == 0 {
        String::new()
    } else {
        let mut s = indent_text(depth - 1);
        s.push_str("  ");
        s
    }
}

fn write_tree(entries: Vec<TreeEntry>, depth: u64) -> (r: String)
    requires
        depth <= STRUCTURE_DEPTH + 1,
    ensures
        r@ == tree_lines(ordered::<TreeEntry>(views(entries@)), depth as nat),
    decreases STRUCTURE_DEPTH + 1 - depth,
{
    if depth > STRUCTURE_DEPTH {
        return String::new();
    }
    let mut out = String::new();
    let sorted = sort(entries);
    let ghost all = views(sorted@);
    let mut left = sorted;
    let mut parts: Vec<String> = Vec::new();
    let ghost d = depth as nat;
    while left.len() > 0
        invariant
            depth <= STRUCTURE_DEPTH,
            d == depth as nat,
            left@.len() + parts@.len() == all.len(),
            views(left@) == all.take(left@.len() as int),
            forall|i: int|
                0 <= i < parts@.len() ==> (#[trigger] parts@[i])@ == entry_lines(
                    all[all.len() - 1 - i],
                    d,
                ),
        decreases left@.len(),
    {
        let ghost n = left@.len() as int;
        let ghost before = left@;
        if let Some(e) = left.pop() {
            assert(views(before)[n - 1] == before[n - 1]@);
            assert(e@ == all[n - 1]);
            assert(views(left@) =~= all.take(n - 1)) by {
                assert forall|i: int| 0 <= i < n - 1 implies views(left@)[i] == all[i] by {
                    assert(views(before)[i] == all.take(n)[i]);
                }
            }
            let mut line = String::new();
            if shows_entry(&e.name) {
                line = indent_text(depth);
                line.push_str(&e.name);
                if e.is_dir {
                    assert(e@.children =~= views(e.children@));
                    line.push_str("/\n");
                    line.push_str(&write_tree(e.children, depth + 1));
                } else {
                    line.push_str("\n");
                }
            }
            assert(line@ == entry_lines(all[n - 1], d));
            parts.push(line);
        }
    }
    let mut i: usize = parts.len();
    assert(all.take(0) =~= Seq::<TreeView>::empty());
    assert(tree_lines(all.take(0), d) =~= Seq::<char>::empty());
    while i > 0
        invariant
            i <= parts@.len() == all.len(),
            d == depth as nat,
            depth <= STRUCTURE_DEPTH,
            out@ == tree_lines(all.take(all.len() - i), d),
            forall|j: int|
                0 <= j < parts@.len() ==> (#[trigger] parts@[j])@ == entry_lines(
                    all[all.len() - 1 - j],
                    d,
                ),
        decreases i,
    {
        i = i - 1;
        let ghost k = all.len() - i;
        assert(all.take(k).drop_last() =~= all.take(k - 1));
        assert(all.take(k).last() == all[k - 1]);
        out.push_str(&parts[i]);
    }
    assert(all.take(all.len() as int) =~= all);
    out
}

/// The structure of a project: a tree of names, each level in order, without
/// what is hidden or generated.
pub fn build_structure_summary(entries: Vec<TreeEntry>) -> (r: String)
    ensures
        r@ == structure_text(views(entries@)),
{
    let mut s = "## Project Structure\n\n```\n".to_string();
    s.push_str(&write_tree(entries, 0));
    s.push_str("```\n");
    s
}

/// Files this large are left out of the key files.
pub const LARGE_FILE_TOKENS: u64 = 50_000;

/// The kinds of files that are collected, in order of priority.
pub open spec fn priority_kinds() -> Seq<Text> {
    seq![
        "toml"@,
        "json"@,
        "yaml"@,
        "yml"@,
        "rs"@,
        "ts"@,
        "tsx"@,
        "js"@,
        "py"@,
        "md"@,
        "html"@,
        "css"@,
    ]
}

/// The kinds of files that are collected, in order of priority.
pub fn priority_exts() -> (r: Vec<String>)
    ensures
        views(r@) == priority_kinds(),
{
    let mut v: Vec<String> = Vec::new();
    v.push("toml".to_string());
    v.push("json".to_string());
    v.push("yaml".to_string());
    v.push("yml".to_string());
    v.push("rs".to_string());
    v.push("ts".to_string());
    v.push("tsx".to_string());
    v.push("js".to_string());
    v.push("py".to_string());
    v.push("md".to_string());
    v.push("html".to_string());
    v.push("css".to_string());
    assert(views(v@) =~= priority_kinds());
    v
}

/// Whether a file name has this extension.
pub fn has_extension(name: &str, ext: &str) -> (r: bool)
    ensures
        r == ends(name@, "."@ + ext@),
{
    let mut suffix = ".".to_string();
    suffix.push_str(ext);
    ends_with(name, &suffix)
}

/// Collects key files while a workspace is searched.
#[derive(Debug)]
pub struct KeyFileCollector {
    pub files: Vec<FileContext>,
    pub max: usize,
}

/// The files after one more was found: it is taken if there is room and it is not
/// too large.
pub open spec fn offered(
    files: Seq<FileView>,
    max: int,
    path: Text,
    content: Text,
    language: Text,
) -> Seq<FileView> {
    if files.len() < max && token_estimate(content) < LARGE_FILE_TOKENS {
        files.push(
            FileView { path, content, language, estimated_tokens: token_estimate(content) as u64 },
        )
    } else {
        files
    }
}

/// The files that are kept: the smallest ones first, and at most `max`.
pub open spec fn kept_files(files: Seq<FileView>, max: int) -> Seq<FileView> {
    let sorted = ordered::<FileContext>(files);
    if sorted.len() > max {
        sorted.take(max)
    } else {
        sorted
    }
}

impl KeyFileCollector {
    pub fn new(max: usize) -> (r: KeyFileCollector)
        ensures
            r.files@.len() == 0,
            r.max == max,
    {
        KeyFileCollector { files: Vec::new(), max }
    }

    /// Whether there is room for more files.
    pub fn wants_more(&self) -> (r: bool)
        ensures
            r == (self.files@.len() < self.max),
    {
        self.files.len() < self.max
    }

    /// Takes a file that was found, if there is room and it is not too large.
    pub fn offer(&mut self, path: String, content: String, language: &str)
        ensures
            views(final(self).files@) == offered(
                views(old(self).files@),
                old(self).max as int,
                path@,
                content@,
                language@,
            ),
            final(self).max == old(self).max,
    {
        let tokens: u64 = estimate_tokens(&content);
        if self.files.len() < self.max && tokens < LARGE_FILE_TOKENS {
            let f = FileContext {
                path,
                content,
                language: language.to_string(),
                estimated_tokens: tokens,
            };
            proof {
                lemma_views_push(self.files@, f);
            }
            self.files.push(f);
        }
    }

    /// The files that are kept, the smallest first.
    pub fn finish(self) -> (r: Vec<FileContext>)
        ensures
            views(r@) == kept_files(views(self.files@), self.max as int),
    {
        let mut sorted = sort(self.files);
        let ghost all = views(sorted@);
        if sorted.len() > self.max {
            sorted.truncate(self.max);
            assert(views(sorted@) =~= all.take(self.max as int));
        }
        sorted
    }
}

/// At most `max` files are kept, in order, and all of them where there is room.
pub proof fn kept_files_are_bounded(files: Seq<FileView>, max: int)
    requires
        max >= 0,
    ensures
        kept_files(files, max).len() <= max,
        files.len() <= max ==> kept_files(files, max).to_multiset() == files.to_multiset(),
        crate::order::in_order::<FileContext>(kept_files(files, max)),
{
    crate::order::ordered_is_sorted::<FileContext>(files);
    let sorted = ordered::<FileContext>(files);
    let kept = kept_files(files, max);
    assert forall|i: int, j: int| 0 <= i < j < kept.len() implies !FileContext::precedes(
        #[trigger] kept[j],
        #[trigger] kept[i],
    ) by {
        assert(kept[i] == sorted[i] && kept[j] == sorted[j]);
    }
}

fn index_files(files: &Vec<FileContext>) -> (r: Vec<KeyFileBreakdown>)
    ensures
        views(r@) == index_of(views(files@)),
{
    let mut index: Vec<KeyFileBreakdown> = Vec::new();
    let mut i: usize = 0;
    assert(views(index@) =~= Seq::<KeyFileView>::empty());
    while i < files.len()
        invariant
            i <= files@.len(),
            views(index@) == index_of(views(files@).take(i as int)),
        decreases files@.len() - i,
    {
        assert(views(files@).take(i + 1).drop_last() =~= views(files@).take(i as int));
        let mut next = without_path(&index, &files[i].path);
        let entry = KeyFileBreakdown {
            path: files[i].path.clone(),
            tokens: files[i].estimated_tokens,
        };
        proof {
            lemma_views_push(next@, entry);
        }
        next.push(entry);
        index = next;
        i = i + 1;
    }
    assert(views(files@).take(i as int) =~= views(files@));
    index
}

fn without_path(index: &Vec<KeyFileBreakdown>, path: &String) -> (r: Vec<KeyFileBreakdown>)
    ensures
        views(r@) == views(index@).filter(|k: KeyFileView| k.path != path@),
{
    let mut out: Vec<KeyFileBreakdown> = Vec::new();
    let ghost all = views(index@);
    let ghost p = |k: KeyFileView| k.path != path@;
    let mut i: usize = 0;
    assert(all.take(0).filter(p) =~= Seq::<KeyFileView>::empty()) by {
        reveal(Seq::filter);
    }
    while i < index.len()
        invariant
            i <= index@.len(),
            all == views(index@),
            p == (|k: KeyFileView| k.path != path@),
            views(out@) == all.take(i as int).filter(p),
        decreases index@.len() - i,
    {
        proof {
            assert(all.take(i + 1) =~= all.take(i as int).push(all[i as int]));
            all.take(i as int).lemma_filter_push(all[i as int], p);
        }
        if !text_eq(&index[i].path, path) {
            let copy = index[i].clone();
            proof {
                lemma_views_push(out@, copy);
            }
            out.push(copy);
        }
        i = i + 1;
    }
    assert(all.take(i as int) =~= all);
    out
}

/// What the model reads of `git status`: nothing where that failed.
pub open spec fn git_text(success: bool, stdout: Text) -> Option<Text> {
    if !success {
        None
    } else if stdout.len() == 0 {
        Some("Clean working tree"@)
    } else {
        Some(stdout)
    }
}

/// What the model reads of `git status`.
pub fn git_status_text(success: bool, stdout: &str) -> (r: Option<String>)
    ensures
        opt_view(r) == git_text(success, stdout@),
{
    if !success {
        None
    } else if stdout.is_empty() {
        Some("Clean working tree".to_string())
    } else {
        Some(stdout.to_string())
    }
}

/// A name without the `.md` endings it has.
pub open spec fn without_md(name: Text) -> Text
    decreases name.len(),
{
    if name.len() >= 3 && ends(name, ".md"@) {
        without_md(name.take(name.len() - 3))
    } else {
        name
    }
}

/// A name without the `.md` endings it has.
pub fn strip_md(name: &str) -> (r: String)
    ensures
        r@ == without_md(name@),
{
    let v = chars_of(name);
    let suffix = chars_of(".md");
    let mut to: usize = v.len();
    proof {
        reveal_strlit(".md");
    }
    assert(name@.take(to as int) =~= name@);
    while to >= 3 && crate::text::stands_at(&v, &suffix, to - 3)
        invariant
            v@ == name@,
            suffix@ == ".md"@,
            suffix@.len() == 3,
            to <= v@.len(),
            without_md(name@.take(to as int)) == without_md(name@),
        decreases to,
    {
        assert(name@.take(to as int).subrange(to - 3, to as int) =~= name@.subrange(
            to - 3,
            to as int,
        ));
        assert(name@.take(to as int).take(to - 3) =~= name@.take(to - 3));
        to = to - 3;
    }
    assert(to >= 3 ==> name@.take(to as int).subrange(to - 3, to as int) =~= name@.subrange(
        to - 3,
        to as int,
    ));
    let r = crate::text::string_from(&v, 0, to);
    assert(r@ =~= name@.take(to as int));
    r
}

/// How a memory file is shown: its name as a heading, and its content.
pub open spec fn memory_text(name: Text, content: Text) -> Text {
    "### "@ + without_md(name) + "\n\n"@ + content
}

/// How a memory file is shown; other files are no memories.
pub fn memory_entry(name: &str, content: &str) -> (r: Option<String>)
    ensures
        opt_view(r) == (if ends(name@, ".md"@) {
            Some(memory_text(name@, content@))
        } else {
            None::<Text>
        }),
{
    if !ends_with(name, ".md") {
        return None;
    }
    let mut s = "### ".to_string();
    s.push_str(&strip_md(name));
    s.push_str("\n\n");
    s.push_str(content);
    Some(s)
}

/// The tokens that a scanned project takes: the prompt, the structure and the key
/// files.
pub open spec fn scan_total(e: EngineView, structure: Text, files: Seq<FileView>) -> int {
    e.system_prompt_tokens + token_estimate(structure) + file_tokens(files)
}

/// The engine after a scan.
pub open spec fn scanned_engine(e: EngineView, structure: Text, files: Seq<FileView>) -> EngineView {
    EngineView {
        structure_tokens: token_estimate(structure) as u64,
        file_index: index_of(files),
        token_usage: scan_total(e, structure, files) as u64,
        ..e
    }
}

/// The project as a scan found it.
pub open spec fn scanned_project(
    e: EngineView,
    structure: Text,
    files: Seq<FileView>,
    git_status: Option<Text>,
    memories: Seq<Text>,
) -> ProjectView {
    ProjectView {
        workspace_root: e.workspace_root,
        structure,
        key_files: files,
        git_status,
        recent_memories: memories,
        total_estimated_tokens: scan_total(e, structure, files) as u64,
    }
}

proof fn lemma_file_prefix(files: Seq<FileView>, n: int)
    requires
        0 <= n <= files.len(),
    ensures
        file_tokens(files.take(n)) <= file_tokens(files),
    decreases files.len() - n,
{
    if n < files.len() {
        lemma_file_prefix(files, n + 1);
        assert(files.take(n + 1).drop_last() =~= files.take(n));
    } else {
        assert(files.take(n) =~= files);
    }
}

impl ContextEngine {
    /// Takes in what a scan of the workspace found: remembers the key files,
    /// counts what all of it takes of the window, and returns the project for the
    /// prompt.
    pub fn scan_workspace(
        &mut self,
        structure: String,
        key_files: Vec<FileContext>,
        git_status: Option<String>,
        recent_memories: Vec<String>,
    ) -> (r: ProjectContext)
        requires
            scan_total(old(self)@, structure@, views(key_files@)) <= u64::MAX,
        ensures
            final(self)@ == scanned_engine(old(self)@, structure@, views(key_files@)),
            r@ == scanned_project(
                old(self)@,
                structure@,
                views(key_files@),
                opt_view(git_status),
                views(recent_memories@),
            ),
    {
        proof {
            estimate_is_bounded(structure@);
        }
        self.structure_tokens = estimate_tokens(&structure);
        let mut total: u64 = self.system_prompt_tokens + self.structure_tokens;
        let ghost base = total as int;
        let mut i: usize = 0;
        while i < key_files.len()
            invariant
                i <= key_files@.len(),
                base + file_tokens(views(key_files@)) <= u64::MAX,
                total == base + file_tokens(views(key_files@).take(i as int)),
            decreases key_files@.len() - i,
        {
            proof {
                assert(views(key_files@).take(i + 1).drop_last() =~= views(key_files@).take(
                    i as int,
                ));
                lemma_file_prefix(views(key_files@), i + 1);
            }
            total = total + key_files[i].estimated_tokens;
            i = i + 1;
        }
        assert(views(key_files@).take(i as int) =~= views(key_files@));
        self.file_index = index_files(&key_files);
        self.token_usage = total;
        ProjectContext {
            workspace_root: self.workspace_root.clone(),
            structure,
            key_files,
            git_status,
            recent_memories,
            total_estimated_tokens: total,
        }
    }
}

/// The system prompt for a project, with the rules on time where they are wanted.
pub open spec fn system_prompt_for(p: ProjectView, time_harness: bool) -> Text {
    let a = SYSTEM_PROMPT@ + "\n\n## Current Workspace\n\nPath: "@ + p.workspace_root + "\n\n"@
        + p.structure + "\n\n## Git Status\n\n"@ + (match p.git_status {
        Some(g) => g,
        None => "Not a git repository"@,
    }) + "\n\n## Project Memory\n\n"@ + joined(p.recent_memories, "\n\n"@)
        + "\n\nContext usage: "@ + decimal(p.total_estimated_tokens as nat) + " / 1,048,576 tokens"@;
    if time_harness {
        a + TIME_SECTION@
    } else {
        a
    }
}

/// The system prompt for a project, with the rules on time where they are wanted.
pub fn build_system_prompt(project_ctx: &ProjectContext, time_harness: bool) -> (r: String)
    ensures
        r@ == system_prompt_for(project_ctx@, time_harness),
{
    let mut s = SYSTEM_PROMPT.to_string();
    s.push_str("\n\n## Current Workspace\n\nPath: ");
    s.push_str(&project_ctx.workspace_root);
    s.push_str("\n\n");
    s.push_str(&project_ctx.structure);
    s.push_str("\n\n## Git Status\n\n");
    match &project_ctx.git_status {
        Some(g) => s.push_str(g),
        None => s.push_str("Not a git repository"),
    }
    s.push_str("\n\n## Project Memory\n\n");
    let memories = join(
        &project_ctx.recent_memories,
        0,
        project_ctx.recent_memories.len(),
        "\n\n",
    );
    assert(views(project_ctx.recent_memories@).subrange(
        0,
        project_ctx.recent_memories@.len() as int,
    ) =~= views(project_ctx.recent_memories@));
    s.push_str(&memories);
    s.push_str("\n\nContext usage: ");
    s.push_str(&number(project_ctx.total_estimated_tokens));
    s.push_str(" / 1,048,576 tokens");
    if time_harness {
        s.push_str(&time_harness_system_section());
    }
    s
}

} // verus!
