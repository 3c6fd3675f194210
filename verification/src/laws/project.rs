//! What the model is told of the project.

use crate::agent::{full_breakdown, takeover_note, StateView};
use crate::api::{MODEL_FLASH, MODEL_PRO};
use crate::context::{
    entry_lines, file_tokens, git_text, index_of, is_searched, is_shown, listed_tokens,
    memory_text, offered, scan_total, scanned_engine, scanned_project, structure_text,
    system_prompt_for, token_estimate, tree_lines, wide_chars, EngineView, FileView,
    KeyFileBreakdown, KeyFileView, ProjectView, TreeEntry, TreeView, SYSTEM_PROMPT, TIME_SECTION,
};
use crate::history::history_tokens;
use crate::laws::words::{
    parts_stand_in_whole, stands_between, stands_first, stands_in_first, stands_last,
    stands_within,
};
use crate::order::{ordered, ordered_is_sorted};
use crate::text::{begins, decimal, ends, joined, occurs, occurs_at, Text};
use vstd::prelude::*;

verus! {

/// The system prompt tells all of the project: where it is, its structure, its state
/// in git, every memory, and how much of the window that takes; and the rules on time
/// exactly where they are wanted.
pub proof fn prompts_tell_the_project(p: ProjectView, time_harness: bool, i: int)
    ensures
        ({
            let t = system_prompt_for(p, time_harness);
            &&& begins(t, SYSTEM_PROMPT@)
            &&& occurs(t, "Path: "@ + p.workspace_root + "\n\n"@ + p.structure)
            &&& occurs(
                t,
                "## Git Status\n\n"@ + (match p.git_status {
                    Some(g) => g,
                    None => "Not a git repository"@,
                }),
            )
            &&& 0 <= i < p.recent_memories.len() ==> occurs(t, p.recent_memories[i])
            &&& occurs(
                t,
                "Context usage: "@ + decimal(p.total_estimated_tokens as nat)
                    + " / 1,048,576 tokens"@,
            )
            &&& system_prompt_for(p, true) == system_prompt_for(p, false) + TIME_SECTION@
        }),
{
    let t = system_prompt_for(p, time_harness);
    let a = system_prompt_for(p, false);
    let git = match p.git_status {
        Some(g) => g,
        None => "Not a git repository"@,
    };
    let m = joined(p.recent_memories, "\n\n"@);
    let usage = decimal(p.total_estimated_tokens as nat) + " / 1,048,576 tokens"@;
    assert(t.subrange(0, SYSTEM_PROMPT@.len() as int) =~= SYSTEM_PROMPT@);
    let head1 = "\n\n## Current Workspace\n\nPath: "@;
    let head2 = "\n\n## Git Status\n\n"@;
    let head4 = "\n\nContext usage: "@;
    reveal_strlit("\n\n## Current Workspace\n\nPath: ");
    reveal_strlit("Path: ");
    reveal_strlit("\n\n## Git Status\n\n");
    reveal_strlit("## Git Status\n\n");
    reveal_strlit("\n\nContext usage: ");
    reveal_strlit("Context usage: ");
    assert(head1.skip(head1.len() - 6) =~= "Path: "@);
    assert(head2.skip(2) =~= "## Git Status\n\n"@);
    assert(head4.skip(2) =~= "Context usage: "@);
    let w1 = "Path: "@ + p.workspace_root + "\n\n"@ + p.structure;
    let k1 = SYSTEM_PROMPT@.len() + head1.len() - 6;
    assert(t.subrange(k1, k1 + w1.len()) =~= w1);
    assert(occurs_at(t, w1, k1));
    let w2 = "## Git Status\n\n"@ + git;
    let k2 = k1 + w1.len() + 2;
    assert(t.subrange(k2, k2 + w2.len()) =~= w2);
    assert(occurs_at(t, w2, k2));
    let k3 = k2 + w2.len() + "\n\n## Project Memory\n\n"@.len();
    assert(t.subrange(k3, k3 + m.len()) =~= m);
    assert(occurs_at(t, m, k3));
    if 0 <= i < p.recent_memories.len() {
        parts_stand_in_whole(p.recent_memories, "\n\n"@, i);
        stands_within(t, m, p.recent_memories[i]);
    }
    let w4 = "Context usage: "@ + decimal(p.total_estimated_tokens as nat)
        + " / 1,048,576 tokens"@;
    let k4 = k3 + m.len() + 2;
    assert(t.subrange(k4, k4 + w4.len()) =~= w4);
    assert(occurs_at(t, w4, k4));
}

proof fn lemma_entry_shown(entries: Seq<TreeView>, depth: nat, i: int)
    requires
        0 <= i < entries.len(),
        depth <= 3,
    ensures
        occurs(tree_lines(entries, depth), entry_lines(entries[i], depth)),
    decreases entries.len(),
{
    let t = entries.drop_last();
    let own = entry_lines(entries.last(), depth);
    if i < t.len() {
        lemma_entry_shown(t, depth, i);
        stands_in_first(tree_lines(t, depth), own, entry_lines(entries[i], depth));
    } else {
        stands_last(tree_lines(t, depth), own);
    }
}

proof fn lemma_sorted_place(entries: Seq<TreeView>, e: TreeView)
    requires
        entries.contains(e),
    ensures
        exists|j: int|
            0 <= j < ordered::<TreeEntry>(entries).len() && #[trigger] ordered::<TreeEntry>(
                entries,
            )[j] == e,
{
    ordered_is_sorted::<TreeEntry>(entries);
    let s = ordered::<TreeEntry>(entries);
    broadcast use vstd::seq_lib::group_to_multiset_ensures;

    assert(entries.to_multiset().count(e) > 0);
    assert(s.to_multiset().count(e) > 0);
    assert(s.contains(e));
    let j = choose|j: int| 0 <= j < s.len() && s[j] == e;
    assert(s[j] == e);
}

/// Everything that is shown of a level is: a file by its name on a line, a directory by
/// its name, and behind it what is in it.
pub proof fn levels_are_shown(entries: Seq<TreeView>, depth: nat, e: TreeView)
    requires
        entries.contains(e),
        depth <= 3,
        is_shown(e.name),
    ensures
        ({
            let t = tree_lines(ordered::<TreeEntry>(entries), depth);
            &&& !e.is_dir ==> occurs(t, e.name + "\n"@)
            &&& e.is_dir ==> occurs(
                t,
                e.name + "/\n"@ + tree_lines(ordered::<TreeEntry>(e.children), depth + 1),
            )
        }),
{
    lemma_sorted_place(entries, e);
    let s = ordered::<TreeEntry>(entries);
    let j = choose|j: int| 0 <= j < s.len() && #[trigger] s[j] == e;
    lemma_entry_shown(s, depth, j);
    let t = tree_lines(s, depth);
    let own = entry_lines(e, depth);
    let ind = crate::context::indent(depth);
    if e.is_dir {
        let w = e.name + "/\n"@ + tree_lines(ordered::<TreeEntry>(e.children), depth + 1);
        assert(own =~= ind + w);
        stands_last(ind, w);
        stands_within(t, own, w);
    } else {
        let w = e.name + "\n"@;
        assert(own =~= ind + w);
        stands_last(ind, w);
        stands_within(t, own, w);
    }
}

/// The structure of a project holds a line for every file and directory at its top
/// that is shown, and for what is in them, three levels deep.
pub proof fn projects_are_shown(entries: Seq<TreeView>, e: TreeView, f: TreeView, g: TreeView)
    requires
        entries.contains(e),
        is_shown(e.name),
    ensures
        ({
            let t = structure_text(entries);
            &&& occurs(t, e.name)
            &&& e.is_dir && e.children.contains(f) && is_shown(f.name) ==> occurs(t, f.name) && (
            f.is_dir && f.children.contains(g) && is_shown(g.name) ==> occurs(t, g.name))
        }),
{
    let s = ordered::<TreeEntry>(entries);
    let t = structure_text(entries);
    let lines = tree_lines(s, 0);
    stands_between("## Project Structure\n\n```\n"@, lines, "```\n"@);
    levels_are_shown(entries, 0, e);
    lemma_named(t, lines, e, 0);
    if e.is_dir && e.children.contains(f) && is_shown(f.name) {
        let below = tree_lines(ordered::<TreeEntry>(e.children), 1);
        lemma_below(t, lines, e, 0);
        levels_are_shown(e.children, 1, f);
        lemma_named(t, below, f, 1);
        if f.is_dir && f.children.contains(g) && is_shown(g.name) {
            let deeper = tree_lines(ordered::<TreeEntry>(f.children), 2);
            lemma_below(t, below, f, 1);
            levels_are_shown(f.children, 2, g);
            lemma_named(t, deeper, g, 2);
        }
    }
}

proof fn lemma_named(t: Text, lines: Text, e: TreeView, depth: nat)
    requires
        occurs(t, lines),
        !e.is_dir ==> occurs(lines, e.name + "\n"@),
        e.is_dir ==> occurs(
            lines,
            e.name + "/\n"@ + tree_lines(ordered::<TreeEntry>(e.children), depth + 1),
        ),
    ensures
        occurs(t, e.name),
{
    if e.is_dir {
        let rest = tree_lines(ordered::<TreeEntry>(e.children), depth + 1);
        stands_first(e.name, "/\n"@);
        stands_in_first(e.name + "/\n"@, rest, e.name);
        stands_within(lines, e.name + "/\n"@ + rest, e.name);
    } else {
        stands_first(e.name, "\n"@);
        stands_within(lines, e.name + "\n"@, e.name);
    }
    stands_within(t, lines, e.name);
}

proof fn lemma_below(t: Text, lines: Text, e: TreeView, depth: nat)
    requires
        occurs(t, lines),
        occurs(
            lines,
            e.name + "/\n"@ + tree_lines(ordered::<TreeEntry>(e.children), depth + 1),
        ),
    ensures
        occurs(t, tree_lines(ordered::<TreeEntry>(e.children), depth + 1)),
{
    let below = tree_lines(ordered::<TreeEntry>(e.children), depth + 1);
    stands_last(e.name + "/\n"@, below);
    stands_within(lines, e.name + "/\n"@ + below, below);
    stands_within(t, lines, below);
}

/// Hidden names and the directories of builds are not shown, all others are.
pub proof fn names_are_shown(name: Text)
    ensures
        name.len() > 0 && name[0] != '.' && name != "node_modules"@ && name != "target"@ && name
            != "dist"@ && name != "build"@ && name != "__pycache__"@ ==> is_shown(name)
            && is_searched(name),
        name == "node_modules"@ || name == "target"@ || name == "dist"@ || name == "build"@ || name
            == "__pycache__"@ ==> !is_shown(name) && !is_searched(name),
        name.len() > 0 && name[0] == '.' ==> !is_searched(name) && (is_shown(name) <==> name
            == ".deepseek-code"@),
{
    reveal_strlit(".");
    reveal_strlit(".git");
    reveal_strlit(".deepseek-code");
    assert(".git"@[0] == '.');
    assert(".git"@.len() == 4 && ".deepseek-code"@.len() == 14);
    if name.len() > 0 {
        assert(name.subrange(0, 1) =~= seq![name[0]]);
        assert("."@ =~= seq!['.']);
        if name[0] != '.' {
            assert(name.subrange(0, 1)[0] != "."@[0]);
        }
    }
    reveal_strlit("node_modules");
    reveal_strlit("target");
    reveal_strlit("dist");
    reveal_strlit("build");
    reveal_strlit("__pycache__");
    assert("node_modules"@.len() == 12 && "target"@.len() == 6 && "dist"@.len() == 4
        && "build"@.len() == 5 && "__pycache__"@.len() == 11);
    assert("dist"@[0] == 'd');
}

/// A file that is offered is taken over as it is, where there is room and it is not too
/// large; otherwise nothing changes.
pub proof fn files_are_offered(
    files: Seq<FileView>,
    max: int,
    path: Text,
    content: Text,
    language: Text,
)
    ensures
        ({
            let o = offered(files, max, path, content, language);
            &&& files.len() >= max || token_estimate(content) >= 50_000 ==> o == files
            &&& files.len() < max && token_estimate(content) < 50_000 ==> {
                &&& o.len() == files.len() + 1
                &&& o.take(files.len() as int) == files
                &&& o.last().path == path
                &&& o.last().content == content
                &&& o.last().language == language
            }
        }),
{
    let o = offered(files, max, path, content, language);
    if files.len() < max && token_estimate(content) < 50_000 {
        assert(o.take(files.len() as int) =~= files);
    }
}

/// A memory is shown under its name, with all it says.
pub proof fn memories_are_shown(name: Text, content: Text)
    ensures
        begins(memory_text(name, content), "### "@),
        ends(memory_text(name, content), content),
        !ends(name, ".md"@) ==> occurs(memory_text(name, content), "### "@ + name + "\n\n"@),
{
    let t = memory_text(name, content);
    assert(t.subrange(0, "### "@.len() as int) =~= "### "@);
    assert(t.subrange(t.len() - content.len(), t.len() as int) =~= content);
    if !ends(name, ".md"@) {
        let w = "### "@ + name + "\n\n"@;
        assert(t.subrange(0, w.len() as int) =~= w);
        assert(occurs_at(t, w, 0));
    }
}

/// What git says is handed on; where it says nothing the tree is clean, and where it
/// fails there is nothing to say.
pub proof fn git_is_told(success: bool, stdout: Text)
    ensures
        git_text(success, stdout) is Some <==> success,
        success && stdout.len() > 0 ==> git_text(success, stdout) == Some(stdout),
        success && stdout.len() == 0 ==> git_text(success, stdout) == Some("Clean working tree"@),
{
}

/// The tokens of files add up, and so do those of the scan: the prompt, the structure
/// and all files. The project is handed on as it was found.
pub proof fn scans_add_up(
    e: EngineView,
    structure: Text,
    files: Seq<FileView>,
    f: FileView,
    git: Option<Text>,
    memories: Seq<Text>,
)
    requires
        scan_total(e, structure, files) <= u64::MAX,
    ensures
        file_tokens(Seq::empty()) == 0,
        file_tokens(files.push(f)) == file_tokens(files) + f.estimated_tokens,
        ({
            let p = scanned_project(e, structure, files, git, memories);
            let n = scanned_engine(e, structure, files);
            &&& p.workspace_root == e.workspace_root
            &&& p.structure == structure
            &&& p.key_files == files
            &&& p.git_status == git
            &&& p.recent_memories == memories
            &&& p.total_estimated_tokens == e.system_prompt_tokens + token_estimate(structure)
                + file_tokens(files)
            &&& n.token_usage == p.total_estimated_tokens
            &&& n.structure_tokens == token_estimate(structure)
            &&& n.workspace_root == e.workspace_root
            &&& n.max_tokens == e.max_tokens
        }),
{
    assert(files.push(f).drop_last() =~= files);
    crate::context::estimate_is_bounded(structure);
}

/// The index has an entry for the path of every file, each path once, with the size of
/// the last file there.
pub proof fn files_are_indexed(files: Seq<FileView>, i: int)
    requires
        0 <= i < files.len(),
        forall|k: int| i < k < files.len() ==> #[trigger] files[k].path != files[i].path,
    ensures
        index_of(files).contains(
            KeyFileView { path: files[i].path, tokens: files[i].estimated_tokens },
        ),
    decreases files.len(),
{
    broadcast use vstd::seq_lib::group_filter_ensures;

    let f = files.last();
    let x = KeyFileView { path: files[i].path, tokens: files[i].estimated_tokens };
    let before = index_of(files.drop_last());
    let p = |k: KeyFileView| k.path != f.path;
    let kept = before.filter(p);
    let n = files.len() - 1;
    if i < n {
        assert(files[n].path != files[i].path);
        assert forall|k: int| i < k < files.drop_last().len() implies #[trigger]
            files.drop_last()[k].path != files.drop_last()[i].path by {
            assert(files[k].path != files[i].path);
        }
        files_are_indexed(files.drop_last(), i);
        let k = choose|k: int| 0 <= k < before.len() && before[k] == x;
        assert(p(before[k]));
        assert(kept.contains(x));
        let j = choose|j: int| 0 <= j < kept.len() && kept[j] == x;
        assert(index_of(files)[j] == x);
    } else {
        assert(index_of(files)[kept.len() as int] == x);
    }
}

/// What takes up the window is told part by part, and the total is what is sent: the
/// prompt, the conversation and the tools. The files are listed, the largest first.
pub proof fn windows_add_up(s: StateView)
    requires
        token_estimate(s.system_prompt) + history_tokens(s.messages) + token_estimate(
            crate::json::json_text(crate::json::JsonView::Array(crate::tools::tool_definitions())),
        ) <= u64::MAX,
        listed_tokens(s.context_engine.file_index) <= u64::MAX,
    ensures
        ({
            let b = full_breakdown(s);
            let system = token_estimate(s.system_prompt);
            &&& b.conversation_tokens == history_tokens(s.messages)
            &&& b.total_tokens == system + b.conversation_tokens + b.tool_definitions_tokens
            &&& b.structure_tokens == s.context_engine.structure_tokens
            &&& system >= b.structure_tokens ==> b.system_prompt_tokens + b.structure_tokens
                == system
            &&& b.key_files_tokens == listed_tokens(s.context_engine.file_index)
            &&& b.key_files.to_multiset() == s.context_engine.file_index.to_multiset()
            &&& forall|i: int, j: int|
                0 <= i < j < b.key_files.len() ==> (#[trigger] b.key_files[i]).tokens >= (
                #[trigger] b.key_files[j]).tokens
            &&& b.max_tokens == s.context_engine.max_tokens
        }),
        listed_tokens(Seq::empty()) == 0,
{
    crate::context::estimate_is_bounded(s.system_prompt);
    crate::history::lemma_history_prefix(s.messages, 0);
    ordered_is_sorted::<KeyFileBreakdown>(s.context_engine.file_index);
    let tools = crate::json::json_text(
        crate::json::JsonView::Array(crate::tools::tool_definitions()),
    );
    crate::context::estimate_is_bounded(tools);
    assert(s.messages.take(0) =~= Seq::empty());
    let b = full_breakdown(s);
    assert forall|i: int, j: int| 0 <= i < j < b.key_files.len() implies (
    #[trigger] b.key_files[i]).tokens >= (#[trigger] b.key_files[j]).tokens by {
        assert(!<KeyFileBreakdown as crate::order::Ranked>::precedes(
            b.key_files[j],
            b.key_files[i],
        ));
    }
}

/// Wide characters are counted one by one, wherever they stand.
pub proof fn wide_characters_add_up(a: Text, b: Text)
    ensures
        wide_chars(a + b) == wide_chars(a) + wide_chars(b),
        a.len() == 1 ==> wide_chars(a) == (if a[0] as u32 > 0x2000 {
            1nat
        } else {
            0
        }),
    decreases b.len(),
{
    reveal_with_fuel(wide_chars, 2);
    if b.len() > 0 {
        wide_characters_add_up(a, b.drop_last());
        assert((a + b).drop_last() =~= a + b.drop_last());
    } else {
        assert(a + b =~= a);
    }
}

/// A model that takes over is told which one it is, and that it has taken over.
pub proof fn takeovers_name_the_model()
    ensures
        occurs(takeover_note(MODEL_FLASH@), "Current model: DeepSeek V4 Flash"@),
        occurs(takeover_note(MODEL_PRO@), "Current model: DeepSeek V4 Pro"@),
{
    lemma_takeover(MODEL_FLASH@, "DeepSeek V4 Flash"@);
    lemma_takeover(MODEL_PRO@, "DeepSeek V4 Pro"@);
    reveal_strlit("Current model: DeepSeek V4 Flash");
    reveal_strlit("Current model: DeepSeek V4 Pro");
    reveal_strlit("Current model: ");
    reveal_strlit("DeepSeek V4 Flash");
    reveal_strlit("DeepSeek V4 Pro");
    assert("Current model: "@ + "DeepSeek V4 Flash"@ =~= "Current model: DeepSeek V4 Flash"@);
    assert("Current model: "@ + "DeepSeek V4 Pro"@ =~= "Current model: DeepSeek V4 Pro"@);
}

proof fn lemma_takeover(model: Text, name: Text)
    requires
        model == MODEL_FLASH@ && name == "DeepSeek V4 Flash"@ || model == MODEL_PRO@ && name
            == "DeepSeek V4 Pro"@,
    ensures
        occurs(takeover_note(model), "Current model: "@ + name),
{
    let t = takeover_note(model);
    let a = "\n\n## Model Takeover\n\nYou have taken over this conversation from another DeepSeek model. Current model: "@;
    reveal_strlit(
        "\n\n## Model Takeover\n\nYou have taken over this conversation from another DeepSeek model. Current model: ",
    );
    reveal_strlit("Current model: ");
    reveal_strlit("DeepSeek V4 Flash");
    reveal_strlit("DeepSeek V4 Pro");
    reveal_strlit("DeepSeek V4 Flash — agent-tuned, fast and cost-efficient");
    reveal_strlit("DeepSeek V4 Pro — full-size, deliberate");
    reveal_strlit("deepseek-v4-flash");
    reveal_strlit("deepseek-v4-pro");
    assert("deepseek-v4-flash"@.len() != "deepseek-v4-pro"@.len());
    let w = "Current model: "@ + name;
    let k = a.len() - 15;
    assert(a.skip(k) =~= "Current model: "@);
    assert(t.subrange(k, k + w.len()) =~= w);
    assert(occurs_at(t, w, k));
}

} // verus!
