//! What the model reads of a tool is what the tool gave.

use crate::json::{field, json_parse, text_at, JsonView};
use crate::laws::letters::texts_are_replaced;
use crate::laws::words::{longer_than, parts_stand_in_whole, stands_in_first, stands_within};
use crate::text::{
    begins, byte_len, decimal, ends, head, joined, lines_of, occurs, occurs_at, replaced, trimmed, Text,
};
use crate::tools::{
    edited, entry_line, fetched_text, inked_lines, long_output_file, long_output_note,
    memory_listing, memory_names, outside_tags, page_text, planned, properties, result_for,
    result_summary, search_text, shell_text, shown_page, tool_definition, unescaped, PlanView,
};
use vstd::prelude::*;

verus! {

/// Whether what a command printed is short enough to be read in full.
pub open spec fn fits_in_reply(stdout: Text, stderr: Text, status: Text, seconds: Text) -> bool {
    stdout.len() + stderr.len() + status.len() + seconds.len() + 60 <= 50_000
}

/// What a command printed, before it is cut.
spec fn whole(stdout: Text, stderr: Text, status: Text, seconds: Text) -> Text {
    let b = if stdout.len() == 0 && stderr.len() == 0 {
        "Exit: "@ + status
    } else if stderr.len() == 0 {
        stdout
    } else if stdout.len() == 0 {
        "STDERR:\n"@ + stderr
    } else {
        stdout + "\nSTDERR:\n"@ + stderr
    };
    b + "\n[duration] command took "@ + seconds + "s wall-clock"@
}

proof fn lemma_whole(stdout: Text, stderr: Text, status: Text, seconds: Text)
    ensures
        ({
            let c = whole(stdout, stderr, status, seconds);
            shell_text(stdout, stderr, status, seconds) == if byte_len(c) > 50_000 {
                head(c, 50_000) + "...\n(output truncated at 50K chars)"@
            } else {
                c
            }
        }),
        fits_in_reply(stdout, stderr, status, seconds) ==> whole(
            stdout,
            stderr,
            status,
            seconds,
        ).len() <= 50_000,
{
    reveal_strlit("Exit: ");
    reveal_strlit("STDERR:\n");
    reveal_strlit("\nSTDERR:\n");
    reveal_strlit("\n[duration] command took ");
    reveal_strlit("s wall-clock");
    assert(Seq::<char>::empty() + "STDERR:\n"@ =~= "STDERR:\n"@);
    assert(stdout.push('\n') + "STDERR:\n"@ =~= stdout + "\nSTDERR:\n"@);
    if stdout.len() == 0 {
        assert(stdout + "STDERR:\n"@ =~= "STDERR:\n"@);
    }
}

/// Below the limit, the model reads all that a command printed: its output, and its
/// errors under their heading, whether or not there is any output. How the command
/// ended shows only where it printed nothing. The time it took is always told.
pub proof fn commands_are_read_whole(stdout: Text, stderr: Text, status: Text, seconds: Text)
    requires
        fits_in_reply(stdout, stderr, status, seconds),
    ensures
        ({
            let t = shell_text(stdout, stderr, status, seconds);
            &&& begins(t, stdout)
            &&& stderr.len() > 0 ==> occurs(t, "STDERR:\n"@ + stderr + "\n[duration] "@)
            &&& stdout.len() > 0 && stderr.len() > 0 ==> begins(
                t,
                stdout + "\nSTDERR:\n"@ + stderr,
            )
            &&& stdout.len() > 0 && stderr.len() == 0 ==> begins(t, stdout + "\n[duration] "@)
            &&& stdout.len() == 0 && stderr.len() == 0 ==> begins(t, "Exit: "@ + status + "\n"@)
            &&& occurs(t, "[duration] command took "@ + seconds + "s wall-clock"@)
        }),
{
    let t = shell_text(stdout, stderr, status, seconds);
    let c = whole(stdout, stderr, status, seconds);
    let cut = "...\n(output truncated at 50K chars)"@;
    lemma_whole(stdout, stderr, status, seconds);
    assert(head(c, 50_000) == c);
    reveal_strlit("\n[duration] command took ");
    reveal_strlit("\n[duration] ");
    reveal_strlit("[duration] command took ");
    reveal_strlit("\n");
    reveal_strlit("Exit: ");
    reveal_strlit("STDERR:\n");
    reveal_strlit("\nSTDERR:\n");
    let d = "\n[duration] command took "@;
    assert(d.take(12) =~= "\n[duration] "@);
    assert(d.skip(1) =~= "[duration] command took "@);
    assert("\nSTDERR:\n"@.skip(1) =~= "STDERR:\n"@);
    assert(t.take(c.len() as int) =~= c);
    assert(t == c || t == c + cut);
    assert(begins(c, stdout)) by {
        assert(c.subrange(0, stdout.len() as int) =~= stdout);
    }
    lemma_begins(c, t, stdout);
    if stderr.len() > 0 {
        let want = "STDERR:\n"@ + stderr + "\n[duration] "@;
        let k = if stdout.len() == 0 {
            0
        } else {
            stdout.len() + 1
        };
        assert(c.subrange(k as int, (k + want.len()) as int) =~= want);
        assert(occurs_at(c, want, k as int));
        lemma_kept(c, t, want);
        if stdout.len() > 0 {
            let w = stdout + "\nSTDERR:\n"@ + stderr;
            assert(c.subrange(0, w.len() as int) =~= w);
            lemma_begins(c, t, w);
        }
    } else if stdout.len() > 0 {
        let w = stdout + "\n[duration] "@;
        assert(c.subrange(0, w.len() as int) =~= w);
        lemma_begins(c, t, w);
    } else {
        let w = "Exit: "@ + status + "\n"@;
        assert(c.subrange(0, w.len() as int) =~= w);
        lemma_begins(c, t, w);
    }
    let w = "[duration] command took "@ + seconds + "s wall-clock"@;
    assert(c.subrange(c.len() - w.len(), c.len() as int) =~= w);
    assert(occurs_at(c, w, c.len() - w.len()));
    lemma_kept(c, t, w);
}

proof fn lemma_begins(c: Text, t: Text, w: Text)
    requires
        begins(c, w),
        c.len() <= t.len(),
        t.take(c.len() as int) == c,
    ensures
        begins(t, w),
{
    assert(t.subrange(0, w.len() as int) =~= c.subrange(0, w.len() as int));
}

proof fn lemma_kept(c: Text, t: Text, w: Text)
    requires
        occurs(c, w),
        c.len() <= t.len(),
        t.take(c.len() as int) == c,
    ensures
        occurs(t, w),
{
    stands_in_first(c, t.skip(c.len() as int), w);
    assert(c + t.skip(c.len() as int) =~= t);
}

/// How a command ended does not show where it printed anything.
pub proof fn endings_stand_in(stdout: Text, stderr: Text, status: Text, other: Text, seconds: Text)
    requires
        stdout.len() > 0 || stderr.len() > 0,
    ensures
        shell_text(stdout, stderr, status, seconds) == shell_text(stdout, stderr, other, seconds),
{
    reveal_strlit("STDERR:\n");
}

/// Above the limit, the model reads the first fifty thousand characters, and that
/// the rest was cut.
pub proof fn long_commands_are_cut(stdout: Text, stderr: Text, status: Text, seconds: Text)
    requires
        stdout.len() >= 50_000,
    ensures
        ({
            let t = shell_text(stdout, stderr, status, seconds);
            &&& begins(t, stdout.take(50_000))
            &&& ends(t, "...\n(output truncated at 50K chars)"@)
        }),
{
    let t = shell_text(stdout, stderr, status, seconds);
    let c = whole(stdout, stderr, status, seconds);
    lemma_whole(stdout, stderr, status, seconds);
    reveal_strlit("s wall-clock");
    assert(c.len() > 50_000);
    longer_than(c);
    assert(head(c, 50_000) == c.take(50_000));
    assert(c.take(50_000) =~= stdout.take(50_000));
    let cut = "...\n(output truncated at 50K chars)"@;
    assert(t.subrange(0, 50_000) =~= stdout.take(50_000));
    assert(t.subrange(t.len() - cut.len(), t.len() as int) =~= cut);
}

/// The first hundred matches of a search are read, line by line; nothing found is
/// said so, and only then.
pub proof fn matches_are_read(stdout: Text, i: int)
    requires
        0 <= i < lines_of(stdout).len(),
        i < 100,
    ensures
        stdout.len() > 0,
        occurs(search_text(stdout), lines_of(stdout)[i]),
        lines_of(stdout).len() <= 100 ==> search_text(stdout) == joined(lines_of(stdout), "\n"@),
        lines_of(stdout).len() > 100 ==> search_text(stdout) == joined(
            lines_of(stdout).take(100),
            "\n"@,
        ),
{
    let ls = lines_of(stdout);
    let shown = crate::tools::first_parts(ls, 100);
    assert(shown[i] == ls[i]);
    parts_stand_in_whole(shown, "\n"@, i);
}

/// A search without output says that nothing was found.
pub proof fn no_matches(stdout: Text)
    requires
        stdout.len() == 0,
    ensures
        search_text(stdout) == "No matches found."@,
{
}

/// The line of an entry ends with its name, and its first character tells a directory
/// from a file.
pub proof fn entries_are_listed(is_dir: bool, name: Text, other_dir: bool, other: Text)
    ensures
        ends(entry_line(is_dir, name), name),
        entry_line(is_dir, name)[0] == (if is_dir {
            'D'
        } else {
            'F'
        }),
        entry_line(is_dir, name).len() == name.len() + 2,
        entry_line(is_dir, name) == entry_line(other_dir, other) ==> is_dir == other_dir && name
            == other,
{
    reveal_strlit("D");
    reveal_strlit("F");
    reveal_strlit(" ");
    let a = entry_line(is_dir, name);
    let b = entry_line(other_dir, other);
    assert(a.subrange(2, a.len() as int) =~= name);
    assert(b.subrange(2, b.len() as int) =~= other);
}

proof fn lemma_stem(f: Text, x: Text)
    requires
        f == x + ".md"@,
        !ends(x, ".md"@),
    ensures
        ends(f, ".md"@),
        crate::context::without_md(f) == x,
{
    reveal_strlit(".md");
    assert(f.subrange(f.len() - 3, f.len() as int) =~= ".md"@);
    assert(f.take(f.len() - 3) =~= x);
    reveal_with_fuel(crate::context::without_md, 2);
}

proof fn lemma_stripped(f: Text)
    ensures
        !ends(crate::context::without_md(f), ".md"@),
        begins(f, crate::context::without_md(f)),
    decreases f.len(),
{
    reveal_strlit(".md");
    let x = crate::context::without_md(f);
    if ends(f, ".md"@) {
        let g = f.take(f.len() - 3);
        lemma_stripped(g);
        assert(f.subrange(0, x.len() as int) =~= g.subrange(0, x.len() as int));
    } else {
        assert(f.subrange(0, x.len() as int) =~= x);
    }
}

proof fn lemma_memory(files: Seq<Text>, i: int)
    requires
        0 <= i < files.len(),
        ends(files[i], ".md"@),
    ensures
        memory_names(files).contains(crate::context::without_md(files[i])),
    decreases files.len(),
{
    let n = files.len() - 1;
    let before = memory_names(files.drop_last());
    let x = crate::context::without_md(files[i]);
    if i < n {
        lemma_memory(files.drop_last(), i);
        let k = choose|k: int| 0 <= k < before.len() && before[k] == x;
        assert(memory_names(files)[k] == x);
    } else {
        assert(memory_names(files)[before.len() as int] == x);
    }
}

/// Whether a file is a memory of this name.
pub open spec fn is_memory(file: Text, name: Text) -> bool {
    ends(file, ".md"@) && begins(file, name) && !ends(name, ".md"@)
}

proof fn lemma_only_memories(files: Seq<Text>, j: int)
    requires
        0 <= j < memory_names(files).len(),
    ensures
        exists|i: int| 0 <= i < files.len() && is_memory(#[trigger] files[i], memory_names(files)[j]),
    decreases files.len(),
{
    let before = memory_names(files.drop_last());
    if j < before.len() {
        lemma_only_memories(files.drop_last(), j);
        let i = choose|i: int|
            0 <= i < files.drop_last().len() && is_memory(
                #[trigger] files.drop_last()[i],
                before[j],
            );
        assert(is_memory(files[i], memory_names(files)[j]));
    } else {
        lemma_stripped(files.last());
        assert(is_memory(files[files.len() - 1], memory_names(files)[j]));
    }
}

/// Every memory is listed by its name, without the ending, and nothing but memories.
pub proof fn memories_are_listed(files: Seq<Text>, i: int, x: Text, j: int)
    ensures
        0 <= i < files.len() && files[i] == x + ".md"@ && !ends(x, ".md"@) ==> occurs(
            memory_listing(files),
            x,
        ),
        0 <= j < memory_names(files).len() ==> exists|k: int|
            0 <= k < files.len() && is_memory(#[trigger] files[k], memory_names(files)[j]),
        memory_names(files).len() > 0 ==> memory_listing(files) == joined(
            memory_names(files),
            "\n"@,
        ),
        (forall|k: int| 0 <= k < files.len() ==> !ends(#[trigger] files[k], ".md"@))
            ==> memory_listing(files) == "No memories."@,
{
    if 0 <= j < memory_names(files).len() {
        lemma_only_memories(files, j);
    }
    if 0 <= i < files.len() && files[i] == x + ".md"@ && !ends(x, ".md"@) {
        lemma_stem(files[i], x);
        lemma_memory(files, i);
        let names = memory_names(files);
        let k = choose|k: int| 0 <= k < names.len() && names[k] == x;
        parts_stand_in_whole(names, "\n"@, k);
    }
    if forall|k: int| 0 <= k < files.len() ==> !ends(#[trigger] files[k], ".md"@) {
        if memory_names(files).len() > 0 {
            lemma_only_memories(files, 0);
        }
    }
}

/// A result keeps the id of its call; a success is what came out, an error says what
/// went wrong.
pub proof fn results_are_marked(id: Text, outcome: Result<Text, Text>)
    ensures
        result_for(id, outcome).tool_call_id == id,
        result_for(id, outcome).success <==> outcome is Ok,
        outcome matches Ok(t) ==> result_for(id, outcome).content == t,
        outcome matches Err(e) ==> result_for(id, outcome).content == "Error: "@ + e,
{
}

/// An edit is refused exactly where the old text does not occur, and otherwise puts
/// the new text in its first place and leaves the rest.
pub proof fn edits_are_made(content: Text, old_text: Text, new_text: Text, i: int)
    ensures
        edited(content, old_text, new_text) is Err <==> !occurs(content, old_text),
        edited(content, old_text, new_text) matches Err(e) ==> e == "old_string not found"@,
        occurs_at(content, old_text, i) && (forall|j: int|
            0 <= j < i ==> !occurs_at(content, old_text, j)) ==> edited(
            content,
            old_text,
            new_text,
        ) == Ok::<Text, Text>(
            content.subrange(0, i) + new_text + content.subrange(
                i + old_text.len(),
                content.len() as int,
            ),
        ),
{
    if occurs_at(content, old_text, i) && (forall|j: int|
        0 <= j < i ==> !occurs_at(content, old_text, j)) {
        let k = choose|k: int| crate::text::first_at(content, old_text, k);
        assert(crate::text::first_at(content, old_text, i));
        assert(k == i) by {
            if k < i {
                assert(!occurs_at(content, old_text, k));
            }
            if i < k {
                assert(!occurs_at(content, old_text, i));
            }
        }
        assert(content.take(i) =~= content.subrange(0, i));
        assert(content.skip(i + old_text.len()) =~= content.subrange(
            i + old_text.len(),
            content.len() as int,
        ));
    }
}

/// What a call asks for is what its arguments say: each argument is taken from under
/// its own key.
pub proof fn plans_follow_arguments(name: Text, args: JsonView)
    ensures
        planned(name, args) matches Ok(p) ==> match p {
            PlanView::ReadFile { path } => name == "read_file"@ && text_at(args, "path"@) == Some(
                path,
            ),
            PlanView::WriteFile { path, content } => name == "write_file"@ && text_at(
                args,
                "path"@,
            ) == Some(path) && text_at(args, "content"@) == Some(content),
            PlanView::EditFile { path, old: old_text, new: new_text } => name == "edit_file"@
                && text_at(args, "path"@) == Some(path) && text_at(args, "old_string"@) == Some(
                old_text,
            ) && text_at(args, "new_string"@) == Some(new_text),
            PlanView::RunShell { command } => name == "run_shell"@ && text_at(args, "command"@)
                == Some(command),
            PlanView::SearchCode { pattern, path } => name == "search_code"@ && text_at(
                args,
                "pattern"@,
            ) == Some(pattern) && text_at(args, "path"@) == path,
            PlanView::ListDirectory { path } => name == "list_directory"@ && text_at(
                args,
                "path"@,
            ) == path,
            PlanView::ReadMemory { name: memory } => name == "read_memory"@ && text_at(
                args,
                "name"@,
            ) == memory,
            PlanView::WriteMemory { name: memory, content } => name == "write_memory"@ && text_at(
                args,
                "name"@,
            ) == Some(memory) && text_at(args, "content"@) == Some(content),
            PlanView::WebFetch { url } => name == "web_fetch"@ && text_at(args, "url"@) == Some(url)
                && (begins(url, "http://"@) || begins(url, "https://"@)),
            PlanView::Answer { content } => name == "todo_write"@ && text_at(args, "tasks_json"@) is Some
                && json_parse(text_at(args, "tasks_json"@)->Some_0) is Ok && ends(
                content,
                text_at(args, "tasks_json"@)->Some_0,
            ),
        },
{
    if let Ok(PlanView::Answer { content }) = planned(name, args) {
        let tasks = text_at(args, "tasks_json"@)->Some_0;
        assert(content.subrange(content.len() - tasks.len(), content.len() as int) =~= tasks);
    }
}

/// A call that names a tool and has what the tool needs is granted.
pub proof fn good_calls_are_granted(name: Text, args: JsonView)
    ensures
        name == "read_file"@ && text_at(args, "path"@) is Some ==> planned(name, args) is Ok,
        name == "write_file"@ && text_at(args, "path"@) is Some && text_at(args, "content"@) is Some
            ==> planned(name, args) is Ok,
        name == "edit_file"@ && text_at(args, "path"@) is Some && text_at(args, "old_string"@) is Some
            && text_at(args, "new_string"@) is Some ==> planned(name, args) is Ok,
        name == "run_shell"@ && text_at(args, "command"@) is Some ==> planned(name, args) is Ok,
        name == "search_code"@ && text_at(args, "pattern"@) is Some ==> planned(name, args) is Ok,
        name == "list_directory"@ ==> planned(name, args) is Ok,
        name == "read_memory"@ ==> planned(name, args) is Ok,
        name == "write_memory"@ && text_at(args, "name"@) is Some && text_at(args, "content"@) is Some
            ==> planned(name, args) is Ok,
        name == "web_fetch"@ && text_at(args, "url"@) is Some && (begins(
            text_at(args, "url"@)->Some_0,
            "http://"@,
        ) || begins(text_at(args, "url"@)->Some_0, "https://"@)) ==> planned(name, args) is Ok,
        name == "todo_write"@ && text_at(args, "tasks_json"@) is Some && json_parse(
            text_at(args, "tasks_json"@)->Some_0,
        ) is Ok ==> planned(name, args) is Ok,
{
    lemma_tool_names();
}

proof fn lemma_tool_names()
    ensures
        "read_file"@.len() == 9,
        "edit_file"@.len() == 9,
        "run_shell"@.len() == 9,
        "web_fetch"@.len() == 9,
        "write_file"@.len() == 10,
        "todo_write"@.len() == 10,
        "web_search"@.len() == 10,
        "web_search"@[0] == 'w',
        "search_code"@.len() == 11,
        "read_memory"@.len() == 11,
        "write_memory"@.len() == 12,
        "list_directory"@.len() == 14,
        "read_file"@[0] == 'r' && "read_file"@[1] == 'e',
        "edit_file"@[0] == 'e',
        "run_shell"@[0] == 'r' && "run_shell"@[1] == 'u',
        "web_fetch"@[0] == 'w',
        "write_file"@[0] == 'w',
        "todo_write"@[0] == 't',
        "search_code"@[0] == 's',
        "read_memory"@[0] == 'r',
{
    reveal_strlit("read_file");
    reveal_strlit("edit_file");
    reveal_strlit("run_shell");
    reveal_strlit("web_fetch");
    reveal_strlit("write_file");
    reveal_strlit("todo_write");
    reveal_strlit("web_search");
    reveal_strlit("search_code");
    reveal_strlit("read_memory");
    reveal_strlit("write_memory");
    reveal_strlit("list_directory");
}

/// A tool is offered with its name, what it does, each of its arguments with its type
/// and what it means, and the list of those that are needed.
pub proof fn tools_are_described(
    name: Text,
    description: Text,
    props: Seq<(Text, Text, Text)>,
    required: Seq<Text>,
    i: int,
)
    ensures
        ({
            let d = tool_definition(name, description, props, required);
            let f = field(d, "function"@)->Some_0;
            let p = field(f, "parameters"@)->Some_0;
            let all = field(p, "properties"@)->Some_0;
            let need = field(p, "required"@)->Some_0;
            &&& text_at(d, "type"@) == Some("function"@)
            &&& field(d, "function"@) is Some
            &&& text_at(f, "name"@) == Some(name)
            &&& text_at(f, "description"@) == Some(description)
            &&& field(f, "parameters"@) is Some
            &&& text_at(p, "type"@) == Some("object"@)
            &&& field(p, "properties"@) is Some
            &&& field(p, "required"@) is Some
            &&& need is Array && need->Array_0.len() == required.len() && forall|k: int|
                0 <= k < required.len() ==> #[trigger] need->Array_0[k] == JsonView::Str(required[k])
            &&& 0 <= i < props.len() && (forall|k: int|
                i < k < props.len() ==> #[trigger] props[k].0 != props[i].0) ==> {
                let a = field(all, props[i].0);
                &&& a is Some
                &&& text_at(a->Some_0, "type"@) == Some(props[i].1)
                &&& text_at(a->Some_0, "description"@) == Some(props[i].2)
            }
            &&& all is Object && forall|key: Text| #[trigger]
                all->Object_0.contains_key(key) ==> exists|k: int|
                    0 <= k < props.len() && #[trigger] props[k].0 == key
        }),
{
    reveal_strlit("type");
    reveal_strlit("function");
    reveal_strlit("name");
    reveal_strlit("description");
    reveal_strlit("parameters");
    reveal_strlit("properties");
    reveal_strlit("required");
    assert("type"@[0] == 't' && "name"@[0] == 'n');
    assert("parameters"@[1] == 'a' && "properties"@[1] == 'r');
    assert("type"@.len() == 4 && "function"@.len() == 8 && "name"@.len() == 4
        && "description"@.len() == 11 && "parameters"@.len() == 10 && "properties"@.len() == 10
        && "required"@.len() == 8);
    if 0 <= i < props.len() && (forall|k: int|
        i < k < props.len() ==> #[trigger] props[k].0 != props[i].0) {
        lemma_property(props, i);
    }
    assert forall|key: Text| #[trigger] properties(props).contains_key(key) implies exists|k: int|
        0 <= k < props.len() && #[trigger] props[k].0 == key by {
        lemma_only_properties(props, key);
    }
}

/// Every tool that is offered is described in full, under a name that some tool answers
/// to.
pub proof fn offered_tools_are_known(i: int)
    requires
        0 <= i < crate::tools::tool_definitions().len(),
    ensures
        ({
            let t = crate::api::described_tool(crate::tools::tool_definitions()[i]);
            &&& crate::tools::tool_definitions().len() == 14
            &&& t matches Some(x) && x.name == seq![
                "read_file"@,
                "write_file"@,
                "edit_file"@,
                "run_shell"@,
                "search_code"@,
                "list_directory"@,
                "read_memory"@,
                "write_memory"@,
                "web_fetch"@,
                "todo_write"@,
                "set_goal"@,
                "update_goal"@,
                "update_plan"@,
                "get_goal"@,
            ][i]
        }),
{
    assert forall|name: Text, description: Text, props: Seq<(Text, Text, Text)>, required: Seq<
        Text,
    >| #[trigger]
        crate::api::described_tool(
            tool_definition(name, description, props, required),
        ) matches Some(x) && x.name == name by {
        tools_are_described(name, description, props, required, 0);
    }
}

proof fn lemma_only_properties(props: Seq<(Text, Text, Text)>, key: Text)
    requires
        properties(props).contains_key(key),
    ensures
        exists|k: int| 0 <= k < props.len() && #[trigger] props[k].0 == key,
    decreases props.len(),
{
    if props.last().0 == key {
        assert(props[props.len() - 1].0 == key);
    } else {
        lemma_only_properties(props.drop_last(), key);
        let k = choose|k: int|
            0 <= k < props.drop_last().len() && #[trigger] props.drop_last()[k].0 == key;
        assert(props[k].0 == key);
    }
}

proof fn lemma_property(props: Seq<(Text, Text, Text)>, i: int)
    requires
        0 <= i < props.len(),
        forall|k: int| i < k < props.len() ==> #[trigger] props[k].0 != props[i].0,
    ensures
        ({
            let a = field(JsonView::Object(properties(props)), props[i].0);
            &&& a is Some
            &&& text_at(a->Some_0, "type"@) == Some(props[i].1)
            &&& text_at(a->Some_0, "description"@) == Some(props[i].2)
        }),
    decreases props.len(),
{
    reveal_strlit("type");
    reveal_strlit("description");
    assert("type"@.len() != "description"@.len());
    if i < props.len() - 1 {
        assert(props[props.len() - 1].0 != props[i].0);
        lemma_property(props.drop_last(), i);
        assert(props.drop_last()[i] == props[i]);
    }
}

proof fn lemma_outside(s: Text, a: int, b: int, in_tag: bool)
    requires
        0 <= a <= b <= s.len(),
        forall|k: int| a <= k < b ==> s[k] != '<' && #[trigger] s[k] != '>',
    ensures
        in_tag ==> outside_tags(s, a, in_tag) == outside_tags(s, b, in_tag),
        !in_tag ==> outside_tags(s, a, in_tag) == s.subrange(a, b) + outside_tags(s, b, in_tag),
    decreases b - a,
{
    if a < b {
        lemma_outside(s, a + 1, b, in_tag);
        if !in_tag {
            assert(seq![s[a]] + (s.subrange(a + 1, b) + outside_tags(s, b, in_tag)) =~= s.subrange(
                a,
                b,
            ) + outside_tags(s, b, in_tag));
        }
    } else {
        assert(s.subrange(a, b) + outside_tags(s, b, in_tag) =~= outside_tags(s, b, in_tag));
    }
}

proof fn lemma_shifted(s: Text, t: Text, from: int, k: int, in_tag: bool)
    requires
        0 <= from,
        0 <= k,
        s.len() == t.len() + k,
        forall|i: int| 0 <= i < t.len() ==> #[trigger] t[i] == s[i + k],
    ensures
        outside_tags(s, from + k, in_tag) == outside_tags(t, from, in_tag),
    decreases t.len() - from,
{
    if from < t.len() {
        lemma_shifted(s, t, from + 1, k, true);
        lemma_shifted(s, t, from + 1, k, false);
        assert(t[from] == s[from + k]);
    }
}

/// Tags are taken out and the text around them stays: a text without tags is itself,
/// and a tag between a text and a page leaves the text and what the page gives.
pub proof fn tags_are_taken_out(a: Text, tag: Text, page: Text)
    requires
        forall|k: int| 0 <= k < a.len() ==> a[k] != '<' && #[trigger] a[k] != '>',
        forall|k: int| 0 <= k < tag.len() ==> tag[k] != '<' && #[trigger] tag[k] != '>',
    ensures
        outside_tags(a, 0, false) == a,
        outside_tags(a.push('<') + tag.push('>') + page, 0, false) == a + outside_tags(
            page,
            0,
            false,
        ),
{
    lemma_outside(a, 0, a.len() as int, false);
    assert(a.subrange(0, a.len() as int) + Seq::<char>::empty() =~= a);
    let s = a.push('<') + tag.push('>') + page;
    let n = a.len() as int;
    let m: int = n + 1 + tag.len();
    assert forall|k: int| 0 <= k < n implies s[k] != '<' && #[trigger] s[k] != '>' by {
        assert(s[k] == a[k]);
    }
    lemma_outside(s, 0, n, false);
    assert(s[n] == '<');
    assert forall|k: int| n + 1 <= k < m implies s[k] != '<' && #[trigger] s[k] != '>' by {
        assert(s[k] == tag[k - n - 1]);
    }
    lemma_outside(s, n + 1, m, true);
    assert(s[m] == '>');
    assert(outside_tags(s, m, true) == outside_tags(s, m + 1, false));
    lemma_shifted(s, page, 0, m + 1, false);
    assert(s.subrange(0, n) =~= a);
}

proof fn lemma_inked(ls: Seq<Text>, i: int)
    requires
        0 <= i < ls.len(),
        trimmed(ls[i]).len() > 0,
    ensures
        inked_lines(ls).contains(trimmed(ls[i])),
    decreases ls.len(),
{
    let before = inked_lines(ls.drop_last());
    let t = trimmed(ls[i]);
    if i < ls.len() - 1 {
        lemma_inked(ls.drop_last(), i);
        let k = choose|k: int| 0 <= k < before.len() && before[k] == t;
        assert(inked_lines(ls)[k] == t);
    } else {
        assert(inked_lines(ls)[before.len() as int] == t);
    }
}

/// Every line of a page that says something is read, without the white around it.
pub proof fn pages_are_read(html: Text, i: int)
    ensures
        ({
            let ls = lines_of(unescaped(outside_tags(html, 0, false)));
            0 <= i < ls.len() && trimmed(ls[i]).len() > 0 ==> occurs(page_text(html), trimmed(ls[i]))
        }),
{
    let ls = lines_of(unescaped(outside_tags(html, 0, false)));
    if 0 <= i < ls.len() && trimmed(ls[i]).len() > 0 {
        lemma_inked(ls, i);
        let inked = inked_lines(ls);
        let k = choose|k: int| 0 <= k < inked.len() && inked[k] == trimmed(ls[i]);
        parts_stand_in_whole(inked, "\n"@, k);
    }
}

/// A page of no more than eight thousand bytes is read whole, a longer one from its
/// beginning; whatever it says of its age stands behind it.
pub proof fn fetched_pages_are_read(html: Text, url: Text, now: i64)
    ensures
        ({
            let t = fetched_text(html, url, now);
            let page = page_text(html);
            &&& byte_len(page) <= 8000 ==> begins(t, page)
            &&& page.len() >= 8000 ==> begins(t, page.take(8000))
        }),
{
    let t = fetched_text(html, url, now);
    let page = page_text(html);
    let s = shown_page(html);
    assert(t.take(s.len() as int) =~= s);
    if byte_len(page) <= 8000 {
        assert(t.subrange(0, page.len() as int) =~= page);
    }
    if page.len() >= 8000 {
        longer_than(page);
        assert(page.take(8000).len() == 8000);
        if byte_len(page) <= 8000 {
            assert(t.subrange(0, 8000) =~= page.take(8000));
        } else {
            if 8000 < page.len() {
                assert(head(page, 8000) == page.take(8000));
            } else {
                assert(page.take(8000) =~= page);
            }
            assert(s.take(8000) =~= page.take(8000));
            assert(t.subrange(0, 8000) =~= s.take(8000));
        }
    }
}

/// A result that is too long is put into a file of its own; what the model reads names
/// the file and its size and ends with the last two hundred lines.
pub proof fn long_results_are_pointed_to(content: Text, file: Text, kilobytes: Text, i: int)
    ensures
        ({
            let t = long_output_note(content, file, kilobytes);
            let ls = lines_of(content);
            &&& occurs(t, "saved to "@ + file + " ("@ + kilobytes + " KB)"@)
            &&& ls.len() <= 200 ==> ends(t, joined(ls, "\n"@))
            &&& ls.len() > 200 ==> ends(t, joined(ls.skip(ls.len() - 200), "\n"@))
            &&& 0 <= i < ls.len() && i >= ls.len() - 200 ==> occurs(t, ls[i])
        }),
{
    let t = long_output_note(content, file, kilobytes);
    let ls = lines_of(content);
    let shown = crate::tools::last_parts(ls, 200);
    let tail = joined(shown, "\n"@);
    let a = "[Output too long — full result saved to "@;
    let c = " KB). Read the file for the complete output.]\n\n"@;
    reveal_strlit("[Output too long — full result saved to ");
    reveal_strlit("saved to ");
    reveal_strlit(" KB). Read the file for the complete output.]\n\n");
    reveal_strlit(" KB)");
    assert(a.skip(a.len() - 9) =~= "saved to "@);
    assert(c.take(4) =~= " KB)"@);
    let want = "saved to "@ + file + " ("@ + kilobytes + " KB)"@;
    let k = a.len() - 9;
    assert(t.subrange(k, k + want.len()) =~= want);
    assert(occurs_at(t, want, k));
    assert(t.subrange(t.len() - tail.len(), t.len() as int) =~= tail);
    if 0 <= i < ls.len() && i >= ls.len() - 200 {
        let j = i - (ls.len() - shown.len());
        assert(shown[j] == ls[i]);
        parts_stand_in_whole(shown, "\n"@, j);
        assert(occurs(t, tail)) by {
            assert(occurs_at(t, tail, t.len() - tail.len()));
        }
        stands_within(t, tail, ls[i]);
    }
}

/// Results of calls with different ids go into different files.
pub proof fn long_results_have_their_own_files(name: Text, id: Text, other: Text)
    requires
        long_output_file(name, id) == long_output_file(name, other),
    ensures
        id == other,
{
    let a = ".deepseek-code/tmp/tool-"@ + crate::text::replaced(name, " "@, "_"@) + "-"@;
    let x = long_output_file(name, id);
    let y = long_output_file(name, other);
    let n = a.len() as int;
    assert(x.len() == n + id.len() + ".txt"@.len());
    assert(y.len() == n + other.len() + ".txt"@.len());
    assert(x.subrange(n, n + id.len()) =~= id);
    assert(y.subrange(n, n + other.len()) =~= other);
}

/// The summary of a result tells how much there is of it: the lines and bytes of a
/// file, the matches of a search, the entries of a directory, the bytes of a page; of
/// a command the first five lines and how many more there are; of anything else the
/// text, cut where it is long.
pub proof fn summaries_tell(name: Text, t: Text)
    ensures
        ({
            let s = result_summary(name, t);
            let n = lines_of(t).len();
            &&& name == "read_file"@ ==> s == "Read "@ + decimal(n) + " lines ("@ + decimal(
                byte_len(t),
            ) + " chars)"@
            &&& name == "search_code"@ ==> s == "Found "@ + decimal(n) + " matches"@
            &&& name == "list_directory"@ ==> s == decimal(n) + " entries"@
            &&& name == "web_fetch"@ ==> s == "Fetched "@ + decimal(byte_len(t)) + " chars"@
            &&& name == "run_shell"@ && n <= 5 ==> s == joined(lines_of(t), "\n"@)
            &&& name == "run_shell"@ && n > 5 ==> s == joined(lines_of(t).take(5), "\n"@)
                + "\n... ("@ + decimal((n - 5) as nat) + " more lines)"@
            &&& name == "write_file"@ || name == "edit_file"@ || name == "write_memory"@ || name
                == "read_memory"@ ==> n > 0 ==> s == lines_of(t)[0]
        }),
{
    lemma_tool_names();
}

/// The result of any other tool is its own summary, cut where it is long.
pub proof fn other_results_are_shown(name: Text, t: Text)
    requires
        name == "get_goal"@ || name == "todo_write"@,
    ensures
        byte_len(t) <= 200 ==> result_summary(name, t) == t,
        t.len() > 200 ==> result_summary(name, t) == t.take(200) + "..."@,
{
    lemma_tool_names();
    reveal_strlit("get_goal");
    assert("get_goal"@.len() == 8);
    longer_than(t);
}

/// A character reference that a page can hold, and the character it stands for.
pub open spec fn refers(reference: Text, c: Text) -> bool {
    ||| reference == "&lt;"@ && c == "<"@
    ||| reference == "&gt;"@ && c == ">"@
    ||| reference == "&quot;"@ && c == "\""@
    ||| reference == "&#x27;"@ && c == "'"@
    ||| reference == "&nbsp;"@ && c == " "@
}

proof fn lemma_absent(s: Text, n: int, pat: Text)
    requires
        pat.len() > 0,
        pat[0] == '&',
        forall|k: int| 0 <= k < s.len() && k != n ==> #[trigger] s[k] != '&',
        !occurs_at(s, pat, n),
    ensures
        forall|j: int| 0 <= j ==> !occurs_at(s, pat, j),
{
    assert forall|j: int| 0 <= j implies !occurs_at(s, pat, j) by {
        if occurs_at(s, pat, j) {
            assert(s.subrange(j, j + pat.len())[0] == s[j]);
        }
    }
}

proof fn lemma_stays(s: Text, n: int, pat: Text, with: Text)
    requires
        pat.len() > 0,
        pat[0] == '&',
        forall|k: int| 0 <= k < s.len() && k != n ==> #[trigger] s[k] != '&',
        !occurs_at(s, pat, n),
    ensures
        replaced(s, pat, with) == s,
{
    lemma_absent(s, n, pat);
    texts_are_replaced(s, pat, with, 0);
}

proof fn lemma_resolved(a: Text, pat: Text, b: Text, with: Text)
    requires
        pat.len() > 0,
        pat[0] == '&',
        !a.contains('&'),
        !b.contains('&'),
    ensures
        replaced(a + pat + b, pat, with) == a + with + b,
{
    let s = a + pat + b;
    let n = a.len() as int;
    assert(s.subrange(n, n + pat.len()) =~= pat);
    assert forall|j: int| 0 <= j < n implies !occurs_at(s, pat, j) by {
        if occurs_at(s, pat, j) {
            assert(s.subrange(j, j + pat.len())[0] == s[j]);
            assert(s[j] == a[j]);
            assert(a.contains(a[j]));
        }
    }
    texts_are_replaced(s, pat, with, n);
    assert(s.take(n) =~= a);
    assert(s.skip(n + pat.len()) =~= b);
    assert forall|k: int| 0 <= k < b.len() && k != -1 implies #[trigger] b[k] != '&' by {
        assert(b.contains(b[k]));
    }
    lemma_stays(b, -1, pat, with);
}

proof fn lemma_references()
    ensures
        "&amp;"@.len() == 5 && "&amp;"@[0] == '&' && "&amp;"@[1] == 'a',
        "&lt;"@.len() == 4 && "&lt;"@[0] == '&' && "&lt;"@[1] == 'l' && "&lt;"@[2] == 't'
            && "&lt;"@[3] == ';',
        "&gt;"@.len() == 4 && "&gt;"@[0] == '&' && "&gt;"@[1] == 'g' && "&gt;"@[2] == 't'
            && "&gt;"@[3] == ';',
        "&quot;"@.len() == 6 && "&quot;"@[0] == '&' && "&quot;"@[1] == 'q',
        "&#x27;"@.len() == 6 && "&#x27;"@[0] == '&' && "&#x27;"@[1] == '#',
        "&nbsp;"@.len() == 6 && "&nbsp;"@[0] == '&' && "&nbsp;"@[1] == 'n',
        "<"@.len() == 1 && "<"@[0] == '<',
        ">"@.len() == 1 && ">"@[0] == '>',
        "\""@.len() == 1 && "\""@[0] == '"',
        "'"@.len() == 1 && "'"@[0] == '\'',
        " "@.len() == 1 && " "@[0] == ' ',
{
    reveal_strlit("&amp;");
    reveal_strlit("&lt;");
    reveal_strlit("&gt;");
    reveal_strlit("&quot;");
    reveal_strlit("&#x27;");
    reveal_strlit("&nbsp;");
    reveal_strlit("<");
    reveal_strlit(">");
    reveal_strlit("\"");
    reveal_strlit("'");
    reveal_strlit(" ");
}

/// One replacement of those that resolve references: it resolves its own and leaves any
/// other, and a text without one.
proof fn lemma_one_step(a: Text, r: Text, b: Text, pat: Text, with: Text)
    requires
        !a.contains('&'),
        !b.contains('&'),
        pat.len() >= 2,
        pat[0] == '&',
        r.len() >= 1,
        r == pat || r[0] != '&' || (r.len() >= 2 && r[1] != pat[1]),
        forall|k: int| 1 <= k < r.len() ==> #[trigger] r[k] != '&',
    ensures
        r == pat ==> replaced(a + r + b, pat, with) == a + with + b,
        r != pat ==> replaced(a + r + b, pat, with) == a + r + b,
{
    if r == pat {
        lemma_resolved(a, pat, b, with);
    } else {
        let s = a + r + b;
        let n = a.len() as int;
        assert forall|k: int| 0 <= k < s.len() && k != n implies #[trigger] s[k] != '&' by {
            if k < n {
                assert(s[k] == a[k]);
                assert(a.contains(a[k]));
            } else if k < n + r.len() {
                assert(s[k] == r[k - n]);
            } else {
                assert(s[k] == b[k - n - r.len()]);
                assert(b.contains(b[k - n - r.len()]));
            }
        }
        if occurs_at(s, pat, n) {
            assert(s.subrange(n, n + pat.len())[0] == r[0]);
            assert(s.subrange(n, n + pat.len())[1] == s[n + 1]);
        }
        lemma_stays(s, n, pat, with);
    }
}

/// A character reference becomes the character that it stands for, and the text around it
/// stays; so does a text without any.
pub proof fn references_are_resolved(a: Text, r: Text, c: Text, b: Text)
    requires
        !a.contains('&'),
        !b.contains('&'),
        refers(r, c),
    ensures
        unescaped(a + r + b) == a + c + b,
        unescaped(a) == a,
        unescaped(a + "&amp;"@) == a + "&"@,
{
    lemma_references();
    lemma_chain(a, r, c, b);
    lemma_plain(a);
    lemma_ampersand(a);
}

proof fn lemma_chain(a: Text, r: Text, c: Text, b: Text)
    requires
        !a.contains('&'),
        !b.contains('&'),
        refers(r, c),
    ensures
        unescaped(a + r + b) == a + c + b,
{
    lemma_references();
    assert(forall|k: int| 1 <= k < r.len() ==> #[trigger] r[k] != '&') by {
        reveal_strlit("&lt;");
        reveal_strlit("&gt;");
        reveal_strlit("&quot;");
        reveal_strlit("&#x27;");
        reveal_strlit("&nbsp;");
    }
    lemma_one_step(a, r, b, "&amp;"@, "&"@);
    lemma_one_step(a, r, b, "&lt;"@, "<"@);
    lemma_one_step(a, c, b, "&gt;"@, ">"@);
    lemma_one_step(a, r, b, "&gt;"@, ">"@);
    lemma_one_step(a, c, b, "&quot;"@, "\""@);
    lemma_one_step(a, r, b, "&quot;"@, "\""@);
    lemma_one_step(a, c, b, "&#x27;"@, "'"@);
    lemma_one_step(a, r, b, "&#x27;"@, "'"@);
    lemma_one_step(a, c, b, "&nbsp;"@, " "@);
    lemma_one_step(a, r, b, "&nbsp;"@, " "@);
}

proof fn lemma_plain(a: Text)
    requires
        !a.contains('&'),
    ensures
        unescaped(a) == a,
{
    lemma_references();
    assert forall|k: int| 0 <= k < a.len() && k != -1 implies #[trigger] a[k] != '&' by {
        assert(a.contains(a[k]));
    }
    lemma_stays(a, -1, "&amp;"@, "&"@);
    lemma_stays(a, -1, "&lt;"@, "<"@);
    lemma_stays(a, -1, "&gt;"@, ">"@);
    lemma_stays(a, -1, "&quot;"@, "\""@);
    lemma_stays(a, -1, "&#x27;"@, "'"@);
    lemma_stays(a, -1, "&nbsp;"@, " "@);
}

proof fn lemma_ampersand(a: Text)
    requires
        !a.contains('&'),
    ensures
        unescaped(a + "&amp;"@) == a + "&"@,
{
    lemma_references();
    reveal_strlit("&");
    let none: Text = Seq::empty();
    lemma_resolved(a, "&amp;"@, none, "&"@);
    assert(a + "&amp;"@ + none =~= a + "&amp;"@);
    assert(a + "&"@ + none =~= a + "&"@);
    let s = a + "&"@;
    let n = a.len() as int;
    assert forall|k: int| 0 <= k < s.len() && k != n implies #[trigger] s[k] != '&' by {
        assert(s[k] == a[k]);
        assert(a.contains(a[k]));
    }
    lemma_stays(s, n, "&lt;"@, "<"@);
    lemma_stays(s, n, "&gt;"@, ">"@);
    lemma_stays(s, n, "&quot;"@, "\""@);
    lemma_stays(s, n, "&#x27;"@, "'"@);
    lemma_stays(s, n, "&nbsp;"@, " "@);
}

} // verus!
