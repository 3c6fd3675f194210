//! The tools that the model may call: what is offered, what a call asks for, and
//! how its outcome is shaped for the model.

use crate::clock::{is_clock_time, now_millis};
use crate::json::{
    array, empty_object, parse_json, json_parse, string, text_at, with_field, Json, JsonView,
};
use crate::order::{ordered, sort};
use crate::stream::{lossy_text, text_from_bytes};
use crate::text::{
    begins, byte_len, chars_of, decimal, ends, ends_with, find, first_at, first_chars, head, join,
    joined, lemma_views_push, lines, lines_of, number, occurs, occurs_at, opt_view, replace,
    replaced, size, small_chars, small_text, starts_with, string_from, text_eq, trim, trimmed,
    views, Text, is_white, white,
};
use vstd::prelude::*;

verus! {

/// What came of a tool call.
#[derive(Debug)]
pub struct ToolResult {
    pub tool_call_id: String,
    pub content: String,
    pub success: bool,
}

#[verifier::ext_equal]
pub struct ToolResultView {
    pub tool_call_id: Text,
    pub content: Text,
    pub success: bool,
}

impl View for ToolResult {
    type V = ToolResultView;

    open spec fn view(&self) -> ToolResultView {
        ToolResultView {
            tool_call_id: self.tool_call_id@,
            content: self.content@,
            success: self.success,
        }
    }
}

/// The result for an outcome: an error is marked as one.
pub open spec fn result_for(id: Text, outcome: Result<Text, Text>) -> ToolResultView {
    match outcome {
        Ok(content) => ToolResultView { tool_call_id: id, content, success: true },
        Err(e) => ToolResultView { tool_call_id: id, content: "Error: "@ + e, success: false },
    }
}

/// The result for an outcome: an error is marked as one.
pub fn tool_result(tool_call_id: &str, outcome: Result<String, String>) -> (r: ToolResult)
    ensures
        r@ == result_for(tool_call_id@, crate::goals::answer_view(outcome)),
{
    match outcome {
        Ok(content) => ToolResult {
            tool_call_id: tool_call_id.to_string(),
            content,
            success: true,
        },
        Err(e) => {
            let mut content = "Error: ".to_string();
            content.push_str(&e);
            ToolResult { tool_call_id: tool_call_id.to_string(), content, success: false }
        },
    }
}

/// The fields of an object with these pairs, a later one before an earlier.
pub open spec fn properties(props: Seq<(Text, Text, Text)>) -> Map<Text, JsonView>
    decreases props.len(),
{
    if props.len() == 0 {
        Map::empty()
    } else {
        let (name, kind, description) = props.last();
        properties(props.drop_last()).insert(
            name,
            JsonView::Object(
                Map::<Text, JsonView>::empty().insert("type"@, JsonView::Str(kind)).insert(
                    "description"@,
                    JsonView::Str(description),
                ),
            ),
        )
    }
}

/// A tool in OpenAI's format: its name, what it does, and a schema of its
/// arguments.
pub open spec fn tool_definition(
    name: Text,
    description: Text,
    props: Seq<(Text, Text, Text)>,
    required: Seq<Text>,
) -> JsonView {
    let parameters = JsonView::Object(
        Map::<Text, JsonView>::empty().insert("type"@, JsonView::Str("object"@)).insert(
            "properties"@,
            JsonView::Object(properties(props)),
        ).insert(
            "required"@,
            JsonView::Array(Seq::new(required.len(), |i: int| JsonView::Str(required[i]))),
        ),
    );
    let function = JsonView::Object(
        Map::<Text, JsonView>::empty().insert("name"@, JsonView::Str(name)).insert(
            "description"@,
            JsonView::Str(description),
        ).insert("parameters"@, parameters),
    );
    JsonView::Object(
        Map::<Text, JsonView>::empty().insert("type"@, JsonView::Str("function"@)).insert(
            "function"@,
            function,
        ),
    )
}

pub open spec fn props_view(props: Seq<(&str, &str, &str)>) -> Seq<(Text, Text, Text)> {
    Seq::new(props.len(), |i: int| (props[i].0@, props[i].1@, props[i].2@))
}

/// A tool in OpenAI's format.
pub fn tool_json(
    name: &str,
    description: &str,
    props: Vec<(&str, &str, &str)>,
    required: Vec<&str>,
) -> (r: Json)
    ensures
        r@ == tool_definition(name@, description@, props_view(props@), views(required@)),
{
    let mut fields = empty_object();
    let mut i: usize = 0;
    while i < props.len()
        invariant
            i <= props@.len(),
            fields@ == JsonView::Object(properties(props_view(props@).take(i as int))),
        decreases props@.len() - i,
    {
        assert(props_view(props@).take(i + 1).drop_last() =~= props_view(props@).take(i as int));
        let (n, t, d) = props[i];
        let prop = with_field(
            with_field(empty_object(), "type", string(t)),
            "description",
            string(d),
        );
        fields = with_field(fields, n, prop);
        i = i + 1;
    }
    assert(props_view(props@).take(i as int) =~= props_view(props@));
    let mut needed: Vec<Json> = Vec::new();
    let ghost want = Seq::new(required@.len(), |i: int| JsonView::Str(views(required@)[i]));
    let mut j: usize = 0;
    while j < required.len()
        invariant
            j <= required@.len(),
            want == Seq::new(required@.len(), |i: int| JsonView::Str(views(required@)[i])),
            views(needed@) == want.take(j as int),
        decreases required@.len() - j,
    {
        let s = string(required[j]);
        proof {
            lemma_views_push(needed@, s);
            assert(want.take(j + 1) =~= want.take(j as int).push(want[j as int]));
        }
        needed.push(s);
        j = j + 1;
    }
    assert(want.take(j as int) =~= want);
    let parameters = with_field(
        with_field(
            with_field(empty_object(), "type", string("object")),
            "properties",
            fields,
        ),
        "required",
        array(needed),
    );
    let function = with_field(
        with_field(
            with_field(empty_object(), "name", string(name)),
            "description",
            string(description),
        ),
        "parameters",
        parameters,
    );
    with_field(with_field(empty_object(), "type", string("function")), "function", function)
}

/// The tools that are offered to the model.
pub open spec fn tool_definitions() -> Seq<JsonView> {
    seq![
        tool_definition(
            "read_file"@,
            "Read the contents of a file at the given path."@,
            seq![("path"@, "string"@, "Absolute or relative path to the file"@)],
            seq!["path"@],
        ),
        tool_definition(
            "write_file"@,
            "Write content to a file, creating it if it doesn't exist."@,
            seq![("path"@, "string"@, "Path to the file"@), ("content"@, "string"@, "Content to write"@)],
            seq!["path"@, "content"@],
        ),
        tool_definition(
            "edit_file"@,
            "Perform exact string replacement in a file."@,
            seq![("path"@, "string"@, "Path to the file"@), ("old_string"@, "string"@, "Exact text to replace"@), ("new_string"@, "string"@, "Replacement text"@)],
            seq!["path"@, "old_string"@, "new_string"@],
        ),
        tool_definition(
            "run_shell"@,
            "Execute a shell command in the workspace directory."@,
            seq![("command"@, "string"@, "The shell command to execute"@)],
            seq!["command"@],
        ),
        tool_definition(
            "search_code"@,
            "Search for a pattern in project files using grep."@,
            seq![("pattern"@, "string"@, "The search pattern (regex or literal)"@), ("path"@, "string"@, "Directory or file to search (default: root)"@)],
            seq!["pattern"@],
        ),
        tool_definition(
            "list_directory"@,
            "List contents of a directory."@,
            seq![("path"@, "string"@, "Directory path (default: root)"@)],
            Seq::empty(),
        ),
        tool_definition(
            "read_memory"@,
            "Read project memory files from .deepseek-code/memory/."@,
            seq![("name"@, "string"@, "Optional: specific memory file name"@)],
            Seq::empty(),
        ),
        tool_definition(
            "write_memory"@,
            "Write a new memory entry to project knowledge base."@,
            seq![("name"@, "string"@, "Short kebab-case filename"@), ("content"@, "string"@, "Markdown content"@)],
            seq!["name"@, "content"@],
        ),
        tool_definition(
            "web_fetch"@,
            "Fetch and read the content of a web page."@,
            seq![("url"@, "string"@, "The URL to fetch"@)],
            seq!["url"@],
        ),
        tool_definition(
            "todo_write"@,
            "Create and manage a structured task list for your current coding session. Use this to plan complex multi-step tasks, track progress, and demonstrate thoroughness. Tasks have status: pending, in_progress, completed, cancelled."@,
            seq![("tasks_json"@, "string"@, "JSON array of tasks: [{\"id\":\"1\",\"content\":\"Fix bug\",\"status\":\"in_progress\"}]"@)],
            seq!["tasks_json"@],
        ),
        tool_definition(
            "set_goal"@,
            "Create or replace the active goal. Use when the user states a concrete objective to pursue across turns, or explicitly asks to set a goal. The goal persists across turns, restarts, and model switches."@,
            seq![("objective"@, "string"@, "The concrete objective to pursue. Keep the user's full intent; do not shrink it."@), ("token_budget"@, "integer"@, "Optional: positive token budget (only when the user explicitly requests one)"@)],
            seq!["objective"@],
        ),
        tool_definition(
            "update_goal"@,
            "Update the active goal's status. 'complete' only after verifying the objective against current state, requirement by requirement. 'blocked' only after the same blocker has persisted 3 consecutive turns."@,
            seq![("status"@, "string"@, "complete or blocked"@)],
            seq!["status"@],
        ),
        tool_definition(
            "update_plan"@,
            "Create or update the task plan for the active goal. Steps keep identity across updates (match by id or content); timestamps are managed by the harness. At most one step may be in_progress. Use estimate_sec for your own duration estimate — the harness calibrates it against measured throughput."@,
            seq![("explanation"@, "string"@, "Optional short note on why the plan changed"@), ("plan"@, "string"@, "JSON array of steps: [{\"id\"?:\"1\",\"content\" or \"step\":\"Fix bug\",\"status\":\"in_progress\",\"estimate_sec\"?:12,\"blocked_reason\"?:\"\"}]"@)],
            seq!["plan"@],
        ),
        tool_definition(
            "get_goal"@,
            "Read the current goal: objective, status, token/time usage, and plan steps."@,
            Seq::empty(),
            Seq::empty(),
        ),
    ]
}

/// The tools that are offered to the model, in OpenAI's format.
pub fn get_tool_definitions_json() -> (r: Vec<Json>)
    ensures
        views(r@) == tool_definitions(),
{
    let mut out: Vec<Json> = Vec::new();
    let props: Vec<(&str, &str, &str)> = vec![("path", "string", "Absolute or relative path to the file")];
    let required: Vec<&str> = vec!["path"];
    assert(props_view(props@) =~= seq![("path"@, "string"@, "Absolute or relative path to the file"@)]);
    assert(views(required@) =~= seq!["path"@]);
    out.push(tool_json("read_file", "Read the contents of a file at the given path.", props, required));
    let props: Vec<(&str, &str, &str)> = vec![("path", "string", "Path to the file"), ("content", "string", "Content to write")];
    let required: Vec<&str> = vec!["path", "content"];
    assert(props_view(props@) =~= seq![("path"@, "string"@, "Path to the file"@), ("content"@, "string"@, "Content to write"@)]);
    assert(views(required@) =~= seq!["path"@, "content"@]);
    out.push(tool_json("write_file", "Write content to a file, creating it if it doesn't exist.", props, required));
    let props: Vec<(&str, &str, &str)> = vec![("path", "string", "Path to the file"), ("old_string", "string", "Exact text to replace"), ("new_string", "string", "Replacement text")];
    let required: Vec<&str> = vec!["path", "old_string", "new_string"];
    assert(props_view(props@) =~= seq![("path"@, "string"@, "Path to the file"@), ("old_string"@, "string"@, "Exact text to replace"@), ("new_string"@, "string"@, "Replacement text"@)]);
    assert(views(required@) =~= seq!["path"@, "old_string"@, "new_string"@]);
    out.push(tool_json("edit_file", "Perform exact string replacement in a file.", props, required));
    let props: Vec<(&str, &str, &str)> = vec![("command", "string", "The shell command to execute")];
    let required: Vec<&str> = vec!["command"];
    assert(props_view(props@) =~= seq![("command"@, "string"@, "The shell command to execute"@)]);
    assert(views(required@) =~= seq!["command"@]);
    out.push(tool_json("run_shell", "Execute a shell command in the workspace directory.", props, required));
    let props: Vec<(&str, &str, &str)> = vec![("pattern", "string", "The search pattern (regex or literal)"), ("path", "string", "Directory or file to search (default: root)")];
    let required: Vec<&str> = vec!["pattern"];
    assert(props_view(props@) =~= seq![("pattern"@, "string"@, "The search pattern (regex or literal)"@), ("path"@, "string"@, "Directory or file to search (default: root)"@)]);
    assert(views(required@) =~= seq!["pattern"@]);
    out.push(tool_json("search_code", "Search for a pattern in project files using grep.", props, required));
    let props: Vec<(&str, &str, &str)> = vec![("path", "string", "Directory path (default: root)")];
    let required: Vec<&str> = Vec::new();
    assert(props_view(props@) =~= seq![("path"@, "string"@, "Directory path (default: root)"@)]);
    assert(views(required@) =~= Seq::<Text>::empty());
    out.push(tool_json("list_directory", "List contents of a directory.", props, required));
    let props: Vec<(&str, &str, &str)> = vec![("name", "string", "Optional: specific memory file name")];
    let required: Vec<&str> = Vec::new();
    assert(props_view(props@) =~= seq![("name"@, "string"@, "Optional: specific memory file name"@)]);
    assert(views(required@) =~= Seq::<Text>::empty());
    out.push(tool_json("read_memory", "Read project memory files from .deepseek-code/memory/.", props, required));
    let props: Vec<(&str, &str, &str)> = vec![("name", "string", "Short kebab-case filename"), ("content", "string", "Markdown content")];
    let required: Vec<&str> = vec!["name", "content"];
    assert(props_view(props@) =~= seq![("name"@, "string"@, "Short kebab-case filename"@), ("content"@, "string"@, "Markdown content"@)]);
    assert(views(required@) =~= seq!["name"@, "content"@]);
    out.push(tool_json("write_memory", "Write a new memory entry to project knowledge base.", props, required));
    let props: Vec<(&str, &str, &str)> = vec![("url", "string", "The URL to fetch")];
    let required: Vec<&str> = vec!["url"];
    assert(props_view(props@) =~= seq![("url"@, "string"@, "The URL to fetch"@)]);
    assert(views(required@) =~= seq!["url"@]);
    out.push(tool_json("web_fetch", "Fetch and read the content of a web page.", props, required));
    let props: Vec<(&str, &str, &str)> = vec![("tasks_json", "string", "JSON array of tasks: [{\"id\":\"1\",\"content\":\"Fix bug\",\"status\":\"in_progress\"}]")];
    let required: Vec<&str> = vec!["tasks_json"];
    assert(props_view(props@) =~= seq![("tasks_json"@, "string"@, "JSON array of tasks: [{\"id\":\"1\",\"content\":\"Fix bug\",\"status\":\"in_progress\"}]"@)]);
    assert(views(required@) =~= seq!["tasks_json"@]);
    out.push(tool_json("todo_write", "Create and manage a structured task list for your current coding session. Use this to plan complex multi-step tasks, track progress, and demonstrate thoroughness. Tasks have status: pending, in_progress, completed, cancelled.", props, required));
    let props: Vec<(&str, &str, &str)> = vec![("objective", "string", "The concrete objective to pursue. Keep the user's full intent; do not shrink it."), ("token_budget", "integer", "Optional: positive token budget (only when the user explicitly requests one)")];
    let required: Vec<&str> = vec!["objective"];
    assert(props_view(props@) =~= seq![("objective"@, "string"@, "The concrete objective to pursue. Keep the user's full intent; do not shrink it."@), ("token_budget"@, "integer"@, "Optional: positive token budget (only when the user explicitly requests one)"@)]);
    assert(views(required@) =~= seq!["objective"@]);
    out.push(tool_json("set_goal", "Create or replace the active goal. Use when the user states a concrete objective to pursue across turns, or explicitly asks to set a goal. The goal persists across turns, restarts, and model switches.", props, required));
    let props: Vec<(&str, &str, &str)> = vec![("status", "string", "complete or blocked")];
    let required: Vec<&str> = vec!["status"];
    assert(props_view(props@) =~= seq![("status"@, "string"@, "complete or blocked"@)]);
    assert(views(required@) =~= seq!["status"@]);
    out.push(tool_json("update_goal", "Update the active goal's status. 'complete' only after verifying the objective against current state, requirement by requirement. 'blocked' only after the same blocker has persisted 3 consecutive turns.", props, required));
    let props: Vec<(&str, &str, &str)> = vec![("explanation", "string", "Optional short note on why the plan changed"), ("plan", "string", "JSON array of steps: [{\"id\"?:\"1\",\"content\" or \"step\":\"Fix bug\",\"status\":\"in_progress\",\"estimate_sec\"?:12,\"blocked_reason\"?:\"\"}]")];
    let required: Vec<&str> = vec!["plan"];
    assert(props_view(props@) =~= seq![("explanation"@, "string"@, "Optional short note on why the plan changed"@), ("plan"@, "string"@, "JSON array of steps: [{\"id\"?:\"1\",\"content\" or \"step\":\"Fix bug\",\"status\":\"in_progress\",\"estimate_sec\"?:12,\"blocked_reason\"?:\"\"}]"@)]);
    assert(views(required@) =~= seq!["plan"@]);
    out.push(tool_json("update_plan", "Create or update the task plan for the active goal. Steps keep identity across updates (match by id or content); timestamps are managed by the harness. At most one step may be in_progress. Use estimate_sec for your own duration estimate — the harness calibrates it against measured throughput.", props, required));
    let props: Vec<(&str, &str, &str)> = Vec::new();
    let required: Vec<&str> = Vec::new();
    assert(props_view(props@) =~= Seq::<(Text, Text, Text)>::empty());
    assert(views(required@) =~= Seq::<Text>::empty());
    out.push(tool_json("get_goal", "Read the current goal: objective, status, token/time usage, and plan steps.", props, required));
    assert(views(out@) =~= tool_definitions());
    out
}

/// What a tool call asks for, once its arguments have been read.
#[allow(inconsistent_fields)]
#[derive(Debug)]
pub enum ToolPlan {
    ReadFile { path: String },
    WriteFile { path: String, content: String },
    EditFile { path: String, old: String, new: String },
    RunShell { command: String },
    SearchCode { pattern: String, path: Option<String> },
    ListDirectory { path: Option<String> },
    ReadMemory { name: Option<String> },
    WriteMemory { name: String, content: String },
    WebFetch { url: String },
    /// Nothing is left to do; this is the answer.
    Answer { content: String },
}

#[verifier::ext_equal]
#[allow(inconsistent_fields)]
pub enum PlanView {
    ReadFile { path: Text },
    WriteFile { path: Text, content: Text },
    EditFile { path: Text, old: Text, new: Text },
    RunShell { command: Text },
    SearchCode { pattern: Text, path: Option<Text> },
    ListDirectory { path: Option<Text> },
    ReadMemory { name: Option<Text> },
    WriteMemory { name: Text, content: Text },
    WebFetch { url: Text },
    Answer { content: Text },
}

impl View for ToolPlan {
    type V = PlanView;

    open spec fn view(&self) -> PlanView {
        match *self {
            ToolPlan::ReadFile { path } => PlanView::ReadFile { path: path@ },
            ToolPlan::WriteFile { path, content } => PlanView::WriteFile {
                path: path@,
                content: content@,
            },
            ToolPlan::EditFile { path, old, new } => PlanView::EditFile {
                path: path@,
                old: old@,
                new: new@,
            },
            ToolPlan::RunShell { command } => PlanView::RunShell { command: command@ },
            ToolPlan::SearchCode { pattern, path } => PlanView::SearchCode {
                pattern: pattern@,
                path: opt_view(path),
            },
            ToolPlan::ListDirectory { path } => PlanView::ListDirectory { path: opt_view(path) },
            ToolPlan::ReadMemory { name } => PlanView::ReadMemory { name: opt_view(name) },
            ToolPlan::WriteMemory { name, content } => PlanView::WriteMemory {
                name: name@,
                content: content@,
            },
            ToolPlan::WebFetch { url } => PlanView::WebFetch { url: url@ },
            ToolPlan::Answer { content } => PlanView::Answer { content: content@ },
        }
    }
}

/// The text argument `key`, or the complaint that it is missing.
pub open spec fn needed(args: JsonView, key: Text) -> Result<Text, Text> {
    match text_at(args, key) {
        Some(t) => Ok(t),
        None => Err("Missing "@ + key),
    }
}

fn need(args: &Json, key: &str) -> (r: Result<String, String>)
    ensures
        crate::goals::answer_view(r) == needed(args@, key@),
{
    match args.str_at(key) {
        Some(t) => Ok(t.to_string()),
        None => {
            let mut e = "Missing ".to_string();
            e.push_str(key);
            Err(e)
        },
    }
}

/// What `write_file` asks for.
pub open spec fn write_plan(args: JsonView) -> Result<PlanView, Text> {
    match needed(args, "path"@) {
        Err(e) => Err(e),
        Ok(path) => match needed(args, "content"@) {
            Err(e) => Err(e),
            Ok(content) => Ok(PlanView::WriteFile { path, content }),
        },
    }
}

/// What `edit_file` asks for.
pub open spec fn edit_plan(args: JsonView) -> Result<PlanView, Text> {
    match needed(args, "path"@) {
        Err(e) => Err(e),
        Ok(path) => match needed(args, "old_string"@) {
            Err(e) => Err(e),
            Ok(old_text) => match needed(args, "new_string"@) {
                Err(e) => Err(e),
                Ok(new_text) => Ok(PlanView::EditFile { path, old: old_text, new: new_text }),
            },
        },
    }
}

/// What `write_memory` asks for.
pub open spec fn memory_plan(args: JsonView) -> Result<PlanView, Text> {
    match needed(args, "name"@) {
        Err(e) => Err(e),
        Ok(name) => match needed(args, "content"@) {
            Err(e) => Err(e),
            Ok(content) => Ok(PlanView::WriteMemory { name, content }),
        },
    }
}

/// What `web_fetch` asks for: only web addresses are fetched.
pub open spec fn fetch_plan(args: JsonView) -> Result<PlanView, Text> {
    match needed(args, "url"@) {
        Err(e) => Err(e),
        Ok(url) => if begins(url, "http://"@) || begins(url, "https://"@) {
            Ok(PlanView::WebFetch { url })
        } else {
            Err("URL must start with http:// or https://"@)
        },
    }
}

/// What `todo_write` leads to: the list is shown if it is JSON.
pub open spec fn todo_plan(args: JsonView) -> Result<PlanView, Text> {
    match needed(args, "tasks_json"@) {
        Err(e) => Err(e),
        Ok(tasks) => match json_parse(tasks) {
            Ok(_) => Ok(PlanView::Answer { content: "Tasks updated: "@ + tasks }),
            Err(e) => Err("Invalid JSON: "@ + e),
        },
    }
}

/// What a tool call asks for, or why it is refused.
pub open spec fn planned(name: Text, args: JsonView) -> Result<PlanView, Text> {
    if name == "read_file"@ {
        match needed(args, "path"@) {
            Ok(path) => Ok(PlanView::ReadFile { path }),
            Err(e) => Err(e),
        }
    } else if name == "write_file"@ {
        write_plan(args)
    } else if name == "edit_file"@ {
        edit_plan(args)
    } else if name == "run_shell"@ {
        match needed(args, "command"@) {
            Ok(command) => Ok(PlanView::RunShell { command }),
            Err(e) => Err(e),
        }
    } else if name == "search_code"@ {
        match needed(args, "pattern"@) {
            Ok(pattern) => Ok(PlanView::SearchCode { pattern, path: text_at(args, "path"@) }),
            Err(e) => Err(e),
        }
    } else if name == "list_directory"@ {
        Ok(PlanView::ListDirectory { path: text_at(args, "path"@) })
    } else if name == "read_memory"@ {
        Ok(PlanView::ReadMemory { name: text_at(args, "name"@) })
    } else if name == "write_memory"@ {
        memory_plan(args)
    } else if name == "web_fetch"@ {
        fetch_plan(args)
    } else if name == "todo_write"@ {
        todo_plan(args)
    } else {
        Err("Unknown tool: "@ + name)
    }
}

pub open spec fn plan_seen(r: Result<ToolPlan, String>) -> Result<PlanView, Text> {
    match r {
        Ok(p) => Ok(p@),
        Err(e) => Err(e@),
    }
}

fn plan_edit(args: &Json) -> (r: Result<ToolPlan, String>)
    ensures
        plan_seen(r) == edit_plan(args@),
{
    let path = match need(args, "path") {
        Ok(t) => t,
        Err(e) => {
            return Err(e);
        },
    };
    let old_text = match need(args, "old_string") {
        Ok(t) => t,
        Err(e) => {
            return Err(e);
        },
    };
    match need(args, "new_string") {
        Ok(new_text) => Ok(ToolPlan::EditFile { path, old: old_text, new: new_text }),
        Err(e) => Err(e),
    }
}

fn plan_write(args: &Json) -> (r: Result<ToolPlan, String>)
    ensures
        plan_seen(r) == write_plan(args@),
{
    match need(args, "path") {
        Ok(path) => match need(args, "content") {
            Ok(content) => Ok(ToolPlan::WriteFile { path, content }),
            Err(e) => Err(e),
        },
        Err(e) => Err(e),
    }
}

fn plan_memory(args: &Json) -> (r: Result<ToolPlan, String>)
    ensures
        plan_seen(r) == memory_plan(args@),
{
    match need(args, "name") {
        Ok(name) => match need(args, "content") {
            Ok(content) => Ok(ToolPlan::WriteMemory { name, content }),
            Err(e) => Err(e),
        },
        Err(e) => Err(e),
    }
}

fn plan_fetch(args: &Json) -> (r: Result<ToolPlan, String>)
    ensures
        plan_seen(r) == fetch_plan(args@),
{
    match need(args, "url") {
        Ok(url) => if starts_with(&url, "http://") || starts_with(&url, "https://") {
            Ok(ToolPlan::WebFetch { url })
        } else {
            Err("URL must start with http:// or https://".to_string())
        },
        Err(e) => Err(e),
    }
}

fn plan_todo(args: &Json) -> (r: Result<ToolPlan, String>)
    ensures
        plan_seen(r) == todo_plan(args@),
{
    match need(args, "tasks_json") {
        Ok(tasks) => match parse_json(&tasks) {
            Ok(_) => {
                let mut content = "Tasks updated: ".to_string();
                content.push_str(&tasks);
                Ok(ToolPlan::Answer { content })
            },
            Err(e) => {
                let mut m = "Invalid JSON: ".to_string();
                m.push_str(&e);
                Err(m)
            },
        },
        Err(e) => Err(e),
    }
}

/// What a tool call asks for, or why it is refused.
pub fn plan_tool(name: &str, args: &Json) -> (r: Result<ToolPlan, String>)
    ensures
        plan_seen(r) == planned(name@, args@),
{
    if text_eq(name, "read_file") {
        match need(args, "path") {
            Ok(path) => Ok(ToolPlan::ReadFile { path }),
            Err(e) => Err(e),
        }
    } else if text_eq(name, "write_file") {
        plan_write(args)
    } else if text_eq(name, "edit_file") {
        plan_edit(args)
    } else if text_eq(name, "run_shell") {
        match need(args, "command") {
            Ok(command) => Ok(ToolPlan::RunShell { command }),
            Err(e) => Err(e),
        }
    } else if text_eq(name, "search_code") {
        match need(args, "pattern") {
            Ok(pattern) => Ok(ToolPlan::SearchCode { pattern, path: args.opt_string_at("path") }),
            Err(e) => Err(e),
        }
    } else if text_eq(name, "list_directory") {
        Ok(ToolPlan::ListDirectory { path: args.opt_string_at("path") })
    } else if text_eq(name, "read_memory") {
        Ok(ToolPlan::ReadMemory { name: args.opt_string_at("name") })
    } else if text_eq(name, "write_memory") {
        plan_memory(args)
    } else if text_eq(name, "web_fetch") {
        plan_fetch(args)
    } else if text_eq(name, "todo_write") {
        plan_todo(args)
    } else {
        let mut e = "Unknown tool: ".to_string();
        e.push_str(name);
        Err(e)
    }
}

/// Files above this size are not read.
pub const MAX_FILE_BYTES: u64 = 2_097_152;

/// Why a file is not read: `megabytes` is its size as text. `None` where it is
/// small enough.
pub fn file_size_complaint(bytes: u64, megabytes: &str) -> (r: Option<String>)
    ensures
        opt_view(r) == (if bytes > MAX_FILE_BYTES {
            Some(
                "File too large ("@ + megabytes@
                    + " MB, max 2 MB). Use run_shell to inspect it in parts."@,
            )
        } else {
            None::<Text>
        }),
{
    if bytes <= MAX_FILE_BYTES {
        return None;
    }
    let mut s = "File too large (".to_string();
    s.push_str(megabytes);
    s.push_str(" MB, max 2 MB). Use run_shell to inspect it in parts.");
    Some(s)
}

/// A text with the first `old` in it replaced, or the complaint that there is
/// none.
pub open spec fn edited(content: Text, old_text: Text, new_text: Text) -> Result<Text, Text> {
    if occurs(content, old_text) {
        let i = choose|i: int| first_at(content, old_text, i);
        Ok(content.take(i) + new_text + content.skip(i + old_text.len()))
    } else {
        Err("old_string not found"@)
    }
}

/// There is only one first place.
proof fn lemma_first_is_one(hay: Text, needle: Text, i: int, j: int)
    requires
        first_at(hay, needle, i),
        first_at(hay, needle, j),
    ensures
        i == j,
{
    if i < j {
        assert(occurs_at(hay, needle, i));
    } else if j < i {
        assert(occurs_at(hay, needle, j));
    }
}

/// A text with the first `old` in it replaced.
pub fn edit_text(content: &str, old_text: &str, new_text: &str) -> (r: Result<String, String>)
    ensures
        crate::goals::answer_view(r) == edited(content@, old_text@, new_text@),
{
    let hay = chars_of(content);
    let needle = chars_of(old_text);
    let total: usize = hay.len();
    match find(&hay, &needle) {
        None => Err("old_string not found".to_string()),
        Some(i) => {
            proof {
                assert(occurs_at(hay@, needle@, i as int));
                let k = choose|k: int| first_at(content@, old_text@, k);
                lemma_first_is_one(content@, old_text@, k, i as int);
            }
            let mut out = string_from(&hay, 0, i);
            out.push_str(new_text);
            out.push_str(&string_from(&hay, i + needle.len(), total));
            assert(hay@.subrange(0, i as int) =~= content@.take(i as int));
            assert(hay@.subrange(i + needle@.len(), hay@.len() as int) =~= content@.skip(
                i + old_text@.len(),
            ));
            Ok(out)
        },
    }
}

/// An edit changes one place only: what stands before and behind it stays, and
/// putting the old text back gives the old content.
pub proof fn edit_changes_one_place(content: Text, old_text: Text, new_text: Text)
    requires
        occurs(content, old_text),
    ensures
        edited(content, old_text, new_text) matches Ok(now) && exists|i: int|
            #[trigger] first_at(content, old_text, i) && now.take(i) == content.take(i) && now.skip(
                i + new_text.len(),
            ) == content.skip(i + old_text.len()) && occurs_at(now, new_text, i) && now.take(i)
                + old_text + now.skip(i + new_text.len()) == content,
{
    lemma_occurs_first(content, old_text);
    let i = choose|i: int| first_at(content, old_text, i);
    let now = edited(content, old_text, new_text)->Ok_0;
    assert(now.take(i) =~= content.take(i));
    assert(now.skip(i + new_text.len()) =~= content.skip(i + old_text.len()));
    assert(now.subrange(i, i + new_text.len()) =~= new_text);
    assert(content.take(i) + old_text + content.skip(i + old_text.len()) =~= content) by {
        assert(old_text =~= content.subrange(i, i + old_text.len()));
    }
}

proof fn lemma_occurs_first(hay: Text, needle: Text)
    requires
        occurs(hay, needle),
    ensures
        exists|i: int| first_at(hay, needle, i),
{
    let i = choose|i: int| occurs_at(hay, needle, i);
    lemma_first_below(hay, needle, i);
}

proof fn lemma_first_below(hay: Text, needle: Text, i: int)
    requires
        occurs_at(hay, needle, i),
    ensures
        exists|k: int| first_at(hay, needle, k),
    decreases i,
{
    if exists|j: int| 0 <= j < i && occurs_at(hay, needle, j) {
        let j = choose|j: int| 0 <= j < i && occurs_at(hay, needle, j);
        lemma_first_below(hay, needle, j);
    } else {
        assert(first_at(hay, needle, i));
    }
}

/// Tool output above this many bytes is cut, to as many characters.
pub const MAX_SHELL_OUTPUT: usize = 50_000;

/// What a shell command printed: its output, then its errors under a heading, and
/// how it ended where it printed nothing; with the time it took, and cut where it
/// is too long.
pub open spec fn shell_text(stdout: Text, stderr: Text, status: Text, seconds: Text) -> Text {
    let a = if stderr.len() == 0 {
        stdout
    } else if stdout.len() == 0 {
        stdout + "STDERR:\n"@ + stderr
    } else {
        stdout.push('\n') + "STDERR:\n"@ + stderr
    };
    let b = if a.len() == 0 {
        "Exit: "@ + status
    } else {
        a
    };
    let c = b + "\n[duration] command took "@ + seconds + "s wall-clock"@;
    if byte_len(c) > MAX_SHELL_OUTPUT {
        head(c, MAX_SHELL_OUTPUT as int) + "...\n(output truncated at 50K chars)"@
    } else {
        c
    }
}

/// What the model reads of a shell command. `status` is how it ended and
/// `seconds` how long it took, as texts.
pub fn shell_output(stdout: &str, stderr: &str, status: &str, seconds: &str) -> (r: String)
    ensures
        r@ == shell_text(stdout@, stderr@, status@, seconds@),
{
    let mut r = stdout.to_string();
    if !stderr.is_empty() {
        if !stdout.is_empty() {
            r.push('\n');
        }
        r.push_str("STDERR:\n");
        r.push_str(stderr);
    }
    if r.as_str().is_empty() {
        r = "Exit: ".to_string();
        r.push_str(status);
    }
    r.push_str("\n[duration] command took ");
    r.push_str(seconds);
    r.push_str("s wall-clock");
    if size(&r) > MAX_SHELL_OUTPUT {
        let mut cut = first_chars(&r, MAX_SHELL_OUTPUT);
        cut.push_str("...\n(output truncated at 50K chars)");
        return cut;
    }
    r
}

/// The first `n` parts, or all of them.
pub open spec fn first_parts(parts: Seq<Text>, n: int) -> Seq<Text> {
    if n < parts.len() {
        parts.take(n)
    } else {
        parts
    }
}

/// What the model reads of a search: at most a hundred matches.
pub open spec fn search_text(stdout: Text) -> Text {
    if stdout.len() == 0 {
        "No matches found."@
    } else {
        joined(first_parts(lines_of(stdout), 100), "\n"@)
    }
}

fn join_first(parts: &Vec<String>, n: usize, sep: &str) -> (r: String)
    ensures
        r@ == joined(first_parts(views(parts@), n as int), sep@),
{
    let to: usize = if n < parts.len() {
        n
    } else {
        parts.len()
    };
    assert(views(parts@).subrange(0, to as int) =~= first_parts(views(parts@), n as int));
    join(parts, 0, to, sep)
}

/// What the model reads of a search.
pub fn search_output(stdout: &str) -> (r: String)
    ensures
        r@ == search_text(stdout@),
{
    if stdout.is_empty() {
        return "No matches found.".to_string();
    }
    join_first(&lines(stdout), 100, "\n")
}

/// The line of one directory entry.
pub open spec fn entry_line(is_dir: bool, name: Text) -> Text {
    (if is_dir {
        "D"@
    } else {
        "F"@
    }) + " "@ + name
}

/// The line of one directory entry.
pub fn listing_line(is_dir: bool, name: &str) -> (r: String)
    ensures
        r@ == entry_line(is_dir, name@),
{
    let mut s = if is_dir {
        "D".to_string()
    } else {
        "F".to_string()
    };
    s.push_str(" ");
    s.push_str(name);
    s
}

/// What the model reads of a directory: its entries in order.
pub fn listing_output(listing: Vec<String>) -> (r: String)
    ensures
        r@ == joined(ordered::<String>(views(listing@)), "\n"@),
{
    let sorted = sort(listing);
    assert(views(sorted@).subrange(0, sorted@.len() as int) =~= views(sorted@));
    join(&sorted, 0, sorted.len(), "\n")
}

/// The names of the memories among some files, in the order given.
pub open spec fn memory_names(files: Seq<Text>) -> Seq<Text>
    decreases files.len(),
{
    if files.len() == 0 {
        Seq::empty()
    } else {
        let before = memory_names(files.drop_last());
        if ends(files.last(), ".md"@) {
            before.push(crate::context::without_md(files.last()))
        } else {
            before
        }
    }
}

/// What the model reads of the memory directory.
pub open spec fn memory_listing(files: Seq<Text>) -> Text {
    let names = memory_names(files);
    if names.len() == 0 {
        "No memories."@
    } else {
        joined(names, "\n"@)
    }
}

/// What the model reads of the memory directory.
pub fn memory_output(files: &Vec<String>) -> (r: String)
    ensures
        r@ == memory_listing(views(files@)),
{
    let mut names: Vec<String> = Vec::new();
    let mut i: usize = 0;
    assert(views(names@) =~= Seq::<Text>::empty());
    while i < files.len()
        invariant
            i <= files@.len(),
            views(names@) == memory_names(views(files@).take(i as int)),
        decreases files@.len() - i,
    {
        assert(views(files@).take(i + 1).drop_last() =~= views(files@).take(i as int));
        if ends_with(&files[i], ".md") {
            let n = crate::context::strip_md(&files[i]);
            proof {
                lemma_views_push(names@, n);
            }
            names.push(n);
        }
        i = i + 1;
    }
    assert(views(files@).take(i as int) =~= views(files@));
    if names.len() == 0 {
        "No memories.".to_string()
    } else {
        assert(views(names@).subrange(0, names@.len() as int) =~= views(names@));
        join(&names, 0, names.len(), "\n")
    }
}

/// The characters outside of tags, from `from` on.
pub open spec fn outside_tags(s: Text, from: int, in_tag: bool) -> Text
    decreases s.len() - from,
{
    if from < 0 || from >= s.len() {
        Seq::empty()
    } else if s[from] == '<' {
        outside_tags(s, from + 1, true)
    } else if s[from] == '>' {
        outside_tags(s, from + 1, false)
    } else if in_tag {
        outside_tags(s, from + 1, true)
    } else {
        seq![s[from]] + outside_tags(s, from + 1, false)
    }
}

/// A text with the common character references resolved, one kind after the
/// other.
pub open spec fn unescaped(s: Text) -> Text {
    let a = replaced(s, "&amp;"@, "&"@);
    let b = replaced(a, "&lt;"@, "<"@);
    let c = replaced(b, "&gt;"@, ">"@);
    let d = replaced(c, "&quot;"@, "\""@);
    let e = replaced(d, "&#x27;"@, "'"@);
    replaced(e, "&nbsp;"@, " "@)
}

/// The lines that hold something, trimmed.
pub open spec fn inked_lines(ls: Seq<Text>) -> Seq<Text>
    decreases ls.len(),
{
    if ls.len() == 0 {
        Seq::empty()
    } else {
        let before = inked_lines(ls.drop_last());
        let t = trimmed(ls.last());
        if t.len() == 0 {
            before
        } else {
            before.push(t)
        }
    }
}

/// The text of a page: without its tags, with references resolved, and without
/// blank lines.
pub open spec fn page_text(html: Text) -> Text {
    joined(inked_lines(lines_of(unescaped(outside_tags(html, 0, false)))), "\n"@)
}

/// The text of a page.
pub fn strip_html(html: &str) -> (r: String)
    ensures
        r@ == page_text(html@),
{
    let v = chars_of(html);
    let mut r = String::new();
    let mut in_tag = false;
    let mut i: usize = 0;
    assert(r@ + outside_tags(html@, 0, false) =~= outside_tags(html@, 0, false));
    while i < v.len()
        invariant
            v@ == html@,
            i <= v@.len(),
            r@ + outside_tags(html@, i as int, in_tag) == outside_tags(html@, 0, false),
        decreases v@.len() - i,
    {
        let c = v[i];
        let ghost before = r@;
        if c == '<' {
            in_tag = true;
        } else if c == '>' {
            in_tag = false;
        } else if !in_tag {
            r.push(c);
            assert(before + (seq![c] + outside_tags(html@, i + 1, false)) =~= r@ + outside_tags(
                html@,
                i + 1,
                false,
            ));
        }
        i = i + 1;
    }
    assert(r@ + Seq::<char>::empty() =~= r@);
    let a = replace(&r, "&amp;", "&");
    let b = replace(&a, "&lt;", "<");
    let c = replace(&b, "&gt;", ">");
    let d = replace(&c, "&quot;", "\"");
    let e = replace(&d, "&#x27;", "'");
    let t = replace(&e, "&nbsp;", " ");
    let ls = lines(&t);
    let mut out: Vec<String> = Vec::new();
    let mut k: usize = 0;
    assert(views(out@) =~= Seq::<Text>::empty());
    while k < ls.len()
        invariant
            k <= ls@.len(),
            views(out@) == inked_lines(views(ls@).take(k as int)),
        decreases ls@.len() - k,
    {
        assert(views(ls@).take(k + 1).drop_last() =~= views(ls@).take(k as int));
        let line = trim(&ls[k]);
        if !line.as_str().is_empty() {
            proof {
                lemma_views_push(out@, line);
            }
            out.push(line);
        }
        k = k + 1;
    }
    assert(views(ls@).take(k as int) =~= views(ls@));
    assert(views(out@).subrange(0, out@.len() as int) =~= views(out@));
    join(&out, 0, out.len(), "\n")
}

/// Whether a character is an ASCII letter or digit.
pub open spec fn is_ascii_alphanumeric(c: char) -> bool {
    ('0' <= c && c <= '9') || ('a' <= c && c <= 'z') || ('A' <= c && c <= 'Z')
}

/// Whether a character is a letter or a digit.
pub uninterp spec fn is_alphanumeric(c: char) -> bool;

/// `char::is_alphanumeric`: depends on the character alone; of the ASCII
/// characters, the letters and digits are.
#[verifier::external_body]
fn alphanumeric(c: char) -> (r: bool)
    ensures
        r == is_alphanumeric(c),
        (c as u32) < 128 ==> r == is_ascii_alphanumeric(c),
{
    c.is_alphanumeric()
}

/// A character of a charset name.
pub open spec fn is_label_char(c: char) -> bool {
    if (c as u32) < 128 {
        is_ascii_alphanumeric(c) || c == '-' || c == '_'
    } else {
        is_alphanumeric(c)
    }
}

/// The characters of a charset name from `from` on.
pub open spec fn label_from(s: Text, from: int) -> Text
    decreases s.len() - from,
{
    if 0 <= from < s.len() && is_label_char(s[from]) {
        seq![s[from]] + label_from(s, from + 1)
    } else {
        Seq::empty()
    }
}

/// The charset that a page names for itself: what stands behind the first
/// `charset=`, in quotes or without.
pub open spec fn charset_in(page: Text) -> Option<Text> {
    let lower = small_text(page);
    if occurs(lower, "charset="@) {
        let i = choose|i: int| first_at(lower, "charset="@, i);
        let at = i + 8;
        let start = if at < lower.len() && (lower[at] == '"' || lower[at] == '\'') {
            at + 1
        } else {
            at
        };
        let label = label_from(lower, start);
        if label.len() == 0 {
            None
        } else {
            Some(label)
        }
    } else {
        None
    }
}

/// How much of a page is searched for its charset.
pub const SNIFFED_BYTES: usize = 4096;

/// The first bytes, or all of them.
pub open spec fn first_bytes(b: Seq<u8>, n: int) -> Seq<u8> {
    if n < b.len() {
        b.take(n)
    } else {
        b
    }
}

/// The charset that a page names in its first 4096 bytes.
pub fn sniff_meta_charset(bytes: &[u8]) -> (r: Option<String>)
    ensures
        opt_view(r) == charset_in(lossy_text(first_bytes(bytes@, SNIFFED_BYTES as int))),
{
    let n: usize = if SNIFFED_BYTES < bytes.len() {
        SNIFFED_BYTES
    } else {
        bytes.len()
    };
    let start = vstd::slice::slice_subrange(bytes, 0, n);
    assert(start@ =~= first_bytes(bytes@, SNIFFED_BYTES as int));
    let page = text_from_bytes(start);
    charset_of_page(&page)
}

/// The charset that a page names for itself.
pub fn charset_of_page(page: &str) -> (r: Option<String>)
    ensures
        opt_view(r) == charset_in(page@),
{
    let lower = small_chars(page);
    let total: usize = lower.len();
    let marker = chars_of("charset=");
    proof {
        reveal_strlit("charset=");
    }
    match find(&lower, &marker) {
        None => None,
        Some(i) => {
            proof {
                assert(occurs_at(lower@, marker@, i as int));
                let k = choose|k: int| first_at(lower@, "charset="@, k);
                lemma_first_is_one(lower@, "charset="@, k, i as int);
            }
            let at: usize = i + 8;
            let start: usize = if at < total && (lower[at] == '"' || lower[at] == '\'') {
                at + 1
            } else {
                at
            };
            let mut to: usize = start;
            let mut label = String::new();
            assert(label@ + label_from(lower@, start as int) =~= label_from(lower@, start as int));
            while to < lower.len() && (alphanumeric(lower[to]) || lower[to] == '-' || lower[to]
                == '_')
                invariant
                    start <= to <= lower@.len(),
                    label@ + label_from(lower@, to as int) == label_from(lower@, start as int),
                decreases lower@.len() - to,
            {
                let c = lower[to];
                let ghost before = label@;
                label.push(c);
                to = to + 1;
                assert(before + (seq![c] + label_from(lower@, to as int)) =~= label@ + label_from(
                    lower@,
                    to as int,
                ));
            }
            assert(label@ + Seq::<char>::empty() =~= label@);
            if label.as_str().is_empty() {
                None
            } else {
                Some(label)
            }
        },
    }
}

/// The second part of a text cut at each `;`.
pub open spec fn second_part(s: Text) -> Option<Text> {
    let a = crate::text::next_char(s, ';', 0);
    if a < s.len() {
        let b = crate::text::next_char(s, ';', a + 1);
        Some(s.subrange(a + 1, b))
    } else {
        None
    }
}

/// The charset that a content type names in its first parameter.
pub open spec fn header_charset(content_type: Text) -> Option<Text> {
    match second_part(content_type) {
        Some(p) => {
            let t = trimmed(p);
            if begins(t, "charset="@) {
                Some(t.skip(8))
            } else {
                None
            }
        },
        None => None,
    }
}

/// The charset that a content type names in its first parameter.
pub fn charset_of_header(content_type: &str) -> (r: Option<String>)
    ensures
        opt_view(r) == header_charset(content_type@),
{
    let v = chars_of(content_type);
    let a: usize = crate::text::find_char(&v, ';', 0);
    if a >= v.len() {
        return None;
    }
    let b: usize = crate::text::find_char(&v, ';', a + 1);
    let part = string_from(&v, a + 1, b);
    let t = trim(&part);
    if !starts_with(&t, "charset=") {
        return None;
    }
    proof {
        reveal_strlit("charset=");
    }
    let w = chars_of(&t);
    let r = string_from(&w, 8, w.len());
    assert(r@ =~= t@.skip(8));
    Some(r)
}

/// The text that `encoding_rs` reads in some bytes under a charset's label; none
/// where it knows no such label.
pub uninterp spec fn decoded_as(label: Seq<char>, bytes: Seq<u8>) -> Option<Seq<char>>;

/// `encoding_rs::Encoding::for_label` and `decode` of the encoding found: whether
/// there is one depends on the label alone, and the text on both.
#[verifier::external_body]
fn decode_as(label: &str, bytes: &[u8]) -> (r: Option<String>)
    ensures
        opt_view(r) == decoded_as(label@, bytes@),
{
    encoding_rs::Encoding::for_label(label.as_bytes()).map(|e| e.decode(bytes).0.into_owned())
}

/// The charset of a page: what its header names, else what the page itself names.
pub open spec fn page_charset(content_type: Option<Text>, bytes: Seq<u8>) -> Option<Text> {
    let named = match content_type {
        Some(ct) => header_charset(ct),
        None => None,
    };
    match named {
        Some(c) => Some(c),
        None => charset_in(lossy_text(first_bytes(bytes, SNIFFED_BYTES as int))),
    }
}

/// The text of a page's bytes: by its charset where that is known, else as UTF-8.
pub open spec fn page_source(content_type: Option<Text>, bytes: Seq<u8>) -> Text {
    match page_charset(content_type, bytes) {
        Some(label) => match decoded_as(label, bytes) {
            Some(t) => t,
            None => lossy_text(bytes),
        },
        None => lossy_text(bytes),
    }
}

/// The text of a page's bytes.
pub fn decode_page(content_type: &Option<String>, bytes: &[u8]) -> (r: String)
    ensures
        r@ == page_source(opt_view(*content_type), bytes@),
{
    let named = match content_type {
        Some(ct) => charset_of_header(ct),
        None => None,
    };
    let charset = match named {
        Some(c) => Some(c),
        None => sniff_meta_charset(bytes),
    };
    match charset {
        Some(label) => match decode_as(&label, bytes) {
            Some(t) => t,
            None => text_from_bytes(bytes),
        },
        None => text_from_bytes(bytes),
    }
}

/// Whether a character is a decimal digit.
pub open spec fn is_digit(c: char) -> bool {
    '0' <= c && c <= '9'
}

/// Where the run of digits that ends at `i` begins.
pub open spec fn digits_start(s: Text, i: int) -> int
    decreases i,
{
    if 0 < i <= s.len() && is_digit(s[i - 1]) {
        digits_start(s, i - 1)
    } else {
        i
    }
}

/// Where the whitespace that ends at `i` begins.
pub open spec fn spaces_start(s: Text, i: int) -> int
    decreases i,
{
    if 0 < i <= s.len() && is_white(s[i - 1]) {
        spaces_start(s, i - 1)
    } else {
        i
    }
}

/// The number that stands right before place `i`; empty where there is none.
pub open spec fn number_before(s: Text, i: int) -> Text {
    s.subrange(digits_start(s, i), i)
}

fn find_digits_start(v: &Vec<char>, i: usize) -> (r: usize)
    requires
        i <= v@.len(),
    ensures
        r == digits_start(v@, i as int),
        r <= i,
{
    let mut k: usize = i;
    while k > 0 && '0' <= v[k - 1] && v[k - 1] <= '9'
        invariant
            k <= i <= v@.len(),
            digits_start(v@, k as int) == digits_start(v@, i as int),
        decreases k,
    {
        k = k - 1;
    }
    k
}

fn find_spaces_start(v: &Vec<char>, i: usize) -> (r: usize)
    requires
        i <= v@.len(),
    ensures
        r == spaces_start(v@, i as int),
        r <= i,
{
    let mut k: usize = i;
    while k > 0 && white(v[k - 1])
        invariant
            k <= i <= v@.len(),
            spaces_start(v@, k as int) == spaces_start(v@, i as int),
        decreases k,
    {
        k = k - 1;
    }
    k
}

/// The hint for a Chinese phrase such as `3天前`: the number before the first
/// mention of this unit.
pub open spec fn chinese_hint(text: Text, unit: Text) -> Option<Text> {
    let marker = unit + "前"@;
    if occurs(text, marker) {
        let i = choose|i: int| first_at(text, marker, i);
        let n = number_before(text, i);
        if n.len() > 0 {
            Some("relative_time="@ + n + " "@ + unit + "前 (content)"@)
        } else {
            None
        }
    } else {
        None
    }
}

/// Whether `unit ago` or its plural stands at place `i`.
pub open spec fn ago_at(text: Text, unit: Text, i: int) -> bool {
    occurs_at(text, unit + " ago"@, i) || occurs_at(text, unit + "s ago"@, i)
}

pub open spec fn first_ago(text: Text, unit: Text, i: int) -> bool {
    &&& 0 <= i
    &&& ago_at(text, unit, i)
    &&& forall|j: int| 0 <= j < i ==> !ago_at(text, unit, j)
}

/// The hint for an English phrase such as `21 minutes ago`: the number before the
/// first mention of this unit.
pub open spec fn english_hint(text: Text, unit: Text) -> Option<Text> {
    let lower = small_text(text);
    if exists|i: int| first_ago(lower, unit, i) {
        let i = choose|i: int| first_ago(lower, unit, i);
        let n = number_before(text, spaces_start(text, i));
        if n.len() > 0 {
            Some("relative_time="@ + n + " "@ + unit + " ago (content)"@)
        } else {
            None
        }
    } else {
        None
    }
}

/// The hint of the first unit from `from` on that gives one.
pub open spec fn first_hint(hints: Seq<Option<Text>>, from: int) -> Option<Text>
    decreases hints.len() - from,
{
    if from >= hints.len() {
        None
    } else if hints[from] is Some {
        hints[from]
    } else {
        first_hint(hints, from + 1)
    }
}

pub open spec fn chinese_units() -> Seq<Text> {
    seq!["分钟"@, "小时"@, "天"@, "星期"@, "个月"@]
}

pub open spec fn english_units() -> Seq<Text> {
    seq!["minute"@, "hour"@, "day"@, "week"@, "month"@]
}

/// The value of some decimal digits.
pub open spec fn digits_value(s: Text) -> nat
    decreases s.len(),
{
    if s.len() == 0 {
        0
    } else {
        10 * digits_value(s.drop_last()) + ((s.last() as int) - 48) as nat
    }
}

/// Whether a time in ms since the epoch, of 13 digits, stands behind a `=` at
/// place `i`.
pub open spec fn epoch_at(s: Text, i: int) -> bool {
    &&& 0 <= i
    &&& i + 14 <= s.len()
    &&& s[i] == '='
    &&& forall|k: int| i < k < i + 14 ==> is_digit(#[trigger] s[k])
}

/// The first such place from `from` on, or the length of the text.
pub open spec fn next_epoch(s: Text, from: int) -> int
    decreases s.len() - from,
{
    if from >= s.len() {
        s.len() as int
    } else if epoch_at(s, from) {
        from
    } else {
        next_epoch(s, from + 1)
    }
}

/// How long ago a time is, in the coarsest unit that says something.
pub open spec fn page_age(now: i64, ms: int) -> Text {
    let past = if now > ms {
        now - ms
    } else {
        0
    };
    let days = past / 86_400_000;
    if days > 730 {
        decimal((days / 365) as nat) + " years"@
    } else if days > 60 {
        decimal((days / 30) as nat) + " months"@
    } else if days > 1 {
        decimal(days as nat) + " days"@
    } else {
        decimal((past / 3_600_000) as nat) + " hours"@
    }
}

/// The hint for a time in a query, such as `r=1504921726666`.
pub open spec fn epoch_hint(s: Text, now: i64) -> Option<Text> {
    let i = next_epoch(s, 0);
    if i < s.len() {
        let ms = digits_value(s.subrange(i + 1, i + 14));
        Some(
            "cache_param="@ + decimal(ms) + " (page ~"@ + page_age(now, ms as int) + ")"@,
        )
    } else {
        None
    }
}

/// What a page says of its own age: a relative time in its text, or a time in its
/// address or text.
pub open spec fn content_hint(text: Text, url: Text, now: i64) -> Option<Text> {
    let cn = Seq::new(5, |i: int| chinese_hint(text, chinese_units()[i]));
    let en = Seq::new(5, |i: int| english_hint(text, english_units()[i]));
    if first_hint(cn, 0) is Some {
        first_hint(cn, 0)
    } else if first_hint(en, 0) is Some {
        first_hint(en, 0)
    } else if epoch_hint(url, now) is Some {
        epoch_hint(url, now)
    } else {
        epoch_hint(text, now)
    }
}

fn hint_in_chinese(text: &Vec<char>, unit: &str) -> (r: Option<String>)
    ensures
        opt_view(r) == chinese_hint(text@, unit@),
{
    let mut marker = unit.to_string();
    marker.push_str("前");
    let needle = chars_of(&marker);
    match find(text, &needle) {
        None => None,
        Some(i) => {
            proof {
                assert(occurs_at(text@, needle@, i as int));
                let k = choose|k: int| first_at(text@, marker@, k);
                lemma_first_is_one(text@, marker@, k, i as int);
            }
            let from: usize = find_digits_start(text, i);
            if from == i {
                return None;
            }
            let mut s = "relative_time=".to_string();
            s.push_str(&string_from(text, from, i));
            s.push_str(" ");
            s.push_str(unit);
            s.push_str("前 (content)");
            Some(s)
        },
    }
}

fn hint_in_english(text: &Vec<char>, lower: &Vec<char>, unit: &str) -> (r: Option<String>)
    requires
        lower@ == small_text(text@),
    ensures
        opt_view(r) == english_hint(text@, unit@),
{
    let mut one = unit.to_string();
    one.push_str(" ago");
    let mut many = unit.to_string();
    many.push_str("s ago");
    let a = chars_of(&one);
    let b = chars_of(&many);
    let mut i: usize = 0;
    while i < lower.len()
        invariant
            i <= lower@.len(),
            lower@ == small_text(text@),
            a@ == unit@ + " ago"@,
            b@ == unit@ + "s ago"@,
            forall|j: int| 0 <= j < i ==> !ago_at(lower@, unit@, j),
        decreases lower@.len() - i,
    {
        if crate::text::stands_at(lower, &a, i) || crate::text::stands_at(lower, &b, i) {
            proof {
                assert(first_ago(lower@, unit@, i as int));
                let k = choose|k: int| first_ago(lower@, unit@, k);
                assert(k == i) by {
                    if k < i {
                        assert(ago_at(lower@, unit@, k));
                    } else if i < k {
                        assert(ago_at(lower@, unit@, i as int));
                    }
                }
            }
            let to: usize = find_spaces_start(text, i);
            let from: usize = find_digits_start(text, to);
            if from == to {
                return None;
            }
            let mut s = "relative_time=".to_string();
            s.push_str(&string_from(text, from, to));
            s.push_str(" ");
            s.push_str(unit);
            s.push_str(" ago (content)");
            return Some(s);
        }
        i = i + 1;
    }
    proof {
        reveal_strlit(" ago");
        reveal_strlit("s ago");
        assert forall|k: int| !first_ago(lower@, unit@, k) by {
            if first_ago(lower@, unit@, k) {
                assert(k < lower@.len());
                assert(ago_at(lower@, unit@, k));
            }
        }
    }
    None
}

fn is_epoch_at(v: &Vec<char>, i: usize) -> (r: bool)
    ensures
        r == epoch_at(v@, i as int),
{
    let total: usize = v.len();
    if total < 14 || i > total - 14 || v[i] != '=' {
        return false;
    }
    let mut k: usize = i + 1;
    while k < i + 14
        invariant
            i + 14 <= total == v@.len(),
            i < k <= i + 14,
            forall|j: int| i < j < k ==> is_digit(#[trigger] v@[j]),
        decreases i + 14 - k,
    {
        if !('0' <= v[k] && v[k] <= '9') {
            assert(!is_digit(v@[k as int]));
            return false;
        }
        k = k + 1;
    }
    true
}

fn value_of_digits(v: &Vec<char>, from: usize) -> (r: u64)
    requires
        from + 13 <= v@.len(),
        forall|k: int| from <= k < from + 13 ==> is_digit(#[trigger] v@[k]),
    ensures
        r == digits_value(v@.subrange(from as int, from + 13)),
        r < 10_000_000_000_000,
{
    let total: usize = v.len();
    let mut value: u64 = 0;
    let mut limit: u64 = 1;
    let mut i: usize = 0;
    while i < 13
        invariant
            i <= 13,
            from + 13 <= total == v@.len(),
            forall|k: int| from <= k < from + 13 ==> is_digit(#[trigger] v@[k]),
            value == digits_value(v@.subrange(from as int, from + i)),
            value < limit,
            limit == pow10(i as nat),
            limit <= 10_000_000_000_000,
        decreases 13 - i,
    {
        let c = v[from + i];
        assert(is_digit(v@[from + i]));
        let d: u64 = (c as u32 - 48) as u64;
        proof {
            assert(v@.subrange(from as int, from + i + 1).drop_last() =~= v@.subrange(
                from as int,
                from + i,
            ));
            lemma_pow10(i as nat);
        }
        value = 10 * value + d;
        limit = limit * 10;
        i = i + 1;
        assert(v@.subrange(from as int, from + i).last() == c);
    }
    value
}

spec fn pow10(n: nat) -> nat
    decreases n,
{
    if n == 0 {
        1
    } else {
        10 * pow10((n - 1) as nat)
    }
}

proof fn lemma_pow10(n: nat)
    ensures
        n <= 12 ==> pow10(n) <= 1_000_000_000_000,
    decreases n,
{
    reveal_with_fuel(pow10, 14);
    if n > 0 && n <= 12 {
        lemma_pow10((n - 1) as nat);
        lemma_pow10_grows(n, 12);
        assert(pow10(12) == 1_000_000_000_000);
    }
}

proof fn lemma_pow10_grows(n: nat, m: nat)
    requires
        n <= m,
    ensures
        1 <= pow10(n) <= pow10(m),
    decreases m,
{
    if m == 0 {
    } else if n == m {
        lemma_pow10_grows((n - 1) as nat, (m - 1) as nat);
    } else {
        lemma_pow10_grows(n, (m - 1) as nat);
    }
}

fn age_of_page(now: i64, ms: u64) -> (r: String)
    requires
        ms < 10_000_000_000_000,
    ensures
        r@ == page_age(now, ms as int),
{
    let past: u64 = if now > ms as i64 {
        (now - ms as i64) as u64
    } else {
        0
    };
    let days: u64 = past / 86_400_000;
    if days > 730 {
        let mut s = number(days / 365);
        s.push_str(" years");
        s
    } else if days > 60 {
        let mut s = number(days / 30);
        s.push_str(" months");
        s
    } else if days > 1 {
        let mut s = number(days);
        s.push_str(" days");
        s
    } else {
        let mut s = number(past / 3_600_000);
        s.push_str(" hours");
        s
    }
}

fn hint_of_epoch(v: &Vec<char>, now: i64) -> (r: Option<String>)
    ensures
        opt_view(r) == epoch_hint(v@, now),
{
    let mut i: usize = 0;
    while i < v.len()
        invariant
            i <= v@.len(),
            next_epoch(v@, i as int) == next_epoch(v@, 0),
        decreases v@.len() - i,
    {
        if is_epoch_at(v, i) {
            let ms: u64 = value_of_digits(v, i + 1);
            let mut s = "cache_param=".to_string();
            s.push_str(&number(ms));
            s.push_str(" (page ~");
            s.push_str(&age_of_page(now, ms));
            s.push_str(")");
            return Some(s);
        }
        i = i + 1;
    }
    None
}

/// What a page says of its own age, seen at `now`.
pub fn sniff_content_time_at(text: &str, url: &str, now: i64) -> (r: Option<String>)
    ensures
        opt_view(r) == content_hint(text@, url@, now),
{
    let v = chars_of(text);
    let lower = small_chars(text);
    let ghost cn = Seq::new(5, |i: int| chinese_hint(text@, chinese_units()[i]));
    let ghost en = Seq::new(5, |i: int| english_hint(text@, english_units()[i]));
    let cn_units: Vec<&str> = vec!["分钟", "小时", "天", "星期", "个月"];
    let en_units: Vec<&str> = vec!["minute", "hour", "day", "week", "month"];
    assert(views(cn_units@) =~= chinese_units());
    assert(views(en_units@) =~= english_units());
    let mut i: usize = 0;
    while i < cn_units.len()
        invariant
            i <= cn_units@.len() == 5,
            v@ == text@,
            views(cn_units@) == chinese_units(),
            cn == Seq::new(5, |i: int| chinese_hint(text@, chinese_units()[i])),
            first_hint(cn, i as int) == first_hint(cn, 0),
        decreases cn_units@.len() - i,
    {
        let h = hint_in_chinese(&v, cn_units[i]);
        assert(views(cn_units@)[i as int] == cn_units@[i as int]@);
        if h.is_some() {
            return h;
        }
        i = i + 1;
    }
    let mut j: usize = 0;
    while j < en_units.len()
        invariant
            j <= en_units@.len() == 5,
            v@ == text@,
            lower@ == small_text(text@),
            views(en_units@) == english_units(),
            en == Seq::new(5, |i: int| english_hint(text@, english_units()[i])),
            first_hint(en, j as int) == first_hint(en, 0),
            cn == Seq::new(5, |i: int| chinese_hint(text@, chinese_units()[i])),
            first_hint(cn, 0) is None,
        decreases en_units@.len() - j,
    {
        let h = hint_in_english(&v, &lower, en_units[j]);
        assert(views(en_units@)[j as int] == en_units@[j as int]@);
        if h.is_some() {
            return h;
        }
        j = j + 1;
    }
    let h = hint_of_epoch(&chars_of(url), now);
    if h.is_some() {
        return h;
    }
    hint_of_epoch(&v, now)
}

/// What a page says of its own age.
pub fn sniff_content_time(text: &str, url: &str) -> (r: Option<String>)
    ensures
        exists|now: i64|
            is_clock_time(now) && opt_view(r) == #[trigger] content_hint(text@, url@, now),
{
    let now: i64 = now_millis();
    sniff_content_time_at(text, url, now)
}

/// Page text above this many bytes is cut, to as many characters.
pub const MAX_PAGE_TEXT: usize = 8000;

/// The text of a page as far as it is shown.
pub open spec fn shown_page(html: Text) -> Text {
    let text = page_text(html);
    if byte_len(text) > MAX_PAGE_TEXT {
        head(text, MAX_PAGE_TEXT as int) + "..."@
    } else {
        text
    }
}

/// What the model reads of a page: its text, and what the page says of its age.
pub open spec fn fetched_text(html: Text, url: Text, now: i64) -> Text {
    let text = shown_page(html);
    match content_hint(text, url, now) {
        Some(h) => text + "\n[content_time_hint="@ + h + "]"@,
        None => text,
    }
}

/// What the model reads of a page, seen at `now`.
pub fn fetch_output_at(html: &str, url: &str, now: i64) -> (r: String)
    ensures
        r@ == fetched_text(html@, url@, now),
{
    let full = strip_html(html);
    let mut text = if size(&full) > MAX_PAGE_TEXT {
        let mut t = first_chars(&full, MAX_PAGE_TEXT);
        t.push_str("...");
        t
    } else {
        full
    };
    if let Some(h) = sniff_content_time_at(&text, url, now) {
        text.push_str("\n[content_time_hint=");
        text.push_str(&h);
        text.push_str("]");
    }
    text
}

/// What the model reads of a fetched page: decoded by its charset, without its
/// tags, cut where it is too long, and with what it says of its age.
pub fn fetch_output(content_type: &Option<String>, bytes: &[u8], url: &str) -> (r: String)
    ensures
        exists|now: i64|
            is_clock_time(now) && r@ == #[trigger] fetched_text(
                page_source(opt_view(*content_type), bytes@),
                url@,
                now,
            ),
{
    let html = decode_page(content_type, bytes);
    let now: i64 = now_millis();
    fetch_output_at(&html, url, now)
}

/// The first line of a text, or `otherwise`.
pub open spec fn first_line(t: Text, otherwise: Text) -> Text {
    let ls = lines_of(t);
    if ls.len() > 0 {
        ls[0]
    } else {
        otherwise
    }
}

/// A short summary of a tool's result for the user.
pub open spec fn result_summary(name: Text, t: Text) -> Text {
    let n = lines_of(t).len();
    if name == "read_file"@ {
        "Read "@ + decimal(n) + " lines ("@ + decimal(byte_len(t)) + " chars)"@
    } else if name == "write_file"@ || name == "edit_file"@ {
        first_line(t, "File updated"@)
    } else if name == "run_shell"@ {
        let preview = joined(first_parts(lines_of(t), 5), "\n"@);
        if n > 5 {
            preview + "\n... ("@ + decimal((n - 5) as nat) + " more lines)"@
        } else {
            preview
        }
    } else if name == "search_code"@ {
        "Found "@ + decimal(n) + " matches"@
    } else if name == "list_directory"@ {
        decimal(n) + " entries"@
    } else if name == "read_memory"@ || name == "write_memory"@ {
        first_line(t, "Memory updated"@)
    } else if name == "web_search"@ {
        "Search completed ("@ + decimal(byte_len(t)) + " chars)"@
    } else if name == "web_fetch"@ {
        "Fetched "@ + decimal(byte_len(t)) + " chars"@
    } else if byte_len(t) > 200 {
        head(t, 200) + "..."@
    } else {
        t
    }
}

fn line_or(ls: &Vec<String>, otherwise: &str) -> (r: String)
    ensures
        r@ == (if ls@.len() > 0 {
            views(ls@)[0]
        } else {
            otherwise@
        }),
{
    if ls.len() > 0 {
        ls[0].clone()
    } else {
        otherwise.to_string()
    }
}

/// A short summary of a tool's result for the user.
pub fn summarize_tool_result(name: &str, result: &str) -> (r: String)
    ensures
        r@ == result_summary(name@, result@),
{
    let ls = lines(result);
    let n: u64 = ls.len() as u64;
    let bytes: u64 = size(result) as u64;
    if text_eq(name, "read_file") {
        let mut s = "Read ".to_string();
        s.push_str(&number(n));
        s.push_str(" lines (");
        s.push_str(&number(bytes));
        s.push_str(" chars)");
        s
    } else if text_eq(name, "write_file") || text_eq(name, "edit_file") {
        line_or(&ls, "File updated")
    } else if text_eq(name, "run_shell") {
        let mut s = join_first(&ls, 5, "\n");
        if n > 5 {
            s.push_str("\n... (");
            s.push_str(&number(n - 5));
            s.push_str(" more lines)");
        }
        s
    } else if text_eq(name, "search_code") {
        let mut s = "Found ".to_string();
        s.push_str(&number(n));
        s.push_str(" matches");
        s
    } else if text_eq(name, "list_directory") {
        let mut s = number(n);
        s.push_str(" entries");
        s
    } else if text_eq(name, "read_memory") || text_eq(name, "write_memory") {
        line_or(&ls, "Memory updated")
    } else if text_eq(name, "web_search") {
        let mut s = "Search completed (".to_string();
        s.push_str(&number(bytes));
        s.push_str(" chars)");
        s
    } else if text_eq(name, "web_fetch") {
        let mut s = "Fetched ".to_string();
        s.push_str(&number(bytes));
        s.push_str(" chars");
        s
    } else if bytes > 200 {
        let mut s = first_chars(result, 200);
        s.push_str("...");
        s
    } else {
        result.to_string()
    }
}

/// Results above this many bytes are put into a file.
pub const LONG_OUTPUT_THRESHOLD: usize = 16_384;

/// The file for a long result, seen from the workspace.
pub open spec fn long_output_file(name: Text, id: Text) -> Text {
    ".deepseek-code/tmp/tool-"@ + replaced(name, " "@, "_"@) + "-"@ + id + ".txt"@
}

/// The last parts of a list.
pub open spec fn last_parts(parts: Seq<Text>, n: int) -> Seq<Text> {
    if parts.len() > n {
        parts.skip(parts.len() - n)
    } else {
        parts
    }
}

/// What the model reads in place of a long result: where it is, how large, and
/// its last 200 lines.
pub open spec fn long_output_note(content: Text, file: Text, kilobytes: Text) -> Text {
    "[Output too long — full result saved to "@ + file + " ("@ + kilobytes
        + " KB). Read the file for the complete output.]\n\n"@ + joined(
        last_parts(lines_of(content), 200),
        "\n"@,
    )
}

/// Whether a result is too long to be sent whole.
pub fn is_long_output(content: &str) -> (r: bool)
    ensures
        r == (byte_len(content@) > LONG_OUTPUT_THRESHOLD),
{
    size(content) > LONG_OUTPUT_THRESHOLD
}

/// The file for a long result, seen from the workspace.
pub fn long_output_path(name: &str, id: &str) -> (r: String)
    ensures
        r@ == long_output_file(name@, id@),
{
    let mut s = ".deepseek-code/tmp/tool-".to_string();
    s.push_str(&replace(name, " ", "_"));
    s.push_str("-");
    s.push_str(id);
    s.push_str(".txt");
    s
}

/// What the model reads in place of a long result. `kilobytes` is its size as
/// text.
pub fn long_output_text(content: &str, file: &str, kilobytes: &str) -> (r: String)
    ensures
        r@ == long_output_note(content@, file@, kilobytes@),
{
    let ls = lines(content);
    let from: usize = ls.len().saturating_sub(200);
    let mut s = "[Output too long — full result saved to ".to_string();
    s.push_str(file);
    s.push_str(" (");
    s.push_str(kilobytes);
    s.push_str(" KB). Read the file for the complete output.]\n\n");
    assert(views(ls@).subrange(from as int, ls@.len() as int) =~= last_parts(views(ls@), 200));
    s.push_str(&join(&ls, from, ls.len(), "\n"));
    s
}

} // verus!
