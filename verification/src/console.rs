//! Running one prompt through the runtime from the command line: how the
//! arguments are read and what is printed of each frame.

use crate::driver::{or_else, DEFAULT_HARNESS_REPO, PACKAGED_BIN, SOURCE_BIN};
use crate::harness::{FrameView, HarnessFrame, NOTIFY_SESSION_EVENT};
use crate::json::{
    field_or_null, json_parse, json_string, json_text, or_empty, parse_json, text_at, Json,
    JsonView,
};
use crate::paths::{join_path, path_joined};
use crate::table::{entry, TextTable};
use crate::text::{
    begins, blank, chars_of, decimal, first_chars, head, is_blank, number, opt_view, starts_with,
    string_from, text_eq, views, Text,
};
use vstd::prelude::*;

verus! {

/// The options after the arguments from `i` on: `--flag value` sets an option, and
/// the first other argument is the prompt unless there is one already.
pub open spec fn options_from(args: Seq<Text>, i: int, have: Map<Text, Text>) -> Map<Text, Text>
    decreases args.len() + 1 - i,
{
    if i < 0 || i >= args.len() {
        have
    } else if begins(args[i], "--"@) {
        let value = if i + 1 < args.len() {
            args[i + 1]
        } else {
            Seq::empty()
        };
        options_from(args, i + 2, have.insert(args[i].skip(2), value))
    } else if have.contains_key("prompt"@) {
        options_from(args, i + 1, have)
    } else {
        options_from(args, i + 1, have.insert("prompt"@, args[i]))
    }
}

/// The options that the arguments set.
pub fn read_args(args: &Vec<String>) -> (r: TextTable)
    ensures
        r@ == options_from(views(args@), 0, Map::empty()),
{
    let mut have = TextTable::new();
    let total: usize = args.len();
    let mut i: usize = 0;
    while i < total
        invariant
            total == args@.len(),
            options_from(views(args@), i as int, have@) == options_from(
                views(args@),
                0,
                Map::empty(),
            ),
        decreases total - i,
    {
        assert(views(args@)[i as int] == args@[i as int]@);
        if starts_with(&args[i], "--") {
            let v = chars_of(&args[i]);
            proof {
                reveal_strlit("--");
                assert("--"@.len() == 2);
            }
            let flag = string_from(&v, 2, v.len());
            assert(flag@ =~= views(args@)[i as int].skip(2));
            if total - i > 1 {
                assert(views(args@)[i + 1] == args@[i + 1]@);
                have.insert(&flag, &args[i + 1]);
                i = i + 2;
            } else {
                have.insert(&flag, "");
                proof {
                    reveal_strlit("");
                    assert(""@ =~= Seq::<char>::empty());
                    assert(options_from(views(args@), i + 2, have@) == have@);
                }
                i = total;
            }
        } else {
            if have.get("prompt").is_none() {
                have.insert("prompt", &args[i]);
            }
            i = i + 1;
        }
    }
    have
}

/// What is run.
#[derive(Debug)]
pub struct RunOptions {
    pub prompt: String,
    pub model: String,
    pub effort: String,
    pub workspace: String,
    pub session: String,
    pub repo: String,
}

/// What is run, from the options: `None` without a prompt.
pub fn run_options(options: &TextTable) -> (r: Option<RunOptions>)
    ensures
        r is Some <==> options@.contains_key("prompt"@),
        match r {
            Some(o) => {
                &&& o.prompt@ == options@["prompt"@]
                &&& o.model@ == or_else(entry(options@, "model"@), "deepseek-v4-flash"@)
                &&& o.effort@ == or_else(entry(options@, "effort"@), "high"@)
                &&& o.workspace@ == or_else(entry(options@, "workspace"@), "/tmp"@)
                &&& o.session@ == or_else(entry(options@, "session"@), "main"@)
                &&& o.repo@ == or_else(entry(options@, "repo"@), DEFAULT_HARNESS_REPO@)
            },
            None => true,
        },
{
    match options.get("prompt") {
        Some(prompt) => Some(
            RunOptions {
                prompt,
                model: options.get_or("model", "deepseek-v4-flash"),
                effort: options.get_or("effort", "high"),
                workspace: options.get_or("workspace", "/tmp"),
                session: options.get_or("session", "main"),
                repo: options.get_or("repo", DEFAULT_HARNESS_REPO),
            },
        ),
        None => None,
    }
}

/// Where the runtime is, where its configuration is, with what it is started and
/// where: packaged in the given directory, or else in the sources.
pub open spec fn run_launch_of(runtime: Option<Text>, repo: Text) -> (
    Text,
    Text,
    Seq<Text>,
    Text,
) {
    match runtime {
        Some(rt) => (
            path_joined(rt, PACKAGED_BIN@),
            path_joined(rt, "cordis.yml"@),
            Seq::empty(),
            rt,
        ),
        None => (
            path_joined(repo, SOURCE_BIN@),
            path_joined(path_joined(repo, RUN_CONFIG_DIR@), "cordis.yml"@),
            seq!["--import"@, "tsx"@],
            repo,
        ),
    }
}

/// Where the configuration is put in the sources.
pub const RUN_CONFIG_DIR: &'static str = "examples/whale-run";

/// Where the runtime is, where its configuration is, with what it is started and
/// where.
pub fn run_launch(runtime: Option<String>, repo: &str) -> (r: (
    String,
    String,
    Vec<String>,
    String,
))
    ensures
        (r.0@, r.1@, views(r.2@), r.3@) == run_launch_of(opt_view(runtime), repo@),
{
    let mut node_args: Vec<String> = Vec::new();
    assert(views(node_args@) =~= Seq::<Text>::empty());
    match runtime {
        Some(rt) => (
            join_path(&rt, PACKAGED_BIN),
            join_path(&rt, "cordis.yml"),
            node_args,
            rt,
        ),
        None => {
            node_args.push("--import".to_string());
            node_args.push("tsx".to_string());
            assert(views(node_args@) =~= seq!["--import"@, "tsx"@]);
            (
                join_path(repo, SOURCE_BIN),
                join_path(&join_path(repo, RUN_CONFIG_DIR), "cordis.yml"),
                node_args,
                repo.to_string(),
            )
        },
    }
}

/// A text that is there and not empty.
pub open spec fn given(t: Option<Text>) -> bool {
    t is Some && t->Some_0.len() > 0
}

/// The key of the API: from the command line, or else from the program variable, or
/// else from the settings.
pub open spec fn key_from(cli: Option<Text>, env: Option<Text>, settings: Option<Text>) -> Text {
    if given(cli) {
        cli->Some_0
    } else if given(env) {
        env->Some_0
    } else {
        match settings {
            Some(raw) => match json_parse(raw) {
                Ok(v) => or_empty(text_at(v, "api_key"@)),
                Err(_) => Seq::empty(),
            },
            None => Seq::empty(),
        }
    }
}

/// The key of the API, or an empty text.
pub fn read_key(cli: Option<String>, env: Option<String>, settings: Option<String>) -> (r: String)
    ensures
        r@ == key_from(opt_view(cli), opt_view(env), opt_view(settings)),
{
    if let Some(k) = cli {
        if !k.as_str().is_empty() {
            return k;
        }
    }
    if let Some(k) = env {
        if !k.as_str().is_empty() {
            return k;
        }
    }
    if let Some(raw) = settings {
        if let Ok(v) = parse_json(&raw) {
            return v.string_at("api_key");
        }
    }
    String::new()
}

/// A value for a reader: texts without quotes, and nothing for `null`.
pub open spec fn displayed(v: JsonView) -> Text {
    match v {
        JsonView::Str(s) => s,
        JsonView::Null => Seq::empty(),
        other => json_text(other),
    }
}

/// A value for a reader.
pub fn display(v: &Json) -> (r: String)
    ensures
        r@ == displayed(v@),
{
    match v {
        Json::Str(s) => s.clone(),
        Json::Null => String::new(),
        other => json_string(other),
    }
}

/// What is printed, and whether it is part of the answer or only said beside it.
#[derive(Debug)]
pub enum Printed {
    Answer { text: String },
    Aside { text: String },
}

#[verifier::ext_equal]
#[allow(inconsistent_fields)]
pub enum PrintedView {
    Answer { text: Text },
    Aside { text: Text },
}

impl View for Printed {
    type V = PrintedView;

    open spec fn view(&self) -> PrintedView {
        match *self {
            Printed::Answer { text } => PrintedView::Answer { text: text@ },
            Printed::Aside { text } => PrintedView::Aside { text: text@ },
        }
    }
}

pub const GREY: &'static str = "\x1b[90m";

pub const PLAIN: &'static str = "\x1b[0m";

/// The line on the tokens that were used.
pub open spec fn usage_line(u: JsonView) -> Text {
    "\n[usage] in="@ + displayed(field_or_null(u, "inputTokens"@)) + " out="@ + displayed(
        field_or_null(u, "outputTokens"@),
    ) + " cache="@ + displayed(field_or_null(u, "cacheReadTokens"@)) + " reasoning="@ + displayed(
        field_or_null(u, "reasoningTokens"@),
    ) + "\n"@
}

/// What is printed of a piece of the assistant's message.
pub open spec fn printed_chunk(chunk: JsonView) -> Option<PrintedView> {
    let kind = text_at(chunk, "type"@);
    if kind == Some("text-delta"@) {
        match text_at(chunk, "text"@) {
            Some(text) => Some(PrintedView::Answer { text }),
            None => None,
        }
    } else if kind == Some("reasoning-delta"@) {
        match text_at(chunk, "text"@) {
            Some(text) => Some(PrintedView::Aside { text: GREY@ + text + PLAIN@ }),
            None => None,
        }
    } else if kind == Some("block-end"@) {
        let block = field_or_null(chunk, "block"@);
        match text_at(block, "text"@) {
            Some(text) => if text_at(block, "type"@) == Some("text"@) && !is_blank(text) {
                Some(PrintedView::Answer { text })
            } else {
                None
            },
            None => None,
        }
    } else if kind == Some("usage"@) {
        Some(PrintedView::Aside { text: usage_line(field_or_null(chunk, "usage"@)) })
    } else {
        None
    }
}

fn print_usage(u: &Json) -> (r: String)
    ensures
        r@ == usage_line(u@),
{
    let mut s = "\n[usage] in=".to_string();
    s.push_str(&display(&u.value_at("inputTokens")));
    s.push_str(" out=");
    s.push_str(&display(&u.value_at("outputTokens")));
    s.push_str(" cache=");
    s.push_str(&display(&u.value_at("cacheReadTokens")));
    s.push_str(" reasoning=");
    s.push_str(&display(&u.value_at("reasoningTokens")));
    s.push_str("\n");
    s
}

/// What is printed of a piece of the assistant's message.
pub fn render_chunk(chunk: &Json) -> (r: Option<Printed>)
    ensures
        opt_view(r) == printed_chunk(chunk@),
{
    if chunk.has_type("text-delta") {
        match chunk.opt_string_at("text") {
            Some(text) => Some(Printed::Answer { text }),
            None => None,
        }
    } else if chunk.has_type("reasoning-delta") {
        match chunk.str_at("text") {
            Some(t) => {
                let mut text = GREY.to_string();
                text.push_str(t);
                text.push_str(PLAIN);
                Some(Printed::Aside { text })
            },
            None => None,
        }
    } else if chunk.has_type("block-end") {
        let block = chunk.value_at("block");
        match block.opt_string_at("text") {
            Some(text) => if block.has_type("text") && !blank(&text) {
                Some(Printed::Answer { text })
            } else {
                None
            },
            None => None,
        }
    } else if chunk.has_type("usage") {
        Some(Printed::Aside { text: print_usage(&chunk.value_at("usage")) })
    } else {
        None
    }
}

/// What is printed of an event of a session.
pub open spec fn printed_event(params: JsonView) -> Option<PrintedView> {
    let event = field_or_null(params, "event"@);
    let data = field_or_null(event, "data"@);
    let kind = text_at(event, "type"@);
    if kind == Some("assistant/chunk"@) {
        printed_chunk(field_or_null(data, "chunk"@))
    } else if kind == Some("tool/call"@) {
        Some(
            PrintedView::Aside {
                text: "\n[tool] "@ + or_empty(text_at(data, "name"@)) + " "@ + or_empty(
                    text_at(data, "arguments"@),
                ) + "\n"@,
            },
        )
    } else if kind == Some("tool/result"@) {
        Some(
            PrintedView::Aside {
                text: "\n[tool-result] "@ + head(json_text(data), 260) + "\n"@,
            },
        )
    } else if kind == Some("turn/end"@) {
        Some(
            PrintedView::Aside {
                text: "\n[turn/end] "@ + or_empty(text_at(data, "reason"@)) + "\n"@,
            },
        )
    } else {
        None
    }
}

/// What is printed of an event of a session.
pub fn render_event(params: &Json) -> (r: Option<Printed>)
    ensures
        opt_view(r) == printed_event(params@),
{
    let event = params.value_at("event");
    let data = event.value_at("data");
    if event.has_type("assistant/chunk") {
        render_chunk(&data.value_at("chunk"))
    } else if event.has_type("tool/call") {
        let mut text = "\n[tool] ".to_string();
        text.push_str(&data.string_at("name"));
        text.push_str(" ");
        text.push_str(&data.string_at("arguments"));
        text.push_str("\n");
        Some(Printed::Aside { text })
    } else if event.has_type("tool/result") {
        let mut text = "\n[tool-result] ".to_string();
        text.push_str(&first_chars(&json_string(&data), 260));
        text.push_str("\n");
        Some(Printed::Aside { text })
    } else if event.has_type("turn/end") {
        let mut text = "\n[turn/end] ".to_string();
        text.push_str(&data.string_at("reason"));
        text.push_str("\n");
        Some(Printed::Aside { text })
    } else {
        None
    }
}

/// What is printed of a frame.
pub open spec fn printed_frame(f: FrameView) -> Option<PrintedView> {
    match f {
        FrameView::Response { id, result, error } => Some(
            PrintedView::Aside {
                text: match error {
                    Some(e) => "\n[rpc error] id="@ + decimal(id as nat) + " "@ + json_text(e)
                        + "\n"@,
                    None => "\n[rpc ok] id="@ + decimal(id as nat) + " "@ + json_text(result)
                        + "\n"@,
                },
            },
        ),
        FrameView::Notification { method, params } => if method == NOTIFY_SESSION_EVENT@ {
            printed_event(params)
        } else {
            None
        },
    }
}

/// Whether a frame is the last one that matters: a request failed, or the turn is
/// over.
pub open spec fn is_last_frame(f: FrameView) -> bool {
    match f {
        FrameView::Response { error, .. } => error is Some,
        FrameView::Notification { method, params } => method == NOTIFY_SESSION_EVENT@ && text_at(
            field_or_null(params, "event"@),
            "type"@,
        ) == Some("turn/end"@),
    }
}

/// What is printed of a frame, and whether it is the last one that matters.
pub fn render_frame(frame: &HarnessFrame) -> (r: (Option<Printed>, bool))
    ensures
        opt_view(r.0) == printed_frame(frame@),
        r.1 == is_last_frame(frame@),
{
    match frame {
        HarnessFrame::Response { id, result, error } => {
            let mut text = String::new();
            let failed = error.is_some();
            match error {
                Some(e) => {
                    text = "\n[rpc error] id=".to_string();
                    text.push_str(&number(*id));
                    text.push_str(" ");
                    text.push_str(&json_string(e));
                },
                None => {
                    text = "\n[rpc ok] id=".to_string();
                    text.push_str(&number(*id));
                    text.push_str(" ");
                    text.push_str(&json_string(result));
                },
            }
            text.push_str("\n");
            (Some(Printed::Aside { text }), failed)
        },
        HarnessFrame::Notification { method, params } => {
            if text_eq(method, NOTIFY_SESSION_EVENT) {
                (render_event(params), params.value_at("event").has_type("turn/end"))
            } else {
                (None, false)
            }
        },
    }
}

} // verus!
