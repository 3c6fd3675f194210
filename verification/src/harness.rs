//! The wire format of the Harness runtime: JSON-RPC 2.0, one frame per line.

use crate::json::{
    agrees, array, empty_object, field, field_or_null, json_parse, json_string, json_text, nat_at,
    parse_json, readable, reads_as, string, text_at, with_field, Json, JsonView, READ_DEPTH,
};
use crate::stream::{json_text_block, text_block as text_block_view};
use crate::text::{blank, is_blank, opt_view, text_eq, views, Text};
use vstd::prelude::*;

verus! {

/// What the runtime is told at the start.
#[derive(Debug)]
pub struct InitializeParams {
    pub cwd: String,
    pub provider: String,
    pub model: String,
    pub max_tokens: Option<u32>,
}

/// What the runtime is told of the start, as it is sent.
pub open spec fn initialize_json(p: InitializeParams) -> JsonView {
    let a = Map::<Text, JsonView>::empty().insert("cwd"@, JsonView::Str(p.cwd@)).insert(
        "provider"@,
        JsonView::Str(p.provider@),
    ).insert("model"@, JsonView::Str(p.model@));
    JsonView::Object(
        match p.max_tokens {
            Some(n) => a.insert("maxTokens"@, JsonView::Int(n as int)),
            None => a,
        },
    )
}

impl InitializeParams {
    /// The parameters as they are sent.
    pub fn to_json(&self) -> (r: Json)
        ensures
            r@ == initialize_json(*self),
    {
        let a = with_field(
            with_field(
                with_field(empty_object(), "cwd", string(&self.cwd)),
                "provider",
                string(&self.provider),
            ),
            "model",
            string(&self.model),
        );
        match self.max_tokens {
            Some(n) => with_field(a, "maxTokens", Json::PosInt(n as u64)),
            None => a,
        }
    }
}

/// One message of the user to a session.
#[derive(Debug)]
pub struct SessionPromptParams {
    pub session_id: String,
    pub content_blocks: Vec<Json>,
}

/// One message of the user, as it is sent.
pub open spec fn prompt_json(session_id: Text, blocks: Seq<JsonView>) -> JsonView {
    JsonView::Object(
        Map::<Text, JsonView>::empty().insert("sessionId"@, JsonView::Str(session_id)).insert(
            "contentBlocks"@,
            JsonView::Array(blocks),
        ),
    )
}

impl SessionPromptParams {
    /// The parameters as they are sent.
    pub fn to_json(self) -> (r: Json)
        ensures
            r@ == prompt_json(self.session_id@, views(self.content_blocks@)),
    {
        with_field(
            with_field(empty_object(), "sessionId", string(&self.session_id)),
            "contentBlocks",
            array(self.content_blocks),
        )
    }
}

/// A frame from the runtime: the reply to a request, or a notification.
#[derive(Debug)]
pub enum HarnessFrame {
    Response { id: u64, result: Json, error: Option<Json> },
    Notification { method: String, params: Json },
}

#[verifier::ext_equal]
pub enum FrameView {
    Response { id: u64, result: JsonView, error: Option<JsonView> },
    Notification { method: Text, params: JsonView },
}

impl View for HarnessFrame {
    type V = FrameView;

    open spec fn view(&self) -> FrameView {
        match *self {
            HarnessFrame::Response { id, result, error } => FrameView::Response {
                id,
                result: result@,
                error: opt_view(error),
            },
            HarnessFrame::Notification { method, params } => FrameView::Notification {
                method: method@,
                params: params@,
            },
        }
    }
}

pub const NOTIFY_SESSION_EVENT: &'static str = "session.event";

pub const NOTIFY_SESSION_STATUS: &'static str = "session.status";

pub const NOTIFY_SUBAGENT_STARTED: &'static str = "subagent.started";

pub const NOTIFY_SUBAGENT_FINISHED: &'static str = "subagent.finished";

/// A text block of a prompt.
pub fn text_block(text: &str) -> (r: Json)
    ensures
        r@ == text_block_view(text@),
{
    json_text_block(text)
}

/// A prompt that holds one text.
pub fn text_prompt(session_id: &str, text: &str) -> (r: SessionPromptParams)
    ensures
        r.session_id@ == session_id@,
        views(r.content_blocks@) == seq![text_block_view(text@)],
{
    let mut blocks: Vec<Json> = Vec::new();
    blocks.push(text_block(text));
    assert(views(blocks@) =~= seq![text_block_view(text@)]);
    SessionPromptParams { session_id: session_id.to_string(), content_blocks: blocks }
}

/// A request.
pub open spec fn request_json(id: u64, method: Text, params: JsonView) -> JsonView {
    JsonView::Object(
        Map::<Text, JsonView>::empty().insert("jsonrpc"@, JsonView::Str("2.0"@)).insert(
            "id"@,
            JsonView::Int(id as int),
        ).insert("method"@, JsonView::Str(method)).insert("params"@, params),
    )
}

/// A request nests one level deeper than its parameters.
proof fn lemma_request_readable(id: u64, method: Text, params: JsonView, depth: nat)
    requires
        readable(params, depth),
    ensures
        readable(request_json(id, method, params), depth + 1),
{
    let m = request_json(id, method, params)->Object_0;
    assert forall|k: Text| #[trigger] m.contains_key(k) implies readable(m[k], depth) by {
        if k != "params"@ && k != "method"@ && k != "id"@ {
            assert(k == "jsonrpc"@);
        }
    }
}

/// A request as one line, with a line feed at its end and nowhere else. It reads back
/// as the request, but for fractional numbers and where it nests too deep to be read,
/// and holds no frame for the side that sent it.
pub fn encode_request(id: u64, method: &str, params: Json) -> (r: String)
    ensures
        r@ == json_text(request_json(id, method@, params@)).push('\n'),
        forall|i: int| 0 <= i < r@.len() - 1 ==> r@[i] != '\n',
        readable(params@, (READ_DEPTH - 1) as nat) ==> reads_as(
            r@.drop_last(),
            request_json(id, method@, params@),
        ),
        readable(params@, (READ_DEPTH - 1) as nat) ==> reads_as(
            r@,
            request_json(id, method@, params@),
        ),
        json_parse(r@) matches Ok(v) ==> agrees(
            v,
            request_json(id, method@, params@),
            READ_DEPTH as nat,
        ),
        frame_in(r@) is None,
{
    let ghost p = params@;
    let request = with_field(
        with_field(
            with_field(
                with_field(empty_object(), "jsonrpc", string("2.0")),
                "id",
                Json::PosInt(id),
            ),
            "method",
            string(method),
        ),
        "params",
        params,
    );
    let mut line = json_string(&request);
    let ghost text = line@;
    proof {
        if readable(p, (READ_DEPTH - 1) as nat) {
            lemma_request_readable(id, method@, p, (READ_DEPTH - 1) as nat);
        }
        assert forall|i: int| 0 <= i < text.len() implies text[i] != '\n' by {
            if text[i] == '\n' {
                assert(text.contains('\n'));
            }
        }
    }
    line.push('\n');
    assert(line@.drop_last() =~= text);
    proof {
        if let Ok(v) = json_parse(line@) {
            requests_are_no_frames(id, method@, p, v);
        }
    }
    line
}

/// The frame that a value is, if it is one.
pub open spec fn frame_of(v: JsonView) -> Option<FrameView> {
    if text_at(v, "jsonrpc"@) != Some("2.0"@) {
        None
    } else {
        match nat_at(v, "id"@) {
            Some(id) => if field(v, "result"@) is Some || field(v, "error"@) is Some {
                Some(
                    FrameView::Response {
                        id,
                        result: field_or_null(v, "result"@),
                        error: field(v, "error"@),
                    },
                )
            } else {
                None
            },
            None => match text_at(v, "method"@) {
                Some(method) => Some(
                    FrameView::Notification { method, params: field_or_null(v, "params"@) },
                ),
                None => None,
            },
        }
    }
}

/// The frame that a line holds; other lines are passed over.
pub open spec fn frame_in(line: Text) -> Option<FrameView> {
    match json_parse(line) {
        Ok(v) => frame_of(v),
        Err(_) => None,
    }
}

/// The frame that a value is, if it is one.
pub fn frame_from(v: &Json) -> (r: Option<HarnessFrame>)
    ensures
        opt_view(r) == frame_of(v@),
{
    match v.str_at("jsonrpc") {
        Some(version) => {
            if !text_eq(version, "2.0") {
                return None;
            }
        },
        None => {
            return None;
        },
    }
    match v.u64_at("id") {
        Some(id) => {
            let error = match v.get("error") {
                Some(e) => Some(e.clone()),
                None => None,
            };
            if v.get("result").is_some() || error.is_some() {
                Some(HarnessFrame::Response { id, result: v.value_at("result"), error })
            } else {
                None
            }
        },
        None => match v.str_at("method") {
            Some(method) => Some(
                HarnessFrame::Notification {
                    method: method.to_string(),
                    params: v.value_at("params"),
                },
            ),
            None => None,
        },
    }
}

/// The frame that a line holds; other lines are passed over.
pub fn parse_line(line: &str) -> (r: Option<HarnessFrame>)
    ensures
        opt_view(r) == frame_in(line@),
{
    match parse_json(line) {
        Ok(v) => frame_from(&v),
        Err(_) => None,
    }
}

/// The frame that a line from the runtime brings; blank lines bring none.
pub fn receive_line(line: &str) -> (r: Option<HarnessFrame>)
    ensures
        opt_view(r) == (if is_blank(line@) {
            None
        } else {
            frame_in(line@)
        }),
{
    if blank(line) {
        None
    } else {
        parse_line(line)
    }
}

/// The session that a notification is about: for a subagent, its own session.
pub open spec fn session_of(f: FrameView) -> Option<Text> {
    match f {
        FrameView::Notification { method, params } => if method == NOTIFY_SESSION_EVENT@ || method
            == NOTIFY_SESSION_STATUS@ {
            text_at(params, "sessionId"@)
        } else if method == NOTIFY_SUBAGENT_STARTED@ || method == NOTIFY_SUBAGENT_FINISHED@ {
            text_at(params, "childSessionId"@)
        } else {
            None
        },
        FrameView::Response { .. } => None,
    }
}

/// The session that a notification is about.
pub fn notification_session_id(frame: &HarnessFrame) -> (r: Option<&str>)
    ensures
        match r {
            Some(s) => session_of(frame@) == Some(s@),
            None => session_of(frame@) is None,
        },
{
    match frame {
        HarnessFrame::Notification { method, params } => {
            if text_eq(method, NOTIFY_SESSION_EVENT) || text_eq(method, NOTIFY_SESSION_STATUS) {
                params.str_at("sessionId")
            } else if text_eq(method, NOTIFY_SUBAGENT_STARTED) || text_eq(
                method,
                NOTIFY_SUBAGENT_FINISHED,
            ) {
                params.str_at("childSessionId")
            } else {
                None
            }
        },
        HarnessFrame::Response { .. } => None,
    }
}

/// The requests to a runtime, which are numbered.
#[derive(Debug)]
pub struct HarnessProcess {
    pub next_id: u64,
}

impl HarnessProcess {
    pub fn new() -> (r: HarnessProcess)
        ensures
            r.next_id == 0,
    {
        HarnessProcess { next_id: 0 }
    }

    /// The number of the next request; after the last one comes 0 again.
    pub fn take_id(&mut self) -> (r: u64)
        ensures
            r == old(self).next_id,
            final(self).next_id == (if old(self).next_id == u64::MAX {
                0
            } else {
                (old(self).next_id + 1) as u64
            }),
    {
        let id: u64 = self.next_id;
        self.next_id = self.next_id.wrapping_add(1);
        id
    }

    /// The line of the next request, and its number.
    pub fn write_request(&mut self, method: &str, params: Json) -> (r: (u64, String))
        ensures
            r.0 == old(self).next_id,
            final(self).next_id == (if old(self).next_id == u64::MAX {
                0
            } else {
                (old(self).next_id + 1) as u64
            }),
            r.1@ == json_text(request_json(r.0, method@, params@)).push('\n'),
            frame_in(r.1@) is None,
    {
        let id: u64 = self.take_id();
        let line = encode_request(id, method, params);
        (id, line)
    }

    /// The request that opens a runtime.
    pub fn initialize(&mut self, params: &InitializeParams) -> (r: (u64, String))
        ensures
            r.0 == old(self).next_id,
            final(self).next_id == (if old(self).next_id == u64::MAX {
                0
            } else {
                (old(self).next_id + 1) as u64
            }),
            r.1@ == json_text(request_json(r.0, "initialize"@, initialize_json(*params))).push(
                '\n',
            ),
    {
        self.write_request("initialize", params.to_json())
    }

    /// The request for one turn.
    pub fn prompt(&mut self, params: SessionPromptParams) -> (r: (u64, String))
        ensures
            r.0 == old(self).next_id,
            final(self).next_id == (if old(self).next_id == u64::MAX {
                0
            } else {
                (old(self).next_id + 1) as u64
            }),
            r.1@ == json_text(
                request_json(
                    r.0,
                    "session/prompt"@,
                    prompt_json(params.session_id@, views(params.content_blocks@)),
                ),
            ).push('\n'),
    {
        self.write_request("session/prompt", params.to_json())
    }

    /// The request to end a runtime.
    pub fn shutdown(&mut self) -> (r: (u64, String))
        ensures
            r.0 == old(self).next_id,
            final(self).next_id == (if old(self).next_id == u64::MAX {
                0
            } else {
                (old(self).next_id + 1) as u64
            }),
            r.1@ == json_text(
                request_json(r.0, "shutdown"@, JsonView::Object(Map::empty())),
            ).push('\n'),
    {
        self.write_request("shutdown", empty_object())
    }
}

/// A request is no frame for the side that sent it, nor is what comes of reading it
/// back: it has a number but neither a result nor an error.
pub proof fn requests_are_no_frames(id: u64, method: Text, params: JsonView, v: JsonView)
    requires
        agrees(v, request_json(id, method, params), READ_DEPTH as nat),
    ensures
        frame_of(v) is None,
        frame_of(request_json(id, method, params)) is None,
{
    let r = request_json(id, method, params);
    let m = r->Object_0;
    reveal_strlit("jsonrpc");
    reveal_strlit("id");
    reveal_strlit("method");
    reveal_strlit("params");
    reveal_strlit("result");
    reveal_strlit("error");
    assert("jsonrpc"@.len() == 7);
    assert("id"@.len() == 2);
    assert("method"@.len() == 6 && "params"@.len() == 6 && "result"@.len() == 6);
    assert("method"@[0] == 'm' && "params"@[0] == 'p' && "result"@[0] == 'r');
    assert("error"@.len() == 5);
    assert(!m.contains_key("result"@) && !m.contains_key("error"@));
    assert(nat_at(r, "id"@) == Some(id));
    assert(m.contains_key("id"@));
    assert(v->Object_0.contains_key("id"@));
    assert(agrees(v->Object_0["id"@], m["id"@], (READ_DEPTH - 1) as nat));
    assert(nat_at(v, "id"@) == Some(id));
    assert(field(v, "result"@) is None);
    assert(field(v, "error"@) is None);
}

} // verus!
