//! The streamed response: events are folded into content blocks as they arrive.

use crate::ids::{fresh_tool_id, id_or, is_synthetic_id, tool_id_or};
use crate::json::{
    array, empty_object, field, field_or_null, nat_at, or_empty, parse_json, parse_or, string,
    text_at, with_field, Json, JsonView, json_parse,
};
use crate::message::{BlockView, ContentBlock};
use crate::text::{
    begins, chars_of, join, joined, opt_view, stands_at, string_from, text_eq, trim, trimmed, views,
    Text,
};
use vstd::prelude::*;
use vstd::utf8::*;

verus! {

/// What a call costs, in tokens.
#[derive(Debug, Clone, Copy, PartialEq, Eq, Structural)]
pub struct Usage {
    pub input_tokens: u32,
    pub output_tokens: u32,
    pub cache_read_input_tokens: u32,
    pub cache_creation_input_tokens: u32,
}

pub open spec fn no_usage() -> Usage {
    Usage {
        input_tokens: 0,
        output_tokens: 0,
        cache_read_input_tokens: 0,
        cache_creation_input_tokens: 0,
    }
}

impl Default for Usage {
    fn default() -> (r: Usage)
        ensures
            r == no_usage(),
    {
        Usage {
            input_tokens: 0,
            output_tokens: 0,
            cache_read_input_tokens: 0,
            cache_creation_input_tokens: 0,
        }
    }
}

/// A piece of text or reasoning, handed on the moment it arrives.
#[derive(Debug)]
pub enum ApiStreamEvent {
    TextDelta { text: String },
    ThinkingDelta { text: String },
}

#[verifier::ext_equal]
pub enum DeltaView {
    TextDelta { text: Text },
    ThinkingDelta { text: Text },
}

impl View for ApiStreamEvent {
    type V = DeltaView;

    open spec fn view(&self) -> DeltaView {
        match *self {
            ApiStreamEvent::TextDelta { text } => DeltaView::TextDelta { text: text@ },
            ApiStreamEvent::ThinkingDelta { text } => DeltaView::ThinkingDelta { text: text@ },
        }
    }
}

/// A block that is still arriving.
#[allow(inconsistent_fields)]
#[derive(Debug)]
pub enum StreamBlockState {
    Text { text: String },
    Thinking { text: String, signature: Option<String> },
    ToolUse { id: String, name: String, json_buf: String },
    ServerToolUse { id: String, name: String, json_buf: String },
    WebSearchResult {
        tool_use_id: Option<String>,
        title: Option<String>,
        url: Option<String>,
        content: Json,
    },
}

#[verifier::ext_equal]
#[allow(inconsistent_fields)]
pub enum PartView {
    Text { text: Text },
    Thinking { text: Text, signature: Option<Text> },
    ToolUse { id: Text, name: Text, json_buf: Text },
    ServerToolUse { id: Text, name: Text, json_buf: Text },
    WebSearchResult {
        tool_use_id: Option<Text>,
        title: Option<Text>,
        url: Option<Text>,
        content: JsonView,
    },
}

impl View for StreamBlockState {
    type V = PartView;

    open spec fn view(&self) -> PartView {
        match *self {
            StreamBlockState::Text { text } => PartView::Text { text: text@ },
            StreamBlockState::Thinking { text, signature } => PartView::Thinking {
                text: text@,
                signature: opt_view(signature),
            },
            StreamBlockState::ToolUse { id, name, json_buf } => PartView::ToolUse {
                id: id@,
                name: name@,
                json_buf: json_buf@,
            },
            StreamBlockState::ServerToolUse { id, name, json_buf } => PartView::ServerToolUse {
                id: id@,
                name: name@,
                json_buf: json_buf@,
            },
            StreamBlockState::WebSearchResult { tool_use_id, title, url, content } => {
                PartView::WebSearchResult {
                    tool_use_id: opt_view(tool_use_id),
                    title: opt_view(title),
                    url: opt_view(url),
                    content: content@,
                }
            },
        }
    }
}

/// The input of a tool call: what its text says, or an empty object where that
/// is no JSON. The protocol refuses `null` here.
pub open spec fn partial_json(t: Text) -> JsonView {
    parse_or(t, JsonView::Object(Map::empty()))
}

/// The input of a tool call: what its text says, or an empty object where that
/// is no JSON.
pub fn parse_partial_json(s: &str) -> (r: Json)
    ensures
        r@ == partial_json(s@),
{
    match parse_json(s) {
        Ok(v) => v,
        Err(_) => empty_object(),
    }
}

/// Search content is a list of text blocks: `null` becomes an empty one, and a
/// plain string a list of one block.
pub open spec fn search_content(c: JsonView) -> JsonView {
    match c {
        JsonView::Null => JsonView::Array(Seq::empty()),
        JsonView::Str(s) => JsonView::Array(seq![text_block(s)]),
        other => other,
    }
}

pub fn normalize_search_content(content: Json) -> (r: Json)
    ensures
        r@ == search_content(content@),
{
    match content {
        Json::Null => {
            let none: Vec<Json> = Vec::new();
            let r = array(none);
            assert(r@->Array_0 =~= Seq::<JsonView>::empty());
            r
        },
        Json::Str(s) => {
            let mut one: Vec<Json> = Vec::new();
            one.push(json_text_block(s.as_str()));
            let r = array(one);
            assert(r@->Array_0 =~= seq![text_block(s@)]);
            r
        },
        other => other,
    }
}

/// The text block `{"type": "text", "text": chunk}`.
pub open spec fn text_block(chunk: Text) -> JsonView {
    JsonView::Object(
        Map::<Text, JsonView>::empty().insert("type"@, JsonView::Str("text"@)).insert(
            "text"@,
            JsonView::Str(chunk),
        ),
    )
}

pub fn json_text_block(chunk: &str) -> (r: Json)
    ensures
        r@ == text_block(chunk@),
{
    with_field(with_field(empty_object(), "type", string("text")), "text", string(chunk))
}

/// Search content with one more piece of text: joined to the last item where
/// that is a text, else as a text block of its own.
pub open spec fn search_text_appended(c: JsonView, chunk: Text) -> JsonView {
    match c {
        JsonView::Array(items) => JsonView::Array(
            if items.len() == 0 {
                items.push(text_block(chunk))
            } else {
                match items.last() {
                    JsonView::Str(s) => items.drop_last().push(JsonView::Str(s + chunk)),
                    JsonView::Object(m) => match text_at(items.last(), "text"@) {
                        Some(s) => items.drop_last().push(
                            JsonView::Object(m.insert("text"@, JsonView::Str(s + chunk))),
                        ),
                        None => items.push(text_block(chunk)),
                    },
                    _ => items.push(text_block(chunk)),
                }
            },
        ),
        JsonView::Str(s) => JsonView::Str(s + chunk),
        _ => JsonView::Str(chunk),
    }
}

pub fn append_web_search_text(content: Json, chunk: &str) -> (r: Json)
    ensures
        r@ == search_text_appended(content@, chunk@),
{
    match content {
        Json::Array(items) => {
            let mut items = items;
            let ghost was = views(items@);
            assert(content@->Array_0 =~= was);
            match items.pop() {
                None => {
                    items.push(json_text_block(chunk));
                    assert(views(items@) =~= was.push(text_block(chunk@)));
                },
                Some(Json::Str(s)) => {
                    let mut s = s;
                    assert(was.last() == JsonView::Str(s@));
                    s.push_str(chunk);
                    items.push(Json::Str(s));
                    assert(views(items@) =~= was.drop_last().push(JsonView::Str(s@)));
                },
                Some(Json::Object(fields)) => {
                    let last = Json::Object(fields);
                    assert(was.last() == last@);
                    let joined = match last.str_at("text") {
                        Some(s) => {
                            let mut t = s.to_string();
                            t.push_str(chunk);
                            Some(t)
                        },
                        None => None,
                    };
                    match joined {
                        Some(t) => {
                            let next = with_field(last, "text", Json::Str(t));
                            items.push(next);
                            assert(views(items@) =~= was.drop_last().push(next@));
                        },
                        None => {
                            items.push(last);
                            items.push(json_text_block(chunk));
                            assert(views(items@) =~= was.push(text_block(chunk@)));
                        },
                    }
                },
                Some(other) => {
                    assert(was.last() == other@);
                    items.push(other);
                    items.push(json_text_block(chunk));
                    assert(views(items@) =~= was.push(text_block(chunk@)));
                },
            }
            array(items)
        },
        Json::Str(s) => {
            let mut s = s;
            s.push_str(chunk);
            Json::Str(s)
        },
        _ => string(chunk),
    }
}

/// The finished block; a tool call without an identifier gets `fresh`.
pub open spec fn finished_block(p: PartView, fresh: Text) -> BlockView {
    match p {
        PartView::Text { text } => BlockView::Text { text },
        PartView::Thinking { text, signature } => BlockView::Thinking { thinking: text, signature },
        PartView::ToolUse { id, name, json_buf } => BlockView::ToolUse {
            id: tool_id_or(id, fresh),
            name,
            input: partial_json(json_buf),
        },
        PartView::ServerToolUse { id, name, json_buf } => BlockView::ServerToolUse {
            id: tool_id_or(id, fresh),
            name,
            input: partial_json(json_buf),
        },
        PartView::WebSearchResult { tool_use_id, title, url, content } => {
            BlockView::WebSearchResult {
                tool_use_id: or_empty(tool_use_id),
                title,
                url,
                content: search_content(content),
            }
        },
    }
}

impl StreamBlockState {
    /// The finished block; a tool call without an identifier gets `fresh`.
    pub fn into_content_block(self, fresh: &str) -> (r: ContentBlock)
        ensures
            r@ == finished_block(self@, fresh@),
    {
        match self {
            StreamBlockState::Text { text } => ContentBlock::Text { text },
            StreamBlockState::Thinking { text, signature } => ContentBlock::Thinking {
                thinking: text,
                signature,
            },
            StreamBlockState::ToolUse { id, name, json_buf } => ContentBlock::ToolUse {
                id: id_or(&id, fresh),
                name,
                input: parse_partial_json(&json_buf),
            },
            StreamBlockState::ServerToolUse { id, name, json_buf } => ContentBlock::ServerToolUse {
                id: id_or(&id, fresh),
                name,
                input: parse_partial_json(&json_buf),
            },
            StreamBlockState::WebSearchResult { tool_use_id, title, url, content } => {
                ContentBlock::WebSearchResult {
                    tool_use_id: match tool_use_id {
                        Some(t) => t,
                        None => String::new(),
                    },
                    title,
                    url,
                    content: normalize_search_content(content),
                }
            },
        }
    }
}

/// The state of one streamed response until it ends.
#[derive(Debug)]
pub struct StreamState {
    /// The `data:` lines of the event that is still arriving.
    pub data_lines: Vec<String>,
    /// The blocks that are still arriving, each with its index in the protocol.
    pub active: Vec<(usize, StreamBlockState)>,
    pub blocks: Vec<ContentBlock>,
    pub usage: Usage,
    pub stop_reason: String,
    pub error: Option<String>,
}

#[verifier::ext_equal]
pub struct StreamView {
    pub data_lines: Seq<Text>,
    pub active: Seq<(usize, PartView)>,
    pub blocks: Seq<BlockView>,
    pub usage: Usage,
    pub stop_reason: Text,
    pub error: Option<Text>,
}

pub open spec fn parts_view(a: Seq<(usize, StreamBlockState)>) -> Seq<(usize, PartView)> {
    Seq::new(a.len(), |i: int| (a[i].0, a[i].1@))
}

impl View for StreamState {
    type V = StreamView;

    open spec fn view(&self) -> StreamView {
        StreamView {
            data_lines: views(self.data_lines@),
            active: parts_view(self.active@),
            blocks: views(self.blocks@),
            usage: self.usage,
            stop_reason: self.stop_reason@,
            error: opt_view(self.error),
        }
    }
}

pub open spec fn fresh_stream() -> StreamView {
    StreamView {
        data_lines: Seq::empty(),
        active: Seq::empty(),
        blocks: Seq::empty(),
        usage: no_usage(),
        stop_reason: Seq::empty(),
        error: None,
    }
}

impl Default for StreamState {
    fn default() -> (r: StreamState)
        ensures
            r@ == fresh_stream(),
    {
        let r = StreamState {
            data_lines: Vec::new(),
            active: Vec::new(),
            blocks: Vec::new(),
            usage: Usage::default(),
            stop_reason: String::new(),
            error: None,
        };
        assert(r@ =~= fresh_stream());
        r
    }
}

/// The place of the first arriving block with this index, from `from` on; the
/// number of blocks where there is none.
pub open spec fn part_place(a: Seq<(usize, PartView)>, index: usize, from: int) -> int
    decreases a.len() - from,
{
    if from >= a.len() {
        a.len() as int
    } else if a[from].0 == index {
        from
    } else {
        part_place(a, index, from + 1)
    }
}

pub open spec fn nat_or_zero(n: Option<u64>) -> u64 {
    match n {
        Some(n) => n,
        None => 0,
    }
}

/// The block index of an event.
pub open spec fn event_index(v: JsonView) -> usize {
    nat_or_zero(nat_at(v, "index"@)) as usize
}

/// The tokens that a message starts with.
pub open spec fn started_usage(u: Usage, v: JsonView) -> Usage {
    match field(field_or_null(v, "message"@), "usage"@) {
        Some(c) => Usage {
            input_tokens: nat_or_zero(nat_at(c, "input_tokens"@)) as u32,
            cache_read_input_tokens: nat_or_zero(nat_at(c, "cache_read_input_tokens"@)) as u32,
            cache_creation_input_tokens: nat_or_zero(
                nat_at(c, "cache_creation_input_tokens"@),
            ) as u32,
            output_tokens: u.output_tokens,
        },
        None => u,
    }
}

/// The block that starts, if it is of a type that is collected.
pub open spec fn started_part(cb: JsonView) -> Option<PartView> {
    let t = or_empty(text_at(cb, "type"@));
    if t == "text"@ {
        Some(PartView::Text { text: Seq::empty() })
    } else if t == "thinking"@ {
        Some(PartView::Thinking { text: Seq::empty(), signature: None })
    } else if t == "tool_use"@ {
        Some(
            PartView::ToolUse {
                id: or_empty(text_at(cb, "id"@)),
                name: or_empty(text_at(cb, "name"@)),
                json_buf: Seq::empty(),
            },
        )
    } else if t == "server_tool_use"@ {
        Some(
            PartView::ServerToolUse {
                id: or_empty(text_at(cb, "id"@)),
                name: or_empty(text_at(cb, "name"@)),
                json_buf: Seq::empty(),
            },
        )
    } else if t == "web_search_tool_result"@ {
        Some(
            PartView::WebSearchResult {
                tool_use_id: text_at(cb, "tool_use_id"@),
                title: text_at(cb, "title"@),
                url: text_at(cb, "url"@),
                content: field_or_null(cb, "content"@),
            },
        )
    } else {
        None
    }
}

/// A block after one more piece of it has arrived.
pub open spec fn grown_part(p: PartView, d: JsonView) -> PartView {
    let t = or_empty(text_at(d, "type"@));
    match p {
        PartView::Text { text } => if t == "text_delta"@ {
            PartView::Text { text: text + or_empty(text_at(d, "text"@)) }
        } else {
            p
        },
        PartView::Thinking { text, signature } => if t == "thinking_delta"@ {
            PartView::Thinking { text: text + or_empty(text_at(d, "thinking"@)), signature }
        } else if t == "signature_delta"@ {
            match text_at(d, "signature"@) {
                Some(sig) => PartView::Thinking { text, signature: Some(sig) },
                None => p,
            }
        } else {
            p
        },
        PartView::ToolUse { id, name, json_buf } => if t == "input_json_delta"@ {
            PartView::ToolUse { id, name, json_buf: json_buf + or_empty(text_at(d, "partial_json"@)) }
        } else {
            p
        },
        PartView::ServerToolUse { id, name, json_buf } => if t == "input_json_delta"@ {
            PartView::ServerToolUse {
                id,
                name,
                json_buf: json_buf + or_empty(text_at(d, "partial_json"@)),
            }
        } else {
            p
        },
        PartView::WebSearchResult { tool_use_id, title, url, content } => {
            match text_at(d, "text"@) {
                Some(chunk) => if t == "text_delta"@ {
                    PartView::WebSearchResult {
                        tool_use_id,
                        title,
                        url,
                        content: search_text_appended(content, chunk),
                    }
                } else {
                    p
                },
                None => p,
            }
        },
    }
}

/// What is handed on at once when a piece of a block arrives.
pub open spec fn handed_on(p: PartView, d: JsonView) -> Seq<DeltaView> {
    let t = or_empty(text_at(d, "type"@));
    match p {
        PartView::Text { .. } => match text_at(d, "text"@) {
            Some(chunk) => if t == "text_delta"@ {
                seq![DeltaView::TextDelta { text: chunk }]
            } else {
                Seq::empty()
            },
            None => Seq::empty(),
        },
        PartView::Thinking { .. } => match text_at(d, "thinking"@) {
            Some(chunk) => if t == "thinking_delta"@ {
                seq![DeltaView::ThinkingDelta { text: chunk }]
            } else {
                Seq::empty()
            },
            None => Seq::empty(),
        },
        _ => Seq::empty(),
    }
}

/// The message of an error event.
pub open spec fn error_message(v: JsonView) -> Text {
    match text_at(field_or_null(v, "error"@), "message"@) {
        Some(m) => m,
        None => "Unknown stream error"@,
    }
}

/// The state after an event; a tool call that ends without an identifier gets
/// `fresh`.
pub open spec fn stepped(s: StreamView, v: JsonView, fresh: Text) -> StreamView {
    let t = or_empty(text_at(v, "type"@));
    if t == "message_start"@ {
        StreamView { usage: started_usage(s.usage, v), ..s }
    } else if t == "content_block_start"@ {
        match started_part(field_or_null(v, "content_block"@)) {
            Some(p) => StreamView { active: s.active.push((event_index(v), p)), ..s },
            None => s,
        }
    } else if t == "content_block_delta"@ {
        let at = part_place(s.active, event_index(v), 0);
        if at < s.active.len() {
            StreamView {
                active: s.active.update(
                    at,
                    (s.active[at].0, grown_part(s.active[at].1, field_or_null(v, "delta"@))),
                ),
                ..s
            }
        } else {
            s
        }
    } else if t == "content_block_stop"@ {
        let at = part_place(s.active, event_index(v), 0);
        if at < s.active.len() {
            StreamView {
                active: s.active.remove(at),
                blocks: s.blocks.push(finished_block(s.active[at].1, fresh)),
                ..s
            }
        } else {
            s
        }
    } else if t == "message_delta"@ {
        StreamView {
            stop_reason: match text_at(field_or_null(v, "delta"@), "stop_reason"@) {
                Some(r) => r,
                None => s.stop_reason,
            },
            usage: match nat_at(field_or_null(v, "usage"@), "output_tokens"@) {
                Some(n) => Usage { output_tokens: n as u32, ..s.usage },
                None => s.usage,
            },
            ..s
        }
    } else if t == "error"@ {
        StreamView { error: Some(error_message(v)), ..s }
    } else {
        s
    }
}

/// The pieces of text and reasoning that an event hands on at once.
pub open spec fn handed_on_by(s: StreamView, v: JsonView) -> Seq<DeltaView> {
    let at = part_place(s.active, event_index(v), 0);
    if or_empty(text_at(v, "type"@)) == "content_block_delta"@ && at < s.active.len() {
        handed_on(s.active[at].1, field_or_null(v, "delta"@))
    } else {
        Seq::empty()
    }
}

/// The part that starts, if it is of a type that is collected.
fn start_part(cb: &Json) -> (r: Option<StreamBlockState>)
    ensures
        opt_view(r) == started_part(cb@),
{
    let t = cb.string_at("type");
    if text_eq(&t, "text") {
        Some(StreamBlockState::Text { text: String::new() })
    } else if text_eq(&t, "thinking") {
        Some(StreamBlockState::Thinking { text: String::new(), signature: None })
    } else if text_eq(&t, "tool_use") {
        Some(
            StreamBlockState::ToolUse {
                id: cb.string_at("id"),
                name: cb.string_at("name"),
                json_buf: String::new(),
            },
        )
    } else if text_eq(&t, "server_tool_use") {
        Some(
            StreamBlockState::ServerToolUse {
                id: cb.string_at("id"),
                name: cb.string_at("name"),
                json_buf: String::new(),
            },
        )
    } else if text_eq(&t, "web_search_tool_result") {
        Some(
            StreamBlockState::WebSearchResult {
                tool_use_id: cb.opt_string_at("tool_use_id"),
                title: cb.opt_string_at("title"),
                url: cb.opt_string_at("url"),
                content: cb.value_at("content"),
            },
        )
    } else {
        None
    }
}

/// A block with one more piece of it, and what is handed on at once.
fn grow_part(p: StreamBlockState, d: &Json) -> (r: (StreamBlockState, Vec<ApiStreamEvent>))
    ensures
        r.0@ == grown_part(p@, d@),
        views(r.1@) == handed_on(p@, d@),
{
    let t = d.string_at("type");
    let mut out: Vec<ApiStreamEvent> = Vec::new();
    assert(views(out@) =~= Seq::<DeltaView>::empty());
    match p {
        StreamBlockState::Text { text } => {
            let mut text = text;
            if text_eq(&t, "text_delta") {
                let ghost was = text@;
                match d.str_at("text") {
                    Some(chunk) => {
                        text.push_str(chunk);
                        out.push(ApiStreamEvent::TextDelta { text: chunk.to_string() });
                        assert(views(out@) =~= seq![DeltaView::TextDelta { text: chunk@ }]);
                    },
                    None => {
                        assert(was + Seq::<char>::empty() =~= was);
                    },
                }
            }
            (StreamBlockState::Text { text }, out)
        },
        StreamBlockState::Thinking { text, signature } => {
            let mut text = text;
            let mut signature = signature;
            if text_eq(&t, "thinking_delta") {
                let ghost was = text@;
                match d.str_at("thinking") {
                    Some(chunk) => {
                        text.push_str(chunk);
                        out.push(ApiStreamEvent::ThinkingDelta { text: chunk.to_string() });
                        assert(views(out@) =~= seq![DeltaView::ThinkingDelta { text: chunk@ }]);
                    },
                    None => {
                        assert(was + Seq::<char>::empty() =~= was);
                    },
                }
            } else if text_eq(&t, "signature_delta") {
                if let Some(sig) = d.str_at("signature") {
                    signature = Some(sig.to_string());
                }
            }
            (StreamBlockState::Thinking { text, signature }, out)
        },
        StreamBlockState::ToolUse { id, name, json_buf } => {
            let mut json_buf = json_buf;
            if text_eq(&t, "input_json_delta") {
                json_buf.push_str(&d.string_at("partial_json"));
            }
            (StreamBlockState::ToolUse { id, name, json_buf }, out)
        },
        StreamBlockState::ServerToolUse { id, name, json_buf } => {
            let mut json_buf = json_buf;
            if text_eq(&t, "input_json_delta") {
                json_buf.push_str(&d.string_at("partial_json"));
            }
            (StreamBlockState::ServerToolUse { id, name, json_buf }, out)
        },
        StreamBlockState::WebSearchResult { tool_use_id, title, url, content } => {
            let mut content = content;
            if text_eq(&t, "text_delta") {
                if let Some(chunk) = d.str_at("text") {
                    content = append_web_search_text(content, chunk);
                }
            }
            (StreamBlockState::WebSearchResult { tool_use_id, title, url, content }, out)
        },
    }
}

impl StreamState {
    fn place_of(&self, index: usize) -> (r: usize)
        ensures
            r == part_place(self@.active, index, 0),
            r <= self@.active.len(),
    {
        let mut i: usize = 0;
        while i < self.active.len() && self.active[i].0 != index
            invariant
                i <= self.active@.len(),
                part_place(self@.active, index, i as int) == part_place(self@.active, index, 0),
            decreases self.active@.len() - i,
        {
            i = i + 1;
        }
        i
    }

    /// Folds one event into the state and returns what is to be handed on at
    /// once. `fresh` names a tool call that ends without an identifier.
    pub fn handle_value(&mut self, value: &Json, fresh: &str) -> (r: Vec<ApiStreamEvent>)
        ensures
            final(self)@ == stepped(old(self)@, value@, fresh@),
            views(r@) == handed_on_by(old(self)@, value@),
    {
        let t = value.string_at("type");
        let none: Vec<ApiStreamEvent> = Vec::new();
        let ghost was = self@;
        assert(views(none@) =~= Seq::<DeltaView>::empty());
        proof {
            types_of_events_differ();
        }
        if text_eq(&t, "message_start") {
            if let Some(m) = value.get("message") {
                if let Some(u) = m.get("usage") {
                    self.usage.input_tokens = or_zero(u.u64_at("input_tokens")) as u32;
                    self.usage.cache_read_input_tokens = or_zero(
                        u.u64_at("cache_read_input_tokens"),
                    ) as u32;
                    self.usage.cache_creation_input_tokens = or_zero(
                        u.u64_at("cache_creation_input_tokens"),
                    ) as u32;
                }
            }
            assert(self@ =~= stepped(was, value@, fresh@));
        } else if text_eq(&t, "content_block_start") {
            let index: usize = or_zero(value.u64_at("index")) as usize;
            let cb = value.value_at("content_block");
            if let Some(p) = start_part(&cb) {
                self.active.push((index, p));
            }
            assert(self@ =~= stepped(was, value@, fresh@));
        } else if text_eq(&t, "content_block_delta") {
            let index: usize = or_zero(value.u64_at("index")) as usize;
            let delta = value.value_at("delta");
            let at: usize = self.place_of(index);
            if at < self.active.len() {
                let (i, p) = self.active.remove(at);
                let (grown, out) = grow_part(p, &delta);
                self.active.insert(at, (i, grown));
                assert(self@ =~= stepped(was, value@, fresh@));
                return out;
            }
        } else if text_eq(&t, "content_block_stop") {
            let index: usize = or_zero(value.u64_at("index")) as usize;
            let at: usize = self.place_of(index);
            if at < self.active.len() {
                let (_, p) = self.active.remove(at);
                let block = p.into_content_block(fresh);
                self.blocks.push(block);
            }
            assert(self@ =~= stepped(was, value@, fresh@));
        } else if text_eq(&t, "message_delta") {
            if let Some(d) = value.get("delta") {
                if let Some(stop) = d.str_at("stop_reason") {
                    self.stop_reason = stop.to_string();
                }
            }
            if let Some(u) = value.get("usage") {
                if let Some(n) = u.u64_at("output_tokens") {
                    self.usage.output_tokens = n as u32;
                }
            }
            assert(self@ =~= stepped(was, value@, fresh@));
        } else if text_eq(&t, "error") {
            let e = value.value_at("error");
            let message = match e.str_at("message") {
                Some(m) => m.to_string(),
                None => "Unknown stream error".to_string(),
            };
            self.error = Some(message);
            assert(self@ =~= stepped(was, value@, fresh@));
        }
        none
    }
}

fn or_zero(n: Option<u64>) -> (r: u64)
    ensures
        r == nat_or_zero(n),
{
    match n {
        Some(n) => n,
        None => 0,
    }
}

/// The state after the event with this text. A text that is no JSON (a ping,
/// keep-alive noise) changes nothing.
pub open spec fn event_applied(s: StreamView, data: Text, fresh: Text) -> StreamView {
    match json_parse(data) {
        Ok(v) => stepped(s, v, fresh),
        Err(_) => s,
    }
}

pub open spec fn event_handed_on(s: StreamView, data: Text) -> Seq<DeltaView> {
    match json_parse(data) {
        Ok(v) => handed_on_by(s, v),
        Err(_) => Seq::empty(),
    }
}

/// The state after the collected `data:` lines have been taken as one event.
pub open spec fn flushed(s: StreamView, fresh: Text) -> StreamView {
    if s.data_lines.len() == 0 {
        s
    } else {
        event_applied(
            StreamView { data_lines: Seq::empty(), ..s },
            joined(s.data_lines, "\n"@),
            fresh,
        )
    }
}

pub open spec fn flush_handed_on(s: StreamView) -> Seq<DeltaView> {
    if s.data_lines.len() == 0 {
        Seq::empty()
    } else {
        event_handed_on(
            StreamView { data_lines: Seq::empty(), ..s },
            joined(s.data_lines, "\n"@),
        )
    }
}

/// A line without the carriage returns at its end.
pub open spec fn without_cr(line: Text) -> Text
    decreases line.len(),
{
    if line.len() > 0 && line.last() == '\r' {
        without_cr(line.drop_last())
    } else {
        line
    }
}

/// The state after one line of the stream: a blank line ends an event, a `data:`
/// line adds to it, any other is passed over.
pub open spec fn line_applied(s: StreamView, raw: Text, fresh: Text) -> StreamView {
    let line = without_cr(raw);
    if line.len() == 0 {
        flushed(s, fresh)
    } else if begins(line, "data:"@) {
        StreamView { data_lines: s.data_lines.push(trimmed(line.skip(5))), ..s }
    } else {
        s
    }
}

pub open spec fn line_handed_on(s: StreamView, raw: Text) -> Seq<DeltaView> {
    if without_cr(raw).len() == 0 {
        flush_handed_on(s)
    } else {
        Seq::empty()
    }
}

fn cr_stripped(raw: &str) -> (r: Vec<char>)
    ensures
        r@ == without_cr(raw@),
{
    let mut v = chars_of(raw);
    while v.len() > 0 && v[v.len() - 1] == '\r'
        invariant
            without_cr(v@) == without_cr(raw@),
        decreases v@.len(),
    {
        let ghost was = v@;
        v.pop();
        assert(v@ =~= was.drop_last());
    }
    v
}

impl StreamState {
    /// Takes the text of one event. `fresh` names a tool call that ends without
    /// an identifier.
    pub fn handle_event_with(&mut self, data: &str, fresh: &str) -> (r: Vec<ApiStreamEvent>)
        ensures
            final(self)@ == event_applied(old(self)@, data@, fresh@),
            views(r@) == event_handed_on(old(self)@, data@),
    {
        match parse_json(data) {
            Ok(v) => self.handle_value(&v, fresh),
            Err(_) => {
                let none: Vec<ApiStreamEvent> = Vec::new();
                assert(views(none@) =~= Seq::<DeltaView>::empty());
                none
            },
        }
    }

    /// Takes the text of one event and returns what is to be handed on at once.
    /// A tool call that ends without an identifier gets a fresh one.
    pub fn handle_event(&mut self, data: &str) -> (r: Vec<ApiStreamEvent>)
        ensures
            exists|fresh: Text|
                is_synthetic_id(fresh) && final(self)@ == #[trigger] event_applied(
                    old(self)@,
                    data@,
                    fresh,
                ),
            views(r@) == event_handed_on(old(self)@, data@),
    {
        let fresh = fresh_tool_id();
        self.handle_event_with(data, &fresh)
    }

    /// Takes the collected `data:` lines as one event.
    pub fn flush_event_with(&mut self, fresh: &str) -> (r: Vec<ApiStreamEvent>)
        ensures
            final(self)@ == flushed(old(self)@, fresh@),
            views(r@) == flush_handed_on(old(self)@),
    {
        if self.data_lines.len() == 0 {
            let none: Vec<ApiStreamEvent> = Vec::new();
            assert(views(none@) =~= Seq::<DeltaView>::empty());
            return none;
        }
        let ghost was = self@;
        let data = join(&self.data_lines, 0, self.data_lines.len(), "\n");
        assert(views(self.data_lines@).subrange(0, self.data_lines@.len() as int) =~= views(
            self.data_lines@,
        ));
        self.data_lines = Vec::new();
        assert(self@ =~= (StreamView { data_lines: Seq::empty(), ..was }));
        self.handle_event_with(&data, fresh)
    }

    /// Takes the collected `data:` lines as one event. A tool call that ends
    /// without an identifier gets a fresh one.
    pub fn flush_event(&mut self) -> (r: Vec<ApiStreamEvent>)
        ensures
            exists|fresh: Text|
                is_synthetic_id(fresh) && final(self)@ == #[trigger] flushed(old(self)@, fresh),
            views(r@) == flush_handed_on(old(self)@),
    {
        let fresh = fresh_tool_id();
        self.flush_event_with(&fresh)
    }

    /// Takes one line of the stream.
    pub fn handle_line(&mut self, raw: &str, fresh: &str) -> (r: Vec<ApiStreamEvent>)
        ensures
            final(self)@ == line_applied(old(self)@, raw@, fresh@),
            views(r@) == line_handed_on(old(self)@, raw@),
    {
        let ghost was = self@;
        let line = cr_stripped(raw);
        let none: Vec<ApiStreamEvent> = Vec::new();
        assert(views(none@) =~= Seq::<DeltaView>::empty());
        if line.len() == 0 {
            return self.flush_event_with(fresh);
        }
        let prefix = chars_of("data:");
        proof {
            reveal_strlit("data:");
        }
        if stands_at(&line, &prefix, 0) {
            let rest = string_from(&line, 5, line.len());
            assert(rest@ =~= line@.skip(5));
            let data = trim(&rest);
            self.data_lines.push(data);
            assert(self@ =~= line_applied(was, raw@, fresh@));
        }
        none
    }
}

/// The text that `String::from_utf8_lossy` makes of some bytes.
pub uninterp spec fn lossy_text(bytes: Seq<u8>) -> Seq<char>;

/// `String::from_utf8_lossy`: the text depends on the bytes alone; valid UTF-8 is
/// decoded as it stands, other bytes become replacement characters.
#[verifier::external_body]
fn read_lossy(bytes: &[u8]) -> (r: String)
    ensures
        r@ == lossy_text(bytes@),
        valid_utf8(bytes@) ==> r@ == decode_utf8(bytes@),
{
    String::from_utf8_lossy(bytes).into_owned()
}

/// The text of some bytes; what is no UTF-8 becomes replacement characters.
pub fn text_from_bytes(bytes: &[u8]) -> (r: String)
    ensures
        r@ == lossy_text(bytes@),
        valid_utf8(bytes@) ==> r@ == decode_utf8(bytes@),
{
    read_lossy(bytes)
}

/// The place of the first line feed at or after `from`, or the number of bytes.
pub open spec fn next_feed(bytes: Seq<u8>, from: int) -> int
    decreases bytes.len() - from,
{
    if from >= bytes.len() {
        bytes.len() as int
    } else if bytes[from] == 10 {
        from
    } else {
        next_feed(bytes, from + 1)
    }
}

/// The number of line feeds.
pub open spec fn feeds(bytes: Seq<u8>) -> nat
    decreases bytes.len(),
{
    if bytes.len() == 0 {
        0
    } else {
        feeds(bytes.skip(1)) + (if bytes[0] == 10 {
            1nat
        } else {
            0nat
        })
    }
}

/// What is there after some bytes have been taken: the state, the bytes of the
/// line that is not complete yet, and what has been handed on.
#[verifier::ext_equal]
pub struct FedView {
    pub state: StreamView,
    pub rest: Seq<u8>,
    pub out: Seq<DeltaView>,
}

/// Every complete line taken in order, the n-th with the n-th fresh identifier.
pub open spec fn drained(s: StreamView, buf: Seq<u8>, ids: Seq<Text>) -> FedView
    decreases buf.len(),
{
    let n = next_feed(buf, 0);
    if 0 <= n < buf.len() {
        let raw = lossy_text(buf.take(n));
        let then = drained(line_applied(s, raw, ids[0]), buf.skip(n + 1), ids.skip(1));
        FedView { out: line_handed_on(s, raw) + then.out, ..then }
    } else {
        FedView { state: s, rest: buf, out: Seq::empty() }
    }
}

pub open spec fn all_synthetic(ids: Seq<Text>) -> bool {
    forall|i: int| 0 <= i < ids.len() ==> is_synthetic_id(#[trigger] ids[i])
}

proof fn lemma_next_feed(b: Seq<u8>, from: int)
    requires
        0 <= from <= b.len(),
    ensures
        from <= next_feed(b, from) <= b.len(),
        next_feed(b, from) < b.len() ==> b[next_feed(b, from)] == 10,
        forall|i: int| from <= i < next_feed(b, from) ==> b[i] != 10,
    decreases b.len() - from,
{
    if from < b.len() && b[from] != 10 {
        lemma_next_feed(b, from + 1);
    }
}

/// The first line feed is the only place with that property.
proof fn lemma_next_feed_is(b: Seq<u8>, n: int)
    requires
        0 <= n <= b.len(),
        n < b.len() ==> b[n] == 10,
        forall|i: int| 0 <= i < n ==> b[i] != 10,
    ensures
        next_feed(b, 0) == n,
{
    lemma_next_feed(b, 0);
}

proof fn lemma_feeds_split(b: Seq<u8>)
    ensures
        ({
            let n = next_feed(b, 0);
            if n < b.len() {
                feeds(b) == 1 + feeds(b.skip(n + 1))
            } else {
                feeds(b) == 0
            }
        }),
    decreases b.len(),
{
    lemma_next_feed(b, 0);
    let n = next_feed(b, 0);
    if b.len() > 0 {
        let t = b.skip(1);
        if b[0] == 10 {
            assert(n == 0);
        } else {
            lemma_next_feed(t, 0);
            lemma_feeds_split(t);
            assert forall|i: int| 0 <= i < n - 1 implies t[i] != 10 by {
                assert(t[i] == b[i + 1]);
            }
            if n < b.len() {
                assert(t[n - 1] == b[n]);
            }
            lemma_next_feed_is(t, n - 1);
            if n < b.len() {
                assert(t.skip(n) =~= b.skip(n + 1));
            }
        }
    }
}

/// Reads a stream of server-sent events byte by byte, however it is cut into
/// pieces.
#[derive(Debug)]
pub struct SseReader {
    pub state: StreamState,
    /// The bytes of the line that is not complete yet.
    pub buf: Vec<u8>,
}

impl SseReader {
    pub fn new() -> (r: SseReader)
        ensures
            r.state@ == fresh_stream(),
            r.buf@.len() == 0,
    {
        SseReader { state: StreamState::default(), buf: Vec::new() }
    }

    /// Takes the next piece of the stream: every line that is complete now is
    /// handled in order, the rest waits for more.
    pub fn feed(&mut self, bytes: &[u8]) -> (r: Vec<ApiStreamEvent>)
        ensures
            exists|ids: Seq<Text>|
                all_synthetic(ids) && ids.len() == feeds(old(self).buf@ + bytes@) && (FedView {
                    state: final(self).state@,
                    rest: final(self).buf@,
                    out: views(r@),
                }) == #[trigger] drained(old(self).state@, old(self).buf@ + bytes@, ids),
    {
        let ghost s0 = self.state@;
        let ghost b0 = self.buf@ + bytes@;
        let ghost mut ids: Seq<Text> = Seq::empty();
        let mut out: Vec<ApiStreamEvent> = Vec::new();
        self.buf.extend_from_slice(bytes);
        assert(self.buf@ =~= b0);
        let mut all: Vec<u8> = Vec::new();
        std::mem::swap(&mut all, &mut self.buf);
        let mut start: usize = 0;
        let mut i: usize = 0;
        proof {
            assert(b0.skip(0) =~= b0);
            assert forall|x: Seq<Text>| #[trigger]
                drained(s0, b0, ids + x) == after(views(out@), drained(s0, b0.skip(0), x)) by {
                assert(ids + x =~= x);
                assert(views(out@) + drained(s0, b0, x).out =~= drained(s0, b0, x).out);
            }
        }
        while i < all.len()
            invariant
                all@ == b0,
                start <= i <= all@.len(),
                forall|j: int| start <= j < i ==> all@[j] != 10,
                all_synthetic(ids),
                ids.len() + feeds(b0.skip(start as int)) == feeds(b0),
                forall|x: Seq<Text>| #[trigger]
                    drained(s0, b0, ids + x) == after(
                        views(out@),
                        drained(self.state@, b0.skip(start as int), x),
                    ),
            decreases all@.len() - i,
        {
            if all[i] == 10 {
                let ghost here = self.state@;
                let ghost rest = b0.skip(start as int);
                let ghost done = views(out@);
                let ghost named = ids;
                let raw = text_from_bytes(vstd::slice::slice_subrange(all.as_slice(), start, i));
                let fresh = fresh_tool_id();
                let mut more = self.state.handle_line(&raw, &fresh);
                proof {
                    assert(all@.subrange(start as int, i as int) =~= rest.take(i - start));
                    lemma_next_feed_is(rest, i - start);
                    lemma_feeds_split(rest);
                    assert(rest.skip(i - start + 1) =~= b0.skip(i + 1));
                    ids = named.push(fresh@);
                }
                let ghost new = views(more@);
                let ghost before_out = out@;
                let ghost before_more = more@;
                out.append(&mut more);
                assert(views(out@) =~= done + new);
                proof {
                    assert forall|x: Seq<Text>| #[trigger]
                        drained(s0, b0, ids + x) == after(
                            views(out@),
                            drained(self.state@, b0.skip(i + 1), x),
                        ) by {
                        let y = seq![fresh@] + x;
                        assert(ids + x =~= named + y);
                        assert(y[0] == fresh@);
                        assert(y.skip(1) =~= x);
                        let d = drained(here, rest, y);
                        let e = drained(self.state@, b0.skip(i + 1), x);
                        assert(d == after(new, e));
                        assert(done + (new + e.out) =~= (done + new) + e.out);
                    }
                }
                start = i + 1;
            }
            i = i + 1;
        }
        proof {
            let rest = b0.skip(start as int);
            assert forall|j: int| 0 <= j < rest.len() implies rest[j] != 10 by {
                assert(rest[j] == b0[start + j]);
            }
            lemma_next_feed_is(rest, rest.len() as int);
            lemma_feeds_split(rest);
            let none = Seq::<Text>::empty();
            assert(ids + none =~= ids);
            assert(drained(s0, b0, ids + none) == after(views(out@), drained(self.state@, rest, none)));
            assert(views(out@) + Seq::<DeltaView>::empty() =~= views(out@));
        }
        self.buf = vstd::slice::slice_to_vec(
            vstd::slice::slice_subrange(all.as_slice(), start, all.len()),
        );
        assert(self.buf@ =~= b0.skip(start as int));
        out
    }
}

/// What is there when `out` had been handed on before.
pub open spec fn after(out: Seq<DeltaView>, f: FedView) -> FedView {
    FedView { out: out + f.out, ..f }
}

/// How the stream is cut into pieces does not matter: taking one piece and then
/// the next leads to the same state, the same remainder and the same pieces
/// handed on as taking both at once.
pub proof fn pieces_do_not_matter(
    s: StreamView,
    a: Seq<u8>,
    b: Seq<u8>,
    first: Seq<Text>,
    second: Seq<Text>,
)
    requires
        first.len() == feeds(a),
    ensures
        drained(s, a + b, first + second) == after(
            drained(s, a, first).out,
            drained(drained(s, a, first).state, drained(s, a, first).rest + b, second),
        ),
    decreases a.len(),
{
    let n = next_feed(a, 0);
    lemma_next_feed(a, 0);
    lemma_feeds_split(a);
    if n < a.len() {
        let raw = lossy_text(a.take(n));
        let s1 = line_applied(s, raw, first[0]);
        assert forall|i: int| 0 <= i < n implies (a + b)[i] != 10 by {
            assert((a + b)[i] == a[i]);
        }
        assert((a + b)[n] == a[n]);
        lemma_next_feed_is(a + b, n);
        assert((a + b).take(n) =~= a.take(n));
        assert((a + b).skip(n + 1) =~= a.skip(n + 1) + b);
        assert((first + second)[0] == first[0]);
        assert((first + second).skip(1) =~= first.skip(1) + second);
        pieces_do_not_matter(s1, a.skip(n + 1), b, first.skip(1), second);
        let d1 = drained(s1, a.skip(n + 1), first.skip(1));
        let whole = drained(s, a + b, first + second);
        let tail = drained(d1.state, d1.rest + b, second);
        assert(line_handed_on(s, raw) + (d1.out + tail.out) =~= (line_handed_on(s, raw) + d1.out)
            + tail.out);
    } else {
        assert(first + second =~= second);
        let t = drained(s, a + b, second);
        assert(Seq::<DeltaView>::empty() + t.out =~= t.out);
    }
}

/// The text that some pieces hold.
pub open spec fn delta_text(ds: Seq<DeltaView>) -> Text
    decreases ds.len(),
{
    if ds.len() == 0 {
        Seq::empty()
    } else {
        delta_text(ds.drop_last()) + (match ds.last() {
            DeltaView::TextDelta { text } => text,
            DeltaView::ThinkingDelta { .. } => Seq::empty(),
        })
    }
}

/// The reasoning that some pieces hold.
pub open spec fn delta_thinking(ds: Seq<DeltaView>) -> Text
    decreases ds.len(),
{
    if ds.len() == 0 {
        Seq::empty()
    } else {
        delta_thinking(ds.drop_last()) + (match ds.last() {
            DeltaView::TextDelta { .. } => Seq::empty(),
            DeltaView::ThinkingDelta { text } => text,
        })
    }
}

/// The state after some events, each the text of one.
pub open spec fn after_events(datas: Seq<Text>, fresh: Seq<Text>) -> StreamView
    decreases datas.len(),
{
    if datas.len() == 0 {
        fresh_stream()
    } else {
        event_applied(
            after_events(datas.drop_last(), fresh),
            datas.last(),
            fresh[datas.len() - 1],
        )
    }
}

/// Whether an event starts a block under this index.
pub open spec fn starts_block(v: JsonView, index: usize) -> bool {
    &&& or_empty(text_at(v, "type"@)) == "content_block_start"@
    &&& event_index(v) == index
    &&& started_part(field_or_null(v, "content_block"@)) is Some
}

/// The pieces that some events have handed on for the block that was started last
/// under an index.
pub open spec fn pieces_for(datas: Seq<Text>, fresh: Seq<Text>, index: usize) -> Seq<DeltaView>
    decreases datas.len(),
{
    if datas.len() == 0 {
        Seq::empty()
    } else {
        let before = pieces_for(datas.drop_last(), fresh, index);
        match json_parse(datas.last()) {
            Ok(v) => if starts_block(v, index) {
                Seq::empty()
            } else if event_index(v) == index {
                before + handed_on_by(after_events(datas.drop_last(), fresh), v)
            } else {
                before
            },
            Err(_) => before,
        }
    }
}

/// Whether no two arriving blocks share an index.
pub open spec fn one_each(a: Seq<(usize, PartView)>) -> bool {
    forall|i: int, j: int| 0 <= i < j < a.len() ==> (#[trigger] a[i]).0 != (#[trigger] a[j]).0
}

/// Whether no two arriving blocks ever share an index.
pub open spec fn indices_differ(datas: Seq<Text>, fresh: Seq<Text>) -> bool {
    forall|n: int|
        0 <= n <= datas.len() ==> one_each(after_events(#[trigger] datas.take(n), fresh).active)
}

/// Whether a block that is arriving holds just these pieces; one that is neither text
/// nor reasoning hands on none.
pub open spec fn part_holds(p: PartView, ds: Seq<DeltaView>) -> bool {
    match p {
        PartView::Text { text } => delta_text(ds) == text && delta_thinking(ds).len() == 0,
        PartView::Thinking { text, .. } => delta_thinking(ds) == text && delta_text(ds).len() == 0,
        _ => ds.len() == 0,
    }
}

/// Whether a finished block holds just these pieces.
pub open spec fn block_holds(b: BlockView, ds: Seq<DeltaView>) -> bool {
    match b {
        BlockView::Text { text } => delta_text(ds) == text && delta_thinking(ds).len() == 0,
        BlockView::Thinking { thinking, .. } => delta_thinking(ds) == thinking && delta_text(
            ds,
        ).len() == 0,
        _ => ds.len() == 0,
    }
}

proof fn lemma_part_place(a: Seq<(usize, PartView)>, index: usize, from: int)
    requires
        0 <= from <= a.len(),
    ensures
        from <= part_place(a, index, from) <= a.len(),
        part_place(a, index, from) < a.len() ==> a[part_place(a, index, from)].0 == index,
    decreases a.len() - from,
{
    if from < a.len() && a[from].0 != index {
        lemma_part_place(a, index, from + 1);
    }
}

proof fn lemma_grown_holds(p: PartView, d: JsonView, ds: Seq<DeltaView>)
    requires
        part_holds(p, ds),
    ensures
        part_holds(grown_part(p, d), ds + handed_on(p, d)),
{
    let more = handed_on(p, d);
    let all = ds + more;
    if more.len() == 0 {
        assert(all =~= ds);
        assert(delta_text(ds) + Seq::<char>::empty() =~= delta_text(ds));
        assert(delta_thinking(ds) + Seq::<char>::empty() =~= delta_thinking(ds));
    } else {
        assert(all.drop_last() =~= ds);
        assert(all.last() == more[0]);
    }
}

proof fn lemma_parts_hold(datas: Seq<Text>, fresh: Seq<Text>)
    requires
        indices_differ(datas, fresh),
    ensures
        forall|i: int|
            0 <= i < after_events(datas, fresh).active.len() ==> part_holds(
                (#[trigger] after_events(datas, fresh).active[i]).1,
                pieces_for(datas, fresh, after_events(datas, fresh).active[i].0),
            ),
    decreases datas.len(),
{
    if datas.len() > 0 {
        let b = datas.drop_last();
        let s = after_events(b, fresh);
        let n = after_events(datas, fresh);
        assert forall|k: int| 0 <= k <= b.len() implies one_each(
            after_events(#[trigger] b.take(k), fresh).active,
        ) by {
            assert(b.take(k) =~= datas.take(k));
        }
        lemma_parts_hold(b, fresh);
        assert(datas.take(b.len() as int) =~= b);
        assert(datas.take(datas.len() as int) =~= datas);
        assert(one_each(s.active) && one_each(n.active));
        if let Ok(v) = json_parse(datas.last()) {
            let at = part_place(s.active, event_index(v), 0);
            lemma_part_place(s.active, event_index(v), 0);
            types_of_events_differ();
            assert forall|i: int| 0 <= i < n.active.len() implies part_holds(
                (#[trigger] n.active[i]).1,
                pieces_for(datas, fresh, n.active[i].0),
            ) by {
                lemma_part_kept(s, v, fresh[datas.len() - 1], datas, fresh, i);
            }
        }
    }
}

proof fn types_of_events_differ()
    ensures
        "content_block_start"@ != "content_block_delta"@,
        "content_block_start"@ != "content_block_stop"@,
        "content_block_delta"@ != "content_block_stop"@,
        "content_block_start"@ != "message_start"@,
        "content_block_delta"@ != "message_start"@,
        "content_block_stop"@ != "message_start"@,
{
    reveal_strlit("content_block_start");
    reveal_strlit("content_block_delta");
    reveal_strlit("content_block_stop");
    reveal_strlit("message_start");
    assert("content_block_start"@[14] == 's');
    assert("content_block_delta"@[14] == 'd');
    assert("content_block_stop"@.len() == 18);
    assert("content_block_start"@.len() == 19);
    assert("content_block_delta"@.len() == 19);
    assert("message_start"@.len() == 13);
}

/// One event keeps what one arriving block holds.
proof fn lemma_part_kept(
    s: StreamView,
    v: JsonView,
    id: Text,
    datas: Seq<Text>,
    fresh: Seq<Text>,
    i: int,
)
    requires
        datas.len() > 0,
        s == after_events(datas.drop_last(), fresh),
        json_parse(datas.last()) == Ok::<JsonView, Text>(v),
        one_each(s.active),
        one_each(stepped(s, v, id).active),
        0 <= i < stepped(s, v, id).active.len(),
        forall|j: int|
            0 <= j < s.active.len() ==> part_holds(
                (#[trigger] s.active[j]).1,
                pieces_for(datas.drop_last(), fresh, s.active[j].0),
            ),
    ensures
        part_holds(
            stepped(s, v, id).active[i].1,
            pieces_for(datas, fresh, stepped(s, v, id).active[i].0),
        ),
{
    let n = stepped(s, v, id);
    let t = or_empty(text_at(v, "type"@));
    let at = part_place(s.active, event_index(v), 0);
    let index = n.active[i].0;
    let before = pieces_for(datas.drop_last(), fresh, index);
    lemma_part_place(s.active, event_index(v), 0);
    types_of_events_differ();
    assert(before + Seq::<DeltaView>::empty() =~= before);
    if t == "content_block_start"@ {
        if starts_block(v, event_index(v)) && i == s.active.len() {
            assert(delta_text(Seq::empty()) =~= Seq::<char>::empty());
        } else {
            assert(n.active[i] == s.active[i]);
            if starts_block(v, event_index(v)) {
                assert(n.active[s.active.len() as int].0 == event_index(v));
            }
        }
    } else if t == "content_block_delta"@ {
        if i == at {
            lemma_grown_holds(s.active[at].1, field_or_null(v, "delta"@), before);
        } else {
            assert(n.active[i] == s.active[i]);
            if at < s.active.len() {
                assert(s.active[at].0 != s.active[i].0);
            }
        }
    } else if t == "content_block_stop"@ && at < s.active.len() {
        let j = if i < at {
            i
        } else {
            i + 1
        };
        assert(n.active[i] == s.active[j]);
    } else {
        assert(n.active[i] == s.active[i]);
    }
}

/// A block that ends holds exactly the pieces that were handed on for it while it
/// arrived, in order: a text block the text, a reasoning block the reasoning; for
/// other blocks nothing was handed on.
pub proof fn blocks_hold_their_pieces(datas: Seq<Text>, fresh: Seq<Text>, v: JsonView, id: Text)
    requires
        indices_differ(datas, fresh),
        or_empty(text_at(v, "type"@)) == "content_block_stop"@,
    ensures
        ({
            let s = after_events(datas, fresh);
            let at = part_place(s.active, event_index(v), 0);
            if at < s.active.len() {
                let b = finished_block(s.active[at].1, id);
                &&& stepped(s, v, id).blocks == s.blocks.push(b)
                &&& block_holds(b, pieces_for(datas, fresh, event_index(v)))
            } else {
                stepped(s, v, id) == s
            }
        }),
{
    let s = after_events(datas, fresh);
    lemma_parts_hold(datas, fresh);
    lemma_part_place(s.active, event_index(v), 0);
    types_of_events_differ();
}

/// An event that is no JSON changes nothing and hands nothing on.
pub proof fn noise_changes_nothing(s: StreamView, data: Text, id: Text)
    requires
        json_parse(data) is Err,
    ensures
        event_applied(s, data, id) == s,
        event_handed_on(s, data).len() == 0,
{
}

} // verus!
