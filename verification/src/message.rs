//! Conversation messages and their content blocks, in the shape of the
//! Anthropic Messages protocol.

use crate::json::{Json, JsonView};
use crate::text::{lemma_views_push, opt_view, views, Text};
use vstd::prelude::*;

verus! {

/// Who speaks in a message.
#[derive(Debug, Clone, Copy, PartialEq, Eq, Structural)]
pub enum Role {
    User,
    Assistant,
}

/// The name of a role.
pub open spec fn role_text(r: Role) -> Text {
    match r {
        Role::User => "user"@,
        Role::Assistant => "assistant"@,
    }
}

/// One block of a message's content.
#[allow(inconsistent_fields)]
#[derive(Debug)]
pub enum ContentBlock {
    Text { text: String },
    ToolUse { id: String, name: String, input: Json },
    ToolResult { tool_use_id: String, content: String },
    /// A result of the server-side web search. `tool_use_id` pairs it with the
    /// matching `ServerToolUse` block.
    WebSearchResult { tool_use_id: String, title: Option<String>, url: Option<String>, content: Json },
    /// A tool that the server runs by itself (web search).
    ServerToolUse { id: String, name: String, input: Json },
    /// Reasoning, with the signature that a replay of it needs.
    Thinking { thinking: String, signature: Option<String> },
    RedactedThinking { data: String },
    /// A block of a type that is not known here.
    Unknown,
}

#[verifier::ext_equal]
#[allow(inconsistent_fields)]
pub enum BlockView {
    Text { text: Text },
    ToolUse { id: Text, name: Text, input: JsonView },
    ToolResult { tool_use_id: Text, content: Text },
    WebSearchResult { tool_use_id: Text, title: Option<Text>, url: Option<Text>, content: JsonView },
    ServerToolUse { id: Text, name: Text, input: JsonView },
    Thinking { thinking: Text, signature: Option<Text> },
    RedactedThinking { data: Text },
    Unknown,
}

impl View for ContentBlock {
    type V = BlockView;

    open spec fn view(&self) -> BlockView {
        match *self {
            ContentBlock::Text { text } => BlockView::Text { text: text@ },
            ContentBlock::ToolUse { id, name, input } => BlockView::ToolUse {
                id: id@,
                name: name@,
                input: input@,
            },
            ContentBlock::ToolResult { tool_use_id, content } => BlockView::ToolResult {
                tool_use_id: tool_use_id@,
                content: content@,
            },
            ContentBlock::WebSearchResult { tool_use_id, title, url, content } => {
                BlockView::WebSearchResult {
                    tool_use_id: tool_use_id@,
                    title: opt_view(title),
                    url: opt_view(url),
                    content: content@,
                }
            },
            ContentBlock::ServerToolUse { id, name, input } => BlockView::ServerToolUse {
                id: id@,
                name: name@,
                input: input@,
            },
            ContentBlock::Thinking { thinking, signature } => BlockView::Thinking {
                thinking: thinking@,
                signature: opt_view(signature),
            },
            ContentBlock::RedactedThinking { data } => BlockView::RedactedThinking { data: data@ },
            ContentBlock::Unknown => BlockView::Unknown,
        }
    }
}

/// A copy of an optional text.
pub fn copy_opt(o: &Option<String>) -> (r: Option<String>)
    ensures
        opt_view(r) == opt_view(*o),
{
    match o {
        Some(s) => Some(s.clone()),
        None => None,
    }
}

impl Clone for ContentBlock {
    fn clone(&self) -> (r: ContentBlock)
        ensures
            r@ == self@,
    {
        match self {
            ContentBlock::Text { text } => ContentBlock::Text { text: text.clone() },
            ContentBlock::ToolUse { id, name, input } => ContentBlock::ToolUse {
                id: id.clone(),
                name: name.clone(),
                input: input.clone(),
            },
            ContentBlock::ToolResult { tool_use_id, content } => ContentBlock::ToolResult {
                tool_use_id: tool_use_id.clone(),
                content: content.clone(),
            },
            ContentBlock::WebSearchResult { tool_use_id, title, url, content } => {
                ContentBlock::WebSearchResult {
                    tool_use_id: tool_use_id.clone(),
                    title: copy_opt(title),
                    url: copy_opt(url),
                    content: content.clone(),
                }
            },
            ContentBlock::ServerToolUse { id, name, input } => ContentBlock::ServerToolUse {
                id: id.clone(),
                name: name.clone(),
                input: input.clone(),
            },
            ContentBlock::Thinking { thinking, signature } => ContentBlock::Thinking {
                thinking: thinking.clone(),
                signature: copy_opt(signature),
            },
            ContentBlock::RedactedThinking { data } => ContentBlock::RedactedThinking {
                data: data.clone(),
            },
            ContentBlock::Unknown => ContentBlock::Unknown,
        }
    }
}

/// What a message says: plain text, or a list of blocks.
#[derive(Debug)]
pub enum Content {
    Text(String),
    Blocks(Vec<ContentBlock>),
}

#[verifier::ext_equal]
pub enum ContentView {
    Text(Text),
    Blocks(Seq<BlockView>),
}

impl View for Content {
    type V = ContentView;

    open spec fn view(&self) -> ContentView {
        match *self {
            Content::Text(t) => ContentView::Text(t@),
            Content::Blocks(bs) => ContentView::Blocks(views(bs@)),
        }
    }
}

/// Copies of the blocks, in order.
pub fn copy_blocks(blocks: &Vec<ContentBlock>) -> (r: Vec<ContentBlock>)
    ensures
        views(r@) == views(blocks@),
{
    let mut out: Vec<ContentBlock> = Vec::new();
    let mut i: usize = 0;
    while i < blocks.len()
        invariant
            i <= blocks@.len(),
            views(out@) == views(blocks@).take(i as int),
        decreases blocks@.len() - i,
    {
        let copy = blocks[i].clone();
        let ghost before = out@;
        out.push(copy);
        i = i + 1;
        proof {
            lemma_views_push(before, copy);
            assert(views(blocks@).take(i as int) =~= views(blocks@).take(i - 1).push(copy@));
        }
    }
    assert(views(blocks@).take(i as int) =~= views(blocks@));
    out
}

impl Clone for Content {
    fn clone(&self) -> (r: Content)
        ensures
            r@ == self@,
    {
        match self {
            Content::Text(t) => Content::Text(t.clone()),
            Content::Blocks(bs) => Content::Blocks(copy_blocks(bs)),
        }
    }
}

/// One message of a conversation.
#[derive(Debug)]
pub struct Message {
    pub role: Role,
    pub content: Content,
    /// When the message entered the conversation, in ms since the epoch; 0 where
    /// that is not known. Never sent.
    pub timestamp: i64,
    /// Marks the trigger of a continuation turn: part of the live context, left
    /// out of session storage and never shown as a user message. Never sent.
    pub internal: bool,
}

#[verifier::ext_equal]
pub struct MessageView {
    pub role: Role,
    pub content: ContentView,
    pub timestamp: i64,
    pub internal: bool,
}

impl View for Message {
    type V = MessageView;

    open spec fn view(&self) -> MessageView {
        MessageView {
            role: self.role,
            content: self.content@,
            timestamp: self.timestamp,
            internal: self.internal,
        }
    }
}

impl Clone for Message {
    fn clone(&self) -> (r: Message)
        ensures
            r@ == self@,
    {
        Message {
            role: self.role,
            content: self.content.clone(),
            timestamp: self.timestamp,
            internal: self.internal,
        }
    }
}

/// Copies of the messages from `from` up to `to`, in order.
pub fn copy_messages(messages: &Vec<Message>, from: usize, to: usize) -> (r: Vec<Message>)
    requires
        from <= to <= messages@.len(),
    ensures
        views(r@) == views(messages@).subrange(from as int, to as int),
{
    let mut out: Vec<Message> = Vec::new();
    let mut i: usize = from;
    while i < to
        invariant
            from <= i <= to <= messages@.len(),
            views(out@) == views(messages@).subrange(from as int, i as int),
        decreases to - i,
    {
        let copy = messages[i].clone();
        let ghost before = out@;
        out.push(copy);
        i = i + 1;
        proof {
            lemma_views_push(before, copy);
            assert(views(messages@).subrange(from as int, i as int) =~= views(messages@).subrange(
                from as int,
                i - 1,
            ).push(copy@));
        }
    }
    out
}

/// Whether some block asks for a tool.
pub open spec fn uses_tool(c: ContentView) -> bool {
    c matches ContentView::Blocks(bs) && exists|i: int|
        0 <= i < bs.len() && (#[trigger] bs[i]) is ToolUse
}

/// Whether some block answers a tool call.
pub open spec fn has_result(c: ContentView) -> bool {
    c matches ContentView::Blocks(bs) && exists|i: int|
        0 <= i < bs.len() && (#[trigger] bs[i]) is ToolResult
}

pub fn asks_for_tool(c: &Content) -> (r: bool)
    ensures
        r == uses_tool(c@),
{
    match c {
        Content::Text(_) => false,
        Content::Blocks(bs) => {
            let mut i: usize = 0;
            while i < bs.len()
                invariant
                    i <= bs@.len(),
                    *c == Content::Blocks(*bs),
                    forall|j: int| 0 <= j < i ==> !((#[trigger] views(bs@)[j]) is ToolUse),
                decreases bs@.len() - i,
            {
                if matches!(bs[i], ContentBlock::ToolUse { .. }) {
                    assert(views(bs@)[i as int] is ToolUse);
                    return true;
                }
                i = i + 1;
            }
            false
        },
    }
}

pub fn answers_tool(c: &Content) -> (r: bool)
    ensures
        r == has_result(c@),
{
    match c {
        Content::Text(_) => false,
        Content::Blocks(bs) => {
            let mut i: usize = 0;
            while i < bs.len()
                invariant
                    i <= bs@.len(),
                    *c == Content::Blocks(*bs),
                    forall|j: int| 0 <= j < i ==> !((#[trigger] views(bs@)[j]) is ToolResult),
                decreases bs@.len() - i,
            {
                if matches!(bs[i], ContentBlock::ToolResult { .. }) {
                    assert(views(bs@)[i as int] is ToolResult);
                    return true;
                }
                i = i + 1;
            }
            false
        },
    }
}

} // verus!
