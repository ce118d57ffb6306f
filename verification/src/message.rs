//! The messages of a conversation, and the mathematical values they stand for.

use crate::json::{trees, Json, JsonTree};
use vstd::prelude::*;

verus! {

// ---------------------------------------------------------------------------------------------
// What the model reports
// ---------------------------------------------------------------------------------------------

/// The tokens that a model call took, as the provider counts them.
#[derive(Clone, Copy, Debug, PartialEq, Eq, Structural)]
pub struct Usage {
    pub input: u64,
    pub output: u64,
    pub cache_read: u64,
    pub cache_write: u64,
    pub total_tokens: u64,
}

impl Usage {
    /// No tokens at all.
    pub open spec fn none() -> Usage {
        Usage { input: 0, output: 0, cache_read: 0, cache_write: 0, total_tokens: 0 }
    }
}

impl Default for Usage {
    fn default() -> (r: Usage)
        ensures
            r == Usage::none(),
    {
        Usage { input: 0, output: 0, cache_read: 0, cache_write: 0, total_tokens: 0 }
    }
}

/// Why the model stopped.
#[derive(Clone, Copy, Debug, PartialEq, Eq, Structural)]
pub enum StopReason {
    Stop,
    Length,
    ToolUse,
    Aborted,
    Error,
}

// ---------------------------------------------------------------------------------------------
// Content
// ---------------------------------------------------------------------------------------------

#[derive(Debug, PartialEq)]
pub struct TextContent {
    pub text: String,
}

#[derive(Debug, PartialEq)]
pub struct ThinkingContent {
    pub thinking: String,
}

#[derive(Debug, PartialEq)]
pub struct ImageContent {
    pub data: String,
    pub mime_type: String,
}

/// A call of a tool; its arguments are a JSON object.
#[derive(Debug, PartialEq)]
pub struct ToolCall {
    pub id: String,
    pub name: String,
    pub arguments: Json,
}

/// What a user or a tool puts into a message.
#[derive(Debug, PartialEq)]
pub enum UserContentBlock {
    Text(TextContent),
    Image(ImageContent),
}

/// What the model puts into a message.
#[derive(Debug, PartialEq)]
pub enum ContentBlock {
    Text(TextContent),
    Thinking(ThinkingContent),
    Image(ImageContent),
    ToolCall(ToolCall),
}

#[derive(Debug, PartialEq)]
pub enum UserContent {
    Text(String),
    Blocks(Vec<UserContentBlock>),
}

// ---------------------------------------------------------------------------------------------
// Messages
// ---------------------------------------------------------------------------------------------

#[derive(Debug, PartialEq)]
pub struct UserMessage {
    pub content: UserContent,
    /// Milliseconds since 1970.
    pub timestamp: i64,
}

#[derive(Debug, PartialEq)]
pub struct AssistantMessage {
    pub content: Vec<ContentBlock>,
    pub api: String,
    pub provider: String,
    pub model: String,
    pub response_model: Option<String>,
    pub response_id: Option<String>,
    pub diagnostics: Option<Vec<Json>>,
    pub usage: Usage,
    pub stop_reason: StopReason,
    pub error_message: Option<String>,
    /// Milliseconds since 1970.
    pub timestamp: i64,
}

#[derive(Debug, PartialEq)]
pub struct ToolResultMessage {
    pub tool_name: String,
    pub content: Vec<UserContentBlock>,
}

/// A message of the program's own, which no provider knows.
#[derive(Debug, PartialEq)]
pub struct CustomMessage {
    pub role: String,
    pub payload: Json,
}

/// A message that a provider knows.
#[derive(Debug, PartialEq)]
pub enum Message {
    User(UserMessage),
    Assistant(AssistantMessage),
    ToolResult(ToolResultMessage),
}

#[derive(Debug, PartialEq)]
pub enum AgentMessage {
    Llm(Message),
    Custom(CustomMessage),
}

// ---------------------------------------------------------------------------------------------
// Their values
// ---------------------------------------------------------------------------------------------

/// The value of a content block.
pub enum BlockView {
    Text(Seq<char>),
    Thinking(Seq<char>),
    Image { data: Seq<char>, mime_type: Seq<char> },
    ToolCall { id: Seq<char>, name: Seq<char>, arguments: JsonTree },
}

/// The value of what a user says.
pub enum UserContentView {
    Text(Seq<char>),
    Blocks(Seq<BlockView>),
}

/// The value of an assistant message.
pub struct AssistantView {
    pub blocks: Seq<BlockView>,
    pub api: Seq<char>,
    pub provider: Seq<char>,
    pub model: Seq<char>,
    pub response_model: Option<Seq<char>>,
    pub response_id: Option<Seq<char>>,
    pub diagnostics: Option<Seq<JsonTree>>,
    pub usage: Usage,
    pub stop_reason: StopReason,
    pub error_message: Option<Seq<char>>,
    pub timestamp: int,
}

/// The value of a message.
pub enum MessageView {
    User { content: UserContentView, timestamp: int },
    Assistant(AssistantView),
    ToolResult { tool_name: Seq<char>, blocks: Seq<BlockView> },
    Custom { role: Seq<char>, payload: JsonTree },
}

/// The value of an optional string.
pub open spec fn optional_text(s: Option<String>) -> Option<Seq<char>> {
    match s {
        Some(s) => Some(s@),
        None => None,
    }
}

/// The value of an optional list of JSON values.
pub open spec fn optional_trees(values: Option<Vec<Json>>) -> Option<Seq<JsonTree>> {
    match values {
        Some(values) => Some(trees(values@)),
        None => None,
    }
}

impl View for UserContentBlock {
    type V = BlockView;

    open spec fn view(&self) -> BlockView {
        match self {
            UserContentBlock::Text(t) => BlockView::Text(t.text@),
            UserContentBlock::Image(i) => BlockView::Image {
                data: i.data@,
                mime_type: i.mime_type@,
            },
        }
    }
}

impl View for ContentBlock {
    type V = BlockView;

    open spec fn view(&self) -> BlockView {
        match self {
            ContentBlock::Text(t) => BlockView::Text(t.text@),
            ContentBlock::Thinking(t) => BlockView::Thinking(t.thinking@),
            ContentBlock::Image(i) => BlockView::Image { data: i.data@, mime_type: i.mime_type@ },
            ContentBlock::ToolCall(c) => c@,
        }
    }
}

impl View for ToolCall {
    type V = BlockView;

    open spec fn view(&self) -> BlockView {
        BlockView::ToolCall { id: self.id@, name: self.name@, arguments: self.arguments.tree() }
    }
}

/// The values of user blocks.
pub open spec fn user_blocks(blocks: Seq<UserContentBlock>) -> Seq<BlockView> {
    Seq::new(blocks.len(), |i: int| blocks[i]@)
}

/// The values of content blocks.
pub open spec fn content_blocks(blocks: Seq<ContentBlock>) -> Seq<BlockView> {
    Seq::new(blocks.len(), |i: int| blocks[i]@)
}

impl View for UserContent {
    type V = UserContentView;

    open spec fn view(&self) -> UserContentView {
        match self {
            UserContent::Text(s) => UserContentView::Text(s@),
            UserContent::Blocks(blocks) => UserContentView::Blocks(user_blocks(blocks@)),
        }
    }
}

impl View for AssistantMessage {
    type V = AssistantView;

    open spec fn view(&self) -> AssistantView {
        AssistantView {
            blocks: content_blocks(self.content@),
            api: self.api@,
            provider: self.provider@,
            model: self.model@,
            response_model: optional_text(self.response_model),
            response_id: optional_text(self.response_id),
            diagnostics: optional_trees(self.diagnostics),
            usage: self.usage,
            stop_reason: self.stop_reason,
            error_message: optional_text(self.error_message),
            timestamp: self.timestamp as int,
        }
    }
}

impl View for Message {
    type V = MessageView;

    open spec fn view(&self) -> MessageView {
        match self {
            Message::User(u) => MessageView::User {
                content: u.content@,
                timestamp: u.timestamp as int,
            },
            Message::Assistant(a) => MessageView::Assistant(a@),
            Message::ToolResult(t) => MessageView::ToolResult {
                tool_name: t.tool_name@,
                blocks: user_blocks(t.content@),
            },
        }
    }
}

impl View for AgentMessage {
    type V = MessageView;

    open spec fn view(&self) -> MessageView {
        match self {
            AgentMessage::Llm(m) => m@,
            AgentMessage::Custom(c) => MessageView::Custom {
                role: c.role@,
                payload: c.payload.tree(),
            },
        }
    }
}

/// The values of messages.
pub open spec fn views(messages: Seq<AgentMessage>) -> Seq<MessageView> {
    Seq::new(messages.len(), |i: int| messages[i]@)
}

// ---------------------------------------------------------------------------------------------
// Copies
// ---------------------------------------------------------------------------------------------

impl Clone for UserContentBlock {
    fn clone(&self) -> (r: UserContentBlock)
        ensures
            r@ == self@,
    {
        match self {
            UserContentBlock::Text(t) => UserContentBlock::Text(
                TextContent { text: t.text.clone() },
            ),
            UserContentBlock::Image(i) => UserContentBlock::Image(
                ImageContent { data: i.data.clone(), mime_type: i.mime_type.clone() },
            ),
        }
    }
}

impl Clone for ToolCall {
    fn clone(&self) -> (r: ToolCall)
        ensures
            r@ == self@,
    {
        ToolCall {
            id: self.id.clone(),
            name: self.name.clone(),
            arguments: self.arguments.clone(),
        }
    }
}

impl Clone for ContentBlock {
    fn clone(&self) -> (r: ContentBlock)
        ensures
            r@ == self@,
    {
        match self {
            ContentBlock::Text(t) => ContentBlock::Text(TextContent { text: t.text.clone() }),
            ContentBlock::Thinking(t) => ContentBlock::Thinking(
                ThinkingContent { thinking: t.thinking.clone() },
            ),
            ContentBlock::Image(i) => ContentBlock::Image(
                ImageContent { data: i.data.clone(), mime_type: i.mime_type.clone() },
            ),
            ContentBlock::ToolCall(c) => ContentBlock::ToolCall(c.clone()),
        }
    }
}

impl Clone for UserContent {
    fn clone(&self) -> (r: UserContent)
        ensures
            r@ == self@,
    {
        match self {
            UserContent::Text(s) => UserContent::Text(s.clone()),
            UserContent::Blocks(blocks) => {
                let copy = blocks.clone();
                assert(user_blocks(copy@) =~= user_blocks(blocks@));
                UserContent::Blocks(copy)
            },
        }
    }
}

impl Clone for AssistantMessage {
    fn clone(&self) -> (r: AssistantMessage)
        ensures
            r@ == self@,
    {
        let content = self.content.clone();
        let diagnostics = match &self.diagnostics {
            Some(values) => {
                let copy = values.clone();
                proof {
                    crate::json::lemma_part_trees(values@, Seq::empty());
                    crate::json::lemma_part_trees(copy@, Seq::empty());
                    assert(trees(copy@) =~= trees(values@));
                }
                Some(copy)
            },
            None => None,
        };
        assert(content_blocks(content@) =~= content_blocks(self.content@));
        AssistantMessage {
            content,
            api: self.api.clone(),
            provider: self.provider.clone(),
            model: self.model.clone(),
            response_model: self.response_model.clone(),
            response_id: self.response_id.clone(),
            diagnostics,
            usage: self.usage,
            stop_reason: self.stop_reason,
            error_message: self.error_message.clone(),
            timestamp: self.timestamp,
        }
    }
}

impl Clone for Message {
    fn clone(&self) -> (r: Message)
        ensures
            r@ == self@,
    {
        match self {
            Message::User(u) => Message::User(
                UserMessage { content: u.content.clone(), timestamp: u.timestamp },
            ),
            Message::Assistant(a) => Message::Assistant(a.clone()),
            Message::ToolResult(t) => {
                let content = t.content.clone();
                assert(user_blocks(content@) =~= user_blocks(t.content@));
                Message::ToolResult(ToolResultMessage { tool_name: t.tool_name.clone(), content })
            },
        }
    }
}

impl Clone for AgentMessage {
    fn clone(&self) -> (r: AgentMessage)
        ensures
            r@ == self@,
    {
        match self {
            AgentMessage::Llm(m) => AgentMessage::Llm(m.clone()),
            AgentMessage::Custom(c) => AgentMessage::Custom(
                CustomMessage { role: c.role.clone(), payload: c.payload.clone() },
            ),
        }
    }
}

// ---------------------------------------------------------------------------------------------
// Laws
// ---------------------------------------------------------------------------------------------

/// The value of an answer shows each of its fields as it is.
pub proof fn law_answer_shows_its_fields(a: AssistantMessage)
    ensures
        a@.blocks.len() == a.content@.len(),
        forall|i: int| 0 <= i < a.content@.len() ==> #[trigger] a@.blocks[i] == a.content@[i]@,
        a@.api == a.api@,
        a@.provider == a.provider@,
        a@.model == a.model@,
        a@.response_model == optional_text(a.response_model),
        a@.response_id == optional_text(a.response_id),
        a@.diagnostics is Some <==> a.diagnostics is Some,
        a.diagnostics is Some ==> a@.diagnostics->0 == trees(a.diagnostics->0@),
        a@.usage == a.usage,
        a@.stop_reason == a.stop_reason,
        a@.error_message == optional_text(a.error_message),
        a@.timestamp == a.timestamp,
{
}

/// The value of a message tells whose it is and shows all that it holds.
pub proof fn law_messages_show_what_they_hold(
    u: UserMessage,
    a: AssistantMessage,
    t: ToolResultMessage,
    c: CustomMessage,
)
    ensures
        AgentMessage::Llm(Message::User(u))@ == (MessageView::User {
            content: u.content@,
            timestamp: u.timestamp as int,
        }),
        AgentMessage::Llm(Message::Assistant(a))@ == MessageView::Assistant(a@),
        AgentMessage::Llm(Message::ToolResult(t))@ is ToolResult,
        AgentMessage::Llm(Message::ToolResult(t))@->tool_name == t.tool_name@,
        AgentMessage::Llm(Message::ToolResult(t))@->blocks.len() == t.content@.len(),
        forall|i: int|
            0 <= i < t.content@.len() ==> AgentMessage::Llm(Message::ToolResult(t))@->blocks[i]
                == (#[trigger] t.content@[i])@,
        AgentMessage::Custom(c)@ == (MessageView::Custom {
            role: c.role@,
            payload: c.payload.tree(),
        }),
{
}

/// The value of what a user says, and of the blocks in messages, shows all that they hold.
pub proof fn law_blocks_show_what_they_hold(
    s: String,
    blocks: Vec<UserContentBlock>,
    text: TextContent,
    thinking: ThinkingContent,
    image: ImageContent,
    call: ToolCall,
)
    ensures
        UserContent::Text(s)@ == UserContentView::Text(s@),
        UserContent::Blocks(blocks)@ is Blocks,
        UserContent::Blocks(blocks)@->Blocks_0.len() == blocks@.len(),
        forall|i: int|
            0 <= i < blocks@.len() ==> UserContent::Blocks(blocks)@->Blocks_0[i] == (
            #[trigger] blocks@[i])@,
        UserContentBlock::Text(text)@ == BlockView::Text(text.text@),
        UserContentBlock::Image(image)@ == (BlockView::Image {
            data: image.data@,
            mime_type: image.mime_type@,
        }),
        ContentBlock::Text(text)@ == BlockView::Text(text.text@),
        ContentBlock::Thinking(thinking)@ == BlockView::Thinking(thinking.thinking@),
        ContentBlock::Image(image)@ == (BlockView::Image {
            data: image.data@,
            mime_type: image.mime_type@,
        }),
        ContentBlock::ToolCall(call)@ == (BlockView::ToolCall {
            id: call.id@,
            name: call.name@,
            arguments: call.arguments.tree(),
        }),
{
}

/// The values of messages in a row are theirs, in their order; an optional text is there where the
/// text is.
pub proof fn law_values_stand_in_order(messages: Seq<AgentMessage>, s: String)
    ensures
        views(messages).len() == messages.len(),
        forall|i: int| 0 <= i < messages.len() ==> #[trigger] views(messages)[i] == messages[i]@,
        optional_text(Some(s)) == Some(s@),
        optional_text(None) is None,
{
}

} // verus!
