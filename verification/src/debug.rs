//! What is shown of the calls of a model to someone who watches them.

use crate::json::JsonTree;
use crate::message::{
    content_blocks, optional_text, user_blocks, AssistantMessage, AssistantView, BlockView,
    ContentBlock, Message, MessageView, StopReason, ToolCall, UserContent, UserContentBlock,
    UserContentView,
};
use crate::model::Model;
use crate::outside::json_pretty;
use crate::stream::{
    AssistantMessageEvent, Context, DoneReason, ErrorReason, SimpleStreamOptions,
};
use crate::text::{byte_len, byte_size, decimal, decimal_text, joined};
use vstd::prelude::*;

verus! {

// ---------------------------------------------------------------------------------------------
// Messages
// ---------------------------------------------------------------------------------------------

/// How a block is shown.
pub open spec fn block_log(block: BlockView) -> Seq<char> {
    match block {
        BlockView::Text(s) => s,
        BlockView::Thinking(s) => s,
        BlockView::Image { mime_type, .. } => "[image:"@ + mime_type + "]"@,
        BlockView::ToolCall { id, name, .. } => "[tool-call:"@ + id + ":"@ + name + "]"@,
    }
}

/// How blocks are shown, each on lines of its own.
pub open spec fn blocks_log(blocks: Seq<BlockView>) -> Seq<char> {
    joined(Seq::new(blocks.len(), |i: int| block_log(blocks[i])), "\n"@)
}

/// How what a user says is shown.
pub open spec fn content_log(content: UserContentView) -> Seq<char> {
    match content {
        UserContentView::Text(s) => s,
        UserContentView::Blocks(blocks) => blocks_log(blocks),
    }
}

/// How a message is shown. A provider knows no other messages than these.
pub open spec fn log_of(message: MessageView) -> Seq<char> {
    match message {
        MessageView::User { content, .. } => content_log(content),
        MessageView::Assistant(a) => blocks_log(a.blocks),
        MessageView::ToolResult { blocks, .. } => blocks_log(blocks),
        MessageView::Custom { .. } => Seq::empty(),
    }
}

/// Whose message it is.
pub open spec fn role_of(message: MessageView) -> Seq<char> {
    match message {
        MessageView::User { .. } => "user"@,
        MessageView::Assistant(_) => "assistant"@,
        MessageView::ToolResult { .. } => "tool_result"@,
        MessageView::Custom { .. } => Seq::empty(),
    }
}

/// How a user block is shown.
pub fn user_content_block_log(block: &UserContentBlock) -> (r: String)
    ensures
        r@ == block_log(block@),
{
    match block {
        UserContentBlock::Text(t) => t.text.clone(),
        UserContentBlock::Image(i) => image_log(i.mime_type.as_str()),
    }
}

/// How an image is shown.
fn image_log(mime_type: &str) -> (r: String)
    ensures
        r@ == "[image:"@ + mime_type@ + "]"@,
{
    let mut out = String::new();
    out.push_str("[image:");
    out.push_str(mime_type);
    out.push_str("]");
    assert(out@ =~= "[image:"@ + mime_type@ + "]"@);
    out
}

/// How a content block is shown.
fn content_block_log(block: &ContentBlock) -> (r: String)
    ensures
        r@ == block_log(block@),
{
    match block {
        ContentBlock::Text(t) => t.text.clone(),
        ContentBlock::Thinking(t) => t.thinking.clone(),
        ContentBlock::Image(i) => image_log(i.mime_type.as_str()),
        ContentBlock::ToolCall(c) => {
            let mut out = String::new();
            out.push_str("[tool-call:");
            out.push_str(c.id.as_str());
            out.push_str(":");
            out.push_str(c.name.as_str());
            out.push_str("]");
            assert(out@ =~= "[tool-call:"@ + c.id@ + ":"@ + c.name@ + "]"@);
            out
        },
    }
}

/// Showing one block more.
proof fn lemma_blocks_log_push(blocks: Seq<BlockView>, i: int)
    requires
        0 <= i < blocks.len(),
    ensures
        blocks_log(blocks.take(i + 1)) == if i == 0 {
            block_log(blocks[0])
        } else {
            blocks_log(blocks.take(i)) + "\n"@ + block_log(blocks[i])
        },
{
    let more = blocks.take(i + 1);
    let less = blocks.take(i);
    let parts = Seq::new(more.len(), |k: int| block_log(more[k]));
    assert(parts.drop_last() =~= Seq::new(less.len(), |k: int| block_log(less[k])));
}

/// How user blocks are shown.
fn user_blocks_log(blocks: &Vec<UserContentBlock>) -> (r: String)
    ensures
        r@ == blocks_log(user_blocks(blocks@)),
{
    let ghost shown = user_blocks(blocks@);
    let mut out = String::new();
    let mut i: usize = 0;
    assert(out@ =~= blocks_log(shown.take(0)));
    while i < blocks.len()
        invariant
            i <= blocks@.len(),
            shown == user_blocks(blocks@),
            out@ == blocks_log(shown.take(i as int)),
        decreases blocks@.len() - i,
    {
        let ghost before = out@;
        proof {
            lemma_blocks_log_push(shown, i as int);
            if i == 0 {
                assert(before =~= Seq::<char>::empty());
            }
        }
        if i > 0 {
            out.push_str("\n");
        }
        out.push_str(user_content_block_log(&blocks[i]).as_str());
        i += 1;
        assert(out@ =~= blocks_log(shown.take(i as int)));
    }
    assert(shown.take(i as int) =~= shown);
    out
}

/// How what a user says is shown.
pub fn user_content_log(content: &UserContent) -> (r: String)
    ensures
        r@ == content_log(content@),
{
    match content {
        UserContent::Text(s) => s.clone(),
        UserContent::Blocks(blocks) => user_blocks_log(blocks),
    }
}

/// How an assistant message is shown.
pub fn assistant_log(message: &AssistantMessage) -> (r: String)
    ensures
        r@ == blocks_log(message@.blocks),
{
    let blocks = &message.content;
    let ghost shown = content_blocks(blocks@);
    let mut out = String::new();
    let mut i: usize = 0;
    assert(out@ =~= blocks_log(shown.take(0)));
    while i < blocks.len()
        invariant
            i <= blocks@.len(),
            shown == content_blocks(blocks@),
            out@ == blocks_log(shown.take(i as int)),
        decreases blocks@.len() - i,
    {
        let ghost before = out@;
        proof {
            lemma_blocks_log_push(shown, i as int);
            if i == 0 {
                assert(before =~= Seq::<char>::empty());
            }
        }
        if i > 0 {
            out.push_str("\n");
        }
        out.push_str(content_block_log(&blocks[i]).as_str());
        i += 1;
        assert(out@ =~= blocks_log(shown.take(i as int)));
    }
    assert(shown.take(i as int) =~= shown);
    out
}

/// How a message is shown.
pub fn message_log(message: &Message) -> (r: String)
    ensures
        r@ == log_of(message@),
{
    match message {
        Message::User(u) => user_content_log(&u.content),
        Message::Assistant(a) => assistant_log(a),
        Message::ToolResult(t) => user_blocks_log(&t.content),
    }
}

/// Whose message it is.
pub fn role_label(message: &Message) -> (r: &'static str)
    ensures
        r@ == role_of(message@),
{
    match message {
        Message::User(_) => "user",
        Message::Assistant(_) => "assistant",
        Message::ToolResult(_) => "tool_result",
    }
}

// ---------------------------------------------------------------------------------------------
// Lines
// ---------------------------------------------------------------------------------------------

/// The beginning of a line on the call `call_id`.
pub open spec fn line_head(call_id: nat, what: Seq<char>) -> Seq<char> {
    "[debug llm #"@ + decimal(call_id) + what
}

/// A time span in milliseconds.
pub open spec fn elapsed_text(ms: nat) -> Seq<char> {
    decimal(ms) + "ms"@
}

/// A text, or what stands in for it.
pub open spec fn text_or(s: Option<Seq<char>>, other: Seq<char>) -> Seq<char> {
    match s {
        Some(s) => s,
        None => other,
    }
}

/// The name of a reason.
pub open spec fn done_reason_name(reason: DoneReason) -> Seq<char> {
    match reason {
        DoneReason::Stop => "Stop"@,
        DoneReason::Length => "Length"@,
        DoneReason::ToolUse => "ToolUse"@,
    }
}

/// The name of a reason.
pub open spec fn error_reason_name(reason: ErrorReason) -> Seq<char> {
    match reason {
        ErrorReason::Aborted => "Aborted"@,
        ErrorReason::Error => "Error"@,
    }
}

/// The name of a reason.
pub open spec fn stop_reason_name(reason: StopReason) -> Seq<char> {
    match reason {
        StopReason::Stop => "Stop"@,
        StopReason::Length => "Length"@,
        StopReason::ToolUse => "ToolUse"@,
        StopReason::Aborted => "Aborted"@,
        StopReason::Error => "Error"@,
    }
}

/// The number of tools that a model is told of.
pub open spec fn tool_count(context: Context) -> nat {
    match context.tools {
        Some(tools) => tools@.len(),
        None => 0,
    }
}

/// The bytes that a model is told before the conversation.
pub open spec fn system_chars(context: Context) -> nat {
    match context.system_prompt {
        Some(prompt) => byte_size(prompt@),
        None => 0,
    }
}

/// The level at which the model reasons.
pub open spec fn reasoning_of(options: Option<&SimpleStreamOptions>) -> Option<Seq<char>> {
    match options {
        Some(options) => optional_text(options.reasoning),
        None => None,
    }
}

/// The session that a call belongs to.
pub open spec fn session_of(options: Option<&SimpleStreamOptions>) -> Option<Seq<char>> {
    match options {
        Some(options) => optional_text(options.session_id),
        None => None,
    }
}

/// What is said when a call begins.
pub open spec fn start_text(
    call_id: nat,
    model: Model,
    context: Context,
    options: Option<&SimpleStreamOptions>,
) -> Seq<char> {
    line_head(call_id, " start] provider="@) + model.provider@ + " api="@ + model.api@ + " model="@
        + model.id@ + " messages="@ + decimal(context.messages@.len()) + " tools="@ + decimal(
        tool_count(context),
    ) + " system_chars="@ + decimal(system_chars(context)) + " reasoning="@ + text_or(
        reasoning_of(options),
        "off"@,
    ) + " session="@ + text_or(session_of(options), "-"@)
}

/// What is said of the last message that a call is given.
pub open spec fn context_text(call_id: nat, last: MessageView) -> Seq<char> {
    line_head(call_id, " context] last_"@) + role_of(last) + ":\n"@ + log_of(last)
}

/// What is said of a tool call.
pub open spec fn tool_call_text(
    call_id: nat,
    id: Seq<char>,
    name: Seq<char>,
    arguments: JsonTree,
) -> Seq<char> {
    line_head(call_id, " tool-call] id="@) + id + " name="@ + name + " args=\n"@ + json_pretty(
        arguments,
    )
}

/// What is said of an answer that is complete.
pub open spec fn done_text(
    call_id: nat,
    reason: DoneReason,
    message: AssistantView,
    elapsed_ms: nat,
    cost: Seq<char>,
) -> Seq<char> {
    line_head(call_id, " done] reason="@) + done_reason_name(reason) + " stop="@ + stop_reason_name(
        message.stop_reason,
    ) + " elapsed="@ + elapsed_text(elapsed_ms) + " usage=input:"@ + decimal(
        message.usage.input as nat,
    ) + " output:"@ + decimal(message.usage.output as nat) + " cache_read:"@ + decimal(
        message.usage.cache_read as nat,
    ) + " cache_write:"@ + decimal(message.usage.cache_write as nat) + " total:"@ + decimal(
        message.usage.total_tokens as nat,
    ) + " cost:$"@ + cost + " response_id="@ + text_or(message.response_id, "-"@) + " text:\n"@
        + blocks_log(message.blocks)
}

/// What is said when there is no answer.
pub open spec fn error_text(
    call_id: nat,
    reason: ErrorReason,
    error: AssistantView,
    elapsed_ms: nat,
) -> Seq<char> {
    line_head(call_id, " error] reason="@) + error_reason_name(reason) + " elapsed="@ + elapsed_text(
        elapsed_ms,
    ) + " message=\""@ + text_or(error.error_message, "unknown error"@) + "\""@
}

/// What is said when the events end without a last one.
pub open spec fn closed_text(call_id: nat, elapsed_ms: nat) -> Seq<char> {
    line_head(call_id, " closed] elapsed="@) + elapsed_text(elapsed_ms)
        + " stream ended without terminal event"@
}

/// The beginning of a line.
fn head(call_id: u64, what: &str) -> (r: String)
    ensures
        r@ == line_head(call_id as nat, what@),
{
    let mut out = String::new();
    out.push_str("[debug llm #");
    assert(out@ =~= "[debug llm #"@);
    out.push_str(decimal_text(call_id as u128).as_str());
    out.push_str(what);
    out
}

/// A number behind a line.
fn push_number(out: &mut String, n: u128)
    ensures
        final(out)@ == old(out)@ + decimal(n as nat),
{
    out.push_str(decimal_text(n).as_str());
}

/// A text behind a line, or what stands in for it.
fn push_or(out: &mut String, s: &Option<String>, other: &str)
    ensures
        final(out)@ == old(out)@ + text_or(optional_text(*s), other@),
{
    match s {
        Some(s) => {
            out.push_str(s.as_str());
        },
        None => {
            out.push_str(other);
        },
    }
}

/// A time span in milliseconds.
pub fn elapsed_ms(ms: u128) -> (r: String)
    ensures
        r@ == elapsed_text(ms as nat),
{
    let mut out = decimal_text(ms);
    out.push_str("ms");
    out
}

/// What is said when a call begins.
pub fn start_line(
    call_id: u64,
    model: &Model,
    context: &Context,
    options: Option<&SimpleStreamOptions>,
) -> (r: String)
    ensures
        r@ == start_text(call_id as nat, *model, *context, options),
{
    let tools = match &context.tools {
        Some(tools) => tools.len(),
        None => 0,
    };
    let system = match &context.system_prompt {
        Some(prompt) => byte_len(prompt.as_str()),
        None => 0,
    };
    let mut out = head(call_id, " start] provider=");
    out.push_str(model.provider.as_str());
    out.push_str(" api=");
    out.push_str(model.api.as_str());
    out.push_str(" model=");
    out.push_str(model.id.as_str());
    out.push_str(" messages=");
    push_number(&mut out, context.messages.len() as u128);
    out.push_str(" tools=");
    push_number(&mut out, tools as u128);
    out.push_str(" system_chars=");
    push_number(&mut out, system as u128);
    out.push_str(" reasoning=");
    match options {
        Some(options) => {
            push_or(&mut out, &options.reasoning, "off");
        },
        None => {
            out.push_str("off");
        },
    }
    out.push_str(" session=");
    match options {
        Some(options) => {
            push_or(&mut out, &options.session_id, "-");
        },
        None => {
            out.push_str("-");
        },
    }
    out
}

/// What is said of the last message that a call is given, where there is one.
pub fn context_line(call_id: u64, context: &Context) -> (r: Option<String>)
    ensures
        optional_text(r) == if context.messages@.len() == 0 {
            None
        } else {
            Some(context_text(call_id as nat, context.messages@.last()@))
        },
{
    if context.messages.len() == 0 {
        return None;
    }
    let last = &context.messages[context.messages.len() - 1];
    let mut out = head(call_id, " context] last_");
    out.push_str(role_label(last));
    out.push_str(":\n");
    out.push_str(message_log(last).as_str());
    Some(out)
}

/// What is said of a tool call.
pub fn tool_call_line(call_id: u64, tool_call: &ToolCall) -> (r: String)
    ensures
        r@ == tool_call_text(
            call_id as nat,
            tool_call.id@,
            tool_call.name@,
            tool_call.arguments.tree(),
        ),
{
    let mut out = head(call_id, " tool-call] id=");
    out.push_str(tool_call.id.as_str());
    out.push_str(" name=");
    out.push_str(tool_call.name.as_str());
    out.push_str(" args=\n");
    out.push_str(tool_call.arguments.pretty().as_str());
    out
}

fn done_reason_text(reason: DoneReason) -> (r: &'static str)
    ensures
        r@ == done_reason_name(reason),
{
    match reason {
        DoneReason::Stop => "Stop",
        DoneReason::Length => "Length",
        DoneReason::ToolUse => "ToolUse",
    }
}

fn error_reason_text(reason: ErrorReason) -> (r: &'static str)
    ensures
        r@ == error_reason_name(reason),
{
    match reason {
        ErrorReason::Aborted => "Aborted",
        ErrorReason::Error => "Error",
    }
}

fn stop_reason_text(reason: StopReason) -> (r: &'static str)
    ensures
        r@ == stop_reason_name(reason),
{
    match reason {
        StopReason::Stop => "Stop",
        StopReason::Length => "Length",
        StopReason::ToolUse => "ToolUse",
        StopReason::Aborted => "Aborted",
        StopReason::Error => "Error",
    }
}

/// What is said of an answer that is complete; `cost` is the amount in dollars, in words.
pub fn done_line(
    call_id: u64,
    reason: DoneReason,
    message: &AssistantMessage,
    elapsed: u128,
    cost: &str,
) -> (r: String)
    ensures
        r@ == done_text(call_id as nat, reason, message@, elapsed as nat, cost@),
{
    let mut out = head(call_id, " done] reason=");
    out.push_str(done_reason_text(reason));
    out.push_str(" stop=");
    out.push_str(stop_reason_text(message.stop_reason));
    out.push_str(" elapsed=");
    out.push_str(elapsed_ms(elapsed).as_str());
    out.push_str(" usage=input:");
    push_number(&mut out, message.usage.input as u128);
    out.push_str(" output:");
    push_number(&mut out, message.usage.output as u128);
    out.push_str(" cache_read:");
    push_number(&mut out, message.usage.cache_read as u128);
    out.push_str(" cache_write:");
    push_number(&mut out, message.usage.cache_write as u128);
    out.push_str(" total:");
    push_number(&mut out, message.usage.total_tokens as u128);
    out.push_str(" cost:$");
    out.push_str(cost);
    out.push_str(" response_id=");
    push_or(&mut out, &message.response_id, "-");
    out.push_str(" text:\n");
    out.push_str(assistant_log(message).as_str());
    out
}

/// What is said when there is no answer.
pub fn error_line(
    call_id: u64,
    reason: ErrorReason,
    error: &AssistantMessage,
    elapsed: u128,
) -> (r: String)
    ensures
        r@ == error_text(call_id as nat, reason, error@, elapsed as nat),
{
    let mut out = head(call_id, " error] reason=");
    out.push_str(error_reason_text(reason));
    out.push_str(" elapsed=");
    out.push_str(elapsed_ms(elapsed).as_str());
    out.push_str(" message=\"");
    push_or(&mut out, &error.error_message, "unknown error");
    out.push_str("\"");
    out
}

/// What is said when the events end without a last one.
pub fn closed_line(call_id: u64, elapsed: u128) -> (r: String)
    ensures
        r@ == closed_text(call_id as nat, elapsed as nat),
{
    let mut out = head(call_id, " closed] elapsed=");
    out.push_str(elapsed_ms(elapsed).as_str());
    out.push_str(" stream ended without terminal event");
    out
}

// ---------------------------------------------------------------------------------------------
// Watching a call
// ---------------------------------------------------------------------------------------------

/// Numbers the calls, from 1 on; behind the largest number it begins again with 0.
#[derive(Clone, Copy, Debug, PartialEq, Eq, Structural)]
pub struct CallCounter {
    pub next: u64,
}

impl CallCounter {
    /// No call has been made.
    pub fn new() -> (r: CallCounter)
        ensures
            r.next == 1,
    {
        CallCounter { next: 1 }
    }

    /// The number of the next call.
    pub fn take(&mut self) -> (r: u64)
        ensures
            r == old(self).next,
            final(self).next == if r == u64::MAX {
                0
            } else {
                r + 1
            },
    {
        let id = self.next;
        self.next = if id == u64::MAX {
            0
        } else {
            id + 1
        };
        id
    }
}

/// Watches the events of one call.
#[derive(Clone, Copy, Debug, PartialEq, Eq, Structural)]
pub struct StreamTap {
    pub call_id: u64,
    /// An event has come after which there is no other.
    pub saw_terminal: bool,
}

/// What is said of an event; nothing of a piece of an answer.
pub open spec fn event_text(
    call_id: nat,
    event: AssistantMessageEvent,
    elapsed_ms: nat,
    cost: Seq<char>,
) -> Option<Seq<char>> {
    match event {
        AssistantMessageEvent::ToolCallEnd { tool_call } => Some(
            tool_call_text(call_id, tool_call.id@, tool_call.name@, tool_call.arguments.tree()),
        ),
        AssistantMessageEvent::Done { reason, message } => Some(
            done_text(call_id, reason, message@, elapsed_ms, cost),
        ),
        AssistantMessageEvent::Error { reason, error } => Some(
            error_text(call_id, reason, error@, elapsed_ms),
        ),
        AssistantMessageEvent::Other => None,
    }
}

/// A terminal event is among them.
pub open spec fn has_terminal(events: Seq<AssistantMessageEvent>) -> bool {
    exists|i: int| 0 <= i < events.len() && (#[trigger] events[i]).terminal()
}

impl StreamTap {
    /// The tap has seen just these events.
    pub open spec fn has_seen(self, events: Seq<AssistantMessageEvent>) -> bool {
        self.saw_terminal == has_terminal(events)
    }

    /// No event has come.
    pub fn new(call_id: u64) -> (r: StreamTap)
        ensures
            r.call_id == call_id,
            !r.saw_terminal,
            r.has_seen(Seq::empty()),
    {
        StreamTap { call_id, saw_terminal: false }
    }

    /// Takes an event in and says what there is to say of it.
    pub fn on_event(&mut self, event: &AssistantMessageEvent, elapsed: u128, cost: &str) -> (r:
        Option<String>)
        ensures
            final(self).call_id == old(self).call_id,
            final(self).saw_terminal == (old(self).saw_terminal || event.terminal()),
            optional_text(r) == event_text(
                old(self).call_id as nat,
                *event,
                elapsed as nat,
                cost@,
            ),
            forall|events: Seq<AssistantMessageEvent>| #[trigger]
                old(self).has_seen(events) ==> final(self).has_seen(events.push(*event)),
    {
        let ghost before = *self;
        let line = match event {
            AssistantMessageEvent::ToolCallEnd { tool_call } => Some(
                tool_call_line(self.call_id, tool_call),
            ),
            AssistantMessageEvent::Done { reason, message } => {
                self.saw_terminal = true;
                Some(done_line(self.call_id, *reason, message, elapsed, cost))
            },
            AssistantMessageEvent::Error { reason, error } => {
                self.saw_terminal = true;
                Some(error_line(self.call_id, *reason, error, elapsed))
            },
            AssistantMessageEvent::Other => None,
        };
        proof {
            assert forall|events: Seq<AssistantMessageEvent>| #[trigger]
                before.has_seen(events) implies self.has_seen(events.push(*event)) by {
                lemma_terminal_push(events, *event);
            }
        }
        line
    }

    /// What there is to say when the events have ended: something where none of them was a last
    /// one.
    pub open spec fn end_text(self, elapsed_ms: nat) -> Option<Seq<char>> {
        if self.saw_terminal {
            None
        } else {
            Some(closed_text(self.call_id as nat, elapsed_ms))
        }
    }

    /// The events have ended.
    pub fn on_end(&self, elapsed: u128) -> (r: Option<String>)
        ensures
            optional_text(r) == self.end_text(elapsed as nat),
    {
        if self.saw_terminal {
            None
        } else {
            Some(closed_line(self.call_id, elapsed))
        }
    }
}

/// A terminal event stays among them.
proof fn lemma_terminal_push(events: Seq<AssistantMessageEvent>, event: AssistantMessageEvent)
    ensures
        has_terminal(events.push(event)) == (has_terminal(events) || event.terminal()),
{
    let more = events.push(event);
    if has_terminal(events) {
        let i = choose|i: int| 0 <= i < events.len() && (#[trigger] events[i]).terminal();
        assert(more[i].terminal());
    }
    if event.terminal() {
        assert(more[events.len() as int].terminal());
    }
    if has_terminal(more) {
        let i = choose|i: int| 0 <= i < more.len() && (#[trigger] more[i]).terminal();
        if i < events.len() {
            assert(events[i].terminal());
        }
    }
}

/// Something is said at the end of a call if and only if none of its events was a last one.
pub proof fn law_closed_line_needs_no_terminal(
    tap: StreamTap,
    events: Seq<AssistantMessageEvent>,
    elapsed_ms: nat,
)
    requires
        tap.has_seen(events),
    ensures
        tap.end_text(elapsed_ms) is Some <==> forall|i: int|
            0 <= i < events.len() ==> !(#[trigger] events[i]).terminal(),
{
}

/// Text and thoughts are shown as they are, an image by its type, and a call by its id and the
/// tool's name.
pub proof fn law_block_is_shown(
    s: Seq<char>,
    mime_type: Seq<char>,
    id: Seq<char>,
    arguments: JsonTree,
)
    ensures
        blocks_log(seq![BlockView::Text(s)]) == s,
        blocks_log(seq![BlockView::Thinking(s)]) == s,
        blocks_log(seq![BlockView::Image { data: s, mime_type }]) == "[image:"@ + mime_type
            + "]"@,
        blocks_log(seq![BlockView::ToolCall { id, name: s, arguments }]) == "[tool-call:"@ + id
            + ":"@ + s + "]"@,
{
    lemma_one_block(BlockView::Text(s));
    lemma_one_block(BlockView::Thinking(s));
    lemma_one_block(BlockView::Image { data: s, mime_type });
    lemma_one_block(BlockView::ToolCall { id, name: s, arguments });
}

/// A single block is shown as that block.
proof fn lemma_one_block(block: BlockView)
    ensures
        blocks_log(seq![block]) == block_log(block),
{
    let shown = Seq::new(seq![block].len(), |i: int| block_log(seq![block][i]));
    assert(shown =~= seq![block_log(block)]);
}

/// Blocks are shown in their order, each on lines of its own, and no blocks are shown as nothing.
pub proof fn law_blocks_are_shown_on_lines(blocks: Seq<BlockView>, block: BlockView)
    ensures
        blocks_log(Seq::empty()).len() == 0,
        blocks.len() > 0 ==> blocks_log(blocks.push(block)) == blocks_log(blocks) + seq!['\n']
            + blocks_log(seq![block]),
{
    reveal_strlit("\n");
    assert("\n"@ =~= seq!['\n']);
    lemma_one_block(block);
    let more = blocks.push(block);
    let shown = Seq::new(blocks.len(), |i: int| block_log(blocks[i]));
    let all = Seq::new(more.len(), |i: int| block_log(more[i]));
    assert(all.drop_last() =~= shown);
    assert(all.last() == block_log(block));
}

/// A message is shown by what it holds, under the name of whose it is.
pub proof fn law_message_is_shown(
    s: Seq<char>,
    blocks: Seq<BlockView>,
    answer: AssistantView,
    timestamp: int,
)
    ensures
        ({
            let message = MessageView::User { content: UserContentView::Text(s), timestamp };
            log_of(message) == s && role_of(message) == "user"@
        }),
        ({
            let message = MessageView::User { content: UserContentView::Blocks(blocks), timestamp };
            log_of(message) == blocks_log(blocks) && role_of(message) == "user"@
        }),
        ({
            let message = MessageView::Assistant(answer);
            log_of(message) == blocks_log(answer.blocks) && role_of(message) == "assistant"@
        }),
        ({
            let message = MessageView::ToolResult { tool_name: s, blocks };
            log_of(message) == blocks_log(blocks) && role_of(message) == "tool_result"@
        }),
{
}

/// Reasons are shown by their names.
pub proof fn law_reasons_have_their_names()
    ensures
        done_reason_name(DoneReason::Stop) == "Stop"@,
        done_reason_name(DoneReason::Length) == "Length"@,
        done_reason_name(DoneReason::ToolUse) == "ToolUse"@,
        error_reason_name(ErrorReason::Aborted) == "Aborted"@,
        error_reason_name(ErrorReason::Error) == "Error"@,
        stop_reason_name(StopReason::Stop) == "Stop"@,
        stop_reason_name(StopReason::Length) == "Length"@,
        stop_reason_name(StopReason::ToolUse) == "ToolUse"@,
        stop_reason_name(StopReason::Aborted) == "Aborted"@,
        stop_reason_name(StopReason::Error) == "Error"@,
{
}

/// The line on the start of a call tells the model and where it is reached, how much it is given,
/// the level at which it reasons or that it does not, and the session or a dash.
pub proof fn law_start_line(
    call_id: nat,
    model: Model,
    context: Context,
    options: Option<&SimpleStreamOptions>,
)
    ensures
        ({
            let tools = if context.tools is Some {
                context.tools->0@.len()
            } else {
                0
            };
            let system = if context.system_prompt is Some {
                byte_size(context.system_prompt->0@)
            } else {
                0
            };
            let reasoning = if options is Some && options->0.reasoning is Some {
                options->0.reasoning->0@
            } else {
                "off"@
            };
            let session = if options is Some && options->0.session_id is Some {
                options->0.session_id->0@
            } else {
                "-"@
            };
            start_text(call_id, model, context, options) == "[debug llm #"@ + decimal(call_id)
                + " start] provider="@ + model.provider@ + " api="@ + model.api@ + " model="@
                + model.id@ + " messages="@ + decimal(context.messages@.len()) + " tools="@
                + decimal(tools) + " system_chars="@ + decimal(system) + " reasoning="@ + reasoning
                + " session="@ + session
        }),
{
}

/// The line on what a call is given tells whose the last message is, and shows it below.
pub proof fn law_context_line(call_id: nat, last: MessageView)
    ensures
        context_text(call_id, last) == "[debug llm #"@ + decimal(call_id) + " context] last_"@
            + role_of(last) + ":\n"@ + log_of(last),
{
}

/// The line on a complete answer tells the reason, the time, each of the five counters under its
/// own name, the cost and the answer's id or a dash, and shows the answer below.
pub proof fn law_done_line(
    call_id: nat,
    reason: DoneReason,
    message: AssistantView,
    elapsed_ms: nat,
    cost: Seq<char>,
)
    ensures
        ({
            let id = if message.response_id is Some {
                message.response_id->0
            } else {
                "-"@
            };
            done_text(call_id, reason, message, elapsed_ms, cost) == "[debug llm #"@ + decimal(
                call_id,
            ) + " done] reason="@ + done_reason_name(reason) + " stop="@ + stop_reason_name(
                message.stop_reason,
            ) + " elapsed="@ + (decimal(elapsed_ms) + "ms"@) + " usage=input:"@ + decimal(
                message.usage.input as nat,
            ) + " output:"@ + decimal(message.usage.output as nat) + " cache_read:"@ + decimal(
                message.usage.cache_read as nat,
            ) + " cache_write:"@ + decimal(message.usage.cache_write as nat) + " total:"@
                + decimal(message.usage.total_tokens as nat) + " cost:$"@ + cost
                + " response_id="@ + id + " text:\n"@ + blocks_log(message.blocks)
        }),
{
}

/// The line on a failure tells the reason, the time and what the provider said, or that it is not
/// known; the line on a stream that just ended tells the time and that.
pub proof fn law_failure_lines(
    call_id: nat,
    reason: ErrorReason,
    error: AssistantView,
    elapsed_ms: nat,
)
    ensures
        ({
            let said = if error.error_message is Some {
                error.error_message->0
            } else {
                "unknown error"@
            };
            error_text(call_id, reason, error, elapsed_ms) == "[debug llm #"@ + decimal(call_id)
                + " error] reason="@ + error_reason_name(reason) + " elapsed="@ + (decimal(
                elapsed_ms,
            ) + "ms"@) + " message=\""@ + said + "\""@
        }),
        closed_text(call_id, elapsed_ms) == "[debug llm #"@ + decimal(call_id)
            + " closed] elapsed="@ + (decimal(elapsed_ms) + "ms"@)
            + " stream ended without terminal event"@,
{
}

/// The line on a tool call tells its id and the tool's name, and shows the arguments below.
pub proof fn law_tool_call_line(
    call_id: nat,
    id: Seq<char>,
    name: Seq<char>,
    arguments: JsonTree,
)
    ensures
        tool_call_text(call_id, id, name, arguments) == "[debug llm #"@ + decimal(call_id)
            + " tool-call] id="@ + id + " name="@ + name + " args=\n"@ + json_pretty(arguments),
{
}

/// Each event but a piece of an answer has its line.
pub proof fn law_events_have_their_lines(
    call_id: nat,
    elapsed_ms: nat,
    cost: Seq<char>,
    tool_call: ToolCall,
    done: DoneReason,
    message: AssistantMessage,
    failed: ErrorReason,
    error: AssistantMessage,
)
    ensures
        event_text(
            call_id,
            AssistantMessageEvent::ToolCallEnd { tool_call },
            elapsed_ms,
            cost,
        ) == Some(
            tool_call_text(call_id, tool_call.id@, tool_call.name@, tool_call.arguments.tree()),
        ),
        event_text(
            call_id,
            AssistantMessageEvent::Done { reason: done, message },
            elapsed_ms,
            cost,
        ) == Some(done_text(call_id, done, message@, elapsed_ms, cost)),
        event_text(
            call_id,
            AssistantMessageEvent::Error { reason: failed, error },
            elapsed_ms,
            cost,
        ) == Some(error_text(call_id, failed, error@, elapsed_ms)),
        event_text(call_id, AssistantMessageEvent::Other, elapsed_ms, cost) is None,
{
}

/// Just the complete answer and the failure are last events, and a tap that has seen one has
/// nothing to say at the end.
pub proof fn law_last_events_end_a_call(
    tap: StreamTap,
    events: Seq<AssistantMessageEvent>,
    i: int,
    elapsed_ms: nat,
)
    requires
        tap.has_seen(events),
        0 <= i < events.len(),
    ensures
        events[i] is Done || events[i] is Error ==> tap.end_text(elapsed_ms) is None,
        (forall|k: int|
            0 <= k < events.len() ==> (#[trigger] events[k]) is Other || events[k] is ToolCallEnd)
            ==> tap.end_text(elapsed_ms) == Some(closed_text(tap.call_id as nat, elapsed_ms)),
{
    if events[i] is Done || events[i] is Error {
        assert(events[i].terminal());
    }
}

} // verus!
