//! How many tokens a message takes: about one for four bytes of text, rounded up.

use crate::json::JsonTree;
use crate::message::{
    content_blocks, user_blocks, views, AgentMessage, AssistantView, BlockView, ContentBlock,
    Message, MessageView, StopReason, Usage, UserContent, UserContentBlock, UserContentView,
};
use crate::outside::json_text;
use crate::text::{byte_len, byte_size};
use vstd::prelude::*;

verus! {

/// What an image counts as, in bytes of text.
pub const IMAGE_CHARS: usize = 3072;

// ---------------------------------------------------------------------------------------------
// One message
// ---------------------------------------------------------------------------------------------

/// What a block counts as, in bytes of text.
pub open spec fn block_chars(block: BlockView) -> nat {
    match block {
        BlockView::Text(s) => byte_size(s),
        BlockView::Thinking(s) => byte_size(s),
        BlockView::Image { .. } => IMAGE_CHARS as nat,
        BlockView::ToolCall { name, arguments, .. } => byte_size(name) + byte_size(
            json_text(arguments),
        ),
    }
}

/// What blocks count as together.
pub open spec fn blocks_chars(blocks: Seq<BlockView>) -> nat
    decreases blocks.len(),
{
    if blocks.len() == 0 {
        0
    } else {
        blocks_chars(blocks.drop_last()) + block_chars(blocks.last())
    }
}

/// What a message counts as, in bytes of text.
pub open spec fn message_chars(message: MessageView) -> nat {
    match message {
        MessageView::User { content: UserContentView::Text(s), .. } => byte_size(s),
        MessageView::User { content: UserContentView::Blocks(blocks), .. } => blocks_chars(blocks),
        MessageView::Assistant(a) => blocks_chars(a.blocks),
        MessageView::ToolResult { tool_name, blocks } => byte_size(tool_name) + blocks_chars(
            blocks,
        ),
        MessageView::Custom { role, payload } => byte_size(role) + byte_size(json_text(payload)),
    }
}

/// One token for four bytes, rounded up.
pub open spec fn quarter_up(chars: nat) -> nat {
    (chars + 3) / 4
}

/// The tokens that a message is taken for.
pub open spec fn message_tokens(message: MessageView) -> nat {
    quarter_up(message_chars(message))
}

/// The machine can count what the message counts as.
pub open spec fn message_fits(message: MessageView) -> bool {
    message_chars(message) <= usize::MAX
}

/// One token for four bytes, rounded up.
pub fn div_up_4(chars: usize) -> (r: u64)
    ensures
        r == quarter_up(chars as nat),
        chars <= 4 * r < chars + 4,
        r <= 0x4000_0000_0000_0000,
{
    let whole = (chars / 4) as u64;
    if chars % 4 == 0 {
        whole
    } else {
        whole + 1
    }
}

/// What a user block counts as.
pub fn user_block_chars(block: &UserContentBlock) -> (r: usize)
    ensures
        r == block_chars(block@),
        match block {
            UserContentBlock::Text(t) => r == byte_size(t.text@),
            UserContentBlock::Image(_) => r == 3072,
        },
{
    match block {
        UserContentBlock::Text(t) => byte_len(t.text.as_str()),
        UserContentBlock::Image(_) => IMAGE_CHARS,
    }
}

/// What a content block counts as, where the machine can count it.
pub fn try_content_block_chars(block: &ContentBlock) -> (r: Option<usize>)
    ensures
        match r {
            Some(n) => n == block_chars(block@),
            None => block_chars(block@) > usize::MAX,
        },
        match block {
            ContentBlock::Text(t) => r matches Some(n) && n == byte_size(t.text@),
            ContentBlock::Thinking(t) => r matches Some(n) && n == byte_size(t.thinking@),
            ContentBlock::Image(_) => r == Some(3072usize),
            ContentBlock::ToolCall(c) => r matches Some(n) ==> n == byte_size(c.name@) + byte_size(
                json_text(c.arguments.tree()),
            ),
        },
{
    match block {
        ContentBlock::Text(t) => Some(byte_len(t.text.as_str())),
        ContentBlock::Thinking(t) => Some(byte_len(t.thinking.as_str())),
        ContentBlock::Image(_) => Some(IMAGE_CHARS),
        ContentBlock::ToolCall(c) => {
            let arguments = c.arguments.compact();
            byte_len(c.name.as_str()).checked_add(byte_len(arguments.as_str()))
        },
    }
}

/// What a content block counts as.
pub fn content_block_chars(block: &ContentBlock) -> (r: usize)
    requires
        block_chars(block@) <= usize::MAX,
    ensures
        r == block_chars(block@),
{
    try_content_block_chars(block).unwrap()
}

/// Leaving blocks out makes the count no larger.
proof fn lemma_blocks_chars_prefix(blocks: Seq<BlockView>, i: int)
    requires
        0 <= i <= blocks.len(),
    ensures
        blocks_chars(blocks.take(i)) <= blocks_chars(blocks),
    decreases blocks.len() - i,
{
    if i < blocks.len() {
        lemma_blocks_chars_prefix(blocks, i + 1);
        assert(blocks.take(i + 1).drop_last() =~= blocks.take(i));
    } else {
        assert(blocks.take(i) =~= blocks);
    }
}

/// What user blocks count as on top of `start`, where the machine can count it.
fn checked_user_blocks_chars(start: usize, blocks: &Vec<UserContentBlock>) -> (r: Option<usize>)
    ensures
        match r {
            Some(n) => n == start + blocks_chars(user_blocks(blocks@)),
            None => start + blocks_chars(user_blocks(blocks@)) > usize::MAX,
        },
{
    let ghost shown = user_blocks(blocks@);
    let mut total: usize = start;
    let mut i: usize = 0;
    while i < blocks.len()
        invariant
            i <= blocks@.len(),
            shown == user_blocks(blocks@),
            total == start + blocks_chars(shown.take(i as int)),
        decreases blocks@.len() - i,
    {
        proof {
            assert(shown.take(i + 1).drop_last() =~= shown.take(i as int));
            lemma_blocks_chars_prefix(shown, i + 1);
        }
        match total.checked_add(user_block_chars(&blocks[i])) {
            Some(sum) => {
                total = sum;
            },
            None => {
                return None;
            },
        }
        i += 1;
    }
    assert(shown.take(i as int) =~= shown);
    Some(total)
}

/// What content blocks count as, where the machine can count it.
fn checked_content_blocks_chars(blocks: &Vec<ContentBlock>) -> (r: Option<usize>)
    ensures
        match r {
            Some(n) => n == blocks_chars(content_blocks(blocks@)),
            None => blocks_chars(content_blocks(blocks@)) > usize::MAX,
        },
{
    let ghost shown = content_blocks(blocks@);
    let mut total: usize = 0;
    let mut i: usize = 0;
    while i < blocks.len()
        invariant
            i <= blocks@.len(),
            shown == content_blocks(blocks@),
            total == blocks_chars(shown.take(i as int)),
        decreases blocks@.len() - i,
    {
        proof {
            assert(shown.take(i + 1).drop_last() =~= shown.take(i as int));
            lemma_blocks_chars_prefix(shown, i + 1);
        }
        let more = match try_content_block_chars(&blocks[i]) {
            Some(more) => more,
            None => {
                return None;
            },
        };
        match total.checked_add(more) {
            Some(sum) => {
                total = sum;
            },
            None => {
                return None;
            },
        }
        i += 1;
    }
    assert(shown.take(i as int) =~= shown);
    Some(total)
}

/// What a message counts as, where the machine can count it.
pub fn checked_message_chars(message: &AgentMessage) -> (r: Option<usize>)
    ensures
        match r {
            Some(n) => n == message_chars(message@),
            None => !message_fits(message@),
        },
{
    match message {
        AgentMessage::Llm(Message::User(u)) => match &u.content {
            UserContent::Text(s) => Some(byte_len(s.as_str())),
            UserContent::Blocks(blocks) => checked_user_blocks_chars(0, blocks),
        },
        AgentMessage::Llm(Message::Assistant(a)) => checked_content_blocks_chars(&a.content),
        AgentMessage::Llm(Message::ToolResult(t)) => checked_user_blocks_chars(
            byte_len(t.tool_name.as_str()),
            &t.content,
        ),
        AgentMessage::Custom(c) => {
            let payload = c.payload.compact();
            byte_len(c.role.as_str()).checked_add(byte_len(payload.as_str()))
        },
    }
}

/// The tokens that a message is taken for.
pub fn estimate_tokens(message: &AgentMessage) -> (r: u64)
    requires
        message_fits(message@),
    ensures
        r == message_tokens(message@),
        r <= 0x4000_0000_0000_0000,
{
    div_up_4(checked_message_chars(message).unwrap())
}

/// The tokens that a message is taken for, where the machine can count them.
pub fn try_estimate_tokens(message: &AgentMessage) -> (r: Option<u64>)
    ensures
        match r {
            Some(n) => message_fits(message@) && n == message_tokens(message@),
            None => !message_fits(message@),
        },
{
    if checked_message_chars(message).is_some() {
        Some(estimate_tokens(message))
    } else {
        None
    }
}

// ---------------------------------------------------------------------------------------------
// What the provider counted
// ---------------------------------------------------------------------------------------------

/// The tokens of a context, as the provider counts them: the total where it gives one, else the
/// sum of the parts.
pub open spec fn context_tokens(usage: Usage) -> nat {
    if usage.total_tokens > 0 {
        usage.total_tokens as nat
    } else {
        usage.input as nat + usage.output as nat + usage.cache_read as nat
            + usage.cache_write as nat
    }
}

/// The tokens of a context, as the provider counts them.
pub fn calculate_context_tokens(usage: &Usage) -> (r: u64)
    requires
        context_tokens(*usage) <= u64::MAX,
    ensures
        r == context_tokens(*usage),
        usage.total_tokens > 0 ==> r == usage.total_tokens,
        usage.total_tokens == 0 ==> r == usage.input + usage.output + usage.cache_read
            + usage.cache_write,
{
    if usage.total_tokens > 0 {
        usage.total_tokens
    } else {
        usage.input + usage.output + usage.cache_read + usage.cache_write
    }
}

/// The count that a message carries: an assistant message has one, unless it was broken off or
/// counts nothing at all.
pub open spec fn counted_usage(message: MessageView) -> Option<Usage> {
    match message {
        MessageView::Assistant(a) => if a.stop_reason == StopReason::Aborted || a.stop_reason
            == StopReason::Error || a.usage == Usage::none() {
            None
        } else {
            Some(a.usage)
        },
        _ => None,
    }
}

/// The count that a message carries.
pub fn assistant_usage(message: &AgentMessage) -> (r: Option<Usage>)
    ensures
        r == counted_usage(message@),
        match message {
            AgentMessage::Llm(Message::Assistant(a)) => r == if (a.stop_reason is Stop
                || a.stop_reason is Length || a.stop_reason is ToolUse) && (a.usage.input > 0
                || a.usage.output > 0 || a.usage.cache_read > 0 || a.usage.cache_write > 0
                || a.usage.total_tokens > 0) {
                Some(a.usage)
            } else {
                None
            },
            _ => r is None,
        },
{
    match message {
        AgentMessage::Llm(Message::Assistant(a)) => {
            match a.stop_reason {
                StopReason::Aborted => {
                    return None;
                },
                StopReason::Error => {
                    return None;
                },
                _ => {},
            }
            if a.usage.total_tokens == 0 && a.usage.input == 0 && a.usage.output == 0
                && a.usage.cache_read == 0 && a.usage.cache_write == 0 {
                return None;
            }
            Some(a.usage)
        },
        _ => None,
    }
}

/// The last message that carries a count.
pub open spec fn last_counted(messages: Seq<MessageView>) -> Option<int>
    decreases messages.len(),
{
    if messages.len() == 0 {
        None
    } else if counted_usage(messages.last()) is Some {
        Some(messages.len() - 1)
    } else {
        last_counted(messages.drop_last())
    }
}

/// The last message that carries a count is one of them, it does carry one, and none behind it
/// does; where there is none, no message carries one.
pub proof fn lemma_last_counted(messages: Seq<MessageView>)
    ensures
        match last_counted(messages) {
            Some(i) => 0 <= i < messages.len() && counted_usage(messages[i]) is Some && forall|
                k: int,
            |
                i < k < messages.len() ==> counted_usage(#[trigger] messages[k]) is None,
            None => forall|k: int|
                0 <= k < messages.len() ==> counted_usage(#[trigger] messages[k]) is None,
        },
    decreases messages.len(),
{
    if messages.len() > 0 {
        let front = messages.drop_last();
        lemma_last_counted(front);
        assert(forall|k: int| 0 <= k < front.len() ==> front[k] == #[trigger] messages[k]);
    }
}

// ---------------------------------------------------------------------------------------------
// A conversation
// ---------------------------------------------------------------------------------------------

/// The tokens that messages are taken for together.
pub open spec fn total_tokens(messages: Seq<MessageView>) -> nat
    decreases messages.len(),
{
    if messages.len() == 0 {
        0
    } else {
        total_tokens(messages.drop_last()) + message_tokens(messages.last())
    }
}

/// The machine can count each of the messages.
pub open spec fn each_fits(messages: Seq<MessageView>) -> bool {
    forall|i: int| 0 <= i < messages.len() ==> message_fits(#[trigger] messages[i])
}

/// Leaving messages out makes the count no larger.
pub proof fn lemma_total_tokens_prefix(messages: Seq<MessageView>, i: int)
    requires
        0 <= i <= messages.len(),
    ensures
        total_tokens(messages.take(i)) <= total_tokens(messages),
    decreases messages.len() - i,
{
    if i < messages.len() {
        lemma_total_tokens_prefix(messages, i + 1);
        assert(messages.take(i + 1).drop_last() =~= messages.take(i));
    } else {
        assert(messages.take(i) =~= messages);
    }
}

/// The count of two conversations in a row is the sum of the two counts.
pub proof fn lemma_total_tokens_concat(a: Seq<MessageView>, b: Seq<MessageView>)
    ensures
        total_tokens(a + b) == total_tokens(a) + total_tokens(b),
    decreases b.len(),
{
    if b.len() == 0 {
        assert(a + b =~= a);
    } else {
        assert((a + b).drop_last() =~= a + b.drop_last());
        lemma_total_tokens_concat(a, b.drop_last());
    }
}

/// The tokens of the messages from `from` on, where the machine can count each of them and their
/// sum.
pub fn checked_total_tokens(messages: &[AgentMessage], from: usize) -> (r: Option<u64>)
    requires
        from <= messages@.len(),
    ensures
        ({
            let tail = views(messages@).skip(from as int);
            match r {
                Some(n) => each_fits(tail) && n == total_tokens(tail),
                None => !each_fits(tail) || total_tokens(tail) > u64::MAX,
            }
        }),
{
    let ghost tail = views(messages@).skip(from as int);
    let mut total: u64 = 0;
    let mut i: usize = from;
    while i < messages.len()
        invariant
            from <= i <= messages@.len(),
            tail == views(messages@).skip(from as int),
            forall|k: int| 0 <= k < i - from ==> message_fits(#[trigger] tail[k]),
            total == total_tokens(tail.take(i - from)),
        decreases messages@.len() - i,
    {
        proof {
            assert(tail[i - from] == messages@[i as int]@);
            assert(tail.take(i - from + 1).drop_last() =~= tail.take(i - from));
            lemma_total_tokens_prefix(tail, i - from + 1);
        }
        let more = match try_estimate_tokens(&messages[i]) {
            Some(more) => more,
            None => {
                return None;
            },
        };
        match total.checked_add(more) {
            Some(sum) => {
                total = sum;
            },
            None => {
                return None;
            },
        }
        i += 1;
    }
    assert(tail.take(i - from) =~= tail);
    Some(total)
}

/// An estimate of how much of a model's window a conversation fills.
#[derive(Clone, Copy, Debug, PartialEq, Eq, Structural)]
pub struct ContextUsageEstimate {
    pub tokens: u64,
    /// What the provider counted up to the message that carries the last count.
    pub usage_tokens: u64,
    /// What the messages behind it are taken for.
    pub trailing_tokens: u64,
    /// Where the message stands that carries the last count, if there is one.
    pub last_usage_index: Option<usize>,
}

impl Default for ContextUsageEstimate {
    fn default() -> (r: ContextUsageEstimate)
        ensures
            r == (ContextUsageEstimate {
                tokens: 0,
                usage_tokens: 0,
                trailing_tokens: 0,
                last_usage_index: None,
            }),
    {
        ContextUsageEstimate {
            tokens: 0,
            usage_tokens: 0,
            trailing_tokens: 0,
            last_usage_index: None,
        }
    }
}

/// The tokens that the provider counted up to the last count.
pub open spec fn counted_tokens(messages: Seq<MessageView>) -> nat {
    match last_counted(messages) {
        Some(i) => context_tokens(counted_usage(messages[i]).unwrap()),
        None => 0,
    }
}

/// The messages behind the one that carries the last count; all of them where none does.
pub open spec fn uncounted(messages: Seq<MessageView>) -> Seq<MessageView> {
    match last_counted(messages) {
        Some(i) => messages.skip(i + 1),
        None => messages,
    }
}

/// The machine can count what an estimate needs.
pub open spec fn context_fits(messages: Seq<MessageView>) -> bool {
    each_fits(uncounted(messages)) && counted_tokens(messages) + total_tokens(uncounted(messages))
        <= u64::MAX
}

/// `r` is an estimate of how much of a model's window the messages fill.
pub open spec fn estimates(r: ContextUsageEstimate, messages: Seq<MessageView>) -> bool {
    &&& r.usage_tokens == counted_tokens(messages)
    &&& r.trailing_tokens == total_tokens(uncounted(messages))
    &&& r.tokens == r.usage_tokens + r.trailing_tokens
    &&& match r.last_usage_index {
        Some(i) => last_counted(messages) == Some(i as int),
        None => last_counted(messages) is None,
    }
}

/// How much of a model's window a conversation fills: what the provider counted last, and an
/// estimate of what came after.
pub fn estimate_context_tokens(messages: &[AgentMessage]) -> (r: ContextUsageEstimate)
    requires
        context_fits(views(messages@)),
    ensures
        r.usage_tokens == counted_tokens(views(messages@)),
        r.trailing_tokens == total_tokens(uncounted(views(messages@))),
        r.tokens == r.usage_tokens + r.trailing_tokens,
        match r.last_usage_index {
            Some(i) => last_counted(views(messages@)) == Some(i as int),
            None => last_counted(views(messages@)) is None,
        },
        estimates(r, views(messages@)),
{
    let ghost shown = views(messages@);
    proof {
        lemma_last_counted(shown);
    }
    match last_counted_index(messages) {
        Some(i) => {
            let usage = assistant_usage(&messages[i]).unwrap();
            let usage_tokens = calculate_context_tokens(&usage);
            let trailing = checked_total_tokens(messages, i + 1).unwrap();
            ContextUsageEstimate {
                tokens: usage_tokens + trailing,
                usage_tokens,
                trailing_tokens: trailing,
                last_usage_index: Some(i),
            }
        },
        None => {
            assert(shown.skip(0) =~= shown);
            let total = checked_total_tokens(messages, 0).unwrap();
            ContextUsageEstimate {
                tokens: total,
                usage_tokens: 0,
                trailing_tokens: total,
                last_usage_index: None,
            }
        },
    }
}

/// The last message that carries a count.
fn last_counted_index(messages: &[AgentMessage]) -> (r: Option<usize>)
    ensures
        match r {
            Some(i) => i < messages@.len() && last_counted(views(messages@)) == Some(i as int),
            None => last_counted(views(messages@)) is None,
        },
{
    let ghost shown = views(messages@);
    let mut i: usize = messages.len();
    assert(shown.take(i as int) =~= shown);
    while i > 0
        invariant
            i <= messages@.len(),
            shown == views(messages@),
            last_counted(shown) == last_counted(shown.take(i as int)),
        decreases i,
    {
        i -= 1;
        assert(shown.take(i + 1).drop_last() =~= shown.take(i as int));
        if assistant_usage(&messages[i]).is_some() {
            return Some(i);
        }
    }
    None
}

/// How much of a model's window a conversation fills, where the machine can count it.
pub fn try_estimate_context_tokens(messages: &[AgentMessage]) -> (r: Option<ContextUsageEstimate>)
    ensures
        r is Some <==> context_fits(views(messages@)),
        r matches Some(estimate) ==> estimate.usage_tokens == counted_tokens(views(messages@))
            && estimate.trailing_tokens == total_tokens(uncounted(views(messages@)))
            && estimate.tokens == estimate.usage_tokens + estimate.trailing_tokens
            && match estimate.last_usage_index {
            Some(i) => last_counted(views(messages@)) == Some(i as int),
            None => last_counted(views(messages@)) is None,
        },
        r matches Some(estimate) ==> estimates(estimate, views(messages@)),
{
    let ghost shown = views(messages@);
    proof {
        lemma_last_counted(shown);
    }
    let (counted, from) = match last_counted_index(messages) {
        Some(i) => {
            let usage = assistant_usage(&messages[i]).unwrap();
            (checked_context_tokens(&usage), i + 1)
        },
        None => {
            assert(shown.skip(0) =~= shown);
            (Some(0), 0)
        },
    };
    match (counted, checked_total_tokens(messages, from)) {
        (Some(counted), Some(trailing)) => if counted <= u64::MAX - trailing {
            Some(estimate_context_tokens(messages))
        } else {
            None
        },
        _ => None,
    }
}

/// The tokens of a context, as the provider counts them, where the machine can count them.
pub fn checked_context_tokens(usage: &Usage) -> (r: Option<u64>)
    ensures
        match r {
            Some(n) => n == context_tokens(*usage),
            None => context_tokens(*usage) > u64::MAX,
        },
{
    if usage.total_tokens > 0 {
        return Some(usage.total_tokens);
    }
    let sum = usage.input as u128 + usage.output as u128 + usage.cache_read as u128
        + usage.cache_write as u128;
    if sum <= u64::MAX as u128 {
        Some(sum as u64)
    } else {
        None
    }
}

// ---------------------------------------------------------------------------------------------
// Laws
// ---------------------------------------------------------------------------------------------

/// A token stands for four bytes, and the last one for what is left.
pub proof fn law_token_is_four_bytes(chars: nat)
    ensures
        4 * quarter_up(chars) >= chars,
        4 * quarter_up(chars) < chars + 4,
{
}

/// Blocks in a row count what they count one by one.
pub proof fn law_blocks_add_up(a: Seq<BlockView>, b: Seq<BlockView>)
    ensures
        blocks_chars(a + b) == blocks_chars(a) + blocks_chars(b),
    decreases b.len(),
{
    if b.len() == 0 {
        assert(a + b =~= a);
    } else {
        assert((a + b).drop_last() =~= a + b.drop_last());
        law_blocks_add_up(a, b.drop_last());
    }
}

/// A single block counts what that block counts.
proof fn lemma_one_block(block: BlockView)
    ensures
        blocks_chars(seq![block]) == block_chars(block),
{
    reveal_with_fuel(blocks_chars, 2);
    assert(seq![block].drop_last() =~= Seq::<BlockView>::empty());
}

/// Text and thoughts count their bytes, an image counts 3072 bytes whatever it shows, and a call
/// counts the bytes of the tool's name and of its arguments.
pub proof fn law_block_counts(
    s: Seq<char>,
    mime_type: Seq<char>,
    id: Seq<char>,
    arguments: JsonTree,
)
    ensures
        blocks_chars(Seq::empty()) == 0,
        blocks_chars(seq![BlockView::Text(s)]) == byte_size(s),
        blocks_chars(seq![BlockView::Thinking(s)]) == byte_size(s),
        blocks_chars(seq![BlockView::Image { data: s, mime_type }]) == 3072,
        blocks_chars(seq![BlockView::ToolCall { id, name: s, arguments }]) == byte_size(s)
            + byte_size(json_text(arguments)),
{
    lemma_one_block(BlockView::Text(s));
    lemma_one_block(BlockView::Thinking(s));
    lemma_one_block(BlockView::Image { data: s, mime_type });
    lemma_one_block(BlockView::ToolCall { id, name: s, arguments });
}

/// A message is taken for a quarter of its bytes, rounded up. What the user writes counts as one
/// block of text would; an answer counts its blocks; a tool's result counts the tool's name and
/// its blocks; a message of the program's own counts its role and its payload.
pub proof fn law_message_counts(
    s: Seq<char>,
    blocks: Seq<BlockView>,
    payload: JsonTree,
    answer: AssistantView,
    timestamp: int,
)
    ensures
        ({
            let t = message_tokens(
                MessageView::User { content: UserContentView::Text(s), timestamp },
            );
            byte_size(s) <= 4 * t < byte_size(s) + 4
        }),
        message_tokens(
            MessageView::User {
                content: UserContentView::Blocks(seq![BlockView::Text(s)]),
                timestamp,
            },
        ) == message_tokens(MessageView::User { content: UserContentView::Text(s), timestamp }),
        ({
            let t = message_tokens(
                MessageView::User { content: UserContentView::Blocks(blocks), timestamp },
            );
            blocks_chars(blocks) <= 4 * t < blocks_chars(blocks) + 4
        }),
        ({
            let t = message_tokens(MessageView::Assistant(answer));
            blocks_chars(answer.blocks) <= 4 * t < blocks_chars(answer.blocks) + 4
        }),
        ({
            let t = message_tokens(MessageView::ToolResult { tool_name: s, blocks });
            let bytes = byte_size(s) + blocks_chars(blocks);
            bytes <= 4 * t < bytes + 4
        }),
        ({
            let t = message_tokens(MessageView::Custom { role: s, payload });
            let bytes = byte_size(s) + byte_size(json_text(payload));
            bytes <= 4 * t < bytes + 4
        }),
{
    lemma_one_block(BlockView::Text(s));
}

/// A conversation of one message is taken for what that message is taken for, and one of none for
/// nothing.
pub proof fn law_single_message_counts(message: MessageView)
    ensures
        total_tokens(Seq::empty()) == 0,
        total_tokens(seq![message]) == message_tokens(message),
{
    reveal_with_fuel(total_tokens, 2);
    assert(seq![message].drop_last() =~= Seq::<MessageView>::empty());
}

/// An answer that ran to its end, was cut at its length or calls a tool carries its count, as soon
/// as one of the five counters is not zero.
pub proof fn law_answer_carries_its_count(answer: AssistantView)
    requires
        answer.stop_reason is Stop || answer.stop_reason is Length || answer.stop_reason
            is ToolUse,
        answer.usage.input > 0 || answer.usage.output > 0 || answer.usage.cache_read > 0
            || answer.usage.cache_write > 0 || answer.usage.total_tokens > 0,
    ensures
        counted_usage(MessageView::Assistant(answer)) == Some(answer.usage),
{
}

/// What was broken off or failed carries no count, nor does an answer whose counters are all zero,
/// nor does any message that is no answer.
pub proof fn law_other_messages_carry_no_count(message: MessageView)
    requires
        match message {
            MessageView::Assistant(a) => a.stop_reason is Aborted || a.stop_reason is Error || (
            a.usage.input == 0 && a.usage.output == 0 && a.usage.cache_read == 0
                && a.usage.cache_write == 0 && a.usage.total_tokens == 0),
            MessageView::User { .. } => true,
            MessageView::ToolResult { .. } => true,
            MessageView::Custom { .. } => true,
        },
    ensures
        counted_usage(message) is None,
{
}

/// Where an answer with a count is followed by nothing that has one, an estimate takes the count
/// of that answer: the total that it gives, or the sum of the four parts where it gives none, and
/// then only what comes behind it.
pub proof fn law_last_answer_is_counted(messages: Seq<MessageView>, i: int, answer: AssistantView)
    requires
        0 <= i < messages.len(),
        messages[i] == MessageView::Assistant(answer),
        answer.stop_reason is Stop || answer.stop_reason is Length || answer.stop_reason
            is ToolUse,
        answer.usage.input > 0 || answer.usage.output > 0 || answer.usage.cache_read > 0
            || answer.usage.cache_write > 0 || answer.usage.total_tokens > 0,
        forall|k: int|
            i < k < messages.len() ==> match #[trigger] messages[k] {
                MessageView::Assistant(a) => a.stop_reason is Aborted || a.stop_reason is Error
                    || (a.usage.input == 0 && a.usage.output == 0 && a.usage.cache_read == 0
                    && a.usage.cache_write == 0 && a.usage.total_tokens == 0),
                _ => true,
            },
    ensures
        last_counted(messages) == Some(i),
        answer.usage.total_tokens > 0 ==> counted_tokens(messages) == answer.usage.total_tokens,
        answer.usage.total_tokens == 0 ==> counted_tokens(messages) == answer.usage.input
            + answer.usage.output + answer.usage.cache_read + answer.usage.cache_write,
        uncounted(messages) == messages.subrange(i + 1, messages.len() as int),
{
    lemma_last_counted(messages);
    law_answer_carries_its_count(answer);
    assert forall|k: int| i < k < messages.len() implies counted_usage(#[trigger] messages[k])
        is None by {
        law_other_messages_carry_no_count(messages[k]);
    }
    match last_counted(messages) {
        Some(j) => {
            assert(j < i ==> counted_usage(messages[i]) is None);
            assert(i < j ==> counted_usage(messages[j]) is None);
        },
        None => {
            assert(counted_usage(messages[i]) is None);
        },
    }
    assert(messages.skip(i + 1) =~= messages.subrange(i + 1, messages.len() as int));
}

/// Where no answer has a count, an estimate counts every message by its size.
pub proof fn law_without_answer_all_is_estimated(messages: Seq<MessageView>)
    requires
        forall|k: int|
            0 <= k < messages.len() ==> match #[trigger] messages[k] {
                MessageView::Assistant(a) => a.stop_reason is Aborted || a.stop_reason is Error
                    || (a.usage.input == 0 && a.usage.output == 0 && a.usage.cache_read == 0
                    && a.usage.cache_write == 0 && a.usage.total_tokens == 0),
                _ => true,
            },
    ensures
        last_counted(messages) is None,
        counted_tokens(messages) == 0,
        uncounted(messages) == messages,
{
    lemma_last_counted(messages);
    assert forall|k: int| 0 <= k < messages.len() implies counted_usage(#[trigger] messages[k])
        is None by {
        law_other_messages_carry_no_count(messages[k]);
    }
}

/// A message can be counted where its bytes are no more than the machine can count, and an estimate
/// can be made where each message that it counts can be and the sum is no more than 64 bits hold.
pub proof fn law_what_can_be_counted(message: MessageView, messages: Seq<MessageView>)
    ensures
        message_fits(message) <==> message_chars(message) <= usize::MAX,
        context_fits(messages) <==> (forall|i: int|
            0 <= i < uncounted(messages).len() ==> message_chars(#[trigger] uncounted(messages)[i])
                <= usize::MAX) && counted_tokens(messages) + total_tokens(uncounted(messages))
            <= 0xffff_ffff_ffff_ffff,
{
    let tail = uncounted(messages);
    if each_fits(tail) {
        assert forall|i: int| 0 <= i < tail.len() implies message_chars(#[trigger] tail[i])
            <= usize::MAX by {
            assert(message_fits(tail[i]));
        }
    }
}

/// An estimate points to the last answer that ran to its end, was cut at its length or calls a tool
/// and has a counter that is not zero. It takes the total of that answer, or the sum of its four
/// parts where it gives none, and adds what the messages behind it are taken for.
pub proof fn law_estimate_rests_on_the_last_answer(
    r: ContextUsageEstimate,
    messages: Seq<MessageView>,
    i: int,
    answer: AssistantView,
)
    requires
        estimates(r, messages),
        0 <= i < messages.len(),
        messages[i] == MessageView::Assistant(answer),
        answer.stop_reason is Stop || answer.stop_reason is Length || answer.stop_reason
            is ToolUse,
        answer.usage.input > 0 || answer.usage.output > 0 || answer.usage.cache_read > 0
            || answer.usage.cache_write > 0 || answer.usage.total_tokens > 0,
        forall|k: int|
            i < k < messages.len() ==> match #[trigger] messages[k] {
                MessageView::Assistant(a) => a.stop_reason is Aborted || a.stop_reason is Error
                    || (a.usage.input == 0 && a.usage.output == 0 && a.usage.cache_read == 0
                    && a.usage.cache_write == 0 && a.usage.total_tokens == 0),
                _ => true,
            },
    ensures
        r.last_usage_index is Some,
        r.last_usage_index->0 == i,
        answer.usage.total_tokens > 0 ==> r.usage_tokens == answer.usage.total_tokens,
        answer.usage.total_tokens == 0 ==> r.usage_tokens == answer.usage.input
            + answer.usage.output + answer.usage.cache_read + answer.usage.cache_write,
        r.trailing_tokens == total_tokens(messages.subrange(i + 1, messages.len() as int)),
        r.tokens == r.usage_tokens + r.trailing_tokens,
{
    law_last_answer_is_counted(messages, i, answer);
}

/// Without such an answer an estimate points nowhere and counts every message by its size.
pub proof fn law_estimate_without_an_answer(r: ContextUsageEstimate, messages: Seq<MessageView>)
    requires
        estimates(r, messages),
        forall|k: int|
            0 <= k < messages.len() ==> match #[trigger] messages[k] {
                MessageView::Assistant(a) => a.stop_reason is Aborted || a.stop_reason is Error
                    || (a.usage.input == 0 && a.usage.output == 0 && a.usage.cache_read == 0
                    && a.usage.cache_write == 0 && a.usage.total_tokens == 0),
                _ => true,
            },
    ensures
        r.last_usage_index is None,
        r.usage_tokens == 0,
        r.trailing_tokens == total_tokens(messages),
        r.tokens == r.trailing_tokens,
{
    law_without_answer_all_is_estimated(messages);
}

} // verus!
