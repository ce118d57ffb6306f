//! A conversation written out as text.

use crate::json::JsonTree;
use crate::message::{
    content_blocks, user_blocks, views, AgentMessage, AssistantView, BlockView, ContentBlock,
    Message, MessageView, UserContent, UserContentBlock, UserContentView,
};
use crate::outside::{json_text, uppercase, uppercase_text};
use vstd::prelude::*;

verus! {

/// How a block is written.
pub open spec fn block_text(block: BlockView) -> Seq<char> {
    match block {
        BlockView::Text(s) => s,
        BlockView::Thinking(s) => "<thinking>"@ + s + "</thinking>"@,
        BlockView::Image { .. } => "<image>"@,
        BlockView::ToolCall { name, arguments, .. } => "<tool_call name=\""@ + name + "\">"@
            + json_text(arguments) + "</tool_call>"@,
    }
}

/// The text of a block of text; nothing of any other.
pub open spec fn plain_text(block: BlockView) -> Seq<char> {
    match block {
        BlockView::Text(s) => s,
        _ => Seq::empty(),
    }
}

/// How blocks are written, one behind the other.
pub open spec fn blocks_text(blocks: Seq<BlockView>) -> Seq<char>
    decreases blocks.len(),
{
    if blocks.len() == 0 {
        Seq::empty()
    } else {
        blocks_text(blocks.drop_last()) + block_text(blocks.last())
    }
}

/// The text of the blocks of text, one behind the other.
pub open spec fn plain_texts(blocks: Seq<BlockView>) -> Seq<char>
    decreases blocks.len(),
{
    if blocks.len() == 0 {
        Seq::empty()
    } else {
        plain_texts(blocks.drop_last()) + plain_text(blocks.last())
    }
}

/// How a message is written.
pub open spec fn message_text(message: MessageView) -> Seq<char> {
    match message {
        MessageView::User { content: UserContentView::Text(s), .. } => "USER:\n"@ + s + "\n\n"@,
        MessageView::User { content: UserContentView::Blocks(blocks), .. } => "USER:\n"@
            + blocks_text(blocks) + "\n\n"@,
        MessageView::Assistant(a) => "ASSISTANT:\n"@ + blocks_text(a.blocks) + "\n\n"@,
        MessageView::ToolResult { tool_name, blocks } => "TOOL_RESULT["@ + tool_name + "]:\n"@
            + plain_texts(blocks) + "\n\n"@,
        MessageView::Custom { role, payload } => uppercase(role) + ":\n"@ + json_text(payload)
            + "\n\n"@,
    }
}

/// How a conversation is written.
pub open spec fn conversation_text(messages: Seq<MessageView>) -> Seq<char>
    decreases messages.len(),
{
    if messages.len() == 0 {
        Seq::empty()
    } else {
        conversation_text(messages.drop_last()) + message_text(messages.last())
    }
}

/// Two conversations in a row are written one behind the other.
pub proof fn lemma_conversation_concat(a: Seq<MessageView>, b: Seq<MessageView>)
    ensures
        conversation_text(a + b) == conversation_text(a) + conversation_text(b),
    decreases b.len(),
{
    if b.len() == 0 {
        assert(a + b =~= a);
        assert(conversation_text(a) + conversation_text(b) =~= conversation_text(a));
    } else {
        assert((a + b).drop_last() =~= a + b.drop_last());
        lemma_conversation_concat(a, b.drop_last());
        assert(conversation_text(a + b) =~= conversation_text(a) + conversation_text(b));
    }
}

/// One message is written as it is.
pub proof fn lemma_conversation_single(message: MessageView)
    ensures
        conversation_text(seq![message]) == message_text(message),
{
    assert(seq![message].drop_last() =~= Seq::<MessageView>::empty());
    assert(conversation_text(seq![message].drop_last()) == Seq::<char>::empty());
    assert(conversation_text(seq![message]) =~= message_text(message));
}

fn push_user_blocks(out: &mut String, blocks: &Vec<UserContentBlock>)
    ensures
        final(out)@ == old(out)@ + blocks_text(user_blocks(blocks@)),
{
    let ghost before = out@;
    let ghost shown = user_blocks(blocks@);
    let mut i: usize = 0;
    assert(before + blocks_text(shown.take(0)) =~= before);
    while i < blocks.len()
        invariant
            i <= blocks@.len(),
            shown == user_blocks(blocks@),
            out@ == before + blocks_text(shown.take(i as int)),
        decreases blocks@.len() - i,
    {
        assert(shown.take(i + 1).drop_last() =~= shown.take(i as int));
        match &blocks[i] {
            UserContentBlock::Text(t) => {
                out.push_str(t.text.as_str());
            },
            UserContentBlock::Image(_) => {
                out.push_str("<image>");
            },
        }
        i += 1;
        assert(out@ =~= before + blocks_text(shown.take(i as int)));
    }
    assert(shown.take(i as int) =~= shown);
}

fn push_user_texts(out: &mut String, blocks: &Vec<UserContentBlock>)
    ensures
        final(out)@ == old(out)@ + plain_texts(user_blocks(blocks@)),
{
    let ghost before = out@;
    let ghost shown = user_blocks(blocks@);
    let mut i: usize = 0;
    assert(before + plain_texts(shown.take(0)) =~= before);
    while i < blocks.len()
        invariant
            i <= blocks@.len(),
            shown == user_blocks(blocks@),
            out@ == before + plain_texts(shown.take(i as int)),
        decreases blocks@.len() - i,
    {
        assert(shown.take(i + 1).drop_last() =~= shown.take(i as int));
        if let UserContentBlock::Text(t) = &blocks[i] {
            out.push_str(t.text.as_str());
        }
        i += 1;
        assert(out@ =~= before + plain_texts(shown.take(i as int)));
    }
    assert(shown.take(i as int) =~= shown);
}

fn push_content_block(out: &mut String, block: &ContentBlock)
    ensures
        final(out)@ == old(out)@ + block_text(block@),
{
    let ghost before = out@;
    match block {
        ContentBlock::Text(t) => {
            out.push_str(t.text.as_str());
        },
        ContentBlock::Thinking(t) => {
            out.push_str("<thinking>");
            out.push_str(t.thinking.as_str());
            out.push_str("</thinking>");
        },
        ContentBlock::Image(_) => {
            out.push_str("<image>");
        },
        ContentBlock::ToolCall(c) => {
            let arguments = c.arguments.compact();
            out.push_str("<tool_call name=\"");
            out.push_str(c.name.as_str());
            out.push_str("\">");
            out.push_str(arguments.as_str());
            out.push_str("</tool_call>");
        },
    }
    assert(out@ =~= before + block_text(block@));
}

fn push_content_blocks(out: &mut String, blocks: &Vec<ContentBlock>)
    ensures
        final(out)@ == old(out)@ + blocks_text(content_blocks(blocks@)),
{
    let ghost before = out@;
    let ghost shown = content_blocks(blocks@);
    let mut i: usize = 0;
    assert(before + blocks_text(shown.take(0)) =~= before);
    while i < blocks.len()
        invariant
            i <= blocks@.len(),
            shown == content_blocks(blocks@),
            out@ == before + blocks_text(shown.take(i as int)),
        decreases blocks@.len() - i,
    {
        assert(shown.take(i + 1).drop_last() =~= shown.take(i as int));
        push_content_block(out, &blocks[i]);
        i += 1;
        assert(out@ =~= before + blocks_text(shown.take(i as int)));
    }
    assert(shown.take(i as int) =~= shown);
}

fn push_message(out: &mut String, message: &AgentMessage)
    ensures
        final(out)@ == old(out)@ + message_text(message@),
{
    let ghost before = out@;
    match message {
        AgentMessage::Llm(Message::User(u)) => {
            out.push_str("USER:\n");
            match &u.content {
                UserContent::Text(s) => {
                    out.push_str(s.as_str());
                },
                UserContent::Blocks(blocks) => {
                    push_user_blocks(out, blocks);
                },
            }
            out.push_str("\n\n");
        },
        AgentMessage::Llm(Message::Assistant(a)) => {
            out.push_str("ASSISTANT:\n");
            push_content_blocks(out, &a.content);
            out.push_str("\n\n");
        },
        AgentMessage::Llm(Message::ToolResult(t)) => {
            out.push_str("TOOL_RESULT[");
            out.push_str(t.tool_name.as_str());
            out.push_str("]:\n");
            push_user_texts(out, &t.content);
            out.push_str("\n\n");
        },
        AgentMessage::Custom(c) => {
            let role = uppercase_text(c.role.as_str());
            let payload = c.payload.compact();
            out.push_str(role.as_str());
            out.push_str(":\n");
            out.push_str(payload.as_str());
            out.push_str("\n\n");
        },
    }
    assert(out@ =~= before + message_text(message@));
}

/// Writes a conversation out as text.
pub fn serialize_conversation(messages: &[AgentMessage]) -> (r: String)
    ensures
        r@ == conversation_text(views(messages@)),
{
    let ghost shown = views(messages@);
    let mut out = String::new();
    let mut i: usize = 0;
    while i < messages.len()
        invariant
            i <= messages@.len(),
            shown == views(messages@),
            out@ == conversation_text(shown.take(i as int)),
        decreases messages@.len() - i,
    {
        assert(shown.take(i + 1).drop_last() =~= shown.take(i as int));
        push_message(&mut out, &messages[i]);
        i += 1;
    }
    assert(shown.take(i as int) =~= shown);
    out
}

/// Appends the text of the blocks of text.
pub(crate) fn push_content_texts(out: &mut String, blocks: &Vec<ContentBlock>)
    ensures
        final(out)@ == old(out)@ + plain_texts(content_blocks(blocks@)),
{
    let ghost before = out@;
    let ghost shown = content_blocks(blocks@);
    let mut i: usize = 0;
    assert(before + plain_texts(shown.take(0)) =~= before);
    while i < blocks.len()
        invariant
            i <= blocks@.len(),
            shown == content_blocks(blocks@),
            out@ == before + plain_texts(shown.take(i as int)),
        decreases blocks@.len() - i,
    {
        assert(shown.take(i + 1).drop_last() =~= shown.take(i as int));
        if let ContentBlock::Text(t) = &blocks[i] {
            out.push_str(t.text.as_str());
        }
        i += 1;
        assert(out@ =~= before + plain_texts(shown.take(i as int)));
    }
    assert(shown.take(i as int) =~= shown);
}

// ---------------------------------------------------------------------------------------------
// Laws
// ---------------------------------------------------------------------------------------------

/// Blocks are written one behind the other with nothing between them.
pub proof fn law_blocks_are_written_in_a_row(a: Seq<BlockView>, b: Seq<BlockView>)
    ensures
        blocks_text(Seq::empty()).len() == 0,
        blocks_text(a + b) == blocks_text(a) + blocks_text(b),
        plain_texts(Seq::empty()).len() == 0,
        plain_texts(a + b) == plain_texts(a) + plain_texts(b),
    decreases b.len(),
{
    if b.len() == 0 {
        assert(a + b =~= a);
        assert(blocks_text(a) + blocks_text(b) =~= blocks_text(a));
        assert(plain_texts(a) + plain_texts(b) =~= plain_texts(a));
    } else {
        assert((a + b).drop_last() =~= a + b.drop_last());
        law_blocks_are_written_in_a_row(a, b.drop_last());
        assert(blocks_text(a + b) =~= blocks_text(a) + blocks_text(b));
        assert(plain_texts(a + b) =~= plain_texts(a) + plain_texts(b));
    }
}

/// A single block is written as that block, and has the plain text of it.
proof fn lemma_one_block(block: BlockView)
    ensures
        blocks_text(seq![block]) == block_text(block),
        plain_texts(seq![block]) == plain_text(block),
{
    reveal_with_fuel(blocks_text, 2);
    reveal_with_fuel(plain_texts, 2);
    assert(seq![block].drop_last() =~= Seq::<BlockView>::empty());
    assert(blocks_text(seq![block]) =~= block_text(block));
    assert(plain_texts(seq![block]) =~= plain_text(block));
}

/// Text is written as it is, thoughts in tags of their own, an image as a mark that does not show
/// it, and a call with the tool's name and its arguments.
pub proof fn law_block_is_written(
    s: Seq<char>,
    mime_type: Seq<char>,
    id: Seq<char>,
    arguments: JsonTree,
)
    ensures
        blocks_text(seq![BlockView::Text(s)]) == s,
        blocks_text(seq![BlockView::Thinking(s)]) == "<thinking>"@ + s + "</thinking>"@,
        blocks_text(seq![BlockView::Image { data: s, mime_type }]) == "<image>"@,
        blocks_text(seq![BlockView::ToolCall { id, name: s, arguments }])
            == "<tool_call name=\""@ + s + "\">"@ + json_text(arguments) + "</tool_call>"@,
{
    lemma_one_block(BlockView::Text(s));
    lemma_one_block(BlockView::Thinking(s));
    lemma_one_block(BlockView::Image { data: s, mime_type });
    lemma_one_block(BlockView::ToolCall { id, name: s, arguments });
}

/// Plain text is what blocks of text hold; thoughts, images and calls have none.
pub proof fn law_only_text_is_plain_text(block: BlockView)
    ensures
        plain_texts(seq![block]) == match block {
            BlockView::Text(s) => s,
            BlockView::Thinking(_) => Seq::empty(),
            BlockView::Image { .. } => Seq::empty(),
            BlockView::ToolCall { .. } => Seq::empty(),
        },
{
    lemma_one_block(block);
}

/// A message is written under who speaks, with an empty line behind it: the user and the model
/// with all their blocks, a tool by its name with the plain text of its result, and any other
/// speaker in capitals with the payload.
pub proof fn law_message_is_written(
    s: Seq<char>,
    blocks: Seq<BlockView>,
    payload: JsonTree,
    answer: AssistantView,
    timestamp: int,
)
    ensures
        conversation_text(
            seq![MessageView::User { content: UserContentView::Text(s), timestamp }],
        ) == "USER:\n"@ + s + "\n\n"@,
        conversation_text(
            seq![MessageView::User { content: UserContentView::Blocks(blocks), timestamp }],
        ) == "USER:\n"@ + blocks_text(blocks) + "\n\n"@,
        conversation_text(seq![MessageView::Assistant(answer)]) == "ASSISTANT:\n"@ + blocks_text(
            answer.blocks,
        ) + "\n\n"@,
        conversation_text(seq![MessageView::ToolResult { tool_name: s, blocks }])
            == "TOOL_RESULT["@ + s + "]:\n"@ + plain_texts(blocks) + "\n\n"@,
        conversation_text(seq![MessageView::Custom { role: s, payload }]) == uppercase(s)
            + ":\n"@ + json_text(payload) + "\n\n"@,
{
    lemma_conversation_single(
        MessageView::User { content: UserContentView::Text(s), timestamp },
    );
    lemma_conversation_single(
        MessageView::User { content: UserContentView::Blocks(blocks), timestamp },
    );
    lemma_conversation_single(MessageView::Assistant(answer));
    lemma_conversation_single(MessageView::ToolResult { tool_name: s, blocks });
    lemma_conversation_single(MessageView::Custom { role: s, payload });
}

/// A conversation is written message by message, in its order.
pub proof fn law_messages_are_written_in_a_row(a: Seq<MessageView>, b: Seq<MessageView>)
    ensures
        conversation_text(Seq::empty()).len() == 0,
        conversation_text(a + b) == conversation_text(a) + conversation_text(b),
{
    lemma_conversation_concat(a, b);
}

} // verus!
