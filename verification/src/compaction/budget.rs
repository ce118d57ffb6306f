//! The prompt for a summary, kept within a budget: older messages are left out first, and then
//! older text.

use crate::compaction::conversation::{
    conversation_text, lemma_conversation_concat, lemma_conversation_single, serialize_conversation,
};
use crate::compaction::estimate::{
    checked_total_tokens, div_up_4, each_fits, estimate_tokens, law_single_message_counts,
    lemma_total_tokens_concat, message_tokens, quarter_up, total_tokens,
};
use crate::compaction::CompactionSettings;
use crate::json::text_option;
use crate::message::{
    optional_text, views, AgentMessage, Message, MessageView, UserContent, UserContentView,
    UserMessage,
};
use crate::model::Model;
use crate::outside::utc_now_millis;
use crate::text::{
    begins_with, byte_len, byte_size, decimal, decimal_text, first_chars, first_chars_of,
    last_bytes, last_bytes_of, lemma_byte_size_ascii, lemma_byte_size_bounds,
    lemma_byte_size_concat, lemma_last_bytes_fits,
};
use vstd::prelude::*;
use vstd::utf8::is_ascii_chars;

verus! {

/// What the model is told that writes the summary.
pub const SUMMARIZATION_SYSTEM_PROMPT: &'static str = "You are a context summarization assistant. Your task is to read a conversation between a user and an AI coding assistant, then produce a structured summary preserving the user's intent, the files and topics discussed, decisions made, and any work still in progress. Be concise but thorough; the assistant will rely on your summary instead of replaying the dropped messages.";

/// What stands before a conversation of which the older part was left out.
pub const OMITTED_CONTENT_NOTE: &'static str = "[compaction note: omitted older serialized content before summarization because the session exceeded the summarizer prompt budget]\n\n";

/// The tokens that a summary's prompt may take where the model's window is not known.
pub const DEFAULT_SUMMARY_PROMPT_TOKEN_BUDGET: u64 = 64_000;

/// The tokens that what stands around a prompt is taken for.
pub const FRAMING_TOKENS: u64 = 512;

// ---------------------------------------------------------------------------------------------
// The budget of a prompt
// ---------------------------------------------------------------------------------------------

/// The tokens that a summary's prompt may take: the window without what is held back, or four
/// fifths of the window where nothing would be left.
pub open spec fn prompt_budget(context_window: u32, reserve_tokens: u32) -> nat {
    if context_window == 0 {
        DEFAULT_SUMMARY_PROMPT_TOKEN_BUDGET as nat
    } else if context_window > reserve_tokens {
        (context_window - reserve_tokens) as nat
    } else {
        context_window as nat * 4 / 5
    }
}

/// The tokens that a summary's prompt may take.
pub fn summarization_prompt_budget(model: &Model, settings: &CompactionSettings) -> (r: u64)
    ensures
        r == prompt_budget(model.context_window, settings.reserve_tokens),
        model.context_window == 0 ==> r == 64000,
        model.context_window > settings.reserve_tokens ==> r + settings.reserve_tokens
            == model.context_window,
        0 < model.context_window <= settings.reserve_tokens ==> 5 * r <= 4
            * model.context_window < 5 * r + 5,
{
    if model.context_window == 0 {
        return DEFAULT_SUMMARY_PROMPT_TOKEN_BUDGET;
    }
    if model.context_window > settings.reserve_tokens {
        (model.context_window - settings.reserve_tokens) as u64
    } else {
        model.context_window as u64 * 4 / 5
    }
}

/// The tokens that a prompt takes besides the conversation.
pub open spec fn overhead_tokens(custom_instructions: Option<Seq<char>>) -> nat {
    FRAMING_TOKENS as nat + quarter_up(byte_size(SUMMARIZATION_SYSTEM_PROMPT@))
        + match custom_instructions {
        Some(s) => quarter_up(byte_size(s)),
        None => 0,
    }
}

/// The tokens that a prompt takes.
pub open spec fn prompt_tokens(
    messages: Seq<MessageView>,
    custom_instructions: Option<Seq<char>>,
) -> nat {
    overhead_tokens(custom_instructions) + total_tokens(messages)
}

/// The machine can count what a prompt takes.
pub open spec fn prompt_fits(
    messages: Seq<MessageView>,
    custom_instructions: Option<Seq<char>>,
) -> bool {
    each_fits(messages) && prompt_tokens(messages, custom_instructions) <= u64::MAX
}

/// The tokens that a prompt takes besides the conversation.
fn overhead(custom_instructions: Option<&str>) -> (r: u64)
    ensures
        r == overhead_tokens(text_option(custom_instructions)),
        r <= 0x8000_0000_0000_0200,
{
    let custom = match custom_instructions {
        Some(s) => div_up_4(byte_len(s)),
        None => 0,
    };
    FRAMING_TOKENS + div_up_4(byte_len(SUMMARIZATION_SYSTEM_PROMPT)) + custom
}

/// The tokens that a prompt takes, where the machine can count them.
pub(crate) fn checked_prompt_tokens(messages: &[AgentMessage], custom_instructions: Option<&str>) -> (r:
    Option<u64>)
    ensures
        match r {
            Some(n) => prompt_fits(views(messages@), text_option(custom_instructions)) && n
                == prompt_tokens(views(messages@), text_option(custom_instructions)),
            None => !prompt_fits(views(messages@), text_option(custom_instructions)),
        },
{
    assert(views(messages@).skip(0) =~= views(messages@));
    match checked_total_tokens(messages, 0) {
        Some(conversation) => overhead(custom_instructions).checked_add(conversation),
        None => None,
    }
}

/// The tokens that a prompt takes.
pub fn summarize_prompt_estimate_tokens(
    messages: &[AgentMessage],
    custom_instructions: Option<&str>,
) -> (r: u64)
    requires
        prompt_fits(views(messages@), text_option(custom_instructions)),
    ensures
        r == prompt_tokens(views(messages@), text_option(custom_instructions)),
{
    checked_prompt_tokens(messages, custom_instructions).unwrap()
}

/// The tokens that a prompt takes, where the machine can count them.
pub fn try_summarize_prompt_estimate_tokens(
    messages: &[AgentMessage],
    custom_instructions: Option<&str>,
) -> (r: Option<u64>)
    ensures
        match r {
            Some(n) => prompt_fits(views(messages@), text_option(custom_instructions)) && n
                == prompt_tokens(views(messages@), text_option(custom_instructions)),
            None => !prompt_fits(views(messages@), text_option(custom_instructions)),
        },
{
    if checked_prompt_tokens(messages, custom_instructions).is_some() {
        Some(summarize_prompt_estimate_tokens(messages, custom_instructions))
    } else {
        None
    }
}

// ---------------------------------------------------------------------------------------------
// Leaving older messages out
// ---------------------------------------------------------------------------------------------

/// Where the messages begin that are kept, when those from `i` on are kept already and the prompt
/// takes `total` with them: back to the last one that still fits, but at least one is kept.
pub open spec fn kept_start(messages: Seq<MessageView>, i: int, total: nat, budget: nat) -> int
    decreases i,
{
    if i <= 0 {
        0
    } else {
        let with_more = total + message_tokens(messages[i - 1]);
        if i < messages.len() && with_more > budget {
            i
        } else if with_more >= budget {
            i - 1
        } else {
            kept_start(messages, i - 1, with_more, budget)
        }
    }
}

/// What is said of messages that were left out.
pub open spec fn omitted_note(count: nat) -> Seq<char> {
    "[compaction note: omitted "@ + decimal(count)
        + " older message(s) before summarization because the session exceeded the summarizer prompt budget]"@
}

/// The messages that go into a prompt: all of them where they fit, else the later ones, with a
/// note of how many were left out before them.
pub open spec fn trimmed_messages(
    messages: Seq<MessageView>,
    budget: nat,
    custom_instructions: Option<Seq<char>>,
    now: int,
) -> Seq<MessageView> {
    let from = kept_start(
        messages,
        messages.len() as int,
        overhead_tokens(custom_instructions),
        budget,
    );
    if prompt_tokens(messages, custom_instructions) <= budget || from == 0 {
        messages
    } else {
        seq![
            MessageView::User {
                content: UserContentView::Text(omitted_note(from as nat)),
                timestamp: now,
            },
        ] + messages.skip(from)
    }
}

/// What is kept begins at one of the messages; it fits the budget or is a single message; and one
/// more message would not have fitted, unless nothing was left of the budget.
proof fn lemma_kept_start(messages: Seq<MessageView>, i: int, total: nat, budget: nat)
    requires
        0 <= i <= messages.len(),
        i < messages.len() ==> total < budget,
    ensures
        ({
            let from = kept_start(messages, i, total, budget);
            let kept = total + total_tokens(messages.subrange(from, i));
            &&& 0 <= from <= i
            &&& messages.len() > 0 ==> from < messages.len()
            &&& kept <= budget || from == messages.len() - 1 || messages.len() == 0
            &&& from > 0 ==> kept + message_tokens(messages[from - 1]) > budget || kept >= budget
        }),
    decreases i,
{
    let from = kept_start(messages, i, total, budget);
    if i > 0 {
        let with_more = total + message_tokens(messages[i - 1]);
        if i < messages.len() && with_more > budget {
            assert(messages.subrange(from, i) =~= Seq::<MessageView>::empty());
        } else {
            if with_more < budget {
                lemma_kept_start(messages, i - 1, with_more, budget);
            } else {
                assert(messages.subrange(from, i - 1) =~= Seq::<MessageView>::empty());
            }
            assert(messages.subrange(from, i).drop_last() =~= messages.subrange(from, i - 1));
        }
    } else {
        assert(messages.subrange(from, i) =~= Seq::<MessageView>::empty());
    }
}

/// Where the kept messages begin.
fn kept_start_of(messages: &[AgentMessage], overhead: u64, budget: u64) -> (r: usize)
    requires
        each_fits(views(messages@)),
        overhead + total_tokens(views(messages@)) <= u64::MAX,
    ensures
        r == kept_start(views(messages@), messages@.len() as int, overhead as nat, budget as nat),
        r <= messages@.len(),
{
    let ghost shown = views(messages@);
    let ghost whole = kept_start(shown, shown.len() as int, overhead as nat, budget as nat);
    let mut total: u64 = overhead;
    let mut i: usize = messages.len();
    assert(shown.skip(i as int) =~= Seq::<MessageView>::empty());
    while i > 0
        invariant
            i <= messages@.len(),
            shown == views(messages@),
            each_fits(shown),
            overhead + total_tokens(shown) <= u64::MAX,
            total == overhead + total_tokens(shown.skip(i as int)),
            whole == kept_start(shown, i as int, total as nat, budget as nat),
            whole == kept_start(shown, shown.len() as int, overhead as nat, budget as nat),
        decreases i,
    {
        proof {
            assert(shown.skip(i - 1) =~= seq![shown[i - 1]] + shown.skip(i as int));
            lemma_total_tokens_concat(seq![shown[i - 1]], shown.skip(i as int));
            assert(seq![shown[i - 1]].drop_last() =~= Seq::<MessageView>::empty());
            assert(total_tokens(seq![shown[i - 1]]) == total_tokens(
                seq![shown[i - 1]].drop_last(),
            ) + message_tokens(shown[i - 1]));
            assert(shown =~= shown.take(i - 1) + shown.skip(i - 1));
            lemma_total_tokens_concat(shown.take(i - 1), shown.skip(i - 1));
            assert(shown[i - 1] == messages@[i - 1]@);
        }
        let with_more = total + estimate_tokens(&messages[i - 1]);
        if i < messages.len() && with_more > budget {
            return i;
        }
        i -= 1;
        total = with_more;
        if total >= budget {
            return i;
        }
    }
    0
}

/// The messages that go into a prompt; a note of what was left out bears the time `now_ms`.
pub fn trim_messages_for_summary_budget_at(
    messages: &[AgentMessage],
    budget_tokens: u64,
    custom_instructions: Option<&str>,
    now_ms: i64,
) -> (r: Vec<AgentMessage>)
    requires
        prompt_fits(views(messages@), text_option(custom_instructions)),
    ensures
        views(r@) == trimmed_messages(
            views(messages@),
            budget_tokens as nat,
            text_option(custom_instructions),
            now_ms as int,
        ),
{
    let ghost shown = views(messages@);
    let fits = summarize_prompt_estimate_tokens(messages, custom_instructions) <= budget_tokens;
    let from = if fits {
        0
    } else {
        kept_start_of(messages, overhead(custom_instructions), budget_tokens)
    };
    let mut out: Vec<AgentMessage> = Vec::new();
    let ghost mut front: Seq<MessageView> = Seq::empty();
    if from > 0 {
        let mut note = String::new();
        note.push_str("[compaction note: omitted ");
        note.push_str(decimal_text(from as u128).as_str());
        note.push_str(
            " older message(s) before summarization because the session exceeded the summarizer prompt budget]",
        );
        assert(note@ =~= omitted_note(from as nat));
        out.push(
            AgentMessage::Llm(
                Message::User(UserMessage { content: UserContent::Text(note), timestamp: now_ms }),
            ),
        );
        proof {
            front = views(out@);
        }
        assert(front =~= seq![
            MessageView::User {
                content: UserContentView::Text(omitted_note(from as nat)),
                timestamp: now_ms as int,
            },
        ]);
    }
    let mut i: usize = from;
    assert(views(out@) =~= front + shown.subrange(from as int, i as int));
    while i < messages.len()
        invariant
            from <= i <= messages@.len(),
            shown == views(messages@),
            views(out@) == front + shown.subrange(from as int, i as int),
        decreases messages@.len() - i,
    {
        let ghost before = out@;
        let copy = messages[i].clone();
        assert(copy@ == shown[i as int]);
        out.push(copy);
        assert(views(out@) =~= views(before).push(copy@));
        assert(shown.subrange(from as int, i + 1) =~= shown.subrange(from as int, i as int).push(
            shown[i as int],
        ));
        i += 1;
        assert(views(out@) =~= front + shown.subrange(from as int, i as int));
    }
    assert(shown.subrange(from as int, i as int) =~= shown.skip(from as int));
    assert(from == 0 ==> views(out@) =~= shown);
    out
}

/// The messages that go into a prompt; a note of what was left out bears the present time.
pub fn trim_messages_for_summary_budget(
    messages: &[AgentMessage],
    budget_tokens: u64,
    custom_instructions: Option<&str>,
) -> (r: Vec<AgentMessage>)
    requires
        prompt_fits(views(messages@), text_option(custom_instructions)),
    ensures
        exists|now: int|
            views(r@) == #[trigger] trimmed_messages(
                views(messages@),
                budget_tokens as nat,
                text_option(custom_instructions),
                now,
            ),
{
    trim_messages_for_summary_budget_at(
        messages,
        budget_tokens,
        custom_instructions,
        utc_now_millis(),
    )
}

/// The messages that go into a prompt, where the machine can count what it takes.
pub fn try_trim_messages_for_summary_budget(
    messages: &[AgentMessage],
    budget_tokens: u64,
    custom_instructions: Option<&str>,
) -> (r: Option<Vec<AgentMessage>>)
    ensures
        r is Some <==> prompt_fits(views(messages@), text_option(custom_instructions)),
        r matches Some(kept) ==> exists|now: int|
            views(kept@) == #[trigger] trimmed_messages(
                views(messages@),
                budget_tokens as nat,
                text_option(custom_instructions),
                now,
            ),
{
    if checked_prompt_tokens(messages, custom_instructions).is_some() {
        Some(trim_messages_for_summary_budget(messages, budget_tokens, custom_instructions))
    } else {
        None
    }
}

// ---------------------------------------------------------------------------------------------
// Leaving older text out
// ---------------------------------------------------------------------------------------------

/// The bytes of conversation that a budget leaves room for, four for a token.
pub open spec fn available_chars(budget: u64, overhead: nat) -> usize {
    let left = if budget > overhead {
        budget - overhead
    } else {
        0
    };
    if left * 4 > u64::MAX {
        u64::MAX as usize
    } else {
        (left * 4) as u64 as usize
    }
}

/// A conversation that has room, or as much of its end as has room behind a note that says so; of
/// the note itself no more than there is room for.
pub open spec fn capped(conversation: Seq<char>, available: nat) -> Seq<char> {
    let note = OMITTED_CONTENT_NOTE@;
    if byte_size(conversation) <= available {
        conversation
    } else if available <= byte_size(note) {
        first_chars(note, available as int)
    } else {
        note + last_bytes(conversation, (available - byte_size(note)) as nat)
    }
}

/// The conversation as it goes into a prompt. The time that a note bears is not written.
pub open spec fn budgeted_text(
    messages: Seq<MessageView>,
    budget: u64,
    custom_instructions: Option<Seq<char>>,
) -> Seq<char> {
    capped(
        conversation_text(trimmed_messages(messages, budget as nat, custom_instructions, 0)),
        available_chars(budget, overhead_tokens(custom_instructions)) as nat,
    )
}

/// How a trimmed conversation is written does not depend on the time that its note bears.
proof fn lemma_trimmed_text(
    messages: Seq<MessageView>,
    budget: nat,
    custom_instructions: Option<Seq<char>>,
    now: int,
    other: int,
)
    ensures
        conversation_text(trimmed_messages(messages, budget, custom_instructions, now))
            == conversation_text(trimmed_messages(messages, budget, custom_instructions, other)),
{
    let from = kept_start(
        messages,
        messages.len() as int,
        overhead_tokens(custom_instructions),
        budget,
    );
    let content = UserContentView::Text(omitted_note(from as nat));
    let a = MessageView::User { content, timestamp: now };
    let b = MessageView::User { content, timestamp: other };
    lemma_conversation_single(a);
    lemma_conversation_single(b);
    lemma_conversation_concat(seq![a], messages.skip(from));
    lemma_conversation_concat(seq![b], messages.skip(from));
}

/// The bytes of conversation that a budget leaves room for.
fn available(budget: u64, overhead: u64) -> (r: usize)
    ensures
        r == available_chars(budget, overhead as nat),
{
    let left = budget.saturating_sub(overhead);
    let chars = if left > u64::MAX / 4 {
        u64::MAX
    } else {
        left * 4
    };
    chars as usize
}

/// The conversation as it goes into a prompt.
pub fn serialize_conversation_for_summary_budget(
    messages: &[AgentMessage],
    budget_tokens: u64,
    custom_instructions: Option<&str>,
) -> (r: String)
    requires
        prompt_fits(views(messages@), text_option(custom_instructions)),
    ensures
        r@ == budgeted_text(views(messages@), budget_tokens, text_option(custom_instructions)),
{
    let kept = trim_messages_for_summary_budget(messages, budget_tokens, custom_instructions);
    proof {
        let now = choose|now: int|
            views(kept@) == #[trigger] trimmed_messages(
                views(messages@),
                budget_tokens as nat,
                text_option(custom_instructions),
                now,
            );
        lemma_trimmed_text(
            views(messages@),
            budget_tokens as nat,
            text_option(custom_instructions),
            now,
            0,
        );
    }
    let conversation = serialize_conversation(kept.as_slice());
    let available = available(budget_tokens, overhead(custom_instructions));
    if byte_len(conversation.as_str()) <= available {
        return conversation;
    }
    let note_len = byte_len(OMITTED_CONTENT_NOTE);
    if available <= note_len {
        return first_chars_of(OMITTED_CONTENT_NOTE, available);
    }
    let mut out = String::new();
    out.push_str(OMITTED_CONTENT_NOTE);
    out.push_str(last_bytes_of(conversation.as_str(), available - note_len).as_str());
    assert(out@ =~= OMITTED_CONTENT_NOTE@ + last_bytes(
        conversation@,
        (available - note_len) as nat,
    ));
    out
}

/// The conversation as it goes into a prompt, where the machine can count what that takes.
pub fn try_serialize_conversation_for_summary_budget(
    messages: &[AgentMessage],
    budget_tokens: u64,
    custom_instructions: Option<&str>,
) -> (r: Option<String>)
    ensures
        optional_text(r) == if prompt_fits(views(messages@), text_option(custom_instructions)) {
            Some(budgeted_text(views(messages@), budget_tokens, text_option(custom_instructions)))
        } else {
            None
        },
{
    if checked_prompt_tokens(messages, custom_instructions).is_some() {
        Some(
            serialize_conversation_for_summary_budget(messages, budget_tokens, custom_instructions),
        )
    } else {
        None
    }
}

// ---------------------------------------------------------------------------------------------
// Laws
// ---------------------------------------------------------------------------------------------

/// What a budget leaves room for is no more than four bytes for each token of it.
proof fn lemma_available_bound(budget: u64, overhead: nat)
    ensures
        available_chars(budget, overhead) <= 4 * budget,
        budget <= overhead ==> available_chars(budget, overhead) == 0,
        budget > overhead ==> available_chars(budget, overhead) <= 4 * (budget - overhead),
{
    assert(forall|x: u64| #[trigger] (x as usize) <= x) by (bit_vector);
    assert(0u64 as usize == 0) by (bit_vector);
}

/// Trimming keeps an unbroken run of messages up to the last one. Where it leaves any out, it says
/// how many, in a message before the others.
pub proof fn law_trimming_keeps_the_end(
    messages: Seq<MessageView>,
    budget: nat,
    custom_instructions: Option<Seq<char>>,
    now: int,
)
    ensures
        ({
            let trimmed = trimmed_messages(messages, budget, custom_instructions, now);
            ||| trimmed == messages
            ||| exists|from: int|
                0 < from < messages.len() && trimmed == seq![
                    MessageView::User {
                        content: UserContentView::Text(omitted_note(from as nat)),
                        timestamp: now,
                    },
                ] + #[trigger] messages.skip(from)
        }),
{
    let overhead = overhead_tokens(custom_instructions);
    lemma_kept_start(messages, messages.len() as int, overhead, budget);
    let from = kept_start(messages, messages.len() as int, overhead, budget);
    let trimmed = trimmed_messages(messages, budget, custom_instructions, now);
    if trimmed != messages {
        assert(trimmed == seq![
            MessageView::User {
                content: UserContentView::Text(omitted_note(from as nat)),
                timestamp: now,
            },
        ] + messages.skip(from));
    }
}

/// The messages that trimming keeps fit the budget, unless only the last one is kept; and no more
/// of them could have been kept, unless what is kept fills the budget.
pub proof fn law_trimming_fits(
    messages: Seq<MessageView>,
    budget: nat,
    custom_instructions: Option<Seq<char>>,
    from: int,
)
    requires
        prompt_tokens(messages, custom_instructions) > budget,
        messages.len() > 0,
        from == kept_start(
            messages,
            messages.len() as int,
            overhead_tokens(custom_instructions),
            budget,
        ),
    ensures
        0 <= from < messages.len(),
        prompt_tokens(messages.skip(from), custom_instructions) <= budget || from == messages.len()
            - 1,
        from > 0 ==> prompt_tokens(messages.skip(from - 1), custom_instructions) > budget
            || prompt_tokens(messages.skip(from), custom_instructions) >= budget,
{
    lemma_kept_start(
        messages,
        messages.len() as int,
        overhead_tokens(custom_instructions),
        budget,
    );
    assert(messages.subrange(from, messages.len() as int) =~= messages.skip(from));
    if from > 0 {
        let one = seq![messages[from - 1]];
        assert(messages.skip(from - 1) =~= one + messages.skip(from));
        lemma_total_tokens_concat(one, messages.skip(from));
        assert(one.drop_last() =~= Seq::<MessageView>::empty());
        assert(total_tokens(one) == total_tokens(one.drop_last()) + message_tokens(one.last()));
    }
}

/// The conversation in a prompt takes no more bytes than there is room for.
pub proof fn law_budgeted_text_is_bounded(
    messages: Seq<MessageView>,
    budget: u64,
    custom_instructions: Option<Seq<char>>,
)
    ensures
        byte_size(budgeted_text(messages, budget, custom_instructions)) <= available_chars(
            budget,
            overhead_tokens(custom_instructions),
        ),
{
    let conversation = conversation_text(
        trimmed_messages(messages, budget as nat, custom_instructions, 0),
    );
    let available = available_chars(budget, overhead_tokens(custom_instructions)) as nat;
    let note = OMITTED_CONTENT_NOTE@;
    lemma_note_is_ascii();
    lemma_byte_size_ascii(note);
    if byte_size(conversation) > available {
        if available <= byte_size(note) {
            lemma_byte_size_ascii(first_chars(note, available as int));
        } else {
            let room = (available - byte_size(note)) as nat;
            lemma_last_bytes_fits(conversation, room);
            lemma_byte_size_concat(note, last_bytes(conversation, room));
        }
    }
}

/// A prompt is taken for no more tokens than the budget: what the conversation adds to the rest of
/// it fits, and is nothing where the rest alone does not.
pub proof fn law_prompt_fits_budget(
    messages: Seq<MessageView>,
    budget: u64,
    custom_instructions: Option<Seq<char>>,
)
    ensures
        ({
            let text = budgeted_text(messages, budget, custom_instructions);
            let overhead = overhead_tokens(custom_instructions);
            &&& overhead <= budget ==> overhead + quarter_up(byte_size(text)) <= budget
            &&& overhead > budget ==> byte_size(text) == 0
        }),
{
    law_budgeted_text_is_bounded(messages, budget, custom_instructions);
    lemma_available_bound(budget, overhead_tokens(custom_instructions));
}

/// The note is in ASCII.
proof fn lemma_note_is_ascii()
    ensures
        is_ascii_chars(OMITTED_CONTENT_NOTE@),
{
    reveal_strlit(
        "[compaction note: omitted older serialized content before summarization because the session exceeded the summarizer prompt budget]\n\n",
    );
}

/// A prompt that does not hold the whole conversation says so at its very front, wherever there is
/// room for the note.
pub proof fn law_omission_is_disclosed(
    messages: Seq<MessageView>,
    budget: u64,
    custom_instructions: Option<Seq<char>>,
)
    requires
        available_chars(budget, overhead_tokens(custom_instructions)) >= byte_size(
            OMITTED_CONTENT_NOTE@,
        ),
        budgeted_text(messages, budget, custom_instructions) != conversation_text(messages),
    ensures
        begins_with(
            budgeted_text(messages, budget, custom_instructions),
            OMITTED_CONTENT_NOTE@,
        ) || begins_with(
            budgeted_text(messages, budget, custom_instructions),
            "USER:\n"@ + "[compaction note: omitted "@,
        ),
{
    let text = budgeted_text(messages, budget, custom_instructions);
    let trimmed = trimmed_messages(messages, budget as nat, custom_instructions, 0);
    let conversation = conversation_text(trimmed);
    if byte_size(conversation) <= available_chars(budget, overhead_tokens(custom_instructions)) {
        law_trimming_keeps_the_end(messages, budget as nat, custom_instructions, 0);
        let from = choose|from: int|
            0 < from < messages.len() && trimmed == seq![
                MessageView::User {
                    content: UserContentView::Text(omitted_note(from as nat)),
                    timestamp: 0,
                },
            ] + #[trigger] messages.skip(from);
        let note = MessageView::User {
            content: UserContentView::Text(omitted_note(from as nat)),
            timestamp: 0,
        };
        lemma_conversation_single(note);
        lemma_conversation_concat(seq![note], messages.skip(from));
        let opening = "USER:\n"@ + "[compaction note: omitted "@;
        assert(text.take(opening.len() as int) =~= opening);
    } else {
        lemma_byte_size_bounds(OMITTED_CONTENT_NOTE@);
        assert(text.take(OMITTED_CONTENT_NOTE@.len() as int) =~= OMITTED_CONTENT_NOTE@);
    }
}

/// A prompt and what is held back fill the window together where the window is larger than that;
/// else the prompt has four fifths of it, rounded down; and where the window is not known it has
/// 64000 tokens.
pub proof fn law_budget_comes_from_the_window(context_window: u32, reserve_tokens: u32)
    ensures
        ({
            let budget = prompt_budget(context_window, reserve_tokens);
            &&& context_window == 0 ==> budget == 64000
            &&& context_window > reserve_tokens ==> budget + reserve_tokens == context_window
            &&& 0 < context_window <= reserve_tokens ==> 5 * budget <= 4 * context_window < 5
                * budget + 5
        }),
{
}

/// Besides the conversation a prompt takes 512 tokens, a token for every four bytes of the standing
/// prompt, and a token for every four bytes of the caller's instructions.
pub proof fn law_overhead_is_the_prompt(s: Seq<char>)
    ensures
        ({
            let standing = overhead_tokens(None) - 512;
            let bytes = byte_size(SUMMARIZATION_SYSTEM_PROMPT@);
            bytes <= 4 * standing < bytes + 4
        }),
        ({
            let extra = overhead_tokens(Some(s)) - overhead_tokens(None);
            byte_size(s) <= 4 * extra < byte_size(s) + 4
        }),
{
}

/// A prompt takes what stands around the conversation and what its messages are taken for.
pub proof fn law_prompt_counts_its_messages(
    messages: Seq<MessageView>,
    message: MessageView,
    custom_instructions: Option<Seq<char>>,
)
    ensures
        prompt_tokens(Seq::empty(), custom_instructions) == overhead_tokens(custom_instructions),
        prompt_tokens(messages.push(message), custom_instructions) == prompt_tokens(
            messages,
            custom_instructions,
        ) + message_tokens(message),
{
    assert(messages.push(message).drop_last() =~= messages);
}

/// A conversation that fits the budget is left as it is. Of one that does not, a run of messages up
/// to the last is left that fits, or the last one alone; and if anything was left out, a message of
/// the user before them says how many messages that is.
pub proof fn law_only_what_does_not_fit_is_left_out(
    messages: Seq<MessageView>,
    budget: nat,
    custom_instructions: Option<Seq<char>>,
    now: int,
)
    requires
        messages.len() > 0,
    ensures
        ({
            let trimmed = trimmed_messages(messages, budget, custom_instructions, now);
            &&& prompt_tokens(messages, custom_instructions) <= budget ==> trimmed == messages
            &&& prompt_tokens(messages, custom_instructions) > budget ==> exists|from: int|
                0 <= from < messages.len() && (prompt_tokens(
                    #[trigger] messages.skip(from),
                    custom_instructions,
                ) <= budget || from == messages.len() - 1) && trimmed == if from == 0 {
                    messages
                } else {
                    seq![
                        MessageView::User {
                            content: UserContentView::Text(
                                "[compaction note: omitted "@ + decimal(from as nat)
                                    + " older message(s) before summarization because the session exceeded the summarizer prompt budget]"@,
                            ),
                            timestamp: now,
                        },
                    ] + messages.skip(from)
                }
        }),
{
    if prompt_tokens(messages, custom_instructions) > budget {
        let from = kept_start(
            messages,
            messages.len() as int,
            overhead_tokens(custom_instructions),
            budget,
        );
        law_trimming_fits(messages, budget, custom_instructions, from);
        assert(messages.skip(from).len() == messages.len() - from);
    }
}

/// The note on left out messages says how many they are.
pub proof fn law_note_says_how_many(count: nat)
    ensures
        omitted_note(count) == "[compaction note: omitted "@ + decimal(count)
            + " older message(s) before summarization because the session exceeded the summarizer prompt budget]"@,
{
}

/// What the budget leaves beside the rest of the prompt is room for four bytes a token; where it
/// leaves nothing there is no room.
pub proof fn law_room_is_four_bytes_a_token(budget: u64, overhead: nat)
    ensures
        budget <= overhead ==> available_chars(budget, overhead) == 0,
        budget > overhead && 4 * (budget - overhead) <= usize::MAX ==> available_chars(
            budget,
            overhead,
        ) == 4 * (budget - overhead),
        budget > overhead && 4 * (budget - overhead) > u64::MAX ==> available_chars(
            budget,
            overhead,
        ) == u64::MAX as usize,
{
    lemma_available_bound(budget, overhead);
}

/// A conversation that has room is left as it is. Of one that has not, the longest end that has
/// room behind the note is left; and where there is not even room for the note, its beginning.
pub proof fn law_end_of_the_conversation_is_kept(conversation: Seq<char>, available: nat)
    ensures
        ({
            let note =
                "[compaction note: omitted older serialized content before summarization because the session exceeded the summarizer prompt budget]\n\n"@;
            let text = capped(conversation, available);
            &&& byte_size(conversation) <= available ==> text == conversation
            &&& byte_size(conversation) > available && available > byte_size(note) ==> text == note
                + last_bytes(conversation, (available - byte_size(note)) as nat)
            &&& byte_size(conversation) > available && available <= byte_size(note) ==> text
                == note.subrange(0, available as int)
        }),
{
    let note = OMITTED_CONTENT_NOTE@;
    lemma_note_is_ascii();
    lemma_byte_size_ascii(note);
    if available <= byte_size(note) {
        assert(first_chars(note, available as int) =~= note.subrange(0, available as int));
    }
}

/// What goes into a prompt is the conversation without what was left out, written out and cut to
/// the room there is.
pub proof fn law_prompt_holds_the_trimmed_conversation(
    messages: Seq<MessageView>,
    budget: u64,
    custom_instructions: Option<Seq<char>>,
)
    ensures
        ({
            let kept = trimmed_messages(messages, budget as nat, custom_instructions, 0);
            let room = available_chars(budget, overhead_tokens(custom_instructions)) as nat;
            byte_size(conversation_text(kept)) <= room ==> budgeted_text(
                messages,
                budget,
                custom_instructions,
            ) == conversation_text(kept)
        }),
{
}

/// A prompt can be counted where each message can be and the sum is no more than 64 bits hold.
pub proof fn law_which_prompts_can_be_counted(
    messages: Seq<MessageView>,
    custom_instructions: Option<Seq<char>>,
)
    ensures
        prompt_fits(messages, custom_instructions) <==> each_fits(messages) && prompt_tokens(
            messages,
            custom_instructions,
        ) <= 0xffff_ffff_ffff_ffff,
{
}

/// Until the last message that is kept was added, the budget was not filled.
proof fn lemma_kept_until_filled(
    messages: Seq<MessageView>,
    i: int,
    total: nat,
    budget: nat,
    overhead: nat,
)
    requires
        0 <= i <= messages.len(),
        total == overhead + total_tokens(messages.skip(i)),
        forall|j: int|
            i <= j < messages.len() ==> overhead + total_tokens(#[trigger] messages.skip(j))
                < budget,
    ensures
        forall|j: int|
            kept_start(messages, i, total, budget) < j < messages.len() ==> overhead
                + total_tokens(#[trigger] messages.skip(j)) < budget,
    decreases i,
{
    if i > 0 {
        let with_more = total + message_tokens(messages[i - 1]);
        let one = seq![messages[i - 1]];
        assert(messages.skip(i - 1) =~= one + messages.skip(i));
        lemma_total_tokens_concat(one, messages.skip(i));
        law_single_message_counts(messages[i - 1]);
        if with_more < budget {
            lemma_kept_until_filled(messages, i - 1, with_more, budget, overhead);
        }
    }
}

/// Messages are kept from the last one back until the budget is filled, and none beyond that: what
/// follows the first kept message does not fill it.
pub proof fn law_keeping_stops_when_the_budget_is_filled(
    messages: Seq<MessageView>,
    budget: nat,
    custom_instructions: Option<Seq<char>>,
    j: int,
)
    requires
        kept_start(
            messages,
            messages.len() as int,
            overhead_tokens(custom_instructions),
            budget,
        ) < j < messages.len(),
    ensures
        prompt_tokens(messages.skip(j), custom_instructions) < budget,
{
    let n = messages.len() as int;
    assert(messages.skip(n) =~= Seq::<MessageView>::empty());
    let overhead = overhead_tokens(custom_instructions);
    lemma_kept_until_filled(messages, n, overhead, budget, overhead);
}

} // verus!
