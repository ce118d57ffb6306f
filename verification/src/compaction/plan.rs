//! Compaction from beginning to end: what is asked of the summarizer, and what comes of its answer.

use crate::compaction::budget::{
    budgeted_text, law_prompt_fits_budget, overhead_tokens, prompt_budget,
    summarization_prompt_budget,
};
use crate::compaction::cut::{
    cut_of, entries_tokens, entry_fits, id_at, preparation_fits, prepare_compaction, prepares,
    try_prepare_compaction, CompactionPreparation,
};
use crate::compaction::estimate::{each_fits, quarter_up, total_tokens};
use crate::compaction::summary::{
    GenerateSummaryOutput, GenerateSummaryRequest, SummarizeError,
};
use crate::compaction::CompactionSettings;
use crate::message::{optional_text, views, AgentMessage, MessageView, Usage};
use crate::model::Model;
use crate::session::{entry_views, EntryBody, EntryView, SessionTreeEntry};
use crate::text::byte_size;
use vstd::prelude::*;

verus! {

/// What compaction gives: the summary, and what the session records with it.
#[derive(Debug, PartialEq)]
pub struct CompactionResult {
    pub summary: String,
    pub first_kept_entry_id: Option<String>,
    pub tokens_before: u64,
    pub usage: Usage,
}

impl Clone for CompactionResult {
    fn clone(&self) -> (r: CompactionResult)
        ensures
            r == *self,
    {
        CompactionResult {
            summary: self.summary.clone(),
            first_kept_entry_id: match &self.first_kept_entry_id {
                Some(id) => Some(id.clone()),
                None => None,
            },
            tokens_before: self.tokens_before,
            usage: self.usage,
        }
    }
}

/// What the session records with a summary, known before the summary is.
#[derive(Debug, PartialEq)]
pub struct PendingCompaction {
    pub first_kept_entry_id: Option<String>,
    pub tokens_before: u64,
}

/// What compaction has to do.
#[derive(Debug, PartialEq)]
pub enum CompactionPlan {
    /// There is nothing to summarize, and this is the result.
    Nothing(CompactionResult),
    /// The summarizer is to be asked; its answer goes to [`PendingCompaction::finish`].
    Summarize { request: GenerateSummaryRequest, pending: PendingCompaction },
}

/// The messages among entries, in their order.
pub open spec fn messages_of(entries: Seq<EntryView>) -> Seq<MessageView>
    decreases entries.len(),
{
    if entries.len() == 0 {
        Seq::empty()
    } else {
        match entries.last().body {
            EntryBody::Message(message) => messages_of(entries.drop_last()).push(message),
            _ => messages_of(entries.drop_last()),
        }
    }
}

/// The plan for a session that is cut at `cut`.
pub open spec fn plans(
    plan: CompactionPlan,
    model: Model,
    entries: Seq<EntryView>,
    cut: int,
    reserve_tokens: u32,
    custom_instructions: Option<String>,
) -> bool {
    let folded = entries.take(cut);
    match plan {
        CompactionPlan::Nothing(result) => {
            &&& cut == 0
            &&& result.summary@ == Seq::<char>::empty()
            &&& optional_text(result.first_kept_entry_id) == id_at(entries, cut)
            &&& result.tokens_before == 0
            &&& result.usage == Usage::none()
        },
        CompactionPlan::Summarize { request, pending } => {
            &&& cut > 0
            &&& request.model == model
            &&& views(request.messages@) == messages_of(folded)
            &&& request.custom_instructions == custom_instructions
            &&& request.prompt_budget_tokens matches Some(budget) && budget == prompt_budget(
                model.context_window,
                reserve_tokens,
            )
            &&& optional_text(pending.first_kept_entry_id) == id_at(entries, cut)
            &&& pending.tokens_before == entries_tokens(folded)
        },
    }
}

/// The messages among entries.
fn gather_messages(entries: &Vec<SessionTreeEntry>) -> (r: Vec<AgentMessage>)
    ensures
        views(r@) == messages_of(entry_views(entries@)),
{
    let ghost shown = entry_views(entries@);
    let mut out: Vec<AgentMessage> = Vec::new();
    let mut i: usize = 0;
    assert(views(out@) =~= messages_of(shown.take(0)));
    while i < entries.len()
        invariant
            i <= entries@.len(),
            shown == entry_views(entries@),
            views(out@) == messages_of(shown.take(i as int)),
        decreases entries@.len() - i,
    {
        assert(shown[i as int] == entries@[i as int]@);
        assert(shown.take(i + 1).drop_last() =~= shown.take(i as int));
        if let SessionTreeEntry::Message { message, .. } = &entries[i] {
            let ghost before = out@;
            let copy = message.clone();
            out.push(copy);
            assert(views(out@) =~= views(before).push(copy@));
        }
        i += 1;
    }
    assert(shown.take(i as int) =~= shown);
    out
}

/// What compaction of a session has to do.
pub fn plan_compaction(
    model: Model,
    entries: &[SessionTreeEntry],
    settings: &CompactionSettings,
    custom_instructions: Option<String>,
) -> (r: CompactionPlan)
    requires
        preparation_fits(entry_views(entries@), settings.keep_recent_tokens as nat),
    ensures
        plans(
            r,
            model,
            entry_views(entries@),
            cut_of(entry_views(entries@), settings.keep_recent_tokens as nat),
            settings.reserve_tokens,
            custom_instructions,
        ),
{
    let preparation = prepare_compaction(entries, settings);
    let ghost shown = entry_views(entries@);
    let ghost cut = preparation.cut.cut_index as int;
    assert(preparation.entries_to_summarize@.len() == entry_views(
        preparation.entries_to_summarize@,
    ).len());
    if preparation.entries_to_summarize.len() == 0 {
        let summary = String::new();
        assert(summary@ =~= Seq::<char>::empty());
        return CompactionPlan::Nothing(
            CompactionResult {
                summary,
                first_kept_entry_id: preparation.cut.first_kept_entry_id,
                tokens_before: preparation.tokens_before,
                usage: Usage::default(),
            },
        );
    }
    let budget = summarization_prompt_budget(&model, settings);
    let messages = gather_messages(&preparation.entries_to_summarize);
    CompactionPlan::Summarize {
        request: GenerateSummaryRequest {
            model,
            messages,
            custom_instructions,
            prompt_budget_tokens: Some(budget),
        },
        pending: PendingCompaction {
            first_kept_entry_id: preparation.cut.first_kept_entry_id,
            tokens_before: preparation.tokens_before,
        },
    }
}

/// What compaction of a session has to do, where the machine can count what that needs.
pub fn try_plan_compaction(
    model: Model,
    entries: &[SessionTreeEntry],
    settings: &CompactionSettings,
    custom_instructions: Option<String>,
) -> (r: Option<CompactionPlan>)
    ensures
        r is Some <==> preparation_fits(
            entry_views(entries@),
            settings.keep_recent_tokens as nat,
        ),
        r matches Some(plan) ==> plans(
            plan,
            model,
            entry_views(entries@),
            cut_of(entry_views(entries@), settings.keep_recent_tokens as nat),
            settings.reserve_tokens,
            custom_instructions,
        ),
{
    if try_prepare_compaction(entries, settings).is_some() {
        Some(plan_compaction(model, entries, settings, custom_instructions))
    } else {
        None
    }
}

impl PendingCompaction {
    /// The result that an answer of the summarizer leads to.
    pub open spec fn finished(self, answer: Result<GenerateSummaryOutput, SummarizeError>) -> Result<
        CompactionResult,
        SummarizeError,
    > {
        match answer {
            Ok(out) => Ok(
                CompactionResult {
                    summary: out.summary,
                    first_kept_entry_id: self.first_kept_entry_id,
                    tokens_before: self.tokens_before,
                    usage: out.usage,
                },
            ),
            Err(error) => Err(error),
        }
    }

    /// The result, once the summarizer has answered; where it failed, compaction fails with it.
    pub fn finish(self, answer: Result<GenerateSummaryOutput, SummarizeError>) -> (r: Result<
        CompactionResult,
        SummarizeError,
    >)
        ensures
            r == self.finished(answer),
    {
        match answer {
            Ok(out) => Ok(
                CompactionResult {
                    summary: out.summary,
                    first_kept_entry_id: self.first_kept_entry_id,
                    tokens_before: self.tokens_before,
                    usage: out.usage,
                },
            ),
            Err(error) => Err(error),
        }
    }
}

/// What compaction comes to by its plan. `answer` is what the summarizer says if it is asked.
pub open spec fn outcome(
    plan: CompactionPlan,
    answer: Result<GenerateSummaryOutput, SummarizeError>,
) -> Result<CompactionResult, SummarizeError> {
    match plan {
        CompactionPlan::Nothing(result) => Ok(result),
        CompactionPlan::Summarize { pending, .. } => pending.finished(answer),
    }
}

/// Compaction from beginning to end. A result bears the first kept id and the tokens of the
/// preparation. Where nothing lies before the cut, nobody is asked, and the result is empty.
/// Otherwise the summarizer is asked about the messages that lie there: an error of it comes through
/// unchanged, and its summary and its count are the result's.
pub proof fn law_compaction_follows_the_preparation(
    model: Model,
    entries: Seq<EntryView>,
    settings: CompactionSettings,
    custom_instructions: Option<String>,
    preparation: CompactionPreparation,
    plan: CompactionPlan,
    answer: Result<GenerateSummaryOutput, SummarizeError>,
)
    requires
        prepares(preparation, entries, settings.keep_recent_tokens as nat),
        plans(
            plan,
            model,
            entries,
            cut_of(entries, settings.keep_recent_tokens as nat),
            settings.reserve_tokens,
            custom_instructions,
        ),
    ensures
        outcome(plan, answer) matches Ok(result) ==> optional_text(result.first_kept_entry_id)
            == optional_text(preparation.cut.first_kept_entry_id) && result.tokens_before
            == preparation.tokens_before,
        preparation.entries_to_summarize@.len() == 0 ==> plan is Nothing && (outcome(
            plan,
            answer,
        ) matches Ok(result) && result.summary@ == Seq::<char>::empty() && result.usage
            == Usage::none()),
        preparation.entries_to_summarize@.len() > 0 ==> (plan matches CompactionPlan::Summarize {
            request,
            ..
        } && request.model == model && request.custom_instructions == custom_instructions && views(
            request.messages@,
        ) == messages_of(entry_views(preparation.entries_to_summarize@)) && match answer {
            Err(error) => outcome(plan, answer) == Err::<CompactionResult, SummarizeError>(error),
            Ok(out) => outcome(plan, answer) matches Ok(result) && result.summary == out.summary
                && result.usage == out.usage,
        }),
{
    let cut = cut_of(entries, settings.keep_recent_tokens as nat);
    assert(entry_views(preparation.entries_to_summarize@).len()
        == preparation.entries_to_summarize@.len());
    if cut == 0 {
        assert(entries.take(0) =~= Seq::<EntryView>::empty());
    }
}

/// What is recorded as the size of the summarized part is what the messages that go to the
/// summarizer are taken for, and where each entry can be counted each of them can.
pub proof fn law_folded_messages_count(entries: Seq<EntryView>)
    ensures
        total_tokens(messages_of(entries)) == entries_tokens(entries),
        (forall|i: int| 0 <= i < entries.len() ==> entry_fits(#[trigger] entries[i])) ==> each_fits(
            messages_of(entries),
        ),
    decreases entries.len(),
{
    if entries.len() > 0 {
        let front = entries.drop_last();
        law_folded_messages_count(front);
        if forall|i: int| 0 <= i < entries.len() ==> entry_fits(#[trigger] entries[i]) {
            assert(forall|i: int|
                0 <= i < front.len() ==> entry_fits(#[trigger] front[i])) by {
                assert(forall|i: int| 0 <= i < front.len() ==> #[trigger] front[i] == entries[i]);
            }
        }
        assert(entries.last() == entries[entries.len() - 1]);
        match entries.last().body {
            EntryBody::Message(_) => {
                assert(messages_of(entries).drop_last() =~= messages_of(front));
            },
            _ => {},
        }
    }
}

/// A summarizer's prompt leaves in the model's window what the settings hold back, and stays within
/// the window where nothing would be left; the standing part of it has to fit by itself.
pub proof fn law_prompt_fits_window(
    messages: Seq<MessageView>,
    context_window: u32,
    reserve_tokens: u32,
    custom_instructions: Option<Seq<char>>,
)
    requires
        context_window > 0,
        overhead_tokens(custom_instructions) <= prompt_budget(context_window, reserve_tokens),
    ensures
        ({
            let text = budgeted_text(
                messages,
                prompt_budget(context_window, reserve_tokens) as u64,
                custom_instructions,
            );
            let taken = overhead_tokens(custom_instructions) + quarter_up(byte_size(text));
            &&& taken <= context_window
            &&& context_window > reserve_tokens ==> taken + reserve_tokens <= context_window
        }),
{
    law_prompt_fits_budget(
        messages,
        prompt_budget(context_window, reserve_tokens) as u64,
        custom_instructions,
    );
}

/// The messages among entries are those of the entries that are messages, each once and in their
/// order; summaries, moves and marks give none.
pub proof fn law_messages_follow_the_entries(entries: Seq<EntryView>, entry: EntryView)
    ensures
        messages_of(Seq::empty()).len() == 0,
        messages_of(entries.push(entry)) == match entry.body {
            EntryBody::Message(message) => messages_of(entries).push(message),
            EntryBody::Compaction { .. } => messages_of(entries),
            EntryBody::Leaf { .. } => messages_of(entries),
            EntryBody::Custom { .. } => messages_of(entries),
        },
{
    assert(entries.push(entry).drop_last() =~= entries);
}

/// A session that is cut at its front is left alone: the result is empty, nothing was counted and
/// the first entry is the first that is kept.
pub proof fn law_nothing_before_the_cut_asks_nobody(
    plan: CompactionPlan,
    model: Model,
    entries: Seq<EntryView>,
    reserve_tokens: u32,
    custom_instructions: Option<String>,
)
    requires
        plans(plan, model, entries, 0, reserve_tokens, custom_instructions),
    ensures
        plan is Nothing,
        plan->Nothing_0.summary@.len() == 0,
        plan->Nothing_0.tokens_before == 0,
        plan->Nothing_0.usage.input == 0 && plan->Nothing_0.usage.output == 0
            && plan->Nothing_0.usage.cache_read == 0 && plan->Nothing_0.usage.cache_write == 0
            && plan->Nothing_0.usage.total_tokens == 0,
        match plan->Nothing_0.first_kept_entry_id {
            Some(id) => entries.len() > 0 && id@ == entries[0].id,
            None => entries.len() == 0,
        },
{
}

/// Where something lies before the cut, the summarizer is asked about the messages in it, with the
/// caller's instructions, on that model and with what the model's window leaves; and the session
/// records the entry at the cut as the first that is kept, with the tokens of what lies before it.
pub proof fn law_what_lies_before_the_cut_is_summarized(
    plan: CompactionPlan,
    model: Model,
    entries: Seq<EntryView>,
    cut: int,
    reserve_tokens: u32,
    custom_instructions: Option<String>,
)
    requires
        plans(plan, model, entries, cut, reserve_tokens, custom_instructions),
        0 < cut < entries.len(),
    ensures
        plan is Summarize,
        plan->request.model == model,
        views(plan->request.messages@) == messages_of(entries.subrange(0, cut)),
        plan->request.custom_instructions == custom_instructions,
        plan->request.prompt_budget_tokens is Some,
        ({
            let budget = plan->request.prompt_budget_tokens->0;
            &&& model.context_window == 0 ==> budget == 64000
            &&& model.context_window > reserve_tokens ==> budget + reserve_tokens
                == model.context_window
            &&& 0 < model.context_window <= reserve_tokens ==> 5 * budget <= 4
                * model.context_window < 5 * budget + 5
        }),
        plan->pending.first_kept_entry_id is Some,
        plan->pending.first_kept_entry_id->0@ == entries[cut].id,
        plan->pending.tokens_before == entries_tokens(entries.subrange(0, cut)),
{
    assert(entries.take(cut) =~= entries.subrange(0, cut));
}

/// A summary comes to the record with what was known before it; an error comes through unchanged.
pub proof fn law_answer_decides_the_result(
    pending: PendingCompaction,
    out: GenerateSummaryOutput,
    error: SummarizeError,
)
    ensures
        pending.finished(Err(error)) == Err::<CompactionResult, SummarizeError>(error),
        pending.finished(Ok(out)) is Ok,
        pending.finished(Ok(out))->Ok_0.summary == out.summary,
        pending.finished(Ok(out))->Ok_0.usage == out.usage,
        pending.finished(Ok(out))->Ok_0.first_kept_entry_id == pending.first_kept_entry_id,
        pending.finished(Ok(out))->Ok_0.tokens_before == pending.tokens_before,
{
}

} // verus!
