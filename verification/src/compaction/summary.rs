//! Asking a model for a summary, and what comes of its answer.

use crate::compaction::budget::{
    budgeted_text, checked_prompt_tokens, prompt_fits, serialize_conversation_for_summary_budget,
    SUMMARIZATION_SYSTEM_PROMPT,
};
use crate::compaction::conversation::{
    conversation_text, plain_texts, push_content_texts, serialize_conversation,
};
use crate::json::text_option;
use crate::message::{
    optional_text, views, AgentMessage, AssistantMessage, AssistantView, Message, ToolCall, Usage,
    UserContent, UserContentView, UserMessage,
};
use crate::model::Model;
use crate::outside::utc_now_millis;
use crate::stream::{AssistantMessageEvent, Context, DoneReason, ErrorReason};
use vstd::prelude::*;

verus! {

/// What is to be summarized, and by which model.
#[derive(Debug, PartialEq)]
pub struct GenerateSummaryRequest {
    pub model: Model,
    pub messages: Vec<AgentMessage>,
    pub custom_instructions: Option<String>,
    /// The tokens that the prompt may take; where there is none, everything goes in.
    pub prompt_budget_tokens: Option<u64>,
}

impl Clone for GenerateSummaryRequest {
    fn clone(&self) -> (r: GenerateSummaryRequest)
        ensures
            r.model == self.model,
            views(r.messages@) == views(self.messages@),
            r.custom_instructions == self.custom_instructions,
            r.prompt_budget_tokens == self.prompt_budget_tokens,
    {
        let messages = self.messages.clone();
        assert(views(messages@) =~= views(self.messages@));
        GenerateSummaryRequest {
            model: self.model.clone(),
            messages,
            custom_instructions: match &self.custom_instructions {
                Some(extra) => Some(extra.clone()),
                None => None,
            },
            prompt_budget_tokens: self.prompt_budget_tokens,
        }
    }
}

#[derive(Debug, PartialEq)]
pub struct GenerateSummaryOutput {
    pub summary: String,
    pub usage: Usage,
}

impl Clone for GenerateSummaryOutput {
    fn clone(&self) -> (r: GenerateSummaryOutput)
        ensures
            r == *self,
    {
        GenerateSummaryOutput { summary: self.summary.clone(), usage: self.usage }
    }
}

/// Why there is no summary.
#[derive(Debug, PartialEq)]
pub enum SummarizeError {
    Aborted,
    Provider(String),
    Empty,
}

/// What goes to the model that writes the summary.
#[derive(Debug, PartialEq)]
pub struct SummaryCall {
    pub system_prompt: String,
    pub message: UserMessage,
}

impl SummaryCall {
    /// What the model is given: the prompt, the conversation as the only message, and no tools.
    pub fn context(self) -> (r: Context)
        ensures
            r.system_prompt == Some(self.system_prompt),
            r.messages@ == seq![Message::User(self.message)],
            r.tools is None,
    {
        let mut messages: Vec<Message> = Vec::new();
        messages.push(Message::User(self.message));
        assert(messages@ =~= seq![Message::User(self.message)]);
        Context { system_prompt: Some(self.system_prompt), messages, tools: None }
    }
}

impl SummarizeError {
    /// The error as a value.
    pub open spec fn stop(self) -> SummaryStop {
        match self {
            SummarizeError::Aborted => SummaryStop::Aborted,
            SummarizeError::Provider(why) => SummaryStop::Provider(why@),
            SummarizeError::Empty => SummaryStop::Empty,
        }
    }

    /// The error in words.
    pub open spec fn text(self) -> Seq<char> {
        match self {
            SummarizeError::Aborted => "aborted"@,
            SummarizeError::Provider(why) => "provider error: "@ + why@,
            SummarizeError::Empty => "summarizer produced no message"@,
        }
    }

    /// The error in words.
    pub fn message(&self) -> (r: String)
        ensures
            r@ == self.text(),
    {
        let mut out = String::new();
        match self {
            SummarizeError::Aborted => {
                out.push_str("aborted");
                assert(out@ =~= "aborted"@);
            },
            SummarizeError::Provider(why) => {
                out.push_str("provider error: ");
                out.push_str(why.as_str());
                assert(out@ =~= "provider error: "@ + why@);
            },
            SummarizeError::Empty => {
                out.push_str("summarizer produced no message");
                assert(out@ =~= "summarizer produced no message"@);
            },
        }
        out
    }
}

/// What the model is told: the standing prompt, and the caller's own instructions below it.
pub open spec fn system_prompt(custom_instructions: Option<Seq<char>>) -> Seq<char> {
    match custom_instructions {
        Some(extra) => SUMMARIZATION_SYSTEM_PROMPT@ + "\n\n"@ + extra,
        None => SUMMARIZATION_SYSTEM_PROMPT@,
    }
}

/// What the model is given to summarize.
pub open spec fn request_text(request: GenerateSummaryRequest) -> Seq<char> {
    match request.prompt_budget_tokens {
        Some(budget) => budgeted_text(
            views(request.messages@),
            budget,
            optional_text(request.custom_instructions),
        ),
        None => conversation_text(views(request.messages@)),
    }
}

/// The machine can count what the request's prompt takes, or need not.
pub open spec fn request_fits(request: GenerateSummaryRequest) -> bool {
    request.prompt_budget_tokens is Some ==> prompt_fits(
        views(request.messages@),
        optional_text(request.custom_instructions),
    )
}

/// `call` is what goes to the model for the request.
pub open spec fn calls(call: SummaryCall, request: GenerateSummaryRequest) -> bool {
    &&& call.system_prompt@ == system_prompt(optional_text(request.custom_instructions))
    &&& call.message.content@ == UserContentView::Text(request_text(request))
}

/// A string lent out, where there is one.
fn lent(s: &Option<String>) -> (r: Option<&str>)
    ensures
        text_option(r) == optional_text(*s),
{
    match s {
        Some(s) => Some(s.as_str()),
        None => None,
    }
}

/// What goes to the model, at the time `now_ms`.
pub fn summary_call_at(request: &GenerateSummaryRequest, now_ms: i64) -> (r: SummaryCall)
    requires
        request_fits(*request),
    ensures
        r.system_prompt@ == system_prompt(optional_text(request.custom_instructions)),
        r.message.content@ == UserContentView::Text(request_text(*request)),
        r.message.timestamp == now_ms,
        calls(r, *request),
{
    let custom = lent(&request.custom_instructions);
    let mut prompt = String::new();
    prompt.push_str(SUMMARIZATION_SYSTEM_PROMPT);
    if let Some(extra) = custom {
        prompt.push_str("\n\n");
        prompt.push_str(extra);
    }
    assert(prompt@ =~= system_prompt(optional_text(request.custom_instructions)));
    let conversation = match request.prompt_budget_tokens {
        Some(budget) => serialize_conversation_for_summary_budget(
            request.messages.as_slice(),
            budget,
            custom,
        ),
        None => serialize_conversation(request.messages.as_slice()),
    };
    SummaryCall {
        system_prompt: prompt,
        message: UserMessage { content: UserContent::Text(conversation), timestamp: now_ms },
    }
}

/// What goes to the model now, where the machine can count what the prompt takes.
pub fn summary_call(request: &GenerateSummaryRequest) -> (r: Option<SummaryCall>)
    ensures
        r is Some <==> request_fits(*request),
        r matches Some(call) ==> call.system_prompt@ == system_prompt(
            optional_text(request.custom_instructions),
        ) && call.message.content@ == UserContentView::Text(request_text(*request)) && calls(
            call,
            *request,
        ),
{
    if request.prompt_budget_tokens.is_some() && checked_prompt_tokens(
        request.messages.as_slice(),
        lent(&request.custom_instructions),
    ).is_none() {
        return None;
    }
    Some(summary_call_at(request, utc_now_millis()))
}

/// Why there is no summary, as a value.
pub enum SummaryStop {
    Aborted,
    Provider(Seq<char>),
    Empty,
}

/// What an event does where the last complete answer is `last`: it replaces the answer, leaves it,
/// or stops everything. That the caller has called it off comes before what the event is.
pub open spec fn after_event(
    last: Option<AssistantView>,
    event: AssistantMessageEvent,
    cancelled: bool,
) -> Result<Option<AssistantView>, SummaryStop> {
    if cancelled {
        Err(SummaryStop::Aborted)
    } else {
        match event {
            AssistantMessageEvent::Done { message, .. } => Ok(Some(message@)),
            AssistantMessageEvent::Error { error, .. } => Err(
                SummaryStop::Provider(failure_text(error@)),
            ),
            _ => Ok(last),
        }
    }
}

/// What is known after events, each with whether it was called off by then.
pub open spec fn after_events(events: Seq<(AssistantMessageEvent, bool)>) -> Result<
    Option<AssistantView>,
    SummaryStop,
>
    decreases events.len(),
{
    if events.len() == 0 {
        Ok(None)
    } else {
        match after_events(events.drop_last()) {
            Ok(last) => after_event(last, events.last().0, events.last().1),
            Err(stop) => Err(stop),
        }
    }
}

/// What is known while the model answers.
#[derive(Debug, PartialEq)]
pub struct SummaryProgress {
    /// The last complete answer.
    pub last: Option<AssistantMessage>,
}

/// The reason that a failed message gives.
pub open spec fn failure_text(message: AssistantView) -> Seq<char> {
    match message.error_message {
        Some(why) => why,
        None => "summarization failed"@,
    }
}

/// `r` is the summary that comes of the last complete answer.
pub open spec fn summarizes(
    r: Result<GenerateSummaryOutput, SummarizeError>,
    last: Option<AssistantView>,
) -> bool {
    match (last, r) {
        (None, Err(error)) => error is Empty,
        (Some(message), Ok(out)) => out.summary@ == plain_texts(message.blocks) && out.usage
            == message.usage,
        _ => false,
    }
}

impl SummaryProgress {
    /// The last complete answer.
    pub open spec fn last_view(self) -> Option<AssistantView> {
        match self.last {
            Some(message) => Some(message@),
            None => None,
        }
    }

    /// Nothing has come yet.
    pub fn new() -> (r: SummaryProgress)
        ensures
            r.last is None,
    {
        SummaryProgress { last: None }
    }

    /// Takes an event in. Where the caller has called it off, or where the provider failed, there
    /// is no summary.
    pub fn on_event(&mut self, event: AssistantMessageEvent, cancelled: bool) -> (r: Result<
        (),
        SummarizeError,
    >)
        ensures
            match after_event(old(self).last_view(), event, cancelled) {
                Ok(last) => r is Ok && final(self).last_view() == last,
                Err(stop) => *final(self) == *old(self) && match r {
                    Err(error) => error.stop() == stop,
                    Ok(_) => false,
                },
            },
    {
        if cancelled {
            return Err(SummarizeError::Aborted);
        }
        match event {
            AssistantMessageEvent::Done { message, .. } => {
                self.last = Some(message);
                Ok(())
            },
            AssistantMessageEvent::Error { error, .. } => {
                let why = match error.error_message {
                    Some(why) => why,
                    None => String::from_str("summarization failed"),
                };
                Err(SummarizeError::Provider(why))
            },
            _ => Ok(()),
        }
    }

    /// The events have ended: the summary is the text of the last answer.
    pub fn finish(self) -> (r: Result<GenerateSummaryOutput, SummarizeError>)
        ensures
            match self.last_view() {
                None => r == Err::<GenerateSummaryOutput, SummarizeError>(SummarizeError::Empty),
                Some(message) => match r {
                    Ok(out) => out.summary@ == plain_texts(message.blocks) && out.usage
                        == message.usage,
                    Err(_) => false,
                },
            },
            summarizes(r, self.last_view()),
    {
        match self.last {
            None => Err(SummarizeError::Empty),
            Some(message) => {
                let mut summary = String::new();
                push_content_texts(&mut summary, &message.content);
                assert(summary@ =~= plain_texts(message@.blocks));
                Ok(GenerateSummaryOutput { summary, usage: message.usage })
            },
        }
    }
}

/// The first event that stops a summary decides why there is none, whatever comes behind it.
pub proof fn law_first_stop_decides(events: Seq<(AssistantMessageEvent, bool)>, k: int)
    requires
        0 <= k < events.len(),
        after_events(events.take(k)) is Ok,
        after_events(events.take(k + 1)) is Err,
    ensures
        after_events(events) == after_events(events.take(k + 1)),
        events[k].1 ==> after_events(events) == Err::<Option<AssistantView>, SummaryStop>(
            SummaryStop::Aborted,
        ),
        events[k].1 || events[k].0 is Error,
    decreases events.len() - k,
{
    assert(events.take(k + 1).drop_last() =~= events.take(k));
    if k + 1 == events.len() {
        assert(events.take(k + 1) =~= events);
    } else {
        let front = events.drop_last();
        assert(front.take(k) =~= events.take(k));
        assert(front.take(k + 1) =~= events.take(k + 1));
        law_first_stop_decides(front, k);
    }
}

/// The event brings `message` as the complete answer.
pub open spec fn completes(event: AssistantMessageEvent, message: AssistantView) -> bool {
    match event {
        AssistantMessageEvent::Done { message: m, .. } => m@ == message,
        _ => false,
    }
}

/// Where nothing stops it, the summary comes from the last complete answer; where there was none,
/// there is no summary.
pub proof fn law_last_answer_counts(events: Seq<(AssistantMessageEvent, bool)>)
    requires
        forall|i: int| 0 <= i < events.len() ==> !(#[trigger] events[i]).1 && !(events[i].0 is Error),
    ensures
        match after_events(events) {
            Ok(Some(message)) => exists|k: int|
                0 <= k < events.len() && completes((#[trigger] events[k]).0, message)
                    && forall|j: int|
                    k < j < events.len() ==> !((#[trigger] events[j]).0 is Done),
            Ok(None) => forall|j: int| 0 <= j < events.len() ==> !((#[trigger] events[j]).0 is Done),
            Err(_) => false,
        },
    decreases events.len(),
{
    if events.len() > 0 {
        let front = events.drop_last();
        assert(forall|i: int| 0 <= i < front.len() ==> #[trigger] front[i] == events[i]);
        law_last_answer_counts(front);
        let n = events.len() - 1;
        assert(events.last() == events[n]);
        if !(events[n].0 is Done) {
            if let Ok(Some(message)) = after_events(front) {
                let k = choose|k: int|
                    0 <= k < front.len() && completes((#[trigger] front[k]).0, message)
                        && forall|j: int|
                        k < j < front.len() ==> !((#[trigger] front[j]).0 is Done);
                assert(events[k] == front[k]);
                assert(forall|j: int|
                    k < j < events.len() ==> !((#[trigger] events[j]).0 is Done)) by {
                    assert(forall|j: int| k < j < n ==> #[trigger] events[j] == front[j]);
                }
            } else {
                assert(forall|j: int|
                    0 <= j < events.len() ==> !((#[trigger] events[j]).0 is Done)) by {
                    assert(forall|j: int| 0 <= j < n ==> #[trigger] events[j] == front[j]);
                }
            }
        }
    }
}

/// What an event does by its kind. Where the caller has called it off, every event stops the
/// summary. Else a complete answer replaces the last one, a failure stops it with the reason that
/// the provider gives, and all other events leave what is known as it is.
pub proof fn law_events_by_kind(
    last: Option<AssistantView>,
    event: AssistantMessageEvent,
    tool_call: ToolCall,
    reason: DoneReason,
    message: AssistantMessage,
    why: ErrorReason,
    error: AssistantMessage,
)
    ensures
        after_event(last, event, true) == Err::<Option<AssistantView>, SummaryStop>(
            SummaryStop::Aborted,
        ),
        after_event(last, AssistantMessageEvent::ToolCallEnd { tool_call }, false) == Ok::<
            Option<AssistantView>,
            SummaryStop,
        >(last),
        after_event(last, AssistantMessageEvent::Other, false) == Ok::<
            Option<AssistantView>,
            SummaryStop,
        >(last),
        after_event(last, AssistantMessageEvent::Done { reason, message }, false) == Ok::<
            Option<AssistantView>,
            SummaryStop,
        >(Some(message@)),
        after_event(last, AssistantMessageEvent::Error { reason: why, error }, false) == Err::<
            Option<AssistantView>,
            SummaryStop,
        >(
            SummaryStop::Provider(
                match error.error_message {
                    Some(said) => said@,
                    None => "summarization failed"@,
                },
            ),
        ),
{
}

/// One event more is looked at where nothing has stopped the summary yet.
pub proof fn law_events_come_one_by_one(
    events: Seq<(AssistantMessageEvent, bool)>,
    event: AssistantMessageEvent,
    cancelled: bool,
)
    ensures
        after_events(Seq::empty()) == Ok::<Option<AssistantView>, SummaryStop>(None),
        after_events(events) is Err ==> after_events(events.push((event, cancelled)))
            == after_events(events),
        after_events(events) is Ok ==> after_events(events.push((event, cancelled)))
            == after_event(after_events(events)->Ok_0, event, cancelled),
{
    assert(events.push((event, cancelled)).drop_last() =~= events);
}

/// Errors say in words what they are.
pub proof fn law_errors_say_what_they_are(why: String)
    ensures
        SummarizeError::Aborted.text() == "aborted"@,
        SummarizeError::Provider(why).text() == "provider error: "@ + why@,
        SummarizeError::Empty.text() == "summarizer produced no message"@,
        SummarizeError::Aborted.stop() == SummaryStop::Aborted,
        SummarizeError::Provider(why).stop() == SummaryStop::Provider(why@),
        SummarizeError::Empty.stop() == SummaryStop::Empty,
{
}

/// The caller's instructions stand below the standing prompt, with an empty line between them.
pub proof fn law_instructions_stand_below_the_prompt(extra: Seq<char>)
    ensures
        system_prompt(None)
            == "You are a context summarization assistant. Your task is to read a conversation between a user and an AI coding assistant, then produce a structured summary preserving the user's intent, the files and topics discussed, decisions made, and any work still in progress. Be concise but thorough; the assistant will rely on your summary instead of replaying the dropped messages."@,
        system_prompt(Some(extra)) == system_prompt(None) + seq!['\n', '\n'] + extra,
{
    reveal_strlit("\n\n");
    assert("\n\n"@ =~= seq!['\n', '\n']);
}

/// A request without a budget is for the whole conversation; one with a budget is for as much of
/// it as the budget and the instructions leave room for.
pub proof fn law_request_is_cut_by_its_budget(request: GenerateSummaryRequest, budget: u64)
    ensures
        request.prompt_budget_tokens is None ==> request_text(request) == conversation_text(
            views(request.messages@),
        ),
        request.prompt_budget_tokens == Some(budget) ==> request_text(request) == budgeted_text(
            views(request.messages@),
            budget,
            optional_text(request.custom_instructions),
        ),
{
}

/// A request without a budget can always be made; one with a budget where its prompt can be
/// counted.
pub proof fn law_which_requests_can_be_made(request: GenerateSummaryRequest)
    ensures
        request.prompt_budget_tokens is None ==> request_fits(request),
        request.prompt_budget_tokens is Some ==> (request_fits(request) <==> prompt_fits(
            views(request.messages@),
            optional_text(request.custom_instructions),
        )),
{
}

/// The summary is the plain text of the last complete answer, with what that answer took; without
/// one there is no summary.
pub proof fn law_summary_is_the_text_of_the_answer(
    r: Result<GenerateSummaryOutput, SummarizeError>,
    last: Option<AssistantView>,
)
    requires
        summarizes(r, last),
    ensures
        r is Ok <==> last is Some,
        r is Ok ==> r->Ok_0.summary@ == plain_texts(last->0.blocks),
        r is Ok ==> r->Ok_0.usage == last->0.usage,
        r is Err ==> r->Err_0 is Empty,
{
}

/// The model is told the standing prompt with the caller's instructions below it, and is given the
/// conversation as one text: the whole of it without a budget, and what fits with one.
pub proof fn law_model_is_given_the_conversation(
    call: SummaryCall,
    request: GenerateSummaryRequest,
)
    requires
        calls(call, request),
    ensures
        request.custom_instructions is None ==> call.system_prompt@ == system_prompt(None),
        request.custom_instructions is Some ==> call.system_prompt@ == system_prompt(None) + seq![
            '\n',
            '\n',
        ] + request.custom_instructions->0@,
        call.message.content is Text,
        request.prompt_budget_tokens is None ==> call.message.content->Text_0@
            == conversation_text(views(request.messages@)),
        request.prompt_budget_tokens is Some ==> call.message.content->Text_0@ == budgeted_text(
            views(request.messages@),
            request.prompt_budget_tokens->0,
            optional_text(request.custom_instructions),
        ),
{
    if request.custom_instructions is Some {
        law_instructions_stand_below_the_prompt(request.custom_instructions->0@);
    }
}

} // verus!
