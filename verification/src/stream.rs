//! A call of a model: what it is given, and the events that its answer comes in.

use crate::message::{AssistantMessage, Message, ToolCall};
use crate::tools::Tool;
use vstd::prelude::*;

verus! {

/// What a model is given.
#[derive(Debug, PartialEq)]
pub struct Context {
    pub system_prompt: Option<String>,
    pub messages: Vec<Message>,
    pub tools: Option<Vec<Tool>>,
}

/// How a model is called.
#[derive(Debug, PartialEq)]
pub struct SimpleStreamOptions {
    /// The name of the level at which the model reasons, if it does.
    pub reasoning: Option<String>,
    pub session_id: Option<String>,
}

/// Why an answer is complete.
#[derive(Clone, Copy, Debug, PartialEq, Eq, Structural)]
pub enum DoneReason {
    Stop,
    Length,
    ToolUse,
}

/// Why there is no answer.
#[derive(Clone, Copy, Debug, PartialEq, Eq, Structural)]
pub enum ErrorReason {
    Aborted,
    Error,
}

/// An event of an answer.
#[allow(inconsistent_fields)]
#[derive(Debug, PartialEq)]
pub enum AssistantMessageEvent {
    /// The model has said which tool it calls.
    ToolCallEnd { tool_call: ToolCall },
    /// The answer is complete.
    Done { reason: DoneReason, message: AssistantMessage },
    /// There will be no answer; the message may say why.
    Error { reason: ErrorReason, error: AssistantMessage },
    /// A piece of the answer.
    Other,
}

impl AssistantMessageEvent {
    /// No event comes after this one.
    pub open spec fn terminal(self) -> bool {
        self is Done || self is Error
    }
}

} // verus!
