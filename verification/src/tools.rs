//! The tools that a model may call, and what keeps them from getting in each other's way.

use crate::json::Json;
use crate::message::UserContentBlock;
use vstd::prelude::*;

pub mod fs_guard;
pub mod write;

verus! {

/// A tool as a model is told of it.
#[derive(Debug, PartialEq)]
pub struct Tool {
    pub name: String,
    pub description: String,
    /// The JSON schema of its parameters.
    pub parameters: Json,
}

/// What a tool gives.
#[derive(Debug, PartialEq)]
pub struct AgentToolResult {
    pub content: Vec<UserContentBlock>,
    pub details: Json,
    /// Whether the conversation ends with it, where the tool says so.
    pub terminate: Option<bool>,
}

/// Why a tool gives nothing.
#[derive(Debug, PartialEq)]
pub struct AgentToolError {
    pub message: String,
}

} // verus!
