//! The verified core of a coding agent: context compaction, provider diagnostics, file and
//! command plans, the model picker, file locks, the write tool and MCP notifications.
//!
//! Everything here computes on plain values. What reads files, runs processes, waits for a
//! stream or looks at the environment lives in the program around the library, which hands the
//! results in and carries the decisions out.

pub mod compaction;
pub mod debug;
pub mod diagnostics;
pub mod env;
pub mod json;
pub mod message;
pub mod model;
pub mod model_picker;
pub mod outside;
pub mod path;
pub mod redact;
pub mod session;
pub mod stream;
pub mod text;
pub mod tools;
pub mod triggers;
