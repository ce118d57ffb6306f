//! The machine that commands and file operations run on: what is asked of it, and what its answers
//! mean.

pub mod exec;
pub mod files;
pub mod native;
