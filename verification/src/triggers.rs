//! Events from outside that set the agent to work.

pub mod mcp_notification_hook;
pub mod trigger;
