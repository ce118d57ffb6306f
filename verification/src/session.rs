//! The entries of a session: a tree of messages and of marks that the program leaves in it.

use crate::message::{optional_text, AgentMessage, MessageView};
use vstd::prelude::*;

verus! {

/// One entry of a session.
#[derive(Debug, PartialEq)]
pub enum SessionTreeEntry {
    /// A message of the conversation.
    Message {
        id: String,
        parent_id: Option<String>,
        timestamp: String,
        message: AgentMessage,
    },
    /// A summary that stands for what was said before the first kept entry.
    Compaction {
        id: String,
        parent_id: Option<String>,
        timestamp: String,
        summary: String,
        first_kept_entry_id: String,
        tokens_before: u64,
    },
    /// A move of the end of the conversation to another entry, or to the root.
    Leaf {
        id: String,
        parent_id: Option<String>,
        timestamp: String,
        target_id: Option<String>,
    },
    /// A mark of the program's own.
    Custom {
        id: String,
        parent_id: Option<String>,
        timestamp: String,
        custom_type: String,
    },
}

/// What an entry holds.
pub enum EntryBody {
    Message(MessageView),
    Compaction { summary: Seq<char>, first_kept_entry_id: Seq<char>, tokens_before: nat },
    Leaf { target_id: Option<Seq<char>> },
    Custom { custom_type: Seq<char> },
}

/// The value of an entry.
pub struct EntryView {
    pub id: Seq<char>,
    pub parent_id: Option<Seq<char>>,
    pub timestamp: Seq<char>,
    pub body: EntryBody,
}

impl View for SessionTreeEntry {
    type V = EntryView;

    open spec fn view(&self) -> EntryView {
        match self {
            SessionTreeEntry::Message { id, parent_id, timestamp, message } => EntryView {
                id: id@,
                parent_id: optional_text(*parent_id),
                timestamp: timestamp@,
                body: EntryBody::Message(message@),
            },
            SessionTreeEntry::Compaction {
                id,
                parent_id,
                timestamp,
                summary,
                first_kept_entry_id,
                tokens_before,
            } => EntryView {
                id: id@,
                parent_id: optional_text(*parent_id),
                timestamp: timestamp@,
                body: EntryBody::Compaction {
                    summary: summary@,
                    first_kept_entry_id: first_kept_entry_id@,
                    tokens_before: *tokens_before as nat,
                },
            },
            SessionTreeEntry::Leaf { id, parent_id, timestamp, target_id } => EntryView {
                id: id@,
                parent_id: optional_text(*parent_id),
                timestamp: timestamp@,
                body: EntryBody::Leaf { target_id: optional_text(*target_id) },
            },
            SessionTreeEntry::Custom { id, parent_id, timestamp, custom_type } => EntryView {
                id: id@,
                parent_id: optional_text(*parent_id),
                timestamp: timestamp@,
                body: EntryBody::Custom { custom_type: custom_type@ },
            },
        }
    }
}

/// The values of entries.
pub open spec fn entry_views(entries: Seq<SessionTreeEntry>) -> Seq<EntryView> {
    Seq::new(entries.len(), |i: int| entries[i]@)
}

impl SessionTreeEntry {
    /// The id of the entry.
    pub fn id(&self) -> (r: &str)
        ensures
            r@ == self@.id,
    {
        match self {
            SessionTreeEntry::Message { id, .. } => id.as_str(),
            SessionTreeEntry::Compaction { id, .. } => id.as_str(),
            SessionTreeEntry::Leaf { id, .. } => id.as_str(),
            SessionTreeEntry::Custom { id, .. } => id.as_str(),
        }
    }
}

impl Clone for SessionTreeEntry {
    fn clone(&self) -> (r: SessionTreeEntry)
        ensures
            r@ == self@,
    {
        match self {
            SessionTreeEntry::Message { id, parent_id, timestamp, message } =>
                SessionTreeEntry::Message {
                    id: id.clone(),
                    parent_id: parent_id.clone(),
                    timestamp: timestamp.clone(),
                    message: message.clone(),
                },
            SessionTreeEntry::Compaction {
                id,
                parent_id,
                timestamp,
                summary,
                first_kept_entry_id,
                tokens_before,
            } => SessionTreeEntry::Compaction {
                id: id.clone(),
                parent_id: parent_id.clone(),
                timestamp: timestamp.clone(),
                summary: summary.clone(),
                first_kept_entry_id: first_kept_entry_id.clone(),
                tokens_before: *tokens_before,
            },
            SessionTreeEntry::Leaf { id, parent_id, timestamp, target_id } =>
                SessionTreeEntry::Leaf {
                    id: id.clone(),
                    parent_id: parent_id.clone(),
                    timestamp: timestamp.clone(),
                    target_id: target_id.clone(),
                },
            SessionTreeEntry::Custom { id, parent_id, timestamp, custom_type } =>
                SessionTreeEntry::Custom {
                    id: id.clone(),
                    parent_id: parent_id.clone(),
                    timestamp: timestamp.clone(),
                    custom_type: custom_type.clone(),
                },
        }
    }
}

/// The value of an entry shows its id, what it stands below, its time and all that it holds.
pub proof fn law_entries_show_what_they_hold(
    id: String,
    parent_id: Option<String>,
    timestamp: String,
    message: AgentMessage,
    summary: String,
    first_kept_entry_id: String,
    tokens_before: u64,
    target_id: Option<String>,
    custom_type: String,
)
    ensures
        ({
            let entry = SessionTreeEntry::Message { id, parent_id, timestamp, message };
            &&& entry@.id == id@ && entry@.parent_id == optional_text(parent_id)
            &&& entry@.timestamp == timestamp@
            &&& entry@.body == EntryBody::Message(message@)
        }),
        ({
            let entry = SessionTreeEntry::Compaction {
                id,
                parent_id,
                timestamp,
                summary,
                first_kept_entry_id,
                tokens_before,
            };
            &&& entry@.id == id@ && entry@.parent_id == optional_text(parent_id)
            &&& entry@.timestamp == timestamp@
            &&& entry@.body is Compaction
            &&& entry@.body->summary == summary@
            &&& entry@.body->first_kept_entry_id == first_kept_entry_id@
            &&& entry@.body->tokens_before == tokens_before
        }),
        ({
            let entry = SessionTreeEntry::Leaf { id, parent_id, timestamp, target_id };
            &&& entry@.id == id@ && entry@.parent_id == optional_text(parent_id)
            &&& entry@.timestamp == timestamp@
            &&& entry@.body is Leaf
            &&& entry@.body->target_id == optional_text(target_id)
        }),
        ({
            let entry = SessionTreeEntry::Custom { id, parent_id, timestamp, custom_type };
            &&& entry@.id == id@ && entry@.parent_id == optional_text(parent_id)
            &&& entry@.timestamp == timestamp@
            &&& entry@.body is Custom
            &&& entry@.body->custom_type == custom_type@
        }),
{
}

/// The values of entries in a row are theirs, in their order.
pub proof fn law_entry_values_stand_in_order(entries: Seq<SessionTreeEntry>)
    ensures
        entry_views(entries).len() == entries.len(),
        forall|i: int| 0 <= i < entries.len() ==> #[trigger] entry_views(entries)[i] == entries[i]@,
{
}

} // verus!
