//! Triggers, and how those who send them are doing.

use crate::json::Json;
use crate::message::optional_text;
use crate::outside::UtcTime;
use crate::text::text_views;
use vstd::prelude::*;

verus! {

/// Where a trigger comes from.
#[derive(Debug, PartialEq)]
pub enum TriggerSource {
    /// A notification of an MCP server.
    Mcp { server_name: String, method: String },
}

#[derive(Clone, Copy, Debug, PartialEq, Eq, Structural)]
pub enum SourceKind {
    Mcp,
}

/// Who may see a trigger's payload.
#[derive(Clone, Copy, Debug, PartialEq, Eq, Structural)]
pub enum PayloadVisibility {
    /// Nobody beyond this machine.
    Local,
}

/// What happens to a trigger when another with its key is still waiting.
#[derive(Clone, Copy, Debug, PartialEq, Eq, Structural)]
pub enum ReplacementPolicy {
    /// It takes the other's place.
    LatestReplaces,
    /// It is dropped.
    Drop,
}

/// On whose behalf a trigger acts.
#[derive(Clone, Copy, Debug, PartialEq, Eq, Structural)]
pub enum CredentialScope {
    User,
}

/// Who stands behind a trigger.
#[derive(Debug, PartialEq)]
pub struct TriggerAuthority {
    pub principal_id: String,
    pub principal_label: String,
    pub credential_scope: CredentialScope,
    pub allowed_source_actions: Vec<String>,
    pub expires_at: Option<UtcTime>,
}

/// An event that sets the agent to work.
#[derive(Debug, PartialEq)]
pub struct Trigger {
    pub source: TriggerSource,
    pub source_kind: SourceKind,
    pub source_label: String,
    pub event_label: String,
    pub payload_visibility: PayloadVisibility,
    pub payload_summary: Option<String>,
    pub payload: Option<Json>,
    /// Triggers with one key are one event.
    pub idempotency_key: String,
    pub replacement_policy: ReplacementPolicy,
    pub trace_id: String,
    pub authority: TriggerAuthority,
    pub received_at: UtcTime,
}

/// Why a hook stopped.
#[derive(Debug, PartialEq)]
pub enum HookError {
    /// Nobody takes triggers any more.
    SinkClosed,
    Other(String),
}

/// Whether a hook can bring events.
#[derive(Debug, PartialEq)]
pub enum HookState {
    Connected,
    Disconnected { reason: String },
}

/// How a hook is doing.
#[derive(Debug, PartialEq)]
pub struct NotificationHookStatus {
    pub state: HookState,
    pub subscription_labels: Vec<String>,
    pub last_event_at: Option<UtcTime>,
    pub last_error: Option<String>,
    pub dropped_count: u64,
}

/// The value of a hook's state.
pub enum HookStateView {
    Connected,
    Disconnected(Seq<char>),
}

/// The value of a hook's status.
pub struct StatusView {
    pub state: HookStateView,
    pub subscription_labels: Seq<Seq<char>>,
    pub last_event_at: Option<UtcTime>,
    pub last_error: Option<Seq<char>>,
    pub dropped_count: nat,
}

impl View for HookState {
    type V = HookStateView;

    open spec fn view(&self) -> HookStateView {
        match self {
            HookState::Connected => HookStateView::Connected,
            HookState::Disconnected { reason } => HookStateView::Disconnected(reason@),
        }
    }
}

impl View for NotificationHookStatus {
    type V = StatusView;

    open spec fn view(&self) -> StatusView {
        StatusView {
            state: self.state@,
            subscription_labels: text_views(self.subscription_labels@),
            last_event_at: self.last_event_at,
            last_error: optional_text(self.last_error),
            dropped_count: self.dropped_count as nat,
        }
    }
}

/// The status of a hook that has not run.
pub open spec fn pending_status() -> StatusView {
    StatusView {
        state: HookStateView::Disconnected("not yet started"@),
        subscription_labels: Seq::empty(),
        last_event_at: None,
        last_error: None,
        dropped_count: 0,
    }
}

impl NotificationHookStatus {
    /// The status of a hook that has not run.
    pub fn pending() -> (r: NotificationHookStatus)
        ensures
            r@ == pending_status(),
    {
        let subscription_labels: Vec<String> = Vec::new();
        assert(text_views(subscription_labels@) =~= Seq::<Seq<char>>::empty());
        NotificationHookStatus {
            state: HookState::Disconnected { reason: String::from_str("not yet started") },
            subscription_labels,
            last_event_at: None,
            last_error: None,
            dropped_count: 0,
        }
    }
}

impl Clone for HookState {
    fn clone(&self) -> (r: HookState)
        ensures
            r@ == self@,
    {
        match self {
            HookState::Connected => HookState::Connected,
            HookState::Disconnected { reason } => HookState::Disconnected {
                reason: reason.clone(),
            },
        }
    }
}

impl Clone for NotificationHookStatus {
    fn clone(&self) -> (r: NotificationHookStatus)
        ensures
            r@ == self@,
    {
        let subscription_labels = self.subscription_labels.clone();
        assert(text_views(subscription_labels@) =~= text_views(self.subscription_labels@));
        NotificationHookStatus {
            state: self.state.clone(),
            subscription_labels,
            last_event_at: self.last_event_at,
            last_error: match &self.last_error {
                Some(error) => Some(error.clone()),
                None => None,
            },
            dropped_count: self.dropped_count,
        }
    }
}

/// A hook that has not run is not connected, says so, has subscribed to nothing, has brought nothing
/// and has dropped nothing.
pub proof fn law_pending_hook_has_done_nothing()
    ensures
        pending_status().state == HookStateView::Disconnected("not yet started"@),
        pending_status().subscription_labels.len() == 0,
        pending_status().last_event_at is None,
        pending_status().last_error is None,
        pending_status().dropped_count == 0,
{
}

/// The value of a hook's status shows each of its fields as it is.
pub proof fn law_status_shows_its_fields(status: NotificationHookStatus)
    ensures
        status@.state is Connected <==> status.state is Connected,
        status.state is Disconnected ==> status@.state == HookStateView::Disconnected(
            status.state->reason@,
        ),
        status@.subscription_labels == text_views(status.subscription_labels@),
        status@.last_event_at == status.last_event_at,
        status@.last_error == optional_text(status.last_error),
        status@.dropped_count == status.dropped_count,
{
}

} // verus!
