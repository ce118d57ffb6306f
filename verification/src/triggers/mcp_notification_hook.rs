//! Notifications that an MCP server pushes, made into triggers.
//!
//! | method                                | key                   | replacement      |
//! |---------------------------------------|-----------------------|------------------|
//! | `notifications/tools/listChanged`     | `tools`               | `LatestReplaces` |
//! | `notifications/resources/listChanged` | `resources`           | `LatestReplaces` |
//! | `notifications/resources/updated`     | `resources:{uri}`     | `LatestReplaces` |
//! | `notifications/prompts/listChanged`   | `prompts`             | `LatestReplaces` |
//! | any other                             | `_meta.pie_dedup_key`,| `Drop`           |
//! |                                       | else `_pie_dedup_key` |                  |
//!
//! A notification of another method that gives neither key is dropped and counted.

use crate::json::{member, text_member, Json, JsonTree};
use crate::message::optional_text;
use crate::outside::{
    hyphenated_uuid, json_text, quoted, quoted_text, random_uuid, utc_now, UtcTime,
};
use crate::text::{
    begins_with, byte_size, first_bytes, first_bytes_of, first_chars, first_chars_of,
    lemma_first_bytes_fits, same_text, text_views,
};
use crate::triggers::trigger::{
    pending_status, CredentialScope, HookError, HookState, HookStateView,
    NotificationHookStatus, PayloadVisibility, ReplacementPolicy, SourceKind, StatusView, Trigger,
    TriggerAuthority, TriggerSource,
};
use vstd::prelude::*;

verus! {

pub const TOOLS_LIST_CHANGED: &'static str = "notifications/tools/listChanged";

pub const RESOURCES_LIST_CHANGED: &'static str = "notifications/resources/listChanged";

pub const PROMPTS_LIST_CHANGED: &'static str = "notifications/prompts/listChanged";

pub const RESOURCES_UPDATED: &'static str = "notifications/resources/updated";

/// How much of a notification's parameters a summary shows, in characters.
pub const SUMMARY_CHARS: usize = 200;

/// The most bytes of a summary: well below the four kibibytes that are kept of one.
pub const SUMMARY_BYTES: usize = 3072;

/// A notification that an MCP server pushes.
#[derive(Debug, PartialEq)]
pub struct McpServerNotification {
    pub method: String,
    pub params: Json,
}

// ---------------------------------------------------------------------------------------------
// Which event a notification is
// ---------------------------------------------------------------------------------------------

/// The key that a notification gives itself: the newer place for it comes before the older one.
pub open spec fn own_key(params: JsonTree) -> Option<Seq<char>> {
    let newer = match member(params, "_meta"@) {
        Some(meta) => text_member(meta, "pie_dedup_key"@),
        None => None,
    };
    match newer {
        Some(key) => Some(key),
        None => text_member(params, "_pie_dedup_key"@),
    }
}

/// The key of an update of the resource `uri`; without one, of an unknown resource.
pub open spec fn updated_key(uri: Option<Seq<char>>) -> Seq<char> {
    "resources:"@ + match uri {
        Some(uri) => uri,
        None => "unknown"@,
    }
}

/// The key of a notification and what happens to it when another with its key is waiting; nothing
/// where it has no key.
pub open spec fn idempotency(method: Seq<char>, params: JsonTree) -> Option<
    (Seq<char>, ReplacementPolicy),
> {
    if method == TOOLS_LIST_CHANGED@ {
        Some(("tools"@, ReplacementPolicy::LatestReplaces))
    } else if method == RESOURCES_LIST_CHANGED@ {
        Some(("resources"@, ReplacementPolicy::LatestReplaces))
    } else if method == PROMPTS_LIST_CHANGED@ {
        Some(("prompts"@, ReplacementPolicy::LatestReplaces))
    } else if method == RESOURCES_UPDATED@ {
        Some((updated_key(text_member(params, "uri"@)), ReplacementPolicy::LatestReplaces))
    } else {
        match own_key(params) {
            Some(key) => Some((key, ReplacementPolicy::Drop)),
            None => None,
        }
    }
}

/// The key that a notification gives itself.
pub fn extract_dedup_key(params: &Json) -> (r: Option<String>)
    ensures
        optional_text(r) == own_key(params.tree()),
{
    if let Some(meta) = params.get("_meta") {
        if let Some(key) = meta.get_str("pie_dedup_key") {
            return Some(key.to_string());
        }
    }
    match params.get_str("_pie_dedup_key") {
        Some(key) => Some(key.to_string()),
        None => None,
    }
}

/// The key of a notification and what happens to it when another with its key is waiting.
pub fn idempotency_for(method: &str, params: &Json) -> (r: Option<(String, ReplacementPolicy)>)
    ensures
        match r {
            Some((key, policy)) => idempotency(method@, params.tree()) == Some((key@, policy)),
            None => idempotency(method@, params.tree()) is None,
        },
{
    if same_text(method, TOOLS_LIST_CHANGED) {
        Some((String::from_str("tools"), ReplacementPolicy::LatestReplaces))
    } else if same_text(method, RESOURCES_LIST_CHANGED) {
        Some((String::from_str("resources"), ReplacementPolicy::LatestReplaces))
    } else if same_text(method, PROMPTS_LIST_CHANGED) {
        Some((String::from_str("prompts"), ReplacementPolicy::LatestReplaces))
    } else if same_text(method, RESOURCES_UPDATED) {
        let mut key = String::new();
        key.push_str("resources:");
        match params.get_str("uri") {
            Some(uri) => {
                key.push_str(uri);
            },
            None => {
                key.push_str("unknown");
            },
        }
        assert(key@ =~= updated_key(text_member(params.tree(), "uri"@)));
        Some((key, ReplacementPolicy::LatestReplaces))
    } else {
        match extract_dedup_key(params) {
            Some(key) => Some((key, ReplacementPolicy::Drop)),
            None => None,
        }
    }
}

/// A notification in one line: its method, and the resource or else the beginning of the
/// parameters, where there are any.
pub open spec fn whole_line(method: Seq<char>, params: JsonTree) -> Seq<char> {
    let uri = text_member(params, "uri"@);
    let shown = first_chars(json_text(params), SUMMARY_CHARS as int);
    if method == RESOURCES_UPDATED@ && uri is Some {
        method + " uri="@ + uri.unwrap()
    } else if shown.len() == 0 || shown == "null"@ {
        method
    } else {
        method + " "@ + shown
    }
}

/// A notification in one line, of which the end is cut off where it is too long to be kept.
pub open spec fn summary_line(method: Seq<char>, params: JsonTree) -> Seq<char> {
    first_bytes(whole_line(method, params), SUMMARY_BYTES as nat)
}

/// A notification in one line.
fn render_line(method: &str, params: &Json) -> (r: String)
    ensures
        r@ == whole_line(method@, params.tree()),
{
    let mut line = method.to_string();
    if same_text(method, RESOURCES_UPDATED) {
        if let Some(uri) = params.get_str("uri") {
            line.push_str(" uri=");
            line.push_str(uri);
            return line;
        }
    }
    let raw = params.compact();
    let shown = first_chars_of(raw.as_str(), SUMMARY_CHARS);
    proof {
        reveal_strlit("");
        assert(shown@ =~= ""@ || shown@.len() > 0);
    }
    if !same_text(shown.as_str(), "") && !same_text(shown.as_str(), "null") {
        line.push_str(" ");
        line.push_str(shown.as_str());
    }
    line
}

/// A notification in one line, of which the end is cut off where it is too long to be kept.
pub fn render_summary(method: &str, params: &Json) -> (r: Option<String>)
    ensures
        optional_text(r) == Some(summary_line(method@, params.tree())),
{
    let line = render_line(method, params);
    Some(first_bytes_of(line.as_str(), SUMMARY_BYTES))
}

// ---------------------------------------------------------------------------------------------
// Triggers
// ---------------------------------------------------------------------------------------------

/// The label of a server.
pub open spec fn server_label(server_name: Seq<char>) -> Seq<char> {
    "mcp:"@ + server_name
}

/// `trigger` stands for the notification, whatever its trace id and its time are. Its payload stays
/// out of it.
pub open spec fn stands_for(
    trigger: Trigger,
    server_name: Seq<char>,
    method: Seq<char>,
    params: JsonTree,
) -> bool {
    &&& match trigger.source {
        TriggerSource::Mcp { server_name: s, method: m } => s@ == server_name && m@ == method,
    }
    &&& trigger.source_kind == SourceKind::Mcp
    &&& trigger.source_label@ == server_label(server_name)
    &&& trigger.event_label@ == method
    &&& trigger.payload_visibility == PayloadVisibility::Local
    &&& optional_text(trigger.payload_summary) == Some(summary_line(method, params))
    &&& trigger.payload is None
    &&& idempotency(method, params) == Some((trigger.idempotency_key@, trigger.replacement_policy))
    &&& trigger.authority.principal_id@ == server_label(server_name)
    &&& trigger.authority.principal_label@ == server_name
    &&& trigger.authority.credential_scope == CredentialScope::User
    &&& trigger.authority.allowed_source_actions@.len() == 0
    &&& trigger.authority.expires_at is None
}

/// The label of a server.
fn label_of(server_name: &str) -> (r: String)
    ensures
        r@ == server_label(server_name@),
{
    let mut label = String::new();
    label.push_str("mcp:");
    label.push_str(server_name);
    assert(label@ =~= server_label(server_name@));
    label
}

/// The trigger that stands for a notification, with a trace id and a time; a notification without a
/// key has none.
pub fn map_notification_at(
    server_name: &str,
    n: &McpServerNotification,
    trace_id: String,
    received_at: UtcTime,
) -> (r: Option<Trigger>)
    ensures
        r is Some <==> idempotency(n.method@, n.params.tree()) is Some,
        r matches Some(trigger) ==> stands_for(trigger, server_name@, n.method@, n.params.tree())
            && trigger.trace_id == trace_id && trigger.received_at == received_at,
{
    let (idempotency_key, replacement_policy) = match idempotency_for(
        n.method.as_str(),
        &n.params,
    ) {
        Some(found) => found,
        None => {
            return None;
        },
    };
    Some(
        Trigger {
            source: TriggerSource::Mcp {
                server_name: server_name.to_string(),
                method: n.method.clone(),
            },
            source_kind: SourceKind::Mcp,
            source_label: label_of(server_name),
            event_label: n.method.clone(),
            payload_visibility: PayloadVisibility::Local,
            payload_summary: render_summary(n.method.as_str(), &n.params),
            payload: None,
            idempotency_key,
            replacement_policy,
            trace_id,
            authority: TriggerAuthority {
                principal_id: label_of(server_name),
                principal_label: server_name.to_string(),
                credential_scope: CredentialScope::User,
                allowed_source_actions: Vec::new(),
                expires_at: None,
            },
            received_at,
        },
    )
}

/// The trigger that stands for a notification, with a trace id of its own and the present time.
pub fn map_notification(server_name: &str, n: &McpServerNotification) -> (r: Option<Trigger>)
    ensures
        r is Some <==> idempotency(n.method@, n.params.tree()) is Some,
        r matches Some(trigger) ==> stands_for(trigger, server_name@, n.method@, n.params.tree())
            && hyphenated_uuid(trigger.trace_id@),
{
    map_notification_at(server_name, n, random_uuid(), utc_now())
}

// ---------------------------------------------------------------------------------------------
// The hook
// ---------------------------------------------------------------------------------------------

/// The notifications of one MCP server as a source of triggers. It runs once.
#[derive(Debug, PartialEq)]
pub struct McpNotificationHook {
    label: String,
    server_name: String,
    ran: bool,
    status: NotificationHookStatus,
}

/// The value of a hook.
pub struct HookView {
    pub label: Seq<char>,
    pub server_name: Seq<char>,
    /// Whether it has been started.
    pub ran: bool,
    pub status: StatusView,
}

impl View for McpNotificationHook {
    type V = HookView;

    closed spec fn view(&self) -> HookView {
        HookView {
            label: self.label@,
            server_name: self.server_name@,
            ran: self.ran,
            status: self.status@,
        }
    }
}

/// What is said of a notification that was dropped.
pub open spec fn dropped_text(method: Seq<char>) -> Seq<char> {
    "dropped custom notification "@ + quoted(method)
        + ": missing `_meta.pie_dedup_key` or `_pie_dedup_key`"@
}

/// What is said to someone who starts a hook again.
pub open spec fn already_ran_text(label: Seq<char>) -> Seq<char> {
    label + " hook already ran; receiver consumed"@
}

/// A hook that was started.
pub open spec fn hook_after_start(hook: HookView) -> HookView {
    HookView {
        ran: true,
        status: StatusView { state: HookStateView::Connected, ..hook.status },
        ..hook
    }
}

/// How a hook is doing of which a trigger was taken at `now`.
pub open spec fn status_after_sending(status: StatusView, now: UtcTime) -> StatusView {
    StatusView { last_event_at: Some(now), last_error: None, ..status }
}

/// How a hook is doing that has ended, for a reason.
pub open spec fn status_after_end(status: StatusView, why: Seq<char>) -> StatusView {
    StatusView { state: HookStateView::Disconnected(why), ..status }
}

/// How a hook is doing that has dropped one notification more.
pub open spec fn status_after_drop(status: StatusView, method: Seq<char>) -> StatusView {
    StatusView {
        dropped_count: if status.dropped_count < u64::MAX {
            status.dropped_count + 1
        } else {
            u64::MAX as nat
        },
        last_error: Some(dropped_text(method)),
        ..status
    }
}

impl McpNotificationHook {
    /// The hook is labelled after its server, and the server is all that it subscribes to.
    pub open spec fn wf(self) -> bool {
        &&& self@.label == server_label(self@.server_name)
        &&& self@.status.subscription_labels == seq![self@.label]
    }

    /// A hook for the server that is configured as `server_name`.
    pub fn new(server_name: String) -> (r: McpNotificationHook)
        ensures
            r.wf(),
            r@ == (HookView {
                label: server_label(server_name@),
                server_name: server_name@,
                ran: false,
                status: StatusView {
                    subscription_labels: seq![server_label(server_name@)],
                    ..pending_status()
                },
            }),
    {
        let label = label_of(server_name.as_str());
        let mut status = NotificationHookStatus::pending();
        let mut labels: Vec<String> = Vec::new();
        labels.push(label.clone());
        status.subscription_labels = labels;
        assert(text_views(status.subscription_labels@) =~= seq![label@]);
        McpNotificationHook { label, server_name, ran: false, status }
    }

    /// The hook's label.
    pub fn label(&self) -> (r: &str)
        ensures
            r@ == self@.label,
    {
        self.label.as_str()
    }

    /// How the hook is doing.
    pub fn status(&self) -> (r: NotificationHookStatus)
        ensures
            r@ == self@.status,
    {
        self.status.clone()
    }

    /// Starts the hook, the first time that it is asked to.
    pub fn start(&mut self) -> (r: Result<(), HookError>)
        requires
            old(self).wf(),
        ensures
            final(self).wf(),
            if old(self)@.ran {
                &&& *final(self) == *old(self)
                &&& r matches Err(HookError::Other(why)) && why@ == old(self)@.label
                    + " hook already ran; receiver consumed"@
            } else {
                &&& r is Ok
                &&& final(self)@ == (HookView {
                    ran: true,
                    status: StatusView { state: HookStateView::Connected, ..old(self)@.status },
                    ..old(self)@
                })
            },
            r is Ok <==> !old(self)@.ran,
            r is Ok ==> final(self)@ == hook_after_start(old(self)@),
            r is Err ==> *final(self) == *old(self),
            r matches Err(error) ==> error is Other && error->Other_0@ == already_ran_text(
                old(self)@.label,
            ),
    {
        if self.ran {
            let mut why = self.label.clone();
            why.push_str(" hook already ran; receiver consumed");
            return Err(HookError::Other(why));
        }
        self.ran = true;
        self.status.state = HookState::Connected;
        Ok(())
    }

    /// Takes a notification in: gives its trigger, or drops it, counts it and says why.
    pub fn on_notification(&mut self, n: &McpServerNotification) -> (r: Option<Trigger>)
        requires
            old(self).wf(),
        ensures
            final(self).wf(),
            match idempotency(n.method@, n.params.tree()) {
                Some(_) => *final(self) == *old(self) && (r matches Some(trigger) && stands_for(
                    trigger,
                    old(self)@.server_name,
                    n.method@,
                    n.params.tree(),
                ) && hyphenated_uuid(trigger.trace_id@)),
                None => r is None && final(self)@ == (HookView {
                    status: StatusView {
                        dropped_count: if old(self)@.status.dropped_count < u64::MAX {
                            old(self)@.status.dropped_count + 1
                        } else {
                            u64::MAX as nat
                        },
                        last_error: Some(dropped_text(n.method@)),
                        ..old(self)@.status
                    },
                    ..old(self)@
                }),
            },
            r is None ==> final(self)@.status == status_after_drop(old(self)@.status, n.method@),
    {
        match map_notification(self.server_name.as_str(), n) {
            Some(trigger) => Some(trigger),
            None => {
                self.status.dropped_count = self.status.dropped_count.saturating_add(1);
                let mut why = String::new();
                why.push_str("dropped custom notification ");
                why.push_str(quoted_text(n.method.as_str()).as_str());
                why.push_str(": missing `_meta.pie_dedup_key` or `_pie_dedup_key`");
                assert(why@ =~= dropped_text(n.method@));
                self.status.last_error = Some(why);
                None
            },
        }
    }

    /// A trigger was taken at `now`: there was an event, and what went wrong before is over.
    pub fn on_sent_at(&mut self, now: UtcTime)
        requires
            old(self).wf(),
        ensures
            final(self).wf(),
            final(self)@ == (HookView {
                status: StatusView {
                    last_event_at: Some(now),
                    last_error: None,
                    ..old(self)@.status
                },
                ..old(self)@
            }),
            final(self)@.status == status_after_sending(old(self)@.status, now),
    {
        self.status.last_event_at = Some(now);
        self.status.last_error = None;
    }

    /// A trigger was taken now.
    pub fn on_sent(&mut self)
        requires
            old(self).wf(),
        ensures
            final(self).wf(),
            final(self)@.status.last_event_at is Some,
            final(self)@ == (HookView {
                status: StatusView {
                    last_event_at: final(self)@.status.last_event_at,
                    last_error: None,
                    ..old(self)@.status
                },
                ..old(self)@
            }),
    {
        self.on_sent_at(utc_now());
    }

    /// Nobody takes triggers any more, and the run ends with that error.
    pub fn on_sink_closed(&mut self) -> (r: Result<(), HookError>)
        requires
            old(self).wf(),
        ensures
            final(self).wf(),
            r matches Err(error) && error is SinkClosed,
            final(self)@ == (HookView {
                status: StatusView {
                    state: HookStateView::Disconnected("sink closed"@),
                    ..old(self)@.status
                },
                ..old(self)@
            }),
            final(self)@.status == status_after_end(old(self)@.status, "sink closed"@),
    {
        self.status.state = HookState::Disconnected { reason: String::from_str("sink closed") };
        Err(HookError::SinkClosed)
    }

    /// The server sends nothing any more, and the run ends in good order.
    pub fn on_transport_closed(&mut self) -> (r: Result<(), HookError>)
        requires
            old(self).wf(),
        ensures
            final(self).wf(),
            r is Ok,
            final(self)@ == (HookView {
                status: StatusView {
                    state: HookStateView::Disconnected("mcp transport closed"@),
                    ..old(self)@.status
                },
                ..old(self)@
            }),
            final(self)@.status == status_after_end(old(self)@.status, "mcp transport closed"@),
    {
        self.status.state = HookState::Disconnected {
            reason: String::from_str("mcp transport closed"),
        };
        Ok(())
    }
}

// ---------------------------------------------------------------------------------------------
// Laws
// ---------------------------------------------------------------------------------------------

/// The protocol's own notifications always have a key, whatever their parameters are, and the
/// latest takes the place of one that is waiting.
pub proof fn law_known_methods_are_never_dropped(method: Seq<char>, params: JsonTree)
    requires
        method == TOOLS_LIST_CHANGED@ || method == RESOURCES_LIST_CHANGED@ || method
            == PROMPTS_LIST_CHANGED@ || method == RESOURCES_UPDATED@,
    ensures
        idempotency(method, params) matches Some((_, policy)) && policy
            == ReplacementPolicy::LatestReplaces,
{
}

/// A notification of another method is dropped if and only if it gives no key in either place; else
/// its key is the one it gives, and it does not replace one that is waiting.
pub proof fn law_other_methods_need_a_key(method: Seq<char>, params: JsonTree)
    requires
        method != TOOLS_LIST_CHANGED@,
        method != RESOURCES_LIST_CHANGED@,
        method != PROMPTS_LIST_CHANGED@,
        method != RESOURCES_UPDATED@,
    ensures
        idempotency(method, params) is None <==> own_key(params) is None,
        idempotency(method, params) matches Some((key, policy)) ==> own_key(params) == Some(key)
            && policy == ReplacementPolicy::Drop,
{
}

/// Where a notification gives a key in both places, the one in `_meta` counts.
pub proof fn law_meta_key_wins(params: JsonTree, meta: JsonTree, key: Seq<char>)
    requires
        member(params, "_meta"@) == Some(meta),
        text_member(meta, "pie_dedup_key"@) == Some(key),
    ensures
        own_key(params) == Some(key),
{
}

/// Updates of one resource are one event, and updates of two resources are two.
pub proof fn law_updates_are_told_apart(
    a: JsonTree,
    b: JsonTree,
    uri_a: Seq<char>,
    uri_b: Seq<char>,
)
    requires
        text_member(a, "uri"@) == Some(uri_a),
        text_member(b, "uri"@) == Some(uri_b),
    ensures
        idempotency(RESOURCES_UPDATED@, a) == idempotency(RESOURCES_UPDATED@, b) <==> uri_a
            == uri_b,
{
    lemma_methods_differ();
    let head = "resources:"@;
    let key_a = head + uri_a;
    let key_b = head + uri_b;
    assert(idempotency(RESOURCES_UPDATED@, a) == Some((key_a, ReplacementPolicy::LatestReplaces)));
    assert(idempotency(RESOURCES_UPDATED@, b) == Some((key_b, ReplacementPolicy::LatestReplaces)));
    if key_a == key_b {
        assert(uri_a =~= key_a.skip(head.len() as int));
        assert(uri_b =~= key_b.skip(head.len() as int));
    }
}

/// The methods that have keys of their own are four different ones.
proof fn lemma_methods_differ()
    ensures
        TOOLS_LIST_CHANGED@ != RESOURCES_LIST_CHANGED@,
        TOOLS_LIST_CHANGED@ != PROMPTS_LIST_CHANGED@,
        TOOLS_LIST_CHANGED@ != RESOURCES_UPDATED@,
        RESOURCES_LIST_CHANGED@ != PROMPTS_LIST_CHANGED@,
        RESOURCES_LIST_CHANGED@ != RESOURCES_UPDATED@,
        PROMPTS_LIST_CHANGED@ != RESOURCES_UPDATED@,
{
    reveal_strlit("notifications/tools/listChanged");
    reveal_strlit("notifications/resources/listChanged");
    reveal_strlit("notifications/prompts/listChanged");
    reveal_strlit("notifications/resources/updated");
    assert(TOOLS_LIST_CHANGED@.len() == 31);
    assert(RESOURCES_LIST_CHANGED@.len() == 35);
    assert(PROMPTS_LIST_CHANGED@.len() == 33);
    assert(RESOURCES_UPDATED@.len() == 31);
    assert(TOOLS_LIST_CHANGED@[14] == 't');
    assert(RESOURCES_UPDATED@[14] == 'r');
}

/// A change of one of the lists is never taken for a change of another, nor for the update of a
/// resource.
pub proof fn law_lists_are_told_apart(a: Seq<char>, b: Seq<char>, p: JsonTree, q: JsonTree)
    requires
        a == TOOLS_LIST_CHANGED@ || a == RESOURCES_LIST_CHANGED@ || a == PROMPTS_LIST_CHANGED@,
        b == TOOLS_LIST_CHANGED@ || b == RESOURCES_LIST_CHANGED@ || b == PROMPTS_LIST_CHANGED@ || b
            == RESOURCES_UPDATED@,
        a != b,
    ensures
        idempotency(a, p) matches Some((key_a, _)) && (idempotency(b, q) matches Some((key_b, _))
            && key_a != key_b),
{
    lemma_methods_differ();
    reveal_strlit("tools");
    reveal_strlit("resources");
    reveal_strlit("prompts");
    reveal_strlit("resources:");
    assert("tools"@.len() == 5 && "tools"@[0] == 't');
    assert("resources"@.len() == 9 && "resources"@[0] == 'r');
    assert("prompts"@.len() == 7 && "prompts"@[0] == 'p');
    assert("resources:"@.len() == 10 && "resources:"@[0] == 'r');
    if b == RESOURCES_UPDATED@ {
        let key = updated_key(text_member(q, "uri"@));
        assert(key.len() >= 10);
        assert(key[0] == 'r');
    }
}

/// However long its method and its parameters are, the summary of a notification stays well below
/// four kibibytes; it is the whole line where that does, and else a beginning of it.
pub proof fn law_summary_is_bounded(method: Seq<char>, params: JsonTree)
    ensures
        byte_size(summary_line(method, params)) <= SUMMARY_BYTES < 4096,
        begins_with(whole_line(method, params), summary_line(method, params)),
        byte_size(whole_line(method, params)) <= SUMMARY_BYTES ==> summary_line(method, params)
            == whole_line(method, params),
{
    lemma_first_bytes_fits(whole_line(method, params), SUMMARY_BYTES as nat);
}

/// Nothing of the payload but the summary leaves the hook, and the trigger acts for its server
/// alone.
pub proof fn law_payload_stays_local(
    trigger: Trigger,
    server_name: Seq<char>,
    method: Seq<char>,
    params: JsonTree,
)
    requires
        stands_for(trigger, server_name, method, params),
    ensures
        trigger.payload is None,
        trigger.payload_visibility == PayloadVisibility::Local,
        trigger.authority.principal_id@ == trigger.source_label@,
        trigger.authority.allowed_source_actions@ == Seq::<String>::empty(),
{
    assert(trigger.authority.allowed_source_actions@ =~= Seq::<String>::empty());
}

/// The four notifications of the protocol have these methods, keys of their own, and the latest
/// takes the place of one that waits.
pub proof fn law_protocol_keys(params: JsonTree)
    ensures
        idempotency("notifications/tools/listChanged"@, params) == Some(
            ("tools"@, ReplacementPolicy::LatestReplaces),
        ),
        idempotency("notifications/resources/listChanged"@, params) == Some(
            ("resources"@, ReplacementPolicy::LatestReplaces),
        ),
        idempotency("notifications/prompts/listChanged"@, params) == Some(
            ("prompts"@, ReplacementPolicy::LatestReplaces),
        ),
{
    lemma_methods_differ();
}

/// An update has the key of its resource, whatever else its parameters hold, and without a
/// resource that of an unknown one.
pub proof fn law_update_has_the_key_of_its_resource(
    map: Map<Seq<char>, JsonTree>,
    uri: Seq<char>,
)
    ensures
        map.dom().contains("uri"@) && map["uri"@] == JsonTree::Text(uri) ==> idempotency(
            "notifications/resources/updated"@,
            JsonTree::Object(map),
        ) == Some(("resources:"@ + uri, ReplacementPolicy::LatestReplaces)),
        !map.dom().contains("uri"@) || !(map["uri"@] is Text) ==> idempotency(
            "notifications/resources/updated"@,
            JsonTree::Object(map),
        ) == Some(("resources:"@ + "unknown"@, ReplacementPolicy::LatestReplaces)),
{
    lemma_methods_differ();
}

/// A notification of another method goes by the text under `pie_dedup_key` in its `_meta`; without
/// that by the text under its `_pie_dedup_key`; and without both it is dropped. It never takes the
/// place of one that waits.
pub proof fn law_custom_keys(method: Seq<char>, map: Map<Seq<char>, JsonTree>)
    requires
        method != "notifications/tools/listChanged"@,
        method != "notifications/resources/listChanged"@,
        method != "notifications/prompts/listChanged"@,
        method != "notifications/resources/updated"@,
    ensures
        ({
            let newer = map.dom().contains("_meta"@) && map["_meta"@] is Object
                && map["_meta"@]->Object_0.dom().contains("pie_dedup_key"@)
                && map["_meta"@]->Object_0["pie_dedup_key"@] is Text;
            let older = map.dom().contains("_pie_dedup_key"@) && map["_pie_dedup_key"@] is Text;
            idempotency(method, JsonTree::Object(map)) == if newer {
                Some(
                    (
                        map["_meta"@]->Object_0["pie_dedup_key"@]->Text_0,
                        ReplacementPolicy::Drop,
                    ),
                )
            } else if older {
                Some((map["_pie_dedup_key"@]->Text_0, ReplacementPolicy::Drop))
            } else {
                None
            }
        }),
{
}

/// An update of a resource is told by the resource. Any other notification is told by its method
/// and the first 200 characters of its parameters, or by its method alone where it has none.
pub proof fn law_line_tells_the_notification(
    method: Seq<char>,
    map: Map<Seq<char>, JsonTree>,
    uri: Seq<char>,
    params: JsonTree,
)
    ensures
        map.dom().contains("uri"@) && map["uri"@] == JsonTree::Text(uri) ==> whole_line(
            "notifications/resources/updated"@,
            JsonTree::Object(map),
        ) == "notifications/resources/updated"@ + " uri="@ + uri,
        method != "notifications/resources/updated"@ && 0 < json_text(params).len() <= 200
            && json_text(params) != "null"@ ==> whole_line(method, params) == method + " "@
            + json_text(params),
        method != "notifications/resources/updated"@ && json_text(params).len() > 200
            ==> whole_line(method, params) == method + " "@ + json_text(params).subrange(0, 200),
        method != "notifications/resources/updated"@ && (json_text(params).len() == 0 || json_text(
            params,
        ) == "null"@) ==> whole_line(method, params) == method,
{
    reveal_strlit("null");
    assert("null"@.len() == 4);
    if json_text(params).len() > 200 {
        assert(first_chars(json_text(params), 200) =~= json_text(params).subrange(0, 200));
    }
}

/// A line of no more than 3072 bytes is kept whole; of a longer one the longest beginning is kept
/// that they hold.
pub proof fn law_summary_keeps_what_fits(method: Seq<char>, params: JsonTree)
    ensures
        byte_size(whole_line(method, params)) <= 3072 ==> summary_line(method, params)
            == whole_line(method, params),
        summary_line(method, params) == first_bytes(whole_line(method, params), 3072),
        byte_size(summary_line(method, params)) <= 3072,
{
    lemma_first_bytes_fits(whole_line(method, params), 3072);
}

/// A trigger names the server and the method that it comes from, shows the summary to nobody else,
/// carries no payload, acts for the user by the server's label with no actions of its own, and does
/// not expire.
pub proof fn law_trigger_tells_its_source(
    trigger: Trigger,
    server_name: Seq<char>,
    method: Seq<char>,
    params: JsonTree,
)
    requires
        stands_for(trigger, server_name, method, params),
    ensures
        match trigger.source {
            TriggerSource::Mcp { server_name: s, method: m } => s@ == server_name && m@ == method,
        },
        trigger.source_kind is Mcp,
        trigger.source_label@ == "mcp:"@ + server_name,
        trigger.event_label@ == method,
        trigger.payload_visibility is Local,
        trigger.payload_summary is Some,
        trigger.payload_summary->0@ == summary_line(method, params),
        trigger.payload is None,
        idempotency(method, params) == Some(
            (trigger.idempotency_key@, trigger.replacement_policy),
        ),
        trigger.authority.principal_id@ == "mcp:"@ + server_name,
        trigger.authority.principal_label@ == server_name,
        trigger.authority.credential_scope is User,
        trigger.authority.allowed_source_actions@.len() == 0,
        trigger.authority.expires_at is None,
{
}

/// What is said of a dropped notification names its method and the two places for a key.
pub proof fn law_drop_says_what_is_missing(method: Seq<char>)
    ensures
        dropped_text(method) == "dropped custom notification "@ + quoted(method)
            + ": missing `_meta.pie_dedup_key` or `_pie_dedup_key`"@,
{
}

/// A server goes by its name behind "mcp:", and two servers by two labels.
pub proof fn law_servers_are_told_apart(a: Seq<char>, b: Seq<char>)
    ensures
        server_label(a) == "mcp:"@ + a,
        server_label(a) == server_label(b) <==> a == b,
{
    let head = "mcp:"@;
    assert((head + a).skip(head.len() as int) =~= a);
    assert((head + b).skip(head.len() as int) =~= b);
}

/// Dropping counts one more, up to the largest number, says why, and changes nothing else of how
/// the hook is doing.
pub proof fn law_drop_counts_one(status: StatusView, method: Seq<char>)
    requires
        status.dropped_count <= u64::MAX,
    ensures
        ({
            let after = status_after_drop(status, method);
            &&& status.dropped_count < u64::MAX ==> after.dropped_count == status.dropped_count + 1
            &&& status.dropped_count == u64::MAX ==> after.dropped_count == status.dropped_count
            &&& after.last_error == Some(dropped_text(method))
            &&& after.state == status.state
            &&& after.subscription_labels == status.subscription_labels
            &&& after.last_event_at == status.last_event_at
        }),
{
}

/// Each step of a hook changes what it is about and nothing else. Starting connects it; a trigger that
/// was taken is the last event and ends what went wrong before; an end disconnects it for a reason and
/// keeps the count of what was dropped.
pub proof fn law_steps_of_a_hook(hook: HookView, now: UtcTime, why: Seq<char>)
    ensures
        ({
            let after = hook_after_start(hook);
            &&& after.ran && after.status.state is Connected
            &&& after.label == hook.label && after.server_name == hook.server_name
            &&& after.status.subscription_labels == hook.status.subscription_labels
            &&& after.status.last_event_at == hook.status.last_event_at
            &&& after.status.last_error == hook.status.last_error
            &&& after.status.dropped_count == hook.status.dropped_count
        }),
        ({
            let after = status_after_sending(hook.status, now);
            &&& after.last_event_at == Some(now) && after.last_error is None
            &&& after.state == hook.status.state
            &&& after.subscription_labels == hook.status.subscription_labels
            &&& after.dropped_count == hook.status.dropped_count
        }),
        ({
            let after = status_after_end(hook.status, why);
            &&& after.state == HookStateView::Disconnected(why)
            &&& after.subscription_labels == hook.status.subscription_labels
            &&& after.last_event_at == hook.status.last_event_at
            &&& after.last_error == hook.status.last_error
            &&& after.dropped_count == hook.status.dropped_count
        }),
{
}

/// A hook that is started again says which one it is and that it ran already.
pub proof fn law_second_start_is_refused(server_name: Seq<char>)
    ensures
        already_ran_text(server_label(server_name)) == "mcp:"@ + server_name
            + " hook already ran; receiver consumed"@,
{
}

} // verus!
