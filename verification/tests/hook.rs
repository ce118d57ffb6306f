use pie::json::Json;
use pie::outside::UtcTime;
use pie::triggers::mcp_notification_hook::{
    extract_dedup_key, idempotency_for, map_notification, map_notification_at, render_summary,
    McpNotificationHook, McpServerNotification,
};
use pie::triggers::trigger::{
    CredentialScope, HookError, HookState, PayloadVisibility, ReplacementPolicy, SourceKind,
    TriggerSource,
};

fn note(method: &str, params: &str) -> McpServerNotification {
    McpServerNotification {
        method: method.to_string(),
        params: Json::parse(params).expect("JSON"),
    }
}

fn fixture() -> McpNotificationHook {
    let mut hook = McpNotificationHook::new("filesystem".to_string());
    hook.start().expect("the first start succeeds");
    hook
}

#[test]
fn tools_list_changed_maps_to_latest_replaces() {
    let mut hook = fixture();
    let trigger = hook
        .on_notification(&note("notifications/tools/listChanged", "{}"))
        .expect("trigger should arrive");
    assert_eq!(trigger.idempotency_key, "tools");
    assert_eq!(trigger.replacement_policy, ReplacementPolicy::LatestReplaces);
    assert_eq!(trigger.source_kind, SourceKind::Mcp);
    assert!(matches!(
        trigger.source,
        TriggerSource::Mcp { ref server_name, ref method }
            if server_name == "filesystem" && method == "notifications/tools/listChanged"
    ));
    assert_eq!(trigger.source_label, "mcp:filesystem");
    assert!(
        trigger.payload.is_none(),
        "default payload_visibility=Local hides payload"
    );
    assert_eq!(trigger.payload_visibility, PayloadVisibility::Local);
    assert_eq!(trigger.authority.principal_id, "mcp:filesystem");
    assert_eq!(trigger.authority.principal_label, "filesystem");
    assert_eq!(trigger.authority.credential_scope, CredentialScope::User);
}

#[test]
fn resources_updated_keys_per_uri() {
    let mut hook = fixture();
    let t1 = hook
        .on_notification(&note(
            "notifications/resources/updated",
            r#"{ "uri": "file:///a.md" }"#,
        ))
        .unwrap();
    let t2 = hook
        .on_notification(&note(
            "notifications/resources/updated",
            r#"{ "uri": "file:///b.md" }"#,
        ))
        .unwrap();
    assert_eq!(t1.idempotency_key, "resources:file:///a.md");
    assert_eq!(t2.idempotency_key, "resources:file:///b.md");
    assert_ne!(t1.idempotency_key, t2.idempotency_key);
}

#[test]
fn custom_with_meta_dedup_key_passes_through() {
    let mut hook = fixture();
    let trigger = hook
        .on_notification(&note(
            "notifications/custom/event",
            r#"{ "_meta": { "pie_dedup_key": "build-42" }, "detail": "ok" }"#,
        ))
        .unwrap();
    assert_eq!(trigger.idempotency_key, "build-42");
    assert_eq!(trigger.replacement_policy, ReplacementPolicy::Drop);
}

#[test]
fn legacy_dedup_key_works_and_meta_wins() {
    let mut hook = fixture();
    let t1 = hook
        .on_notification(&note(
            "notifications/custom/event",
            r#"{ "_pie_dedup_key": "legacy-key", "detail": "ok" }"#,
        ))
        .unwrap();
    assert_eq!(t1.idempotency_key, "legacy-key");

    // When both are present, `_meta.pie_dedup_key` wins.
    let t2 = hook
        .on_notification(&note(
            "notifications/custom/event",
            r#"{ "_meta": { "pie_dedup_key": "new-key" }, "_pie_dedup_key": "legacy-key" }"#,
        ))
        .unwrap();
    assert_eq!(t2.idempotency_key, "new-key");
}

#[test]
fn custom_without_dedup_key_is_dropped_with_diagnostic() {
    let mut hook = fixture();
    let trigger = hook.on_notification(&note(
        "notifications/custom/event",
        r#"{ "detail": "missing key" }"#,
    ));
    assert!(
        trigger.is_none(),
        "custom-without-key must not produce a trigger"
    );
    let st = hook.status();
    assert_eq!(st.dropped_count, 1);
    assert!(
        st.last_error
            .as_deref()
            .unwrap_or("")
            .contains("dropped custom notification"),
        "diagnostic should mention the drop, got {:?}",
        st.last_error
    );
    assert_eq!(
        st.last_error.as_deref(),
        Some("dropped custom notification \"notifications/custom/event\": missing `_meta.pie_dedup_key` or `_pie_dedup_key`")
    );
}

#[test]
fn resources_updated_without_uri_falls_back_to_resources_key() {
    let mut hook = fixture();
    let trigger = hook
        .on_notification(&note("notifications/resources/updated", "{}"))
        .unwrap();
    assert_eq!(trigger.idempotency_key, "resources:unknown");
}

#[test]
fn sink_closed_returns_sink_closed_err() {
    let mut hook = McpNotificationHook::new("filesystem".to_string());
    hook.start().unwrap();
    assert!(hook
        .on_notification(&note("notifications/tools/listChanged", "{}"))
        .is_some());
    let err = hook.on_sink_closed();
    assert!(matches!(err, Err(HookError::SinkClosed)));
    assert!(matches!(hook.status().state, HookState::Disconnected { .. }));
}

#[test]
fn transport_close_returns_ok_and_marks_disconnected() {
    let mut hook = McpNotificationHook::new("filesystem".to_string());
    hook.start().unwrap();
    let result = hook.on_transport_closed();
    assert!(result.is_ok(), "clean transport close should be Ok");
    match hook.status().state {
        HookState::Disconnected { ref reason } => {
            assert!(reason.contains("transport"), "got reason={reason:?}");
        }
        other => panic!("expected Disconnected, got {other:?}"),
    }
}

#[test]
fn second_run_fails_after_receiver_consumed() {
    let mut hook = McpNotificationHook::new("filesystem".to_string());
    hook.start().unwrap();
    let _ = hook.on_transport_closed();

    let err = hook.start();
    assert!(matches!(err, Err(HookError::Other(_))));
    assert_eq!(
        err,
        Err(HookError::Other(
            "mcp:filesystem hook already ran; receiver consumed".into()
        ))
    );
}

#[test]
fn initial_status_is_pending() {
    let hook = McpNotificationHook::new("filesystem".to_string());
    let s = hook.status();
    assert!(matches!(
        s.state,
        HookState::Disconnected { ref reason } if reason == "not yet started"
    ));
    assert_eq!(s.subscription_labels, vec!["mcp:filesystem".to_string()]);
    assert_eq!(s.dropped_count, 0);
    assert_eq!(hook.label(), "mcp:filesystem");
}

#[test]
fn a_sent_trigger_clears_the_last_error() {
    let mut hook = fixture();
    assert_eq!(hook.status().state, HookState::Connected);
    hook.on_notification(&note("other", "{}"));
    assert!(hook.status().last_error.is_some());
    hook.on_sent_at(UtcTime { secs: 5, nanos: 6 });
    assert_eq!(hook.status().last_error, None);
    assert_eq!(
        hook.status().last_event_at,
        Some(UtcTime { secs: 5, nanos: 6 })
    );
    assert_eq!(hook.status().dropped_count, 1);
    hook.on_sent();
    assert!(hook.status().last_event_at.unwrap().secs > 1_600_000_000);
}

#[test]
fn every_method_has_its_key() {
    let key = |method: &str| idempotency_for(method, &Json::parse("null").unwrap());
    assert_eq!(
        key("notifications/resources/listChanged"),
        Some(("resources".to_string(), ReplacementPolicy::LatestReplaces))
    );
    assert_eq!(
        key("notifications/prompts/listChanged"),
        Some(("prompts".to_string(), ReplacementPolicy::LatestReplaces))
    );
    assert_eq!(key("notifications/other"), None);
    assert_eq!(
        extract_dedup_key(&Json::parse(r#"{"_meta":{"pie_dedup_key":1},"_pie_dedup_key":"k"}"#).unwrap()),
        Some("k".to_string())
    );
}

#[test]
fn summaries_are_short() {
    let summary = |method: &str, params: &str| render_summary(method, &Json::parse(params).unwrap());
    assert_eq!(
        summary("notifications/resources/updated", r#"{"uri":"u"}"#).as_deref(),
        Some("notifications/resources/updated uri=u")
    );
    assert_eq!(summary("m", "null").as_deref(), Some("m"));
    assert_eq!(summary("m", "{ }").as_deref(), Some("m {}"));
    let long = format!("\"{}\"", "x".repeat(1000));
    assert_eq!(summary("m", &long).unwrap().chars().count(), 202);
    let uri = format!("{{\"uri\":\"{}\"}}", "x".repeat(5000));
    let line = summary("notifications/resources/updated", &uri).unwrap();
    assert_eq!(line.len(), 3072);
    assert!(line.starts_with("notifications/resources/updated uri=xxx"));
    // What fits is shown in full.
    let uri = format!("{{\"uri\":\"{}\"}}", "x".repeat(300));
    assert_eq!(
        summary("notifications/resources/updated", &uri).unwrap(),
        format!("notifications/resources/updated uri={}", "x".repeat(300))
    );
    let method = "m".repeat(300);
    assert_eq!(summary(&method, "null").unwrap(), method);
    // Characters stay whole.
    let wide = format!("m{}", "é".repeat(5000));
    assert_eq!(
        summary(&wide, &long).unwrap(),
        format!("m{}", "é".repeat(1535))
    );
}

#[test]
fn triggers_have_ids_of_their_own() {
    let n = note("notifications/tools/listChanged", "{}");
    let a = map_notification("s", &n).unwrap();
    let b = map_notification("s", &n).unwrap();
    assert_ne!(a.trace_id, b.trace_id);
    assert_eq!(a.trace_id.len(), 36);
    for (i, c) in a.trace_id.chars().enumerate() {
        match i {
            8 | 13 | 18 | 23 => assert_eq!(c, '-'),
            14 => assert_eq!(c, '4'),
            _ => assert!(c.is_ascii_digit() || ('a'..='f').contains(&c)),
        }
    }
    let fixed = map_notification_at("s", &n, "id".into(), UtcTime { secs: 1, nanos: 2 }).unwrap();
    assert_eq!(fixed.trace_id, "id");
    assert_eq!(fixed.received_at, UtcTime { secs: 1, nanos: 2 });
    assert_eq!(fixed.payload_summary.as_deref(), Some("notifications/tools/listChanged {}"));
    assert_eq!(fixed.event_label, "notifications/tools/listChanged");
}
