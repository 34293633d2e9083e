use uf_notifications::send::{plan_send, plan_send_at, prepare_notification, send_outcome};
use uf_notifications::{
    truncate_chars, SendNotification, SendNotificationError, StoreError, StoreErrorKind, Timestamp,
    MAX_NOTIFICATION_DATA_JSON_CHARS, MAX_NOTIFICATION_KIND_CHARS, MAX_NOTIFICATION_MESSAGE_CHARS,
    MAX_NOTIFICATION_TITLE_CHARS,
};

fn store_error(kind: StoreErrorKind, detail: &str) -> StoreError {
    StoreError {
        kind,
        detail: detail.to_string(),
    }
}

fn sample(url: Option<&str>) -> SendNotification {
    SendNotification {
        user_id: "user:alice".to_string(),
        kind: "leaderboard".to_string(),
        title: "Leaderboard update".to_string(),
        message: "You moved up to #3.".to_string(),
        url: url.map(str::to_string),
        data_json: None,
    }
}

#[test]
fn send_notification_error_display_includes_operation() {
    let construct =
        SendNotificationError::Construct(store_error(StoreErrorKind::Other, "construct-test"));
    assert!(
        construct.to_string().contains("construct notification"),
        "got: {}",
        construct.to_string()
    );

    let persist = SendNotificationError::Persist {
        notification_id: "n-1".into(),
        source: store_error(StoreErrorKind::Other, "persist-test"),
    };
    let msg = persist.to_string();
    assert!(msg.contains("persist notification n-1"), "got: {msg}");
    assert!(msg.contains("persist-test"), "got: {msg}");
    assert_eq!(persist.source().detail, "persist-test");
    assert_eq!(msg, "persist notification n-1: persist-test");
}

#[test]
fn truncate_chars_caps_overlong_fields_sad() {
    let over = "x".repeat(MAX_NOTIFICATION_TITLE_CHARS + 40);
    let capped = truncate_chars(over, MAX_NOTIFICATION_TITLE_CHARS);
    assert_eq!(capped.chars().count(), MAX_NOTIFICATION_TITLE_CHARS);

    let kind = "k".repeat(MAX_NOTIFICATION_KIND_CHARS + 5);
    assert_eq!(
        truncate_chars(kind, MAX_NOTIFICATION_KIND_CHARS)
            .chars()
            .count(),
        MAX_NOTIFICATION_KIND_CHARS
    );
    assert_eq!(truncate_chars("ünï".to_string(), 2), "ün");
    assert_eq!(truncate_chars("ok".to_string(), 2), "ok");
}

#[test]
fn prepare_notification_caps_and_sanitizes() {
    let params = SendNotification {
        user_id: "user:bob".to_string(),
        kind: "k".repeat(MAX_NOTIFICATION_KIND_CHARS + 1),
        title: "t".repeat(MAX_NOTIFICATION_TITLE_CHARS + 1),
        message: "m".repeat(MAX_NOTIFICATION_MESSAGE_CHARS + 1),
        url: Some("//evil.example".to_string()),
        data_json: Some("d".repeat(MAX_NOTIFICATION_DATA_JSON_CHARS + 1)),
    };
    let created = Timestamp { secs: 42, nanos: 1 };
    let n = prepare_notification(params, created);
    assert_eq!(n.id, None);
    assert_eq!(n.user, "user:bob");
    assert_eq!(n.kind.chars().count(), MAX_NOTIFICATION_KIND_CHARS);
    assert_eq!(n.title.chars().count(), MAX_NOTIFICATION_TITLE_CHARS);
    assert_eq!(n.message.chars().count(), MAX_NOTIFICATION_MESSAGE_CHARS);
    assert_eq!(
        n.data_json.map(|d| d.chars().count()),
        Some(MAX_NOTIFICATION_DATA_JSON_CHARS)
    );
    assert_eq!(n.url, None);
    assert_eq!(n.read_at, None);
    assert_eq!(n.created_at, created);
}

#[test]
fn plan_send_at_fixes_id_dto_and_event() {
    let text = "550e8400-e29b-41d4-a716-446655440000";
    let id = uuid::Uuid::parse_str(text).expect("uuid").as_u128();
    let created = Timestamp { secs: 1_000, nanos: 0 };
    let now = Timestamp { secs: 1_000 + 120, nanos: 0 };
    let plan = plan_send_at(sample(Some("/high-scores")), id, created, now);
    assert_eq!(plan.notification_id, id);
    assert_eq!(plan.record_key, text);
    assert_eq!(plan.dto.notification_id, id);
    assert_eq!(plan.dto.title, "Leaderboard update");
    assert_eq!(plan.dto.message, "You moved up to #3.");
    assert_eq!(plan.dto.url.as_deref(), Some("/high-scores"));
    assert_eq!(plan.dto.created_at, "2m ago");
    assert!(!plan.dto.is_read);
    assert_eq!(plan.event.user_id, "user:alice");
    assert_eq!(plan.event.notification_id, text);
    assert_eq!(plan.notification.url.as_deref(), Some("/high-scores"));
}

#[test]
fn plan_send_returns_a_fresh_id() {
    let plan = plan_send(sample(None));
    assert_ne!(plan.notification_id, 0, "send returns a fresh notification id");
    assert_eq!((plan.notification_id >> 76) & 0xf, 4);
    assert_eq!((plan.notification_id >> 62) & 0x3, 2);
    assert_eq!(
        uuid::Uuid::from_u128(plan.notification_id).get_version_num(),
        4
    );
    assert_eq!(
        uuid::Uuid::parse_str(&plan.record_key).expect("uuid").as_u128(),
        plan.notification_id
    );
    assert_eq!(plan.dto.created_at, "just now");
    let other = plan_send(sample(None));
    assert_ne!(other.notification_id, plan.notification_id);
}

#[test]
fn send_outcome_persist_failure_keeps_id() {
    let plan = plan_send(sample(Some("/inbox")));
    let key = plan.record_key.clone();
    match send_outcome(plan, Err(store_error(StoreErrorKind::Other, "db down"))) {
        Err(SendNotificationError::Persist {
            notification_id,
            source,
        }) => {
            assert_eq!(notification_id, key);
            assert_eq!(source.detail, "db down");
        }
        other => panic!("expected persist error, got {other:?}"),
    }
    let plan = plan_send(sample(Some("/inbox")));
    let dto = plan.dto.clone();
    assert_eq!(send_outcome(plan, Ok(())).expect("ok"), dto);
}

#[test]
fn general_params() {
    let p = SendNotification::general(
        "user:alice".to_string(),
        "T".to_string(),
        "M".to_string(),
        Some("/inbox".to_string()),
    );
    assert_eq!(p.kind, "general");
    assert_eq!(p.data_json, None);
    assert_eq!(p.title, "T");
}
