use uf_notifications::ops::{
    list_query, mark_all_row_action, mark_all_start, mark_all_unread_query, mark_row_outcome,
    notification_count_query, today_count_query, MarkRowAction, notifications_page_plan,
    search_term, today_count_query_at, unread_count_query, unread_page_plan,
    unread_preview_query, finish_page, MarkAllTally, MarkRowOutcome,
};
use uf_notifications::{
    optional_notification, read_filter_label, NotificationDto, NotificationOpsError,
    NotificationReadFilter, Page, StoreError, StoreErrorKind, Timestamp,
};

fn err(kind: StoreErrorKind, detail: &str) -> StoreError {
    StoreError {
        kind,
        detail: detail.to_string(),
    }
}

fn dtos(n: usize) -> Vec<NotificationDto> {
    (0..n)
        .map(|i| NotificationDto {
            notification_id: i as u128 + 1,
            title: format!("Unread-{i}"),
            message: String::new(),
            created_at: "just now".to_string(),
            url: None,
            is_read: false,
        })
        .collect()
}

#[test]
fn map_ops_err_store_and_midnight_opaque() {
    let store_msg = NotificationOpsError::Store.to_string();
    assert!(
        store_msg.contains("notification store failed"),
        "got: {store_msg}"
    );
    assert!(!store_msg.contains("user:demo"), "got: {store_msg}");
    assert!(!store_msg.contains("secret-body"), "got: {store_msg}");
    let midnight = NotificationOpsError::InvalidMidnight.to_string();
    assert!(
        midnight.contains("invalid local midnight"),
        "got: {midnight}"
    );
}

#[test]
fn optional_notification_privacy_is_none_sad() {
    let mapped = optional_notification::<u8>(Err(err(
        StoreErrorKind::Privacy,
        "Access denied: no matching allow policy",
    )))
    .expect("privacy maps to Ok");
    assert!(mapped.is_none());
}

#[test]
fn optional_notification_not_found_is_none_sad() {
    let mapped = optional_notification::<u8>(Err(err(StoreErrorKind::NotFound, "n-1")))
        .expect("not found maps to Ok");
    assert!(mapped.is_none());
    let mapped =
        optional_notification::<u8>(Err(err(StoreErrorKind::PendingDeletion, "n-1"))).expect("ok");
    assert!(mapped.is_none());
    assert_eq!(optional_notification(Ok(Some(7u8))), Ok(Some(7u8)));
}

#[test]
fn optional_notification_validation_stays_store_err_sad() {
    let mapped =
        optional_notification::<u8>(Err(err(StoreErrorKind::Other, "user:demo secret-body")));
    let e = mapped.expect_err("validation stays an error");
    let msg = e.to_string();
    assert!(msg.contains("notification store failed"), "got: {msg}");
    assert!(!msg.contains("user:demo"), "got: {msg}");
}

#[test]
fn read_filter_labels() {
    assert_eq!(read_filter_label(NotificationReadFilter::All), "all");
    assert_eq!(read_filter_label(NotificationReadFilter::Unread), "unread");
    assert_eq!(read_filter_label(NotificationReadFilter::Read), "read");
}

#[test]
fn fixed_queries() {
    let user = "user:alice".to_string();
    let q = list_query(&user);
    assert_eq!((q.limit, q.offset, q.newest_first), (50, 0, true));
    assert_eq!(q.read_filter, NotificationReadFilter::All);
    assert_eq!(q.user, user);
    let q = unread_preview_query(&user);
    assert_eq!((q.limit, q.read_filter), (10, NotificationReadFilter::Unread));
    let q = unread_count_query(&user);
    assert_eq!((q.limit, q.read_filter), (500, NotificationReadFilter::Unread));
    let q = notification_count_query(&user);
    assert_eq!((q.limit, q.read_filter), (500, NotificationReadFilter::All));
    let now = Timestamp {
        secs: 86_400 * 10 + 3_600,
        nanos: 9,
    };
    let q = today_count_query_at(&user, &now).expect("today");
    assert_eq!(
        q.created_after,
        Some(Timestamp {
            secs: 86_400 * 10,
            nanos: 0
        })
    );
    let q = today_count_query(&user).expect("a clock reading has a midnight");
    let after = q.created_after.expect("today has a start");
    assert_eq!(after.nanos, 0);
    assert_eq!(after.secs % 86_400, 0);
    assert!(after.secs >= 0);
    assert_eq!(
        today_count_query_at(&user, &Timestamp { secs: i64::MIN, nanos: 0 }).err(),
        Some(NotificationOpsError::InvalidMidnight)
    );
}

#[test]
fn unread_pages_over_twelve_rows() {
    let user = "user:alice".to_string();
    let plan0 = unread_page_plan(&user, 0, 5);
    assert_eq!(plan0.limit, 5);
    assert_eq!(plan0.page.limit, 6);
    assert_eq!(plan0.page.offset, 0);
    assert!(plan0.count.is_some());
    let page0 = finish_page(dtos(6), &plan0, Some(12));
    assert_eq!(page0.items.len(), 5);
    assert!(page0.has_more);
    assert_eq!(page0.total_count, Some(12));

    let plan1 = unread_page_plan(&user, 5, 5);
    assert!(plan1.count.is_none());
    assert_eq!(plan1.page.offset, 5);
    let page1 = finish_page(dtos(6), &plan1, None);
    assert_eq!(page1.items.len(), 5);
    assert!(page1.has_more);
    assert!(page1.total_count.is_none());

    let page2 = finish_page(dtos(2), &unread_page_plan(&user, 10, 5), None);
    assert_eq!(page2.items.len(), 2);
    assert!(!page2.has_more);

    let empty = finish_page(Vec::new(), &plan0, Some(0));
    assert_eq!(empty.items.len(), 0);
    assert!(!empty.has_more);
    assert_eq!(empty.total_count, Some(0));

    let capped = finish_page(dtos(1), &plan0, Some(900));
    assert_eq!(capped.total_count, Some(500));
}

#[test]
fn page_limit_clamp_happy() {
    let plan = unread_page_plan(&"user:alice".to_string(), 0, 0);
    assert_eq!(plan.limit, 1);
    assert_eq!(plan.page.limit, 2);
    let page = finish_page(dtos(2), &plan, Some(5));
    assert_eq!(page.items.len(), 1);
    assert!(page.has_more);
}

#[test]
fn page_from_oversized_keeps_front_rows() {
    let page = Page::from_oversized(vec![1, 2, 3, 4], 3, None);
    assert_eq!(page.items, vec![1, 2, 3]);
    assert!(page.has_more);
    let page = Page::from_oversized(vec![1, 2], 3, Some(2));
    assert_eq!(page.items, vec![1, 2]);
    assert!(!page.has_more);
}

#[test]
fn inbox_page_search_and_filter() {
    let user = "user:alice".to_string();
    let plan = notifications_page_plan(
        &user,
        0,
        20,
        Some("  KeepMe ".to_string()),
        NotificationReadFilter::Read,
    );
    assert_eq!(plan.page.search.as_deref(), Some("KeepMe"));
    assert_eq!(plan.page.read_filter, NotificationReadFilter::Read);
    assert_eq!(plan.page.limit, 21);
    let count = plan.count.expect("first page counts");
    assert_eq!(count.search.as_deref(), Some("KeepMe"));
    assert_eq!(count.limit, 500);
    let plan = notifications_page_plan(&user, 20, 200, Some("   ".to_string()), NotificationReadFilter::All);
    assert_eq!(plan.page.search, None);
    assert_eq!(plan.limit, 50);
    assert!(plan.count.is_none());
    assert_eq!(search_term(None), None);
}

#[test]
fn mark_all_keys_and_tally() {
    assert_eq!(mark_all_row_action(Some("notification:⟨abc⟩")), MarkRowAction::Update);
    assert_eq!(mark_all_row_action(Some("notification:")), MarkRowAction::Skip);
    assert_eq!(mark_all_row_action(Some("notification:⟨⟩")), MarkRowAction::Skip);
    assert_eq!(mark_all_row_action(None), MarkRowAction::Skip);

    let q = mark_all_unread_query(&"user:alice".to_string());
    assert_eq!((q.limit, q.offset, q.read_filter), (500, 0, NotificationReadFilter::Unread));
    assert_eq!(q.user, "user:alice");

    let started = mark_all_start(Ok(vec![1u8, 2, 3])).expect("loaded");
    assert_eq!(started.0, vec![1, 2, 3]);
    assert_eq!(started.1, MarkAllTally::new());
    assert_eq!(
        mark_all_start::<u8>(Err(err(StoreErrorKind::Other, "down"))).err(),
        Some(NotificationOpsError::Store)
    );

    assert_eq!(mark_row_outcome(Ok(()), Some(Ok(()))), MarkRowOutcome::Committed);
    assert_eq!(
        mark_row_outcome(Ok(()), Some(Err(err(StoreErrorKind::Privacy, "no")))),
        MarkRowOutcome::CommitFailed
    );
    assert_eq!(mark_row_outcome(Ok(()), None), MarkRowOutcome::CommitFailed);
    assert_eq!(
        mark_row_outcome(Err(err(StoreErrorKind::Other, "no")), None),
        MarkRowOutcome::SetReadAtFailed
    );

    let outcomes = vec![
        MarkRowOutcome::Committed,
        MarkRowOutcome::MissingId,
        MarkRowOutcome::Committed,
        MarkRowOutcome::CommitFailed,
        MarkRowOutcome::SetReadAtFailed,
    ];
    let tally = |outcomes: &[MarkRowOutcome]| {
        let mut t = MarkAllTally::new();
        for o in outcomes {
            t.record(*o);
        }
        t
    };
    let t = tally(&outcomes);
    assert_eq!((t.committed, t.rows_skipped), (2, 3));
    assert_eq!(t.finish(), Ok(2));
    assert_eq!(t.outcome_label(), "partial");
    let t = tally(&[MarkRowOutcome::Committed; 2]);
    assert_eq!((t.committed, t.rows_skipped), (2, 0));
    assert_eq!(t.outcome_label(), "ok");
    let t = tally(&[]);
    assert_eq!(t, MarkAllTally::new());
    assert_eq!(t.outcome_label(), "ok");

    let mut t = MarkAllTally {
        committed: u32::MAX,
        rows_skipped: 0,
    };
    t.record(MarkRowOutcome::Committed);
    assert_eq!(t.committed, u32::MAX);
}
