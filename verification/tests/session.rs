use uf_notifications::{
    cap_notification_count, clamp_notification_page_limit, parse_session_user_id,
    require_session_record_id, truncate_notification_search, AuthError, NotificationReadFilter,
    MAX_NOTIFICATION_COUNT_CAP, MAX_NOTIFICATION_PAGE_LIMIT, MAX_NOTIFICATION_SEARCH_CHARS,
};

#[test]
fn read_filter_variants_are_distinct() {
    assert_ne!(NotificationReadFilter::All, NotificationReadFilter::Unread);
    assert_ne!(NotificationReadFilter::Unread, NotificationReadFilter::Read);
    assert_eq!(NotificationReadFilter::All, NotificationReadFilter::All);
}

#[test]
fn parse_session_user_id_happy_path() {
    assert_eq!(
        parse_session_user_id("user:alice").expect("valid"),
        ("user", "alice")
    );
    assert_eq!(
        parse_session_user_id("user:a1-b2").expect("valid"),
        ("user", "a1-b2")
    );
}

#[test]
fn parse_session_user_id_rejects_malformed_sad_path() {
    for bad in ["", "alice", ":alice", "user:", ":", "user"] {
        let err = parse_session_user_id(bad).expect_err("must reject");
        assert_eq!(err.value, bad);
        assert!(
            err.to_string().contains("invalid session user id"),
            "unexpected error for `{bad}`: {}",
            err.to_string()
        );
    }
}

#[test]
fn parse_session_user_id_splits_at_first_colon() {
    assert_eq!(
        parse_session_user_id("user:a:b").expect("valid"),
        ("user", "a:b")
    );
    assert_eq!(
        parse_session_user_id("üser:ä").expect("valid"),
        ("üser", "ä")
    );
    let err = parse_session_user_id("user:").expect_err("empty id");
    assert_eq!(err.to_string(), "invalid session user id: user:");
}

#[test]
fn clamp_notification_page_limit_caps_high_values_sad() {
    assert_eq!(clamp_notification_page_limit(0), 1);
    assert_eq!(clamp_notification_page_limit(20), 20);
    assert_eq!(
        clamp_notification_page_limit(MAX_NOTIFICATION_PAGE_LIMIT),
        MAX_NOTIFICATION_PAGE_LIMIT
    );
    assert_eq!(
        clamp_notification_page_limit(MAX_NOTIFICATION_PAGE_LIMIT + 500),
        MAX_NOTIFICATION_PAGE_LIMIT
    );
    assert_eq!(
        clamp_notification_page_limit(u32::MAX),
        MAX_NOTIFICATION_PAGE_LIMIT
    );
}

#[test]
fn clamp_is_idempotent() {
    for limit in [0u32, 1, 2, 49, 50, 51, 1000, u32::MAX] {
        let once = clamp_notification_page_limit(limit);
        assert_eq!(clamp_notification_page_limit(once), once);
    }
}

#[test]
fn truncate_notification_search_caps_length_sad() {
    let over = "q".repeat(MAX_NOTIFICATION_SEARCH_CHARS + 80);
    let capped = truncate_notification_search(&over);
    assert_eq!(capped.chars().count(), MAX_NOTIFICATION_SEARCH_CHARS);
    assert_eq!(truncate_notification_search("  hello  "), "hello");
    assert_eq!(truncate_notification_search("   "), "");
}

#[test]
fn truncate_notification_search_counts_chars_and_unicode_space() {
    let over = "é".repeat(MAX_NOTIFICATION_SEARCH_CHARS + 3);
    let capped = truncate_notification_search(&format!("\u{3000}\t{over}\u{a0}"));
    assert_eq!(capped, "é".repeat(MAX_NOTIFICATION_SEARCH_CHARS));
    assert_eq!(truncate_notification_search("\u{2003}ab c\u{85}"), "ab c");
}

#[test]
fn trim_matches_std_trim() {
    let samples = [
        "",
        " ",
        "a",
        " a ",
        "\t\n a b \r\n",
        "\u{1680}x\u{2028}",
        "\u{200b}x\u{200b}",
        "\u{feff}y",
        "\u{205f}\u{3000}z\u{202f}",
    ];
    for s in samples {
        assert_eq!(uf_notifications::text::trim_str(s), s.trim(), "sample {s:?}");
    }
}

#[test]
fn white_space_matches_std_for_every_char() {
    for c in (0u32..=0x10FFFF).filter_map(char::from_u32) {
        assert_eq!(
            uf_notifications::text::char_is_white_space(c),
            c.is_whitespace(),
            "char {c:?}"
        );
    }
}

#[test]
fn cap_notification_count_stops_at_cap_sad() {
    assert_eq!(cap_notification_count(0), 0);
    assert_eq!(cap_notification_count(12), 12);
    assert_eq!(
        cap_notification_count(MAX_NOTIFICATION_COUNT_CAP as usize),
        MAX_NOTIFICATION_COUNT_CAP as usize
    );
    assert_eq!(
        cap_notification_count(MAX_NOTIFICATION_COUNT_CAP as usize + 80),
        MAX_NOTIFICATION_COUNT_CAP as usize
    );
}

#[test]
fn require_session_record_id_signed_out_sad() {
    let Err(err) = require_session_record_id(None) else {
        panic!("None must deny");
    };
    assert_eq!(err, AuthError::SignedOut);
    let msg = err.to_string();
    assert!(
        msg.contains("You must be signed in"),
        "typed signed-out denial, got: {msg}"
    );
}

#[test]
fn require_session_record_id_happy_and_malformed_sad() {
    let id = require_session_record_id(Some("user:alice")).expect("valid");
    assert_eq!(id.to_string(), "user:alice");
    assert_eq!(id.table, "user");
    assert_eq!(id.id, "alice");

    let Err(err) = require_session_record_id(Some("not-a-record")) else {
        panic!("malformed must deny");
    };
    assert!(
        err.to_string().contains("invalid session user id"),
        "got: {}",
        err.to_string()
    );
    assert!(!err.to_string().contains("not-a-record"));
}

#[test]
fn auth_error_texts() {
    assert_eq!(AuthError::RequestContext.to_string(), "request context failed");
    assert_eq!(AuthError::SignedOut.to_string(), "You must be signed in");
    assert_eq!(
        AuthError::InvalidSessionUserId.to_string(),
        "invalid session user id"
    );
}
