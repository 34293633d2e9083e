use uf_notifications::{is_safe_notification_path, sanitize_notification_url};

#[test]
fn sanitize_notification_url_keeps_safe_paths() {
    assert_eq!(
        sanitize_notification_url(Some("/high-scores".into())).as_deref(),
        Some("/high-scores")
    );
    assert!(is_safe_notification_path("/notifications"));
    assert!(is_safe_notification_path("/counter/admin"));
}

#[test]
fn sanitize_notification_url_rejects_open_redirects() {
    assert_eq!(
        sanitize_notification_url(Some("//evil.example".into())),
        None
    );
    assert_eq!(
        sanitize_notification_url(Some("https://evil.example/x".into())),
        None
    );
    assert_eq!(sanitize_notification_url(Some("/auth/signin".into())), None);
    assert_eq!(sanitize_notification_url(Some("/api/x".into())), None);
    assert_eq!(sanitize_notification_url(Some("/home".into())), None);
    assert_eq!(sanitize_notification_url(None), None);
}

#[test]
fn sanitize_notification_url_rejects_backslash_control_and_url_smuggle_sad() {
    assert_eq!(
        sanitize_notification_url(Some("/\\evil.example".into())),
        None
    );
    assert_eq!(
        sanitize_notification_url(Some("/\tevil.example".into())),
        None
    );
    assert_eq!(
        sanitize_notification_url(Some("/https://evil.example".into())),
        None
    );
    assert_eq!(
        sanitize_notification_url(Some("/counter/admin\n".into())),
        None
    );
    assert!(!is_safe_notification_path("/\u{0000}evil"));
}

#[test]
fn safe_path_edges() {
    assert!(!is_safe_notification_path(""));
    assert!(is_safe_notification_path("/"));
    assert!(!is_safe_notification_path("/home/"));
    assert!(is_safe_notification_path("/home/x"));
    assert!(is_safe_notification_path("/homes"));
    assert!(is_safe_notification_path("/auth"));
    assert!(is_safe_notification_path("/apis/x"));
    assert!(!is_safe_notification_path("/a b"));
    assert!(!is_safe_notification_path("/a\u{7f}"));
    assert!(is_safe_notification_path("/café/ß"));
    assert!(is_safe_notification_path("/x:/y"));
    assert!(!is_safe_notification_path("/x://y"));
    assert!(is_safe_notification_path("/a?b=c:d"));
}

#[test]
fn sanitize_is_idempotent() {
    for url in ["/inbox", "//x", "/auth/x", "/ok/path", "/\\x"] {
        let once = sanitize_notification_url(Some(url.to_string()));
        assert_eq!(sanitize_notification_url(once.clone()), once);
    }
}
