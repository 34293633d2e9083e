//! In-app notifications: the rules behind sending, listing, paging, counting and marking
//! a user's notifications, with their contracts proved.
//!
//! - [`url`]: which action links may reach a client.
//! - [`session`]: page-size and count limits, search normalization, read filters, and
//!   `table:id` session user ids.
//! - [`time`]: instants and relative-time labels (`5m ago`).
//! - [`ids`]: notification UUIDs and record keys.
//! - [`dto`]: stored rows and the client wire shape.
//! - [`ops`]: the queries behind lists, pages and counts, pages from fetched rows,
//!   and mark-read decisions.
//! - [`send`]: the row, DTO and live-push event of a new notification.
//! - [`events`]: the live-push event.

pub mod dto;
pub mod events;
pub mod ids;
pub mod ops;
pub mod send;
pub mod session;
pub mod text;
pub mod time;
pub mod url;

pub use dto::{notification_to_dto, notification_to_dto_at, Notification, NotificationDto};
pub use events::NotificationPushed;
pub use ops::{
    optional_notification, read_filter_label, NotificationOpsError, NotificationQuery, Page,
    PagePlan, StoreError, StoreErrorKind,
};
pub use send::{
    SendNotification, SendNotificationError, MAX_NOTIFICATION_DATA_JSON_CHARS,
    MAX_NOTIFICATION_KIND_CHARS, MAX_NOTIFICATION_MESSAGE_CHARS, MAX_NOTIFICATION_TITLE_CHARS,
};
pub use session::{
    cap_notification_count, clamp_notification_page_limit, parse_session_user_id,
    require_session_record_id, truncate_notification_search, AuthError, NotificationReadFilter,
    SessionRecordId, SessionUserIdError, MAX_NOTIFICATION_COUNT_CAP, MAX_NOTIFICATION_PAGE_LIMIT,
    MAX_NOTIFICATION_SEARCH_CHARS,
};
pub use text::truncate_chars;
pub use time::Timestamp;
pub use url::{is_safe_notification_path, sanitize_notification_url};
