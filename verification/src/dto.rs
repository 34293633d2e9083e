//! The stored notification row and the client wire shape.
use crate::ids::{notification_id_from_record, record_uuid};
use crate::time::{is_clock_reading, label_at, now_timestamp, relative_time_label, Timestamp};
use crate::url::{opt_view, sanitize_notification_url, sanitized};
use vstd::prelude::*;

verus! {

/// A persisted notification row, as the library reads it.
pub struct Notification {
    /// The row's rendered record id (`notification:⟨uuid⟩`), once it has one.
    pub id: Option<String>,
    /// The recipient user's rendered record id (`user:alice`).
    pub user: String,
    /// Free-form category (e.g. `leaderboard`).
    pub kind: String,
    pub title: String,
    pub message: String,
    /// Optional link the client navigates to.
    pub url: Option<String>,
    /// Optional JSON-encoded payload.
    pub data_json: Option<String>,
    /// When the recipient marked it read.
    pub read_at: Option<Timestamp>,
    pub created_at: Timestamp,
}

impl Notification {
    /// A row not yet stored (it has no record id).
    pub fn new(
        user: String,
        kind: String,
        title: String,
        message: String,
        url: Option<String>,
        data_json: Option<String>,
        read_at: Option<Timestamp>,
        created_at: Timestamp,
    ) -> (r: Self)
        ensures
            r.id is None,
            r.user == user,
            r.kind == kind,
            r.title == title,
            r.message == message,
            r.url == url,
            r.data_json == data_json,
            r.read_at == read_at,
            r.created_at == created_at,
    {
        Notification { id: None, user, kind, title, message, url, data_json, read_at, created_at }
    }
}

/// DTO for notification API responses (serialized to the client).
#[derive(Debug, Clone, PartialEq, Eq)]
pub struct NotificationDto {
    /// The notification's UUID, as a `u128` (nil when the row had none).
    pub notification_id: u128,
    pub title: String,
    pub message: String,
    /// Human-friendly relative time (e.g. `5m ago`), computed when the DTO is built.
    pub created_at: String,
    /// Optional link the client should navigate to when the notification is clicked.
    pub url: Option<String>,
    /// Whether the recipient has marked this notification as read.
    pub is_read: bool,
}

/// `dto` is what [`notification_to_dto`] makes of `n` when the clock reads `now`.
pub open spec fn dto_of(n: Notification, now: Timestamp, dto: NotificationDto) -> bool {
    &&& dto.notification_id == record_uuid(opt_view(n.id))
    &&& dto.title@ == n.title@
    &&& dto.message@ == n.message@
    &&& dto.created_at@ == label_at(n.created_at, now)
    &&& opt_view(dto.url) == sanitized(opt_view(n.url))
    &&& dto.is_read == n.read_at is Some
}

fn clone_string(s: &String) -> (r: String)
    ensures
        r@ == s@,
{
    s.clone()
}

fn clone_opt_string(s: &Option<String>) -> (r: Option<String>)
    ensures
        opt_view(r) == opt_view(*s),
{
    match s {
        Some(t) => Some(t.clone()),
        None => None,
    }
}

/// Convert a stored [`Notification`] into the client-facing [`NotificationDto`] as seen at
/// `now`: the id from the row's record key, the relative time of `created_at`, the URL
/// sanitized the same way as at send time, and the read flag from `read_at`.
pub fn notification_to_dto_at(n: &Notification, now: &Timestamp) -> (dto: NotificationDto)
    ensures
        dto_of(*n, *now, dto),
{
    let notification_id = match &n.id {
        Some(id) => notification_id_from_record(Some(id.as_str())),
        None => notification_id_from_record(None),
    };
    NotificationDto {
        notification_id,
        title: clone_string(&n.title),
        message: clone_string(&n.message),
        created_at: relative_time_label(&n.created_at, now),
        url: sanitize_notification_url(clone_opt_string(&n.url)),
        is_read: n.read_at.is_some(),
    }
}

/// Convert a stored [`Notification`] into the client-facing [`NotificationDto`], computing
/// the relative timestamp against the current time.
pub fn notification_to_dto(n: &Notification) -> (dto: NotificationDto)
    ensures
        exists|now: Timestamp| #[trigger] is_clock_reading(now) && dto_of(*n, now, dto),
{
    let now = now_timestamp();
    notification_to_dto_at(n, &now)
}

/// Convert every row, in order, as seen at `now`.
pub fn notifications_to_dtos(rows: &Vec<Notification>, now: &Timestamp) -> (dtos: Vec<NotificationDto>)
    ensures
        dtos.len() == rows.len(),
        forall|i: int| 0 <= i < rows.len() ==> dto_of(rows[i], *now, #[trigger] dtos[i]),
{
    let mut dtos: Vec<NotificationDto> = Vec::new();
    for i in 0..rows.len()
        invariant
            dtos.len() == i,
            forall|k: int| 0 <= k < i ==> dto_of(rows[k], *now, #[trigger] dtos[k]),
    {
        dtos.push(notification_to_dto_at(&rows[i], now));
    }
    dtos
}

/// Law: a DTO never carries an unsafe link, and its read flag and text are the row's.
pub proof fn lemma_dto_url_safe(n: Notification, now: Timestamp, dto: NotificationDto)
    requires
        dto_of(n, now, dto),
    ensures
        dto.url matches Some(u) ==> crate::url::is_safe_path(u@),
        dto.is_read <==> n.read_at is Some,
{
    crate::url::lemma_sanitize_idempotent(opt_view(n.url));
}

} // verus!
