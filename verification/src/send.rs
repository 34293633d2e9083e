//! Building, persisting and announcing a new notification.
use crate::dto::{notification_to_dto_at, Notification, NotificationDto};
use crate::events::NotificationPushed;
use crate::ids::{is_uuid_v4, new_uuid_v4, notification_record_key, uuid_hyphenated, uuid_parse, NIL_UUID};
use crate::ops::StoreError;
use crate::text::{take_chars, truncate_chars};
use crate::time::{is_clock_reading, now_timestamp, Timestamp};
use crate::url::{opt_view, sanitize_notification_url, sanitized};
use vstd::prelude::*;
use vstd::string::*;

verus! {

broadcast use vstd::string::group_string_axioms;

/// Cap on free-form notification `kind` strings at send time.
pub const MAX_NOTIFICATION_KIND_CHARS: usize = 64;

/// Cap on notification titles at send time.
pub const MAX_NOTIFICATION_TITLE_CHARS: usize = 256;

/// Cap on notification body text at send time.
pub const MAX_NOTIFICATION_MESSAGE_CHARS: usize = 4096;

/// Cap on the optional `data_json` payload at send time.
pub const MAX_NOTIFICATION_DATA_JSON_CHARS: usize = 8192;

/// Parameters for creating a notification.
pub struct SendNotification {
    /// The recipient user's rendered record id (`user:alice`).
    pub user_id: String,
    /// Free-form notification category (e.g. `leaderboard`).
    pub kind: String,
    pub title: String,
    pub message: String,
    /// Optional link the client should navigate to when the notification is clicked.
    pub url: Option<String>,
    /// Optional structured payload (JSON-encoded).
    pub data_json: Option<String>,
}

impl SendNotification {
    /// The parameters of a `general` notification without payload, as the development
    /// helper mints for the signed-in user.
    pub fn general(user_id: String, title: String, message: String, url: Option<String>) -> (r: Self)
        ensures
            r.user_id == user_id,
            r.kind@ == "general"@,
            r.title == title,
            r.message == message,
            r.url == url,
            r.data_json is None,
    {
        SendNotification {
            user_id,
            kind: String::from_str("general"),
            title,
            message,
            url,
            data_json: None,
        }
    }
}

/// Failure while building or persisting a notification. A failed live push after a
/// successful persist is not one: the row is already durable.
#[derive(Debug)]
pub enum SendNotificationError {
    /// The store refused to build the row from the parameters.
    Construct(StoreError),
    /// The store failed to persist the row.
    Persist {
        /// UUID text used as the row's record key.
        notification_id: String,
        source: StoreError,
    },
}

impl SendNotificationError {
    /// `construct notification: …` or `persist notification <id>: …`, followed by the
    /// store's text.
    pub fn to_string(&self) -> (r: String)
        ensures
            r@ == match self {
                SendNotificationError::Construct(e) => "construct notification: "@ + e.detail@,
                SendNotificationError::Persist { notification_id, source } => "persist notification "@
                    + notification_id@ + ": "@ + source.detail@,
            },
    {
        match self {
            SendNotificationError::Construct(e) => {
                let mut r = String::from_str("construct notification: ");
                r.append(e.detail.as_str());
                r
            },
            SendNotificationError::Persist { notification_id, source } => {
                let mut r = String::from_str("persist notification ");
                r.append(notification_id.as_str());
                r.append(": ");
                r.append(source.detail.as_str());
                r
            },
        }
    }

    /// The store failure underneath.
    pub fn source(&self) -> (r: &StoreError)
        ensures
            r == match self {
                SendNotificationError::Construct(e) => e,
                SendNotificationError::Persist { source, .. } => source,
            },
    {
        match self {
            SendNotificationError::Construct(e) => e,
            SendNotificationError::Persist { source, .. } => source,
        }
    }
}

/// `n` is the row built from `params` at `created_at`: fields capped, link sanitized,
/// unread, no record id yet.
pub open spec fn prepared(params: SendNotification, created_at: Timestamp, n: Notification) -> bool {
    &&& n.id is None
    &&& n.user@ == params.user_id@
    &&& n.kind@ == take_chars(params.kind@, MAX_NOTIFICATION_KIND_CHARS as nat)
    &&& n.title@ == take_chars(params.title@, MAX_NOTIFICATION_TITLE_CHARS as nat)
    &&& n.message@ == take_chars(params.message@, MAX_NOTIFICATION_MESSAGE_CHARS as nat)
    &&& opt_view(n.url) == sanitized(opt_view(params.url))
    &&& opt_view(n.data_json) == match params.data_json {
        Some(d) => Some(take_chars(d@, MAX_NOTIFICATION_DATA_JSON_CHARS as nat)),
        None => None,
    }
    &&& n.read_at is None
    &&& n.created_at == created_at
}

/// Build the row for `params` at `created_at`: kind, title, message and payload cut to
/// their caps, the link sanitized, unread.
pub fn prepare_notification(params: SendNotification, created_at: Timestamp) -> (n: Notification)
    ensures
        prepared(params, created_at, n),
{
    let SendNotification { user_id, kind, title, message, url, data_json } = params;
    let data_json = match data_json {
        Some(d) => Some(truncate_chars(d, MAX_NOTIFICATION_DATA_JSON_CHARS)),
        None => None,
    };
    Notification::new(
        user_id,
        truncate_chars(kind, MAX_NOTIFICATION_KIND_CHARS),
        truncate_chars(title, MAX_NOTIFICATION_TITLE_CHARS),
        truncate_chars(message, MAX_NOTIFICATION_MESSAGE_CHARS),
        sanitize_notification_url(url),
        data_json,
        None,
        created_at,
    )
}

/// Everything a send needs: the new id, the row to persist under it, the DTO to return,
/// and the event to publish once the row is durable.
pub struct SendPlan {
    pub notification_id: u128,
    /// The id's hyphenated text: the row's record key and the event's notification id.
    pub record_key: String,
    pub notification: Notification,
    pub dto: NotificationDto,
    pub event: NotificationPushed,
}

/// `plan` is the send of `params` under `id`, created at `created_at`, its DTO built at `now`.
pub open spec fn send_plan_is(
    params: SendNotification,
    id: u128,
    created_at: Timestamp,
    now: Timestamp,
    plan: SendPlan,
) -> bool {
    &&& plan.notification_id == id
    &&& plan.record_key@ == uuid_hyphenated(id)
    &&& uuid_parse(plan.record_key@) == Some(id)
    &&& prepared(params, created_at, plan.notification)
    &&& plan.dto.notification_id == id
    &&& plan.dto.title@ == plan.notification.title@
    &&& plan.dto.message@ == plan.notification.message@
    &&& plan.dto.created_at@ == crate::time::label_at(created_at, now)
    &&& opt_view(plan.dto.url) == opt_view(plan.notification.url)
    &&& !plan.dto.is_read
    &&& plan.event.user_id@ == params.user_id@
    &&& plan.event.notification_id@ == plan.record_key@
}

/// Plan the send of `params` under the id `id`, created at `created_at`, with the DTO
/// built at `now`.
pub fn plan_send_at(params: SendNotification, id: u128, created_at: Timestamp, now: Timestamp) -> (plan: SendPlan)
    ensures
        send_plan_is(params, id, created_at, now, plan),
{
    let record_key = notification_record_key(id);
    let event_user = params.user_id.clone();
    let notification = prepare_notification(params, created_at);
    let mut dto = notification_to_dto_at(&notification, &now);
    proof {
        crate::url::lemma_sanitize_idempotent(opt_view(params.url));
    }
    dto.notification_id = id;
    let event = NotificationPushed { user_id: event_user, notification_id: record_key.clone() };
    SendPlan { notification_id: id, record_key, notification, dto, event }
}

/// Plan a send under a fresh random id, created now.
pub fn plan_send(params: SendNotification) -> (plan: SendPlan)
    ensures
        is_uuid_v4(plan.notification_id),
        plan.notification_id != NIL_UUID,
        exists|created_at: Timestamp, now: Timestamp|
            #[trigger] send_plan_is(params, plan.notification_id, created_at, now, plan)
                && is_clock_reading(created_at) && is_clock_reading(now),
{
    let id = new_uuid_v4();
    proof {
        crate::ids::lemma_uuid_v4_not_nil(id);
    }
    let created_at = now_timestamp();
    let now = now_timestamp();
    plan_send_at(params, id, created_at, now)
}

/// The answer of a send, given what persisting its row gave: the DTO once the row is
/// durable, [`SendNotificationError::Persist`] (with the row's key) otherwise. Whether the
/// live push then succeeds does not change it.
pub fn send_outcome(plan: SendPlan, persisted: Result<(), StoreError>) -> (r: Result<
    NotificationDto,
    SendNotificationError,
>)
    ensures
        match persisted {
            Ok(()) => r matches Ok(dto) && dto == plan.dto,
            Err(e) => r matches Err(SendNotificationError::Persist { notification_id, source })
                && notification_id == plan.record_key && source == e,
        },
{
    match persisted {
        Ok(()) => Ok(plan.dto),
        Err(source) => Err(SendNotificationError::Persist { notification_id: plan.record_key, source }),
    }
}

/// Law: what a send stores and returns is capped, safe and unread: the title, kind,
/// message and payload fit their caps, any link is a safe path, and the returned DTO
/// carries the new id and the stored link.
pub proof fn lemma_send_plan_bounded(
    params: SendNotification,
    id: u128,
    created_at: Timestamp,
    now: Timestamp,
    plan: SendPlan,
)
    requires
        send_plan_is(params, id, created_at, now, plan),
    ensures
        plan.notification.kind@.len() <= MAX_NOTIFICATION_KIND_CHARS,
        plan.notification.title@.len() <= MAX_NOTIFICATION_TITLE_CHARS,
        plan.notification.message@.len() <= MAX_NOTIFICATION_MESSAGE_CHARS,
        plan.notification.data_json matches Some(d) ==> d@.len() <= MAX_NOTIFICATION_DATA_JSON_CHARS,
        plan.notification.url matches Some(u) ==> crate::url::is_safe_path(u@),
        plan.dto.url matches Some(u) ==> crate::url::is_safe_path(u@),
        plan.dto.notification_id == id,
        !plan.dto.is_read,
{
    crate::url::lemma_sanitize_idempotent(opt_view(params.url));
    crate::text::lemma_take_chars(params.kind@, MAX_NOTIFICATION_KIND_CHARS as nat);
    crate::text::lemma_take_chars(params.title@, MAX_NOTIFICATION_TITLE_CHARS as nat);
    crate::text::lemma_take_chars(params.message@, MAX_NOTIFICATION_MESSAGE_CHARS as nat);
    if let Some(d) = params.data_json {
        crate::text::lemma_take_chars(d@, MAX_NOTIFICATION_DATA_JSON_CHARS as nat);
    }
}

/// Law: a sent notification reads back under the id the send returned: its stored row's
/// record id (the record key between angle brackets or bare, in any table) gives the
/// same UUID to the DTO of the row.
pub proof fn lemma_sent_id_reads_back(
    params: SendNotification,
    id: u128,
    created_at: Timestamp,
    now: Timestamp,
    plan: SendPlan,
    table: Seq<char>,
    bracketed: bool,
)
    requires
        send_plan_is(params, id, created_at, now, plan),
    ensures
        crate::ids::record_uuid(Some(crate::ids::rendered_record_id(table, plan.record_key@, bracketed)))
            == plan.dto.notification_id,
{
    crate::ids::lemma_record_key_of_uuid(table, id, bracketed);
}

} // verus!
