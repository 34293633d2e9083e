//! Live push events.
use vstd::prelude::*;

verus! {

/// Published when a new notification is created for a user, on topic
/// `user.notifications`, keyed by `user_id`.
#[derive(Debug, Clone, PartialEq, Eq)]
pub struct NotificationPushed {
    /// The rendered record id of the user the notification belongs to (the topic key).
    pub user_id: String,
    /// The notification's UUID text.
    pub notification_id: String,
}

} // verus!
