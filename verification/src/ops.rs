//! Notification queries, pages, counts and mark-read decisions.
//!
//! The store runs the queries; this module decides what to ask it for and what to make
//! of what it answers.
use crate::dto::NotificationDto;
use crate::ids::{record_key, record_key_str};
use crate::session::{
    cap_notification_count, clamp_notification_page_limit, clamped_limit, search_text,
    truncate_notification_search, NotificationReadFilter, MAX_NOTIFICATION_COUNT_CAP,
};
use crate::time::{day_start_secs, is_clock_reading, utc_midnight, Timestamp};
use crate::text::{
    first_outside, in_class, is_white_space, lemma_first_outside_bounds, lemma_first_outside_exact,
    lemma_last_outside_exact, trim_spec, TrimClass,
};
use crate::url::opt_view;
use vstd::prelude::*;
use vstd::string::*;

verus! {

broadcast use vstd::string::group_string_axioms;

/// Typed failure of a notification operation. Neither variant carries store text.
#[derive(Debug, Clone, Copy, PartialEq, Eq, Structural)]
pub enum NotificationOpsError {
    /// A store query, get, update or commit failed.
    Store,
    /// UTC midnight for "today" could not be constructed.
    InvalidMidnight,
}

/// The client-visible text of an operation error.
pub open spec fn ops_error_text(e: NotificationOpsError) -> Seq<char> {
    match e {
        NotificationOpsError::Store => "notification store failed"@,
        NotificationOpsError::InvalidMidnight => "invalid local midnight"@,
    }
}

impl NotificationOpsError {
    /// `notification store failed` or `invalid local midnight`.
    pub fn to_string(&self) -> (r: String)
        ensures
            r@ == ops_error_text(*self),
    {
        match self {
            NotificationOpsError::Store => String::from_str("notification store failed"),
            NotificationOpsError::InvalidMidnight => String::from_str("invalid local midnight"),
        }
    }
}

/// The kind of a store failure, as far as the operations tell kinds apart.
#[derive(Debug, Clone, Copy, PartialEq, Eq, Structural)]
pub enum StoreErrorKind {
    /// A privacy policy hid the row or denied the operation.
    Privacy,
    /// No such row.
    NotFound,
    /// The row is being deleted.
    PendingDeletion,
    /// Anything else (validation, database, ...).
    Other,
}

/// A failure reported by the store, with its display text.
#[derive(Debug, Clone)]
pub struct StoreError {
    pub kind: StoreErrorKind,
    pub detail: String,
}

/// Every store failure is an opaque [`NotificationOpsError::Store`].
pub fn store_err(_err: StoreError) -> (r: NotificationOpsError)
    ensures
        r == NotificationOpsError::Store,
{
    NotificationOpsError::Store
}

/// Treat privacy-hidden, missing and pending-deletion rows as absent, so that marking
/// cannot enumerate other users' rows; any other store failure is
/// [`NotificationOpsError::Store`].
pub fn optional_notification<T>(result: Result<Option<T>, StoreError>) -> (r: Result<
    Option<T>,
    NotificationOpsError,
>)
    ensures
        match result {
            Ok(row) => r == Ok::<Option<T>, NotificationOpsError>(row),
            Err(e) => match e.kind {
                StoreErrorKind::Other => r == Err::<Option<T>, NotificationOpsError>(
                    NotificationOpsError::Store,
                ),
                _ => r == Ok::<Option<T>, NotificationOpsError>(None),
            },
        },
{
    match result {
        Ok(row) => Ok(row),
        Err(e) => match e.kind {
            StoreErrorKind::Privacy | StoreErrorKind::NotFound | StoreErrorKind::PendingDeletion => Ok(
                None,
            ),
            StoreErrorKind::Other => Err(NotificationOpsError::Store),
        },
    }
}

pub open spec fn read_filter_text(filter: NotificationReadFilter) -> Seq<char> {
    match filter {
        NotificationReadFilter::All => "all"@,
        NotificationReadFilter::Unread => "unread"@,
        NotificationReadFilter::Read => "read"@,
    }
}

/// `all`, `unread` or `read`.
pub fn read_filter_label(filter: NotificationReadFilter) -> (r: &'static str)
    ensures
        r@ == read_filter_text(filter),
{
    match filter {
        NotificationReadFilter::All => "all",
        NotificationReadFilter::Unread => "unread",
        NotificationReadFilter::Read => "read",
    }
}

/// Rows the recent-notifications list returns.
pub const LIST_LIMIT: u32 = 50;

/// Rows the bell's unread preview returns.
pub const UNREAD_PREVIEW_LIMIT: u32 = 10;

/// A query over one user's notifications.
pub struct NotificationQuery {
    /// The rendered record id of the user whose rows are read (`user:alice`).
    pub user: String,
    pub read_filter: NotificationReadFilter,
    /// Only rows the store's `After` predicate admits for this instant: rows created
    /// after it (whether a row created exactly at it counts is that predicate's call).
    pub created_after: Option<Timestamp>,
    /// Only rows whose title or message contains this text.
    pub search: Option<String>,
    /// Newest first by `created_at` (otherwise in the store's order).
    pub newest_first: bool,
    /// At most this many rows.
    pub limit: u32,
    /// Skip this many rows first.
    pub offset: u32,
}

/// `q` reads `user`'s rows with the given filter, search, order and window.
pub open spec fn query_is(
    q: NotificationQuery,
    user: Seq<char>,
    read_filter: NotificationReadFilter,
    created_after: Option<Timestamp>,
    search: Option<Seq<char>>,
    newest_first: bool,
    limit: u32,
    offset: u32,
) -> bool {
    &&& q.user@ == user
    &&& q.read_filter == read_filter
    &&& q.created_after == created_after
    &&& opt_view(q.search) == search
    &&& q.newest_first == newest_first
    &&& q.limit == limit
    &&& q.offset == offset
}

fn query(
    user: &String,
    read_filter: NotificationReadFilter,
    created_after: Option<Timestamp>,
    search: Option<String>,
    newest_first: bool,
    limit: u32,
    offset: u32,
) -> (q: NotificationQuery)
    ensures
        query_is(q, user@, read_filter, created_after, opt_view(search), newest_first, limit, offset),
{
    NotificationQuery {
        user: user.clone(),
        read_filter,
        created_after,
        search,
        newest_first,
        limit,
        offset,
    }
}

/// Up to [`LIST_LIMIT`] of the user's notifications, newest first.
pub fn list_query(user: &String) -> (q: NotificationQuery)
    ensures
        query_is(q, user@, NotificationReadFilter::All, None, None, true, LIST_LIMIT, 0),
{
    query(user, NotificationReadFilter::All, None, None, true, 50, 0)
}

/// The [`UNREAD_PREVIEW_LIMIT`] newest unread notifications, for the bell dropdown.
pub fn unread_preview_query(user: &String) -> (q: NotificationQuery)
    ensures
        query_is(q, user@, NotificationReadFilter::Unread, None, None, true, UNREAD_PREVIEW_LIMIT, 0),
{
    query(user, NotificationReadFilter::Unread, None, None, true, 10, 0)
}

/// Up to [`MAX_NOTIFICATION_COUNT_CAP`] unread rows, whose number is the unread count.
pub fn unread_count_query(user: &String) -> (q: NotificationQuery)
    ensures
        query_is(
            q,
            user@,
            NotificationReadFilter::Unread,
            None,
            None,
            false,
            MAX_NOTIFICATION_COUNT_CAP,
            0,
        ),
{
    query(user, NotificationReadFilter::Unread, None, None, false, 500, 0)
}

/// Up to [`MAX_NOTIFICATION_COUNT_CAP`] rows, whose number is the total count.
pub fn notification_count_query(user: &String) -> (q: NotificationQuery)
    ensures
        query_is(q, user@, NotificationReadFilter::All, None, None, false, MAX_NOTIFICATION_COUNT_CAP, 0),
{
    query(user, NotificationReadFilter::All, None, None, false, 500, 0)
}

/// `q` counts from the UTC midnight that starts the day of `now`: a whole number of days
/// since the epoch, at most `now` and less than a day before it.
pub open spec fn starts_day_of(q: NotificationQuery, now: Timestamp) -> bool {
    q.created_after matches Some(m) && m.nanos == 0 && m.secs % 86_400 == 0 && now.secs - 86_400
        < m.secs <= now.secs
}

/// Up to [`MAX_NOTIFICATION_COUNT_CAP`] rows created after UTC midnight of the day of
/// `now`, whose number is today's count.
pub fn today_count_query_at(user: &String, now: &Timestamp) -> (r: Result<
    NotificationQuery,
    NotificationOpsError,
>)
    ensures
        match r {
            Ok(q) => day_start_secs(now.secs as int) >= i64::MIN && starts_day_of(q, *now) && query_is(
                q,
                user@,
                NotificationReadFilter::All,
                Some(Timestamp { secs: day_start_secs(now.secs as int) as i64, nanos: 0 }),
                None,
                false,
                MAX_NOTIFICATION_COUNT_CAP,
                0,
            ),
            Err(e) => e == NotificationOpsError::InvalidMidnight && day_start_secs(now.secs as int)
                < i64::MIN,
        },
{
    proof {
        crate::time::lemma_day_start(now.secs as int);
    }
    match utc_midnight(now) {
        Some(midnight) => Ok(
            query(user, NotificationReadFilter::All, Some(midnight), None, false, 500, 0),
        ),
        None => Err(NotificationOpsError::InvalidMidnight),
    }
}

/// Today's count query, with "today" read from the clock. A clock reading is never
/// before the Unix epoch, so its midnight always exists and this never fails.
pub fn today_count_query(user: &String) -> (r: Result<NotificationQuery, NotificationOpsError>)
    ensures
        r is Ok,
        exists|now: Timestamp|
            #[trigger] is_clock_reading(now) && (r matches Ok(q) && starts_day_of(q, now) && query_is(
                q,
                user@,
                NotificationReadFilter::All,
                Some(Timestamp { secs: day_start_secs(now.secs as int) as i64, nanos: 0 }),
                None,
                false,
                MAX_NOTIFICATION_COUNT_CAP,
                0,
            )),
{
    let now = crate::time::now_timestamp();
    proof {
        assert(day_start_secs(now.secs as int) >= 0) by (nonlinear_arith)
            requires
                now.secs >= 0,
        {
            vstd::arithmetic::div_mod::lemma_div_pos_is_pos(now.secs as int, 86_400);
        }
    }
    today_count_query_at(user, &now)
}

/// The queries behind one page: the page itself (one row more than the page size, to
/// learn whether more follow) and, on the first page only, the capped count query.
pub struct PagePlan {
    pub page: NotificationQuery,
    pub count: Option<NotificationQuery>,
    /// The page size actually used.
    pub limit: u32,
}

/// `p` plans the page at `offset` of size `clamped_limit(limit)` over rows matching the
/// given filter and search.
pub open spec fn page_plan_is(
    p: PagePlan,
    user: Seq<char>,
    read_filter: NotificationReadFilter,
    search: Option<Seq<char>>,
    offset: u32,
    limit: u32,
) -> bool {
    &&& p.limit == clamped_limit(limit)
    &&& query_is(p.page, user, read_filter, None, search, true, (p.limit + 1) as u32, offset)
    &&& (p.count is Some <==> offset == 0)
    &&& (p.count matches Some(c) ==> query_is(
        c,
        user,
        read_filter,
        None,
        search,
        false,
        MAX_NOTIFICATION_COUNT_CAP,
        0,
    ))
}

fn page_plan(
    user: &String,
    read_filter: NotificationReadFilter,
    search: Option<String>,
    offset: u32,
    limit: u32,
) -> (p: PagePlan)
    ensures
        page_plan_is(p, user@, read_filter, opt_view(search), offset, limit),
{
    let limit = clamp_notification_page_limit(limit);
    let count = if offset == 0 {
        let s = match &search {
            Some(t) => Some(t.clone()),
            None => None,
        };
        Some(query(user, read_filter, None, s, false, 500, 0))
    } else {
        None
    };
    PagePlan { page: query(user, read_filter, None, search, true, limit + 1, offset), count, limit }
}

/// A page of unread notifications, for the bell's infinite scroll.
pub fn unread_page_plan(user: &String, offset: u32, limit: u32) -> (p: PagePlan)
    ensures
        page_plan_is(p, user@, NotificationReadFilter::Unread, None, offset, limit),
{
    page_plan(user, NotificationReadFilter::Unread, None, offset, limit)
}

/// The search text a query asks for: the normalized text, when it is not empty.
pub open spec fn search_term_of(query: Option<Seq<char>>) -> Option<Seq<char>> {
    match query {
        Some(q) => if search_text(q).len() > 0 {
            Some(search_text(q))
        } else {
            None
        },
        None => None,
    }
}

/// Law: the search term of a query is the query itself with the white space around it
/// removed (cut to [`crate::session::MAX_NOTIFICATION_SEARCH_CHARS`] characters when
/// longer): inner text, inner spaces included, is searched for whole.
pub proof fn lemma_search_term_is_trimmed_query(lead: Seq<char>, t: Seq<char>, trail: Seq<char>)
    requires
        forall|i: int| 0 <= i < lead.len() ==> is_white_space(#[trigger] lead[i]),
        forall|i: int| 0 <= i < trail.len() ==> is_white_space(#[trigger] trail[i]),
        t.len() > 0,
        !is_white_space(t[0]),
        !is_white_space(t[t.len() - 1]),
    ensures
        t.len() <= 256 ==> search_term_of(Some(lead + t + trail)) == Some(t),
        t.len() > 256 ==> search_term_of(Some(lead + t + trail)) == Some(t.take(256)),
{
    let s = lead + t + trail;
    let lo = lead.len() as int;
    let hi = lo + t.len();
    assert forall|k: int| 0 <= k < lo implies in_class(#[trigger] s[k], TrimClass::WhiteSpace) by {
        assert(s[k] == lead[k]);
    }
    assert forall|k: int| hi <= k < s.len() implies in_class(#[trigger] s[k], TrimClass::WhiteSpace) by {
        assert(s[k] == trail[k - hi]);
    }
    assert(s[lo] == t[0]);
    assert(s[hi - 1] == t[t.len() - 1]);
    lemma_first_outside_exact(s, TrimClass::WhiteSpace, 0, lo);
    lemma_last_outside_exact(s, TrimClass::WhiteSpace, s.len() as int, hi);
    assert(s.subrange(lo, hi) =~= t);
    assert(trim_spec(s) == t);
}

/// Law: a query made only of white space searches for nothing.
pub proof fn lemma_search_term_blank(q: Seq<char>)
    requires
        forall|i: int| 0 <= i < q.len() ==> is_white_space(#[trigger] q[i]),
    ensures
        search_term_of(Some(q)) is None,
{
    lemma_first_outside_bounds(q, TrimClass::WhiteSpace, 0);
    if first_outside(q, TrimClass::WhiteSpace, 0) < q.len() {
        let k = first_outside(q, TrimClass::WhiteSpace, 0);
        assert(is_white_space(q[k]));
    }
    crate::text::lemma_last_outside_bounds(q, TrimClass::WhiteSpace, q.len() as int);
    assert(trim_spec(q).len() == 0);
}

/// Normalize an inbox search query: trimmed, cut to the search limit, and dropped
/// when nothing remains.
pub fn search_term(query: Option<String>) -> (r: Option<String>)
    ensures
        opt_view(r) == search_term_of(opt_view(query)),
{
    match query {
        Some(q) => {
            let t = truncate_notification_search(q.as_str());
            if t.as_str().unicode_len() > 0 {
                Some(t)
            } else {
                None
            }
        },
        None => None,
    }
}

/// An inbox page with free-text search (title or message) and a read filter.
pub fn notifications_page_plan(
    user: &String,
    offset: u32,
    limit: u32,
    query: Option<String>,
    read_filter: NotificationReadFilter,
) -> (p: PagePlan)
    ensures
        page_plan_is(p, user@, read_filter, search_term_of(opt_view(query)), offset, limit),
{
    let search = search_term(query);
    page_plan(user, read_filter, search, offset, limit)
}

/// One page of results.
pub struct Page<T> {
    pub items: Vec<T>,
    /// More rows follow this page.
    pub has_more: bool,
    /// The (capped) number of matching rows, when it was counted.
    pub total_count: Option<u64>,
}

impl<T> Page<T> {
    /// A page from rows fetched with one row more than `limit`: the first `limit` rows,
    /// and whether more followed.
    pub fn from_oversized(items: Vec<T>, limit: u32, total_count: Option<u64>) -> (p: Self)
        ensures
            p.has_more == (items.len() > limit),
            p.items@ == if items.len() > limit {
                items@.take(limit as int)
            } else {
                items@
            },
            p.total_count == total_count,
    {
        let mut items = items;
        let has_more = items.len() > limit as usize;
        if has_more {
            items.truncate(limit as usize);
        }
        Page { items, has_more, total_count }
    }
}

/// The page the fetched rows make under `plan`; `counted` is how many rows the count
/// query returned, when it ran.
pub fn finish_page(dtos: Vec<NotificationDto>, plan: &PagePlan, counted: Option<usize>) -> (p: Page<
    NotificationDto,
>)
    ensures
        p.has_more == (dtos.len() > plan.limit),
        p.items@ == if dtos.len() > plan.limit {
            dtos@.take(plan.limit as int)
        } else {
            dtos@
        },
        p.total_count == match counted {
            Some(n) => Some(
                (if n <= MAX_NOTIFICATION_COUNT_CAP {
                    n
                } else {
                    MAX_NOTIFICATION_COUNT_CAP as usize
                }) as u64,
            ),
            None => None::<u64>,
        },
{
    let total = match counted {
        Some(n) => Some(cap_notification_count(n) as u64),
        None => None,
    };
    Page::from_oversized(dtos, plan.limit, total)
}

/// Law: a page holds at most its page size of rows, all taken in order from the front
/// of what was fetched, and reports more rows exactly when more were fetched.
pub proof fn lemma_page_bounds(fetched: Seq<NotificationDto>, limit: u32, items: Seq<NotificationDto>, has_more: bool)
    requires
        has_more == (fetched.len() > limit),
        items == if fetched.len() > limit {
            fetched.take(limit as int)
        } else {
            fetched
        },
    ensures
        items.len() <= limit,
        items.len() == if fetched.len() > limit { limit as int } else { fetched.len() as int },
        forall|i: int| 0 <= i < items.len() ==> items[i] == fetched[i],
        !has_more ==> items == fetched,
{
}

/// How one row of mark-all ended.
#[derive(Debug, Clone, Copy, PartialEq, Eq, Structural)]
pub enum MarkRowOutcome {
    /// The row had no usable record key, so it was skipped.
    MissingId,
    /// Setting `read_at` was refused.
    SetReadAtFailed,
    /// The update did not commit.
    CommitFailed,
    /// The row is now read.
    Committed,
}

/// The unread rows mark-all walks: the user's unread rows, at most
/// [`MAX_NOTIFICATION_COUNT_CAP`] of them, in the store's order.
pub fn mark_all_unread_query(user: &String) -> (q: NotificationQuery)
    ensures
        query_is(
            q,
            user@,
            NotificationReadFilter::Unread,
            None,
            None,
            false,
            MAX_NOTIFICATION_COUNT_CAP,
            0,
        ),
{
    query(user, NotificationReadFilter::Unread, None, None, false, 500, 0)
}

/// Mark-all after loading its rows: the rows to walk, in order, with an empty tally; or
/// [`NotificationOpsError::Store`] when the load failed, and then no row is walked.
pub fn mark_all_start<T>(loaded: Result<Vec<T>, StoreError>) -> (r: Result<
    (Vec<T>, MarkAllTally),
    NotificationOpsError,
>)
    ensures
        match loaded {
            Ok(rows) => r matches Ok((walk, t)) && walk == rows && t.committed == 0
                && t.rows_skipped == 0,
            Err(_) => r matches Err(e) && e == NotificationOpsError::Store,
        },
{
    match loaded {
        Ok(rows) => Ok((rows, MarkAllTally::new())),
        Err(e) => Err(store_err(e)),
    }
}

/// What mark-all does with one row.
#[derive(Debug, Clone, Copy, PartialEq, Eq, Structural)]
pub enum MarkRowAction {
    /// The row has no usable record key: skip it (it counts as skipped).
    Skip,
    /// Set its `read_at` and commit.
    Update,
}

/// The action for a row with the given record id: skip it exactly when it has no id or
/// its record key is empty.
pub fn mark_all_row_action(record_id: Option<&str>) -> (r: MarkRowAction)
    ensures
        (r == MarkRowAction::Skip) <==> match record_id {
            Some(s) => record_key(s@).len() == 0,
            None => true,
        },
{
    match record_id {
        Some(s) => {
            if record_key_str(s).unicode_len() == 0 {
                MarkRowAction::Skip
            } else {
                MarkRowAction::Update
            }
        },
        None => MarkRowAction::Skip,
    }
}

/// How a row's update ended, from what setting `read_at` gave and, when it succeeded,
/// what the commit gave. A failed update is an outcome of that row, not an error of
/// mark-all.
pub fn mark_row_outcome(set_read_at: Result<(), StoreError>, commit: Option<Result<(), StoreError>>) -> (r: MarkRowOutcome)
    ensures
        set_read_at is Err ==> r == MarkRowOutcome::SetReadAtFailed,
        set_read_at is Ok ==> (r == MarkRowOutcome::Committed <==> commit matches Some(Ok(()))),
        set_read_at is Ok && !(commit matches Some(Ok(()))) ==> r == MarkRowOutcome::CommitFailed,
{
    match set_read_at {
        Err(_) => MarkRowOutcome::SetReadAtFailed,
        Ok(()) => match commit {
            Some(Ok(())) => MarkRowOutcome::Committed,
            _ => MarkRowOutcome::CommitFailed,
        },
    }
}

/// Committed and skipped rows of mark-all so far.
#[derive(Debug, Clone, Copy, PartialEq, Eq, Structural)]
pub struct MarkAllTally {
    pub committed: u32,
    pub rows_skipped: u32,
}

/// `a + 1`, saturating at `u32::MAX`.
pub open spec fn sat_inc(a: u32) -> u32 {
    if a == u32::MAX {
        a
    } else {
        (a + 1) as u32
    }
}

/// Rows of `outcomes` that committed.
pub open spec fn committed_rows(outcomes: Seq<MarkRowOutcome>) -> nat
    decreases outcomes.len(),
{
    if outcomes.len() == 0 {
        0
    } else {
        committed_rows(outcomes.drop_last()) + if outcomes.last() == MarkRowOutcome::Committed {
            1nat
        } else {
            0nat
        }
    }
}

impl MarkAllTally {
    /// Nothing committed, nothing skipped.
    pub fn new() -> (t: Self)
        ensures
            t.committed == 0,
            t.rows_skipped == 0,
    {
        MarkAllTally { committed: 0, rows_skipped: 0 }
    }

    /// Count one row's outcome (saturating).
    pub fn record(&mut self, outcome: MarkRowOutcome)
        ensures
            outcome == MarkRowOutcome::Committed ==> final(self).committed == sat_inc(
                old(self).committed,
            ) && final(self).rows_skipped == old(self).rows_skipped,
            outcome != MarkRowOutcome::Committed ==> final(self).rows_skipped == sat_inc(
                old(self).rows_skipped,
            ) && final(self).committed == old(self).committed,
    {
        match outcome {
            MarkRowOutcome::Committed => {
                self.committed = self.committed.saturating_add(1);
            },
            _ => {
                self.rows_skipped = self.rows_skipped.saturating_add(1);
            },
        }
    }

    /// Mark-all's answer once every row is walked: the number of committed rows. Rows
    /// that were skipped or failed never make it an error.
    pub fn finish(&self) -> (r: Result<u32, NotificationOpsError>)
        ensures
            r == Ok::<u32, NotificationOpsError>(self.committed),
    {
        Ok(self.committed)
    }

    /// `ok` when no row was skipped, `partial` otherwise.
    pub fn outcome_label(&self) -> (r: &'static str)
        ensures
            r@ == if self.rows_skipped == 0 {
                "ok"@
            } else {
                "partial"@
            },
    {
        if self.rows_skipped == 0 {
            "ok"
        } else {
            "partial"
        }
    }
}

/// The tally after recording `outcomes`, in order, starting from `start`.
pub open spec fn tally_after(start: MarkAllTally, outcomes: Seq<MarkRowOutcome>) -> MarkAllTally
    decreases outcomes.len(),
{
    if outcomes.len() == 0 {
        start
    } else {
        let t = tally_after(start, outcomes.drop_last());
        if outcomes.last() == MarkRowOutcome::Committed {
            MarkAllTally { committed: sat_inc(t.committed), rows_skipped: t.rows_skipped }
        } else {
            MarkAllTally { committed: t.committed, rows_skipped: sat_inc(t.rows_skipped) }
        }
    }
}

/// Law: recording a run of at most `u32::MAX` row outcomes from an empty tally counts
/// exactly the committed rows, and every row is either committed or skipped.
pub proof fn lemma_tally_counts(outcomes: Seq<MarkRowOutcome>)
    requires
        outcomes.len() <= u32::MAX,
    ensures
        tally_after(MarkAllTally { committed: 0, rows_skipped: 0 }, outcomes).committed
            == committed_rows(outcomes),
        tally_after(MarkAllTally { committed: 0, rows_skipped: 0 }, outcomes).committed
            + tally_after(MarkAllTally { committed: 0, rows_skipped: 0 }, outcomes).rows_skipped
            == outcomes.len(),
    decreases outcomes.len(),
{
    if outcomes.len() > 0 {
        lemma_tally_counts(outcomes.drop_last());
        lemma_committed_rows_bound(outcomes.drop_last());
    }
}

/// Law: never more rows commit than were tried.
pub proof fn lemma_committed_rows_bound(outcomes: Seq<MarkRowOutcome>)
    ensures
        committed_rows(outcomes) <= outcomes.len(),
    decreases outcomes.len(),
{
    if outcomes.len() > 0 {
        lemma_committed_rows_bound(outcomes.drop_last());
    }
}

} // verus!
