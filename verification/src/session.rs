//! Limits, search normalization, read filters and session user ids.
use crate::text::{chars_of, take_chars, trim_bounds, trim_spec, TrimClass};
use vstd::prelude::*;
use vstd::string::*;

verus! {

broadcast use vstd::string::group_string_axioms;

/// Maximum page size accepted by notification list/page operations.
///
/// Caps resource abuse from forged `limit` values while staying above the UI page
/// sizes (bell and inbox use at most 20).
pub const MAX_NOTIFICATION_PAGE_LIMIT: u32 = 50;

/// Maximum rows a count query loads; a larger inbox reports this cap.
pub const MAX_NOTIFICATION_COUNT_CAP: u32 = 500;

/// Maximum free-text search length, in characters.
pub const MAX_NOTIFICATION_SEARCH_CHARS: usize = 256;

/// Clamp a fetched count into `0..=MAX_NOTIFICATION_COUNT_CAP`.
pub fn cap_notification_count(fetched: usize) -> (r: usize)
    ensures
        r == if fetched <= MAX_NOTIFICATION_COUNT_CAP {
            fetched
        } else {
            MAX_NOTIFICATION_COUNT_CAP as usize
        },
{
    if fetched <= 500 {
        fetched
    } else {
        500
    }
}

/// Law: a reported count never exceeds [`MAX_NOTIFICATION_COUNT_CAP`], counts under the
/// cap are exact, and a larger fetch never reports a smaller count.
pub proof fn lemma_cap_count(a: usize, b: usize)
    ensures
        (if a <= MAX_NOTIFICATION_COUNT_CAP { a } else { MAX_NOTIFICATION_COUNT_CAP as usize })
            <= MAX_NOTIFICATION_COUNT_CAP,
        a <= b ==> (if a <= MAX_NOTIFICATION_COUNT_CAP { a } else { MAX_NOTIFICATION_COUNT_CAP as usize })
            <= (if b <= MAX_NOTIFICATION_COUNT_CAP { b } else { MAX_NOTIFICATION_COUNT_CAP as usize }),
{
}

/// The page size actually used for a client-supplied `limit`.
pub open spec fn clamped_limit(limit: u32) -> u32 {
    if limit < 1 {
        1
    } else if limit > MAX_NOTIFICATION_PAGE_LIMIT {
        MAX_NOTIFICATION_PAGE_LIMIT
    } else {
        limit
    }
}

/// Clamp a client-supplied page `limit` into `1..=MAX_NOTIFICATION_PAGE_LIMIT`.
///
/// Zero becomes `1` so callers always receive a positive page size.
pub fn clamp_notification_page_limit(limit: u32) -> (r: u32)
    ensures
        r == clamped_limit(limit),
{
    if limit < 1 {
        1
    } else if limit > 50 {
        50
    } else {
        limit
    }
}

/// Law: a clamped limit lies in `1..=MAX_NOTIFICATION_PAGE_LIMIT`, limits already in
/// range pass through, and clamping twice is clamping once.
pub proof fn lemma_clamp_limit(limit: u32)
    ensures
        1 <= clamped_limit(limit) <= MAX_NOTIFICATION_PAGE_LIMIT,
        1 <= limit <= MAX_NOTIFICATION_PAGE_LIMIT ==> clamped_limit(limit) == limit,
        clamped_limit(clamped_limit(limit)) == clamped_limit(limit),
{
}

/// The search text kept of a query: trimmed, then cut to the first
/// `MAX_NOTIFICATION_SEARCH_CHARS` characters.
pub open spec fn search_text(q: Seq<char>) -> Seq<char> {
    take_chars(trim_spec(q), MAX_NOTIFICATION_SEARCH_CHARS as nat)
}

/// Trim a search query and truncate it to [`MAX_NOTIFICATION_SEARCH_CHARS`] characters.
pub fn truncate_notification_search(query: &str) -> (r: String)
    ensures
        r@ == search_text(query@),
{
    let v = chars_of(query);
    let (lo, hi) = trim_bounds(&v, TrimClass::WhiteSpace);
    let end = if hi - lo <= 256 {
        hi
    } else {
        lo + 256
    };
    let r = query.substring_char(lo, end).to_owned();
    proof {
        let t = v@.subrange(lo as int, hi as int);
        if hi - lo > 256 {
            assert(r@ =~= t.take(256));
        }
    }
    r
}

/// Law: the kept search text is at most `MAX_NOTIFICATION_SEARCH_CHARS` characters
/// long, is a prefix of the trimmed query, and never starts with white space.
pub proof fn lemma_search_text(q: Seq<char>)
    ensures
        search_text(q).len() <= MAX_NOTIFICATION_SEARCH_CHARS,
        trim_spec(q).len() <= MAX_NOTIFICATION_SEARCH_CHARS ==> search_text(q) == trim_spec(q),
        search_text(q).len() > 0 ==> !crate::text::is_white_space(search_text(q)[0]),
{
    crate::text::lemma_trim_ends(q);
}

/// Index of the first `c` in `s` at or after `i` (`s.len()` if none).
pub open spec fn first_index_of(s: Seq<char>, c: char, i: int) -> int
    decreases s.len() - i,
{
    if i >= s.len() {
        s.len() as int
    } else if s[i] == c {
        i
    } else {
        first_index_of(s, c, i + 1)
    }
}

proof fn lemma_first_index_of(s: Seq<char>, c: char, i: int)
    requires
        0 <= i <= s.len(),
    ensures
        i <= first_index_of(s, c, i) <= s.len(),
        forall|k: int| i <= k < first_index_of(s, c, i) ==> #[trigger] s[k] != c,
        first_index_of(s, c, i) < s.len() ==> s[first_index_of(s, c, i)] == c,
    decreases s.len() - i,
{
    if i < s.len() && s[i] != c {
        lemma_first_index_of(s, c, i + 1);
    }
}

/// The `(table, id)` parts of a `table:id` session user id, split at the first `:`;
/// `None` when there is no `:` or either side is empty.
pub open spec fn session_parts(s: Seq<char>) -> Option<(Seq<char>, Seq<char>)> {
    let k = first_index_of(s, ':', 0);
    if 0 < k && k + 1 < s.len() {
        Some((s.take(k), s.skip(k + 1)))
    } else {
        None
    }
}

/// Session user id did not match the `table:id` contract.
#[derive(Debug, Clone, PartialEq, Eq)]
pub struct SessionUserIdError {
    /// The rejected session user id (typically `user:…`; never a secret).
    pub value: String,
}

impl SessionUserIdError {
    /// The error's text: `invalid session user id: ` and the rejected value.
    pub fn to_string(&self) -> (r: String)
        ensures
            r@ == "invalid session user id: "@ + self.value@,
    {
        let mut r = String::from_str("invalid session user id: ");
        r.append(self.value.as_str());
        r
    }
}

/// Parse a session user id (`table:id`) into table and id parts.
///
/// Fails with [`SessionUserIdError`], holding the rejected input, when the value has
/// no `:` or either side of the first `:` is empty.
pub fn parse_session_user_id(session_user_id: &str) -> (r: Result<(&str, &str), SessionUserIdError>)
    ensures
        match r {
            Ok((table, id)) => session_parts(session_user_id@) == Some((table@, id@)),
            Err(e) => session_parts(session_user_id@) is None && e.value@ == session_user_id@,
        },
{
    let v = chars_of(session_user_id);
    let n = v.len();
    let mut k: usize = 0;
    while k < n && v[k] != ':'
        invariant
            k <= n == v@.len(),
            first_index_of(v@, ':', 0) == first_index_of(v@, ':', k as int),
        decreases n - k,
    {
        k = k + 1;
    }
    proof {
        lemma_first_index_of(v@, ':', k as int);
    }
    if 0 < k && k < n && n - k > 1 {
        Ok((session_user_id.substring_char(0, k), session_user_id.substring_char(k + 1, n)))
    } else {
        Err(SessionUserIdError { value: session_user_id.to_owned() })
    }
}

/// Law: a parsed session user id splits back into `table:id`: the table is non-empty
/// and holds no `:`, and the id is non-empty.
pub proof fn lemma_session_parts_round_trip(s: Seq<char>)
    ensures
        session_parts(s) matches Some((t, i)) ==> {
            &&& s == t + seq![':'] + i
            &&& t.len() > 0
            &&& i.len() > 0
            &&& !t.contains(':')
        },
{
    lemma_first_index_of(s, ':', 0);
    if let Some((t, i)) = session_parts(s) {
        let k = first_index_of(s, ':', 0);
        assert(s =~= t + seq![':'] + i);
        assert forall|j: int| 0 <= j < t.len() implies t[j] != ':' by {
            assert(t[j] == s[j]);
        }
    }
}

/// Law: every `table:id` whose table holds no `:` and whose parts are non-empty is
/// accepted, and gives back exactly those parts.
pub proof fn lemma_session_parts_accepts(t: Seq<char>, i: Seq<char>)
    requires
        t.len() > 0,
        i.len() > 0,
        !t.contains(':'),
    ensures
        session_parts(t + seq![':'] + i) == Some((t, i)),
{
    let s = t + seq![':'] + i;
    lemma_first_index_of(s, ':', 0);
    let k = first_index_of(s, ':', 0);
    assert(s[t.len() as int] == ':');
    if k < t.len() {
        assert(t[k] == s[k]);
    }
    assert(k == t.len());
    assert(s.take(k) =~= t);
    assert(s.skip(k + 1) =~= i);
}

/// Read-status filter for notification queries.
#[derive(Debug, Clone, Copy, PartialEq, Eq, Structural)]
pub enum NotificationReadFilter {
    /// No filtering: notifications regardless of read status.
    All,
    /// Only notifications that have not been marked read.
    Unread,
    /// Only notifications that have been marked read.
    Read,
}

/// A session user's record id, split into table and id.
#[derive(Debug, Clone, PartialEq, Eq)]
pub struct SessionRecordId {
    pub table: String,
    pub id: String,
}

impl SessionRecordId {
    /// The rendered record id, `table:id`.
    pub fn to_string(&self) -> (r: String)
        ensures
            r@ == self.table@ + seq![':'] + self.id@,
    {
        let mut r = self.table.clone();
        r.append(":");
        proof {
            reveal_strlit(":");
        }
        r.append(self.id.as_str());
        r
    }
}

/// Why an operation refused to act for the caller.
#[derive(Debug, Clone, Copy, PartialEq, Eq, Structural)]
pub enum AuthError {
    /// The request context could not be read.
    RequestContext,
    /// There is no session user.
    SignedOut,
    /// The session user id is not `table:id`.
    InvalidSessionUserId,
}

/// The client-visible text of an [`AuthError`]; none of them carries the session value.
pub open spec fn auth_error_text(e: AuthError) -> Seq<char> {
    match e {
        AuthError::RequestContext => "request context failed"@,
        AuthError::SignedOut => "You must be signed in"@,
        AuthError::InvalidSessionUserId => "invalid session user id"@,
    }
}

impl AuthError {
    pub fn to_string(&self) -> (r: String)
        ensures
            r@ == auth_error_text(*self),
    {
        match self {
            AuthError::RequestContext => String::from_str("request context failed"),
            AuthError::SignedOut => String::from_str("You must be signed in"),
            AuthError::InvalidSessionUserId => String::from_str("invalid session user id"),
        }
    }
}

/// Map an optional session user id into its record id: [`AuthError::SignedOut`] when
/// absent, [`AuthError::InvalidSessionUserId`] when it is not `table:id`.
pub fn require_session_record_id(session_user_id: Option<&str>) -> (r: Result<SessionRecordId, AuthError>)
    ensures
        match session_user_id {
            None => r == Err::<SessionRecordId, AuthError>(AuthError::SignedOut),
            Some(s) => match session_parts(s@) {
                Some((t, i)) => r matches Ok(rid) && rid.table@ == t && rid.id@ == i,
                None => r == Err::<SessionRecordId, AuthError>(AuthError::InvalidSessionUserId),
            },
        },
{
    match session_user_id {
        None => Err(AuthError::SignedOut),
        Some(s) => match parse_session_user_id(s) {
            Ok((table, id)) => Ok(SessionRecordId { table: table.to_owned(), id: id.to_owned() }),
            Err(_) => Err(AuthError::InvalidSessionUserId),
        },
    }
}

} // verus!
