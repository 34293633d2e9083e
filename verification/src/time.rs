//! Instants, the wall clock, and human-friendly relative times.
use vstd::prelude::*;
use vstd::string::*;

verus! {

pub const NANOS_PER_SECOND: i128 = 1_000_000_000;

pub const NANOS_PER_MINUTE: i128 = 60_000_000_000;

pub const NANOS_PER_HOUR: i128 = 3_600_000_000_000;

pub const NANOS_PER_DAY: i128 = 86_400_000_000_000;

pub const SECONDS_PER_DAY: i64 = 86_400;

/// A UTC instant: whole seconds since the Unix epoch and the nanoseconds past them.
#[derive(Debug, Clone, Copy, PartialEq, Eq, Structural)]
pub struct Timestamp {
    pub secs: i64,
    pub nanos: u32,
}

impl Timestamp {
    /// Nanoseconds since the Unix epoch.
    pub open spec fn total_nanos(self) -> int {
        self.secs * NANOS_PER_SECOND + self.nanos
    }

    fn total_nanos_exec(&self) -> (r: i128)
        ensures
            r == self.total_nanos(),
    {
        (self.secs as i128) * 1_000_000_000 + (self.nanos as i128)
    }
}

/// The character of a decimal digit.
pub open spec fn digit_char(d: nat) -> char {
    if d == 0 {
        '0'
    } else if d == 1 {
        '1'
    } else if d == 2 {
        '2'
    } else if d == 3 {
        '3'
    } else if d == 4 {
        '4'
    } else if d == 5 {
        '5'
    } else if d == 6 {
        '6'
    } else if d == 7 {
        '7'
    } else if d == 8 {
        '8'
    } else {
        '9'
    }
}

/// The decimal representation of `n`, without leading zeros.
pub open spec fn decimal(n: nat) -> Seq<char>
    decreases n,
{
    if n < 10 {
        seq![digit_char(n)]
    } else {
        decimal(n / 10).push(digit_char(n % 10))
    }
}

fn digit_str(d: u64) -> (r: &'static str)
    requires
        d < 10,
    ensures
        r@ == seq![digit_char(d as nat)],
{
    proof {
        reveal_strlit("0");
        reveal_strlit("1");
        reveal_strlit("2");
        reveal_strlit("3");
        reveal_strlit("4");
        reveal_strlit("5");
        reveal_strlit("6");
        reveal_strlit("7");
        reveal_strlit("8");
        reveal_strlit("9");
    }
    if d == 0 {
        "0"
    } else if d == 1 {
        "1"
    } else if d == 2 {
        "2"
    } else if d == 3 {
        "3"
    } else if d == 4 {
        "4"
    } else if d == 5 {
        "5"
    } else if d == 6 {
        "6"
    } else if d == 7 {
        "7"
    } else if d == 8 {
        "8"
    } else {
        "9"
    }
}

/// `n` written in decimal.
pub fn decimal_string(n: u64) -> (r: String)
    ensures
        r@ == decimal(n as nat),
    decreases n,
{
    if n < 10 {
        String::from_str(digit_str(n))
    } else {
        let mut r = decimal_string(n / 10);
        r.append(digit_str(n % 10));
        r
    }
}

/// The relative-time label for `elapsed` nanoseconds: `just now` under a whole minute,
/// then whole minutes (`5m ago`) under an hour, whole hours (`3h ago`) under a day, and
/// whole days (`2d ago`) beyond. A negative elapsed time (a future instant) is `just now`.
pub open spec fn relative_label(elapsed: int) -> Seq<char> {
    if elapsed < NANOS_PER_MINUTE {
        "just now"@
    } else if elapsed < NANOS_PER_HOUR {
        decimal((elapsed / (NANOS_PER_MINUTE as int)) as nat) + "m ago"@
    } else if elapsed < NANOS_PER_DAY {
        decimal((elapsed / (NANOS_PER_HOUR as int)) as nat) + "h ago"@
    } else {
        decimal((elapsed / (NANOS_PER_DAY as int)) as nat) + "d ago"@
    }
}

/// The label of `created` as seen at `now`.
pub open spec fn label_at(created: Timestamp, now: Timestamp) -> Seq<char> {
    relative_label(now.total_nanos() - created.total_nanos())
}

proof fn lemma_quotient_fits(x: int, d: int)
    requires
        0 <= x <= 0x1_0000_0000_0000_0005 * 1_000_000_000,
        d >= 60_000_000_000,
    ensures
        0 <= x / d <= 0xffff_ffff_ffff_ffff,
{
    assert(x < d * 0x1000_0000_0000_0000) by (nonlinear_arith)
        requires
            0 <= x <= 0x1_0000_0000_0000_0005 * 1_000_000_000,
            d >= 60_000_000_000,
    ;
    vstd::arithmetic::div_mod::lemma_multiply_divide_lt(x, d, 0x1000_0000_0000_0000);
    vstd::arithmetic::div_mod::lemma_div_pos_is_pos(x, d);
}

/// Human-friendly relative time of `created` as seen at `now`.
pub fn relative_time_label(created: &Timestamp, now: &Timestamp) -> (r: String)
    ensures
        r@ == label_at(*created, *now),
{
    let elapsed = now.total_nanos_exec() - created.total_nanos_exec();
    if elapsed < 60_000_000_000 {
        return String::from_str("just now");
    }
    let (count, unit) = if elapsed < 3_600_000_000_000 {
        (elapsed / 60_000_000_000, "m ago")
    } else if elapsed < 86_400_000_000_000 {
        (elapsed / 3_600_000_000_000, "h ago")
    } else {
        (elapsed / 86_400_000_000_000, "d ago")
    };
    proof {
        let d: int = if elapsed < NANOS_PER_HOUR {
            NANOS_PER_MINUTE as int
        } else if elapsed < NANOS_PER_DAY {
            NANOS_PER_HOUR as int
        } else {
            NANOS_PER_DAY as int
        };
        assert(count == (elapsed as int) / d);
        let (ns, nn, cs, cn) = (now.secs as int, now.nanos as int, created.secs as int, created.nanos as int);
        assert(elapsed <= 0x1_0000_0000_0000_0005 * 1_000_000_000) by (nonlinear_arith)
            requires
                elapsed == (ns * 1_000_000_000 + nn) - (cs * 1_000_000_000 + cn),
                ns <= 0x7fff_ffff_ffff_ffff,
                cs >= -0x8000_0000_0000_0000,
                0 <= nn <= 0xffff_ffff,
                0 <= cn,
        ;
        lemma_quotient_fits(elapsed as int, d);
    }
    let mut r = decimal_string(count as u64);
    r.append(unit);
    r
}

/// The current UTC instant.
///
/// Calls `chrono::Utc::now` and reads its seconds (`timestamp`) and nanoseconds
/// (`timestamp_subsec_nanos`). Which instant comes back is the time and is not stated;
/// what holds of every reading is: `Utc::now` takes the duration since the Unix epoch
/// (it panics when the system clock reads before it) and builds the instant from its
/// whole seconds and its sub-second nanoseconds, so the seconds are not negative and the
/// nanoseconds are below one second.
#[verifier::external_body]
pub(crate) fn now_timestamp() -> (r: Timestamp)
    ensures
        is_clock_reading(r),
{
    let now = chrono::Utc::now();
    Timestamp { secs: now.timestamp(), nanos: now.timestamp_subsec_nanos() }
}

/// An instant the clock can give: at or after the Unix epoch, with its nanoseconds
/// below one second.
pub open spec fn is_clock_reading(t: Timestamp) -> bool {
    t.secs >= 0 && t.nanos < 1_000_000_000
}

/// Human-friendly relative time of `created`, as seen now.
pub fn format_relative_time(created: &Timestamp) -> (r: String)
    ensures
        exists|now: Timestamp| #[trigger] is_clock_reading(now) && r@ == label_at(*created, now),
{
    let now = now_timestamp();
    relative_time_label(created, &now)
}

/// The first second of the UTC day of `secs`.
pub open spec fn day_start_secs(secs: int) -> int {
    (secs / SECONDS_PER_DAY as int) * SECONDS_PER_DAY as int
}

/// UTC midnight at the start of the day of `now`; `None` when that instant is not
/// representable (only within a day of the earliest representable second).
pub fn utc_midnight(now: &Timestamp) -> (r: Option<Timestamp>)
    ensures
        match r {
            Some(m) => m.secs == day_start_secs(now.secs as int) && m.nanos == 0,
            None => day_start_secs(now.secs as int) < i64::MIN,
        },
{
    let s = now.secs as i128;
    let days: i128 = if s >= 0 {
        s / 86_400
    } else {
        -((-s - 1) / 86_400) - 1
    };
    proof {
        if s < 0 {
            let a = -s - 1;
            assert(a >= 0);
            vstd::arithmetic::div_mod::lemma_fundamental_div_mod(a as int, 86_400int);
            vstd::arithmetic::div_mod::lemma_fundamental_div_mod(s as int, 86_400int);
            vstd::arithmetic::div_mod::lemma_mod_bound(a as int, 86_400int);
            vstd::arithmetic::div_mod::lemma_mod_bound(s as int, 86_400int);
            assert(days == s / 86_400) by (nonlinear_arith)
                requires
                    a == -s - 1,
                    a == 86_400 * (a / 86_400) + a % 86_400,
                    s == 86_400 * (s / 86_400) + s % 86_400,
                    0 <= a % 86_400 < 86_400,
                    0 <= s % 86_400 < 86_400,
                    days == -(a / 86_400) - 1,
            ;
        }
        assert(days == (now.secs as int) / 86_400);
        assert(-0x8000_0000_0000_0000int / 86_400 - 1 <= days <= 0x7fff_ffff_ffff_ffffint / 86_400) by {
            vstd::arithmetic::div_mod::lemma_div_is_ordered(s as int, 0x7fff_ffff_ffff_ffffint, 86_400int);
            vstd::arithmetic::div_mod::lemma_div_is_ordered(-0x8000_0000_0000_0000int, s as int, 86_400int);
        }
    }
    let m = days * 86_400;
    if m < i64::MIN as i128 {
        None
    } else {
        proof {
            assert(m <= 0x7fff_ffff_ffff_ffff) by (nonlinear_arith)
                requires
                    m == days * 86_400,
                    days <= 0x7fff_ffff_ffff_ffffint / 86_400,
            ;
        }
        Some(Timestamp { secs: m as i64, nanos: 0 })
    }
}

/// The number written by decimal digit characters, most significant first.
pub open spec fn digits_value(s: Seq<char>) -> int
    decreases s.len(),
{
    if s.len() == 0 {
        0
    } else {
        digits_value(s.drop_last()) * 10 + (s.last() as u32 - 0x30)
    }
}

proof fn lemma_digit_char_value(k: nat)
    requires
        k < 10,
    ensures
        digit_char(k) as u32 == 0x30 + k,
{
}

/// Law: `decimal(n)` is a non-empty run of the digits `0`-`9` that writes `n`, with no
/// leading zero (only `0` itself starts with `0`).
pub proof fn lemma_decimal_digits(n: nat)
    ensures
        decimal(n).len() >= 1,
        forall|i: int| 0 <= i < decimal(n).len() ==> 0x30 <= (#[trigger] decimal(n)[i] as u32) <= 0x39,
        digits_value(decimal(n)) == n,
        decimal(n)[0] == '0' ==> n == 0,
    decreases n,
{
    if n < 10 {
        lemma_digit_char_value(n);
        assert(decimal(n).drop_last() =~= Seq::<char>::empty());
        assert(digits_value(decimal(n).drop_last()) == 0);
        assert(decimal(n).last() == digit_char(n));
        assert(digits_value(decimal(n)) == digits_value(decimal(n).drop_last()) * 10 + (
        decimal(n).last() as u32 - 0x30));
    } else {
        lemma_decimal_digits(n / 10);
        lemma_digit_char_value(n % 10);
        vstd::arithmetic::div_mod::lemma_fundamental_div_mod(n as int, 10);
        let d = decimal(n / 10);
        assert(decimal(n).drop_last() =~= d);
        assert(decimal(n)[0] == d[0]);
        assert(decimal(n).last() == digit_char(n % 10));
        assert(digits_value(decimal(n)) == digits_value(decimal(n).drop_last()) * 10 + (
        decimal(n).last() as u32 - 0x30));
        assert(digits_value(decimal(n)) == (n / 10) * 10 + n % 10);
        assert forall|i: int| 0 <= i < decimal(n).len() implies 0x30 <= (#[trigger] decimal(n)[i] as u32) <= 0x39 by {
            if i < d.len() {
                assert(decimal(n)[i] == d[i]);
            }
        }
    }
}

proof fn lemma_div_by_bounds(e: int, d: int, m: int)
    requires
        d > 0,
        m * d <= e < (m + 1) * d,
    ensures
        e / d == m,
{
    vstd::arithmetic::div_mod::lemma_fundamental_div_mod(e, d);
    vstd::arithmetic::div_mod::lemma_mod_bound(e, d);
    let q = e / d;
    let r = e % d;
    assert(q == m) by (nonlinear_arith)
        requires
            d > 0,
            e == d * q + r,
            0 <= r < d,
            m * d <= e < (m + 1) * d,
    ;
}

/// The nanoseconds from `created` to `now`, read off their fields.
pub open spec fn elapsed_nanos(created: Timestamp, now: Timestamp) -> int {
    (now.secs - created.secs) * 1_000_000_000 + now.nanos - created.nanos
}

/// Law: under a whole minute after creation (or before it), the label is `just now`.
pub proof fn lemma_label_just_now(created: Timestamp, now: Timestamp)
    requires
        elapsed_nanos(created, now) < 60_000_000_000,
    ensures
        label_at(created, now) == "just now"@,
{
}

/// Law: `m` whole minutes after creation, under an hour, the label is `m` in decimal
/// followed by `m ago`.
pub proof fn lemma_label_minutes(created: Timestamp, now: Timestamp, m: int)
    requires
        1 <= m < 60,
        m * 60_000_000_000 <= elapsed_nanos(created, now) < (m + 1) * 60_000_000_000,
    ensures
        label_at(created, now) == decimal(m as nat) + "m ago"@,
{
    lemma_div_by_bounds(elapsed_nanos(created, now), 60_000_000_000, m);
}

/// Law: `h` whole hours after creation, under a day, the label is `h` in decimal followed
/// by `h ago`.
pub proof fn lemma_label_hours(created: Timestamp, now: Timestamp, h: int)
    requires
        1 <= h < 24,
        h * 3_600_000_000_000 <= elapsed_nanos(created, now) < (h + 1) * 3_600_000_000_000,
    ensures
        label_at(created, now) == decimal(h as nat) + "h ago"@,
{
    lemma_div_by_bounds(elapsed_nanos(created, now), 3_600_000_000_000, h);
}

/// Law: `days` whole days after creation (at least one), the label is `days` in decimal
/// followed by `d ago`.
pub proof fn lemma_label_days(created: Timestamp, now: Timestamp, days: int)
    requires
        1 <= days,
        days * 86_400_000_000_000 <= elapsed_nanos(created, now) < (days + 1) * 86_400_000_000_000,
    ensures
        label_at(created, now) == decimal(days as nat) + "d ago"@,
{
    lemma_div_by_bounds(elapsed_nanos(created, now), 86_400_000_000_000, days);
}

/// Law: the whole days shown never go down as time goes on: if `now2` is no earlier than
/// `now1`, the day count at `now2` is at least the one at `now1`.
pub proof fn lemma_day_count_monotone(
    created: Timestamp,
    now1: Timestamp,
    now2: Timestamp,
    d1: int,
    d2: int,
)
    requires
        elapsed_nanos(created, now1) <= elapsed_nanos(created, now2),
        d1 * 86_400_000_000_000 <= elapsed_nanos(created, now1) < (d1 + 1) * 86_400_000_000_000,
        d2 * 86_400_000_000_000 <= elapsed_nanos(created, now2) < (d2 + 1) * 86_400_000_000_000,
    ensures
        d1 <= d2,
{
    let e1 = elapsed_nanos(created, now1);
    let e2 = elapsed_nanos(created, now2);
    assert(d1 <= d2) by (nonlinear_arith)
        requires
            e1 <= e2,
            d1 * 86_400_000_000_000 <= e1,
            e2 < (d2 + 1) * 86_400_000_000_000,
    ;
}

/// Law: the start of a day is a multiple of a day's seconds, at most `secs`, and less
/// than a day before it.
pub proof fn lemma_day_start(secs: int)
    ensures
        day_start_secs(secs) % 86_400 == 0,
        secs - 86_400 < day_start_secs(secs) <= secs,
{
    vstd::arithmetic::div_mod::lemma_fundamental_div_mod(secs, 86_400);
    vstd::arithmetic::div_mod::lemma_mod_bound(secs, 86_400);
    vstd::arithmetic::div_mod::lemma_mod_multiples_basic(secs / 86_400, 86_400);
}

} // verus!
