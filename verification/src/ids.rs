//! Notification ids (UUIDs held as `u128`) and record ids rendered as `table:key`.
use crate::text::{chars_of, in_class, trim_bounds, trim_class, TrimClass};
use vstd::arithmetic::power2::pow2;
use vstd::prelude::*;
use vstd::string::*;

verus! {

/// The nil UUID, used when a record id does not hold a UUID.
pub const NIL_UUID: u128 = 0;

/// The lowercase hexadecimal character of a digit `d < 16`.
pub open spec fn hex_digit_char(d: int) -> char {
    if d == 0 {
        '0'
    } else if d == 1 {
        '1'
    } else if d == 2 {
        '2'
    } else if d == 3 {
        '3'
    } else if d == 4 {
        '4'
    } else if d == 5 {
        '5'
    } else if d == 6 {
        '6'
    } else if d == 7 {
        '7'
    } else if d == 8 {
        '8'
    } else if d == 9 {
        '9'
    } else if d == 10 {
        'a'
    } else if d == 11 {
        'b'
    } else if d == 12 {
        'c'
    } else if d == 13 {
        'd'
    } else if d == 14 {
        'e'
    } else {
        'f'
    }
}

/// Hex digit `k` (`0..32`, most significant first) of `u`.
pub open spec fn uuid_nibble(u: u128, k: int) -> int {
    (u as int / pow2((4 * (31 - k)) as nat) as int) % 16
}

/// The 32 lowercase hex digits of `u`, most significant first.
pub open spec fn uuid_simple(u: u128) -> Seq<char> {
    Seq::new(32, |k: int| hex_digit_char(uuid_nibble(u, k)))
}

/// The hyphenated text of a UUID: its hex digits in groups of 8-4-4-4-12, joined by `-`.
pub open spec fn uuid_hyphenated(u: u128) -> Seq<char> {
    let h = uuid_simple(u);
    h.subrange(0, 8) + seq!['-'] + h.subrange(8, 12) + seq!['-'] + h.subrange(12, 16) + seq!['-']
        + h.subrange(16, 20) + seq!['-'] + h.subrange(20, 32)
}

/// The value of a hexadecimal digit, either case.
pub open spec fn hex_value(c: char) -> Option<int> {
    let v = c as u32;
    if 0x30 <= v <= 0x39 {
        Some(v - 0x30)
    } else if 0x61 <= v <= 0x66 {
        Some(v - 0x61 + 10)
    } else if 0x41 <= v <= 0x46 {
        Some(v - 0x41 + 10)
    } else {
        None
    }
}

/// The number written by hexadecimal digits, most significant first; `None` when one
/// of them is not a hex digit.
pub open spec fn hex_digits_value(h: Seq<char>) -> Option<int>
    decreases h.len(),
{
    if h.len() == 0 {
        Some(0)
    } else {
        match (hex_digits_value(h.drop_last()), hex_value(h.last())) {
            (Some(a), Some(d)) => Some(a * 16 + d),
            _ => None,
        }
    }
}

/// The 32 digits of a hyphenated (8-4-4-4-12) text, when the hyphens are in place.
pub open spec fn hyphenated_digits(s: Seq<char>) -> Option<Seq<char>> {
    if s.len() == 36 && s[8] == '-' && s[13] == '-' && s[18] == '-' && s[23] == '-' {
        Some(
            s.subrange(0, 8) + s.subrange(9, 13) + s.subrange(14, 18) + s.subrange(19, 23)
                + s.subrange(24, 36),
        )
    } else {
        None
    }
}

/// `c` in ASCII lowercase.
pub open spec fn ascii_lower(c: char) -> char {
    if 'A' <= c <= 'Z' {
        ((c as u32) + 32) as char
    } else {
        c
    }
}

/// `p` is `urn:uuid:`, ignoring ASCII case.
pub open spec fn is_urn_prefix(p: Seq<char>) -> bool {
    p.len() == 9 && p.map_values(|c: char| ascii_lower(c)) == seq!['u', 'r', 'n', ':', 'u', 'u', 'i', 'd', ':']
}

/// What `uuid::Uuid::parse_str` gives for a text, as a `u128`: 32 hex digits, or a
/// hyphenated UUID bare, between braces or after `urn:uuid:` (any ASCII case); `None`
/// for anything else. A text that is not all ASCII never parses (its non-ASCII bytes are
/// never hex digits, braces, hyphens or prefix letters).
pub open spec fn uuid_parse(s: Seq<char>) -> Option<u128> {
    let digits = if exists|i: int| 0 <= i < s.len() && (#[trigger] s[i] as u32) >= 0x80 {
        None
    } else if s.len() == 32 {
        Some(s)
    } else if s.len() == 36 {
        hyphenated_digits(s)
    } else if s.len() == 38 && s[0] == '{' && s[37] == '}' {
        hyphenated_digits(s.subrange(1, 37))
    } else if s.len() == 45 && is_urn_prefix(s.take(9)) {
        hyphenated_digits(s.skip(9))
    } else {
        None
    };
    match digits {
        Some(h) => match hex_digits_value(h) {
            Some(v) => Some(v as u128),
            None => None,
        },
        None => None,
    }
}

/// A version-4 UUID: version digit `4`, and the RFC 4122 variant (top two bits of
/// digit 16 are `10`).
pub open spec fn is_uuid_v4(u: u128) -> bool {
    (u >> 76u128) & 0xf == 4 && (u >> 62u128) & 0x3 == 2
}

/// A fresh random (version 4) UUID.
///
/// Calls `uuid::Uuid::new_v4` and reads it with `as_u128`. The source masks random
/// bits with `0xFFFFFFFFFFFF4FFFBFFFFFFFFFFFFFFF` and ors in `0x40008000000000000000`,
/// so the version digit is `4` and the variant bits are `10`; the other bits are
/// random and not stated. It panics when the system random source fails (the
/// environment, not an argument, decides that).
#[verifier::external_body]
pub(crate) fn new_uuid_v4() -> (r: u128)
    ensures
        is_uuid_v4(r),
{
    uuid::Uuid::new_v4().as_u128()
}

/// The hyphenated text of `u`.
///
/// Calls `Display` of `uuid::Uuid::from_u128(u)` through `to_string`, which writes the
/// lowercase hyphenated form of the big-endian digits.
#[verifier::external_body]
pub(crate) fn uuid_to_string(u: u128) -> (r: String)
    ensures
        r@ == uuid_hyphenated(u),
{
    uuid::Uuid::from_u128(u).to_string()
}

/// Parse a UUID's text.
///
/// Calls `uuid::Uuid::parse_str` and reads the result (big-endian) with `as_u128`; the
/// accepted shapes and the value are [`uuid_parse`].
#[verifier::external_body]
pub(crate) fn parse_uuid(s: &str) -> (r: Option<u128>)
    ensures
        r == uuid_parse(s@),
{
    match uuid::Uuid::parse_str(s) {
        Ok(u) => Some(u.as_u128()),
        Err(_) => None,
    }
}

/// The record key a notification is stored under: its id's hyphenated text.
pub fn notification_record_key(id: u128) -> (r: String)
    ensures
        r@ == uuid_hyphenated(id),
        uuid_parse(r@) == Some(id),
{
    let r = uuid_to_string(id);
    proof {
        lemma_uuid_round_trip(id);
    }
    r
}

/// Index of the last `c` in `s` before `j` (`-1` if none).
pub open spec fn last_index_before(s: Seq<char>, c: char, j: int) -> int
    decreases j,
{
    if j <= 0 {
        -1
    } else if s[j - 1] == c {
        j - 1
    } else {
        last_index_before(s, c, j - 1)
    }
}

proof fn lemma_last_index_before(s: Seq<char>, c: char, j: int)
    requires
        0 <= j <= s.len(),
    ensures
        -1 <= last_index_before(s, c, j) < j,
        forall|k: int| last_index_before(s, c, j) < k < j ==> #[trigger] s[k] != c,
        last_index_before(s, c, j) >= 0 ==> s[last_index_before(s, c, j)] == c,
    decreases j,
{
    if j > 0 && s[j - 1] != c {
        lemma_last_index_before(s, c, j - 1);
    }
}

/// The key of a rendered record id: the text after its last `:` (all of it when there
/// is none), with the angle brackets that escape a key removed from both ends.
pub open spec fn record_key(s: Seq<char>) -> Seq<char> {
    trim_class(s.skip(last_index_before(s, ':', s.len() as int) + 1), TrimClass::AngleBracket)
}

/// The key of a rendered record id (`notification:⟨key⟩` or `notification:key` gives `key`).
pub fn record_key_str(record_id: &str) -> (r: &str)
    ensures
        r@ == record_key(record_id@),
{
    let v = chars_of(record_id);
    let n = v.len();
    let mut j: usize = n;
    while j > 0 && v[j - 1] != ':'
        invariant
            j <= n == v@.len(),
            last_index_before(v@, ':', n as int) == last_index_before(v@, ':', j as int),
        decreases j,
    {
        j = j - 1;
    }
    proof {
        lemma_last_index_before(v@, ':', j as int);
    }
    let tail = record_id.substring_char(j, n);
    let t = chars_of(tail);
    let (lo, hi) = trim_bounds(&t, TrimClass::AngleBracket);
    proof {
        assert(tail@ =~= record_id@.skip(last_index_before(record_id@, ':', n as int) + 1));
    }
    tail.substring_char(lo, hi)
}

/// The notification id held by a record id: the UUID its key parses to, or the nil
/// UUID when the record has no id or its key is not a UUID.
pub open spec fn record_uuid(record_id: Option<Seq<char>>) -> u128 {
    match record_id {
        Some(s) => match uuid_parse(record_key(s)) {
            Some(u) => u,
            None => NIL_UUID,
        },
        None => NIL_UUID,
    }
}

/// The UUID a record id's key parses to, or the nil UUID when there is none.
pub fn notification_id_from_record(record_id: Option<&str>) -> (r: u128)
    ensures
        r == record_uuid(
            match record_id {
                Some(s) => Some(s@),
                None => None,
            },
        ),
{
    match record_id {
        Some(s) => {
            let key = record_key_str(s);
            match parse_uuid(key) {
                Some(u) => u,
                None => NIL_UUID,
            }
        },
        None => NIL_UUID,
    }
}

proof fn lemma_hex_digit_char(d: int)
    ensures
        hex_digit_char(d) != ':',
        hex_digit_char(d) != '-',
        !in_class(hex_digit_char(d), TrimClass::AngleBracket),
{
}

/// No character of a UUID's hyphenated text is a `:` or an angle bracket, and it
/// starts and ends with a hex digit.
pub proof fn lemma_uuid_text_chars(u: u128)
    ensures
        uuid_hyphenated(u).len() == 36,
        !uuid_hyphenated(u).contains(':'),
        forall|k: int|
            0 <= k < 36 ==> !in_class(#[trigger] uuid_hyphenated(u)[k], TrimClass::AngleBracket),
{
    let t = uuid_hyphenated(u);
    let h = uuid_simple(u);
    assert forall|k: int| 0 <= k < 36 implies #[trigger] t[k] != ':' && !in_class(
        t[k],
        TrimClass::AngleBracket,
    ) by {
        if k == 8 || k == 13 || k == 18 || k == 23 {
        } else {
            let hk = if k < 8 {
                k
            } else if k < 13 {
                k - 1
            } else if k < 18 {
                k - 2
            } else if k < 23 {
                k - 3
            } else {
                k - 4
            };
            assert(t[k] == h[hk]);
            lemma_hex_digit_char(uuid_nibble(u, hk));
        }
    }
}

/// The key of a record id whose key is `key`, written bare or between angle brackets.
pub open spec fn rendered_record_id(table: Seq<char>, key: Seq<char>, bracketed: bool) -> Seq<char> {
    if bracketed {
        table + seq![':', '\u{27E8}'] + key + seq!['\u{27E9}']
    } else {
        table + seq![':'] + key
    }
}

/// Law: a record stored under a notification UUID's text gives that text back as its
/// key, whether the key is rendered bare or between angle brackets, whatever the table.
pub proof fn lemma_record_key_of_uuid(table: Seq<char>, u: u128, bracketed: bool)
    ensures
        record_key(rendered_record_id(table, uuid_hyphenated(u), bracketed)) == uuid_hyphenated(u),
{
    lemma_uuid_text_chars(u);
    let key = uuid_hyphenated(u);
    let s = rendered_record_id(table, key, bracketed);
    let c = table.len() as int;
    let n = s.len() as int;
    lemma_last_index_before(s, ':', n);
    let j = last_index_before(s, ':', n);
    assert(s[c] == ':');
    if j > c {
        if bracketed {
            if j == c + 1 {
            } else if j < n - 1 {
                assert(s[j] == key[j - c - 2]);
            }
        } else {
            assert(s[j] == key[j - c - 1]);
        }
    }
    assert(j == c);
    let tail = s.skip(j + 1);
    crate::text::lemma_trim_class_ends(tail, TrimClass::AngleBracket);
    lemma_trim_class_exact(tail, TrimClass::AngleBracket, if bracketed { 1int } else { 0 }, if bracketed { tail.len() - 1 } else { tail.len() as int });
    if bracketed {
        assert(tail.subrange(1, tail.len() - 1) =~= key);
    } else {
        assert(tail.subrange(0, tail.len() as int) =~= key);
    }
}

/// Trimming a class removes exactly a prefix `[0, lo)` and suffix `[hi, len)` of class
/// characters when the characters at `lo` and `hi - 1` are outside the class.
proof fn lemma_trim_class_exact(s: Seq<char>, class: TrimClass, lo: int, hi: int)
    requires
        0 <= lo < hi <= s.len(),
        forall|k: int| 0 <= k < lo ==> in_class(#[trigger] s[k], class),
        forall|k: int| hi <= k < s.len() ==> in_class(#[trigger] s[k], class),
        !in_class(s[lo], class),
        !in_class(s[hi - 1], class),
    ensures
        trim_class(s, class) == s.subrange(lo, hi),
{
    crate::text::lemma_first_outside_exact(s, class, 0, lo);
    crate::text::lemma_last_outside_exact(s, class, s.len() as int, hi);
}

proof fn lemma_hex_value_of_digit(d: int)
    requires
        0 <= d < 16,
    ensures
        hex_value(hex_digit_char(d)) == Some(d),
        (hex_digit_char(d) as u32) < 0x80,
{
}

proof fn lemma_nibble_bounds(u: u128, k: int)
    requires
        0 <= k < 32,
    ensures
        0 <= uuid_nibble(u, k) < 16,
{
    vstd::arithmetic::power2::lemma_pow2_pos((4 * (31 - k)) as nat);
    vstd::arithmetic::div_mod::lemma_mod_bound(u as int / pow2((4 * (31 - k)) as nat) as int, 16);
}

/// The first `k` digits of `u` write `u` shifted right by the remaining `32 - k` digits.
proof fn lemma_simple_prefix_value(u: u128, k: int)
    requires
        0 <= k <= 32,
    ensures
        hex_digits_value(uuid_simple(u).take(k)) == Some(u as int / pow2((4 * (32 - k)) as nat) as int),
    decreases k,
{
    let h = uuid_simple(u);
    vstd::arithmetic::power2::lemma_pow2_pos((4 * (32 - k)) as nat);
    if k == 0 {
        assert(h.take(0) =~= Seq::<char>::empty());
        vstd::arithmetic::power2::lemma_pow2_strictly_increases(127, 128);
        vstd::arithmetic::power2::lemma2_to64();
        vstd::arithmetic::power2::lemma_pow2_adds(64, 64);
        vstd::arithmetic::power2::lemma_pow2_adds(64, 63);
        assert(pow2(64) == 0x1_0000_0000_0000_0000);
        assert(pow2(128) == 0x1_0000_0000_0000_0000 * 0x1_0000_0000_0000_0000);
        vstd::arithmetic::div_mod::lemma_basic_div(u as int, pow2(128) as int);
    } else {
        lemma_simple_prefix_value(u, k - 1);
        let t = h.take(k);
        assert(t.drop_last() =~= h.take(k - 1));
        let e = (4 * (32 - k)) as nat;
        let q = u as int / pow2(e) as int;
        assert(e == (4 * (31 - (k - 1))) as nat);
        lemma_nibble_bounds(u, k - 1);
        lemma_hex_value_of_digit(uuid_nibble(u, k - 1));
        assert(t.last() == hex_digit_char(uuid_nibble(u, k - 1)));
        vstd::arithmetic::power2::lemma_pow2_pos(e);
        vstd::arithmetic::power2::lemma_pow2_adds(e, 4);
        assert(pow2(4) == 16) by {
            vstd::arithmetic::power2::lemma2_to64();
        }
        assert((4 * (32 - (k - 1))) as nat == e + 4);
        vstd::arithmetic::div_mod::lemma_div_denominator(u as int, pow2(e) as int, 16);
        assert(pow2(e + 4) == pow2(e) * 16);
        assert(u as int / pow2((4 * (32 - (k - 1))) as nat) as int == q / 16);
        vstd::arithmetic::div_mod::lemma_fundamental_div_mod(q, 16);
        assert(uuid_nibble(u, k - 1) == q % 16);
        assert((q / 16) * 16 + q % 16 == q);
    }
}

/// Law: the hyphenated text of a UUID parses back to the same UUID.
pub proof fn lemma_uuid_round_trip(u: u128)
    ensures
        uuid_parse(uuid_hyphenated(u)) == Some(u),
{
    let s = uuid_hyphenated(u);
    let h = uuid_simple(u);
    lemma_uuid_text_chars(u);
    assert forall|i: int| 0 <= i < s.len() implies (#[trigger] s[i] as u32) < 0x80 by {
        if i == 8 || i == 13 || i == 18 || i == 23 {
        } else {
            let hk = if i < 8 {
                i
            } else if i < 13 {
                i - 1
            } else if i < 18 {
                i - 2
            } else if i < 23 {
                i - 3
            } else {
                i - 4
            };
            assert(s[i] == h[hk]);
            lemma_nibble_bounds(u, hk);
            lemma_hex_value_of_digit(uuid_nibble(u, hk));
        }
    }
    assert(s[8] == '-' && s[13] == '-' && s[18] == '-' && s[23] == '-');
    assert(hyphenated_digits(s) == Some(h)) by {
        assert(s.subrange(0, 8) + s.subrange(9, 13) + s.subrange(14, 18) + s.subrange(19, 23)
            + s.subrange(24, 36) =~= h);
    }
    lemma_simple_prefix_value(u, 32);
    assert(h.take(32) =~= h);
    assert(pow2(0) == 1) by {
        vstd::arithmetic::power2::lemma2_to64();
    }
    assert((4 * (32 - 32int)) as nat == 0nat);
    vstd::arithmetic::div_mod::lemma_div_basics(u as int);
    assert(u as int / pow2(0) as int == u as int);
    assert(hex_digits_value(h) == Some(u as int));
    assert(!(exists|i: int| 0 <= i < s.len() && (#[trigger] s[i] as u32) >= 0x80));
}

/// Law: a version-4 UUID is never the nil UUID.
pub proof fn lemma_uuid_v4_not_nil(u: u128)
    requires
        is_uuid_v4(u),
    ensures
        u != NIL_UUID,
{
    assert((u >> 76u128) & 0xf == 4 ==> u != 0) by (bit_vector);
}

} // verus!
