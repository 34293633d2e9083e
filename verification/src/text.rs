//! Character-level helpers over `&str` / `String`, stated over `Seq<char>` views.
use vstd::prelude::*;
use vstd::string::*;

verus! {

broadcast use vstd::string::group_string_axioms;

/// Characters with the Unicode `White_Space` property (the set `char::is_whitespace`
/// and `str::trim` use).
pub open spec fn is_white_space(c: char) -> bool {
    let v = c as u32;
    ||| 0x9 <= v <= 0xD
    ||| v == 0x20
    ||| v == 0x85
    ||| v == 0xA0
    ||| v == 0x1680
    ||| 0x2000 <= v <= 0x200A
    ||| v == 0x2028
    ||| v == 0x2029
    ||| v == 0x202F
    ||| v == 0x205F
    ||| v == 0x3000
}

/// The mathematical angle brackets that wrap escaped record keys (`⟨`, `⟩`).
pub open spec fn is_angle_bracket(c: char) -> bool {
    c == '\u{27E8}' || c == '\u{27E9}'
}

/// A class of characters that can be trimmed from both ends of a string.
#[derive(Clone, Copy, Debug, PartialEq, Eq, Structural)]
pub enum TrimClass {
    WhiteSpace,
    AngleBracket,
}

pub open spec fn in_class(c: char, class: TrimClass) -> bool {
    match class {
        TrimClass::WhiteSpace => is_white_space(c),
        TrimClass::AngleBracket => is_angle_bracket(c),
    }
}

/// `c` has the Unicode `White_Space` property.
pub fn char_is_white_space(c: char) -> (b: bool)
    ensures
        b == is_white_space(c),
{
    let v = c as u32;
    (0x9 <= v && v <= 0xD) || v == 0x20 || v == 0x85 || v == 0xA0 || v == 0x1680 || (0x2000 <= v
        && v <= 0x200A) || v == 0x2028 || v == 0x2029 || v == 0x202F || v == 0x205F || v == 0x3000
}

fn char_in_class(c: char, class: TrimClass) -> (b: bool)
    ensures
        b == in_class(c, class),
{
    match class {
        TrimClass::WhiteSpace => char_is_white_space(c),
        TrimClass::AngleBracket => c == '\u{27E8}' || c == '\u{27E9}',
    }
}

/// Index of the first character at or after `i` that is not in `class` (`s.len()` if none).
pub open spec fn first_outside(s: Seq<char>, class: TrimClass, i: int) -> int
    decreases s.len() - i,
{
    if i >= s.len() {
        s.len() as int
    } else if !in_class(s[i], class) {
        i
    } else {
        first_outside(s, class, i + 1)
    }
}

/// One past the index of the last character before `j` that is not in `class` (`0` if none).
pub open spec fn last_outside_end(s: Seq<char>, class: TrimClass, j: int) -> int
    decreases j,
{
    if j <= 0 {
        0
    } else if !in_class(s[j - 1], class) {
        j
    } else {
        last_outside_end(s, class, j - 1)
    }
}

/// `s` with every leading and trailing character of `class` removed.
pub open spec fn trim_class(s: Seq<char>, class: TrimClass) -> Seq<char> {
    let lo = first_outside(s, class, 0);
    let hi = last_outside_end(s, class, s.len() as int);
    if lo < hi {
        s.subrange(lo, hi)
    } else {
        Seq::empty()
    }
}

/// `str::trim`: leading and trailing `White_Space` removed.
pub open spec fn trim_spec(s: Seq<char>) -> Seq<char> {
    trim_class(s, TrimClass::WhiteSpace)
}

/// At most the first `max` characters of `s`.
pub open spec fn take_chars(s: Seq<char>, max: nat) -> Seq<char> {
    if s.len() <= max {
        s
    } else {
        s.take(max as int)
    }
}

pub proof fn lemma_first_outside_bounds(s: Seq<char>, class: TrimClass, i: int)
    requires
        0 <= i <= s.len(),
    ensures
        i <= first_outside(s, class, i) <= s.len(),
        forall|k: int| i <= k < first_outside(s, class, i) ==> in_class(#[trigger] s[k], class),
        first_outside(s, class, i) < s.len() ==> !in_class(s[first_outside(s, class, i)], class),
    decreases s.len() - i,
{
    if i < s.len() && in_class(s[i], class) {
        lemma_first_outside_bounds(s, class, i + 1);
    }
}

pub proof fn lemma_last_outside_bounds(s: Seq<char>, class: TrimClass, j: int)
    requires
        0 <= j <= s.len(),
    ensures
        0 <= last_outside_end(s, class, j) <= j,
        forall|k: int| last_outside_end(s, class, j) <= k < j ==> in_class(#[trigger] s[k], class),
        last_outside_end(s, class, j) > 0 ==> !in_class(
            s[last_outside_end(s, class, j) - 1],
            class,
        ),
    decreases j,
{
    if j > 0 && in_class(s[j - 1], class) {
        lemma_last_outside_bounds(s, class, j - 1);
    }
}

/// Character bounds `(lo, hi)` of `trim_class(v, class)` inside `v`.
pub fn trim_bounds(v: &Vec<char>, class: TrimClass) -> (r: (usize, usize))
    ensures
        r.0 <= r.1 <= v@.len(),
        trim_class(v@, class) == v@.subrange(r.0 as int, r.1 as int),
{
    let n = v.len();
    let mut lo: usize = 0;
    while lo < n && char_in_class(v[lo], class)
        invariant
            lo <= n == v@.len(),
            first_outside(v@, class, 0) == first_outside(v@, class, lo as int),
        decreases n - lo,
    {
        lo = lo + 1;
    }
    let mut hi: usize = n;
    while hi > 0 && char_in_class(v[hi - 1], class)
        invariant
            hi <= n == v@.len(),
            last_outside_end(v@, class, n as int) == last_outside_end(v@, class, hi as int),
        decreases hi,
    {
        hi = hi - 1;
    }
    proof {
        lemma_first_outside_bounds(v@, class, lo as int);
        lemma_last_outside_bounds(v@, class, hi as int);
    }
    if lo < hi {
        (lo, hi)
    } else {
        proof {
            assert(v@.subrange(lo as int, lo as int) =~= Seq::<char>::empty());
        }
        (lo, lo)
    }
}

/// Collects the characters of `s`, in order.
pub fn chars_of(s: &str) -> (v: Vec<char>)
    ensures
        v@ == s@,
{
    let mut v: Vec<char> = Vec::new();
    for c in it: s.chars()
        invariant
            it.seq() == s@,
            v@ == it.seq().take(it.index() as int),
    {
        v.push(c);
    }
    v
}

/// `s` with leading and trailing `White_Space` removed, as `str::trim` does.
pub fn trim_str(s: &str) -> (r: &str)
    ensures
        r@ == trim_spec(s@),
{
    let v = chars_of(s);
    let (lo, hi) = trim_bounds(&v, TrimClass::WhiteSpace);
    s.substring_char(lo, hi)
}

/// Keep at most the first `max` characters of `input`.
pub fn truncate_chars(input: String, max: usize) -> (r: String)
    ensures
        r@ == take_chars(input@, max as nat),
{
    let n = input.as_str().unicode_len();
    if n <= max {
        input
    } else {
        input.as_str().substring_char(0, max).to_owned()
    }
}

/// Law: truncation keeps a prefix of at most `max` characters, and changes nothing
/// when the input already fits.
pub proof fn lemma_take_chars(s: Seq<char>, max: nat)
    ensures
        take_chars(s, max).len() <= max,
        take_chars(s, max).len() == if s.len() <= max { s.len() } else { max },
        take_chars(s, max) =~= s.take(take_chars(s, max).len() as int),
        s.len() <= max ==> take_chars(s, max) == s,
{
}

/// The trimmed text neither starts nor ends with a character of the class.
pub proof fn lemma_trim_class_ends(s: Seq<char>, class: TrimClass)
    ensures
        trim_class(s, class).len() > 0 ==> !in_class(trim_class(s, class)[0], class),
        trim_class(s, class).len() > 0 ==> !in_class(
            trim_class(s, class)[trim_class(s, class).len() - 1],
            class,
        ),
        trim_class(s, class).len() <= s.len(),
{
    lemma_first_outside_bounds(s, class, 0);
    lemma_last_outside_bounds(s, class, s.len() as int);
}

/// Law: `str::trim` leaves no white space at either end.
pub proof fn lemma_trim_ends(s: Seq<char>)
    ensures
        trim_spec(s).len() > 0 ==> !is_white_space(trim_spec(s)[0]),
        trim_spec(s).len() > 0 ==> !is_white_space(trim_spec(s)[trim_spec(s).len() - 1]),
        trim_spec(s).len() <= s.len(),
{
    lemma_trim_class_ends(s, TrimClass::WhiteSpace);
}

/// When every character in `[i, lo)` is in the class and `s[lo]` is not, the first
/// character outside the class from `i` is at `lo`.
pub proof fn lemma_first_outside_exact(s: Seq<char>, class: TrimClass, i: int, lo: int)
    requires
        0 <= i <= lo < s.len(),
        forall|k: int| i <= k < lo ==> in_class(#[trigger] s[k], class),
        !in_class(s[lo], class),
    ensures
        first_outside(s, class, i) == lo,
    decreases lo - i,
{
    if i < lo {
        lemma_first_outside_exact(s, class, i + 1, lo);
    }
}

/// When every character in `[hi, j)` is in the class and `s[hi - 1]` is not, the end of
/// the last character outside the class before `j` is `hi`.
pub proof fn lemma_last_outside_exact(s: Seq<char>, class: TrimClass, j: int, hi: int)
    requires
        0 < hi <= j <= s.len(),
        forall|k: int| hi <= k < j ==> in_class(#[trigger] s[k], class),
        !in_class(s[hi - 1], class),
    ensures
        last_outside_end(s, class, j) == hi,
    decreases j - hi,
{
    if hi < j {
        lemma_last_outside_exact(s, class, j - 1, hi);
    }
}

} // verus!
