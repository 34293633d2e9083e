//! Same-origin notification action URL sanitization.
use crate::text::chars_of;
use vstd::prelude::*;

verus! {

/// `p` begins with `prefix`.
pub open spec fn starts_with(p: Seq<char>, prefix: Seq<char>) -> bool {
    prefix.len() <= p.len() && p.subrange(0, prefix.len() as int) == prefix
}

/// An ASCII control character or the space (`<= 0x20`, or DEL `0x7f`).
///
/// On the UTF-8 bytes of a string, the bytes `<= 0x20` and `0x7f` are exactly the
/// encodings of these characters: every byte of a multi-byte encoding is `>= 0x80`.
pub open spec fn is_control_or_space(c: char) -> bool {
    (c as u32) <= 0x20 || (c as u32) == 0x7f
}

/// `p` holds `://` somewhere (an absolute URL smuggled after a leading slash).
pub open spec fn has_scheme_separator(p: Seq<char>) -> bool {
    exists|i: int| 0 <= i && i + 2 < p.len() && #[trigger] p[i] == ':' && p[i + 1] == '/' && p[i + 2] == '/'
}

/// A same-origin absolute path that a notification may link to.
pub open spec fn is_safe_path(p: Seq<char>) -> bool {
    &&& starts_with(p, seq!['/'])
    &&& !starts_with(p, seq!['/', '/'])
    &&& !p.contains('\\')
    &&& forall|i: int| 0 <= i < p.len() ==> !is_control_or_space(#[trigger] p[i])
    &&& !has_scheme_separator(p)
    &&& !starts_with(p, seq!['/', 'a', 'u', 't', 'h', '/'])
    &&& !starts_with(p, seq!['/', 'a', 'p', 'i', '/'])
    &&& p != seq!['/', 'h', 'o', 'm', 'e']
    &&& p != seq!['/', 'h', 'o', 'm', 'e', '/']
}

/// The text of an optional string.
pub open spec fn opt_view(s: Option<String>) -> Option<Seq<char>> {
    match s {
        Some(t) => Some(t@),
        None => None,
    }
}

/// What [`sanitize_notification_url`] keeps of a URL's text.
pub open spec fn sanitized(url: Option<Seq<char>>) -> Option<Seq<char>> {
    match url {
        Some(p) => if is_safe_path(p) {
            Some(p)
        } else {
            None
        },
        None => None,
    }
}

fn has_prefix(v: &Vec<char>, prefix: &[char]) -> (b: bool)
    ensures
        b == starts_with(v@, prefix@),
{
    if prefix.len() > v.len() {
        return false;
    }
    let mut i: usize = 0;
    while i < prefix.len()
        invariant
            prefix@.len() <= v@.len(),
            i <= prefix@.len(),
            forall|k: int| 0 <= k < i ==> v@[k] == prefix@[k],
        decreases prefix.len() - i,
    {
        if v[i] != prefix[i] {
            return false;
        }
        i = i + 1;
    }
    assert(v@.subrange(0, prefix@.len() as int) =~= prefix@);
    true
}

fn equals_chars(v: &Vec<char>, other: &[char]) -> (b: bool)
    ensures
        b == (v@ == other@),
{
    if v.len() != other.len() {
        return false;
    }
    let r = has_prefix(v, other);
    assert(v@ =~= v@.subrange(0, other@.len() as int));
    r
}

/// True when `path` is a same-origin absolute path suitable for notification navigation.
///
/// Protocol-relative paths (`//…`), backslashes, ASCII controls and spaces, smuggled
/// absolute URLs (`/https://…`), `/auth/` and `/api/` endpoints, and the `/home` loop
/// are rejected.
pub fn is_safe_notification_path(path: &str) -> (b: bool)
    ensures
        b == is_safe_path(path@),
{
    let v = chars_of(path);
    let n = v.len();
    assert(['/']@ == seq!['/']);
    if !has_prefix(&v, &['/']) || has_prefix(&v, &['/', '/']) {
        return false;
    }
    let mut i: usize = 0;
    while i < n
        invariant
            v@ == path@,
            n == v@.len(),
            i <= n,
            forall|k: int| 0 <= k < i ==> v@[k] != '\\' && !is_control_or_space(#[trigger] v@[k]),
        decreases n - i,
    {
        let c = v[i];
        if c == '\\' {
            assert(v@.contains('\\')) by {
                assert(v@[i as int] == '\\');
            }
            return false;
        }
        if (c as u32) <= 0x20 || (c as u32) == 0x7f {
            return false;
        }
        i = i + 1;
    }
    let mut j: usize = 0;
    while j < n && n - j > 2
        invariant
            v@ == path@,
            n == v@.len(),
            forall|k: int|
                0 <= k < j && k + 2 < n ==> !(#[trigger] v@[k] == ':' && v@[k + 1] == '/' && v@[k
                    + 2] == '/'),
        decreases n - j,
    {
        assert(j + 2 < n);
        if v[j] == ':' && v[j + 1] == '/' && v[j + 2] == '/' {
            assert(has_scheme_separator(v@)) by {
                assert(v@[j as int] == ':');
            }
            return false;
        }
        j = j + 1;
    }
    if has_prefix(&v, &['/', 'a', 'u', 't', 'h', '/']) || has_prefix(&v, &['/', 'a', 'p', 'i', '/']) {
        return false;
    }
    if equals_chars(&v, &['/', 'h', 'o', 'm', 'e']) || equals_chars(&v, &['/', 'h', 'o', 'm', 'e', '/']) {
        return false;
    }
    true
}

/// Keep a notification action URL only when it is a safe same-origin path
/// (see [`is_safe_notification_path`]); anything else becomes `None`, and the caller
/// falls back to the inbox.
pub fn sanitize_notification_url(url: Option<String>) -> (r: Option<String>)
    ensures
        r == (match url {
            Some(p) => if is_safe_path(p@) {
                Some(p)
            } else {
                None
            },
            None => None,
        }),
        opt_view(r) == sanitized(opt_view(url)),
{
    match url {
        Some(p) => {
            if is_safe_notification_path(p.as_str()) {
                Some(p)
            } else {
                None
            }
        },
        None => None,
    }
}

/// Law: sanitizing is idempotent, and whatever it keeps is a safe path.
pub proof fn lemma_sanitize_idempotent(url: Option<Seq<char>>)
    ensures
        sanitized(sanitized(url)) == sanitized(url),
        sanitized(url) matches Some(p) ==> is_safe_path(p),
{
}

proof fn lemma_starts_with_chars(p: Seq<char>, prefix: Seq<char>)
    ensures
        starts_with(p, prefix) <==> (prefix.len() <= p.len() && forall|j: int|
            0 <= j < prefix.len() ==> #[trigger] p[j] == prefix[j]),
{
    if prefix.len() <= p.len() {
        if forall|j: int| 0 <= j < prefix.len() ==> #[trigger] p[j] == prefix[j] {
            assert(p.subrange(0, prefix.len() as int) =~= prefix);
        }
        if starts_with(p, prefix) {
            assert forall|j: int| 0 <= j < prefix.len() implies #[trigger] p[j] == prefix[j] by {
                assert(p.subrange(0, prefix.len() as int)[j] == p[j]);
            }
        }
    }
}

/// Law: the sanitizer keeps a link unchanged exactly when it is a path that starts with
/// one `/` (not `//`), holds no backslash, no character at or below the space and no DEL,
/// no `://`, is not under `/auth/` or `/api/`, and is neither `/home` nor `/home/`; every
/// other link is dropped.
pub proof fn lemma_sanitize_keeps_exactly(p: Seq<char>)
    ensures
        sanitized(Some(p)) == Some(p) || sanitized(Some(p)) is None,
        sanitized(Some(p)) == Some(p) <==> {
            &&& p.len() >= 1 && p[0] == '/'
            &&& !(p.len() >= 2 && p[1] == '/')
            &&& forall|i: int|
                0 <= i < p.len() ==> #[trigger] p[i] != '\\' && (p[i] as u32) > 0x20 && (p[i] as u32)
                    != 0x7f
            &&& forall|i: int|
                0 <= i && i + 2 < p.len() ==> !(#[trigger] p[i] == ':' && p[i + 1] == '/' && p[i + 2]
                    == '/')
            &&& !(p.len() >= 6 && p[1] == 'a' && p[2] == 'u' && p[3] == 't' && p[4] == 'h' && p[5]
                == '/')
            &&& !(p.len() >= 5 && p[1] == 'a' && p[2] == 'p' && p[3] == 'i' && p[4] == '/')
            &&& !(p.len() == 5 && p[1] == 'h' && p[2] == 'o' && p[3] == 'm' && p[4] == 'e')
            &&& !(p.len() == 6 && p[1] == 'h' && p[2] == 'o' && p[3] == 'm' && p[4] == 'e' && p[5]
                == '/')
        },
{
    lemma_starts_with_chars(p, seq!['/']);
    lemma_starts_with_chars(p, seq!['/', '/']);
    lemma_starts_with_chars(p, seq!['/', 'a', 'u', 't', 'h', '/']);
    lemma_starts_with_chars(p, seq!['/', 'a', 'p', 'i', '/']);
    let home = seq!['/', 'h', 'o', 'm', 'e'];
    let home_slash = seq!['/', 'h', 'o', 'm', 'e', '/'];
    if p.len() == 5 && p[0] == '/' && p[1] == 'h' && p[2] == 'o' && p[3] == 'm' && p[4] == 'e' {
        assert(p =~= home);
    }
    if p.len() == 6 && p[0] == '/' && p[1] == 'h' && p[2] == 'o' && p[3] == 'm' && p[4] == 'e' && p[5]
        == '/' {
        assert(p =~= home_slash);
    }
    if p == home {
        assert(p[1] == 'h' && p[2] == 'o' && p[3] == 'm' && p[4] == 'e');
    }
    if p == home_slash {
        assert(p[1] == 'h' && p[2] == 'o' && p[3] == 'm' && p[4] == 'e' && p[5] == '/');
    }
    assert(p.contains('\\') <==> exists|i: int| 0 <= i < p.len() && p[i] == '\\');
}

} // verus!
