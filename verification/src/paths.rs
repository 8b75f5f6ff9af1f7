//! File system paths as text, joined the way POSIX paths are.

use vstd::prelude::*;

verus! {

/// `base` extended by `seg` (what `Path::join` gives on POSIX systems): an
/// absolute `seg` replaces `base`; otherwise a `/` separates the two unless
/// `base` is empty or already ends with one.
pub open spec fn join_path(base: Seq<char>, seg: Seq<char>) -> Seq<char> {
    if seg.len() > 0 && seg[0] == '/' {
        seg
    } else if base.len() == 0 || base.last() == '/' {
        base + seg
    } else {
        base + seq!['/'] + seg
    }
}

/// The home directory when there is one, else the current directory `.`.
pub open spec fn home_or_current(home: Option<Seq<char>>) -> Seq<char> {
    match home {
        Some(h) => h,
        None => "."@,
    }
}

/// The view of an optional string slice.
pub open spec fn opt_view(s: Option<&str>) -> Option<Seq<char>> {
    match s {
        Some(t) => Some(t@),
        None => None,
    }
}

/// `base` joined with `seg`.
pub fn join(base: &str, seg: &str) -> (r: String)
    ensures
        r@ == join_path(base@, seg@),
{
    let b = crate::text::chars_of(base);
    let s = crate::text::chars_of(seg);
    if s.len() > 0 && s[0] == '/' {
        return String::from_str(seg);
    }
    let mut r = String::from_str(base);
    if b.len() > 0 && b[b.len() - 1] != '/' {
        crate::text::push_char(&mut r, '/');
    }
    r.append(seg);
    r
}

/// The home directory when there is one, else `.`.
pub fn home_or_dot(home: Option<&str>) -> (r: String)
    ensures
        r@ == home_or_current(opt_view(home)),
{
    match home {
        Some(h) => String::from_str(h),
        None => String::from_str("."),
    }
}

} // verus!
