//! A string model of filesystem paths.
//!
//! Paths travel through the library as plain strings. Joining follows the
//! platform rule for pushing one path onto another: an absolute right-hand
//! side replaces the left-hand side entirely, otherwise the two are glued
//! with a single separator, and an empty left-hand side is replaced as
//! well. Pushing an empty string onto a path therefore only appends a
//! trailing separator.

use vstd::prelude::*;

verus! {

/// True when the path names an absolute location.
pub open spec fn is_absolute_path(p: Seq<char>) -> bool {
    p.len() > 0 && p[0] == '/'
}

/// The result of pushing `p` onto `base`: `p` itself when `p` is absolute
/// or `base` is empty, otherwise `base` and `p` glued with exactly one
/// separator between them.
pub open spec fn path_concat(base: Seq<char>, p: Seq<char>) -> Seq<char> {
    if is_absolute_path(p) {
        p
    } else if base.len() == 0 {
        p
    } else if base.last() == '/' {
        base + p
    } else {
        base + "/"@ + p
    }
}

/// Joins `p` onto `base`, following `path_concat`.
pub fn path_join(base: &str, p: &str) -> (r: String)
    ensures
        r@ == path_concat(base@, p@),
{
    let base_len = base.unicode_len();
    let p_len = p.unicode_len();
    if p_len > 0 && p.get_char(0) == '/' {
        String::from_str(p)
    } else if base_len == 0 {
        String::from_str(p)
    } else if base.get_char(base_len - 1) == '/' {
        let mut r = String::from_str(base);
        r.append(p);
        r
    } else {
        let mut r = String::from_str(base);
        r.append("/");
        r.append(p);
        proof {
            assert(r@ =~= base@ + "/"@ + p@);
        }
        r
    }
}

} // verus!
