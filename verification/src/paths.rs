//! Helpers over `/`-separated entry paths and database file names.
//!
//! Archive entry paths use `/` as their separator.  The file name is the
//! segment after the last `/` (the whole path when there is none); the
//! parent directory name is the segment between the last two `/` (or before
//! the only one).  A database file name splits at its last `.` into stem and
//! extension, a leading `.` alone starting no extension.

use crate::strutil::{rfind_char, scan_char_rev, str_eq};
use vstd::prelude::*;

verus! {

/// The segment of a path after its last `/`; the whole path if it has none.
pub open spec fn spec_file_name(p: Seq<char>) -> Seq<char> {
    let k = rfind_char(p, '/', p.len() as int);
    p.subrange(k + 1, p.len() as int)
}

/// The directory segment just above the file name: between the last two
/// `/`, or before the only one; `None` for a path without `/`.
pub open spec fn spec_parent_name(p: Seq<char>) -> Option<Seq<char>> {
    let k = rfind_char(p, '/', p.len() as int);
    if k < 0 {
        None
    } else {
        let j = rfind_char(p, '/', k);
        Some(p.subrange(j + 1, k))
    }
}

/// The stem of a file name: everything before the last `.`, except that a
/// `.` in first position starts no extension; `None` for an empty name.
pub open spec fn spec_file_stem(s: Seq<char>) -> Option<Seq<char>> {
    if s.len() == 0 {
        None
    } else {
        let k = rfind_char(s, '.', s.len() as int);
        if k <= 0 {
            Some(s)
        } else {
            Some(s.subrange(0, k))
        }
    }
}

/// The extension of a file name: everything after the last `.`, except that
/// a `.` in first position starts no extension.
pub open spec fn spec_extension(s: Seq<char>) -> Option<Seq<char>> {
    let k = rfind_char(s, '.', s.len() as int);
    if k <= 0 {
        None
    } else {
        Some(s.subrange(k + 1, s.len() as int))
    }
}

/// The file-name segment of a `/`-separated path.
pub fn path_file_name(p: &str) -> (r: &str)
    ensures
        r@ == spec_file_name(p@),
{
    let n = p.unicode_len();
    match scan_char_rev(p, '/', n) {
        Some(k) => p.substring_char(k + 1, n),
        None => {
            proof {
                assert(p@.subrange(0, n as int) =~= p@);
            }
            p
        },
    }
}

/// The parent-directory segment of a `/`-separated path.
pub fn path_parent_name(p: &str) -> (r: Option<&str>)
    ensures
        match r {
            Some(d) => spec_parent_name(p@) == Some(d@),
            None => spec_parent_name(p@) is None,
        },
{
    let n = p.unicode_len();
    let k = match scan_char_rev(p, '/', n) {
        Some(k) => k,
        None => {
            return None;
        },
    };
    match scan_char_rev(p, '/', k) {
        Some(j) => Some(p.substring_char(j + 1, k)),
        None => Some(p.substring_char(0, k)),
    }
}

/// The stem of a database file name.
pub fn file_stem(s: &str) -> (r: Option<&str>)
    ensures
        match r {
            Some(st) => spec_file_stem(s@) == Some(st@),
            None => spec_file_stem(s@) is None,
        },
{
    let n = s.unicode_len();
    if n == 0 {
        return None;
    }
    match scan_char_rev(s, '.', n) {
        Some(k) if k > 0 => Some(s.substring_char(0, k)),
        _ => {
            proof {
                assert(s@.subrange(0, n as int) =~= s@);
            }
            Some(s)
        },
    }
}

/// Whether a database file name carries the extension `ext`.
pub fn has_extension(s: &str, ext: &str) -> (r: bool)
    ensures
        r == (spec_extension(s@) == Some(ext@)),
{
    let n = s.unicode_len();
    match scan_char_rev(s, '.', n) {
        Some(k) if k > 0 => str_eq(s.substring_char(k + 1, n), ext),
        _ => false,
    }
}

} // verus!
