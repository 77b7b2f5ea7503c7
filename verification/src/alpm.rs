//! Typed records built from the `desc` tag/value format.
//!
//! A remote-package record needs `NAME`, `CSIZE` and `ISIZE` tags; a
//! locally-installed-package record needs at most `NAME` and `SIZE`, where a
//! missing `SIZE` means an installed size of zero.  Duplicate tags are legal
//! in the format; the last occurrence wins.

use crate::desc::{spec_records, DescIter};
use crate::repo::{Repo, RepoView};
use crate::strutil::{parse_u64, parse_u64_spec, rfind_char, scan_char_rev, str_eq};
use vstd::prelude::*;

verus! {

/// Ghost form of a record-building failure.
pub enum DescErrView {
    /// No `NAME` tag in a remote record.
    MissingName,
    /// No `CSIZE` tag in a remote record.
    MissingCsize,
    /// No `ISIZE` tag in a remote record.
    MissingIsize,
    /// A `CSIZE` value that is not an unsigned 64-bit number.
    BadCsize(Seq<char>),
    /// An `ISIZE` value that is not an unsigned 64-bit number.
    BadIsize(Seq<char>),
    /// A `SIZE` value that is not an unsigned 64-bit number.
    BadSize(Seq<char>),
}

/// A record-building failure: a required tag is absent, or a numeric tag
/// carries a non-numeric value (kept verbatim for reporting).
#[derive(Debug, PartialEq, Eq)]
pub enum DescError {
    MissingName,
    MissingCsize,
    MissingIsize,
    BadCsize(String),
    BadIsize(String),
    BadSize(String),
}

impl View for DescError {
    type V = DescErrView;

    open spec fn view(&self) -> DescErrView {
        match self {
            DescError::MissingName => DescErrView::MissingName,
            DescError::MissingCsize => DescErrView::MissingCsize,
            DescError::MissingIsize => DescErrView::MissingIsize,
            DescError::BadCsize(v) => DescErrView::BadCsize(v@),
            DescError::BadIsize(v) => DescErrView::BadIsize(v@),
            DescError::BadSize(v) => DescErrView::BadSize(v@),
        }
    }
}

/// The package name of a `${name}-${version}-${release}` directory name:
/// everything before the second hyphen from the right, or `None` where the
/// name holds fewer than two hyphens.
pub open spec fn spec_split_pkgname(s: Seq<char>) -> Option<Seq<char>> {
    let p2 = rfind_char(s, '-', s.len() as int);
    if p2 < 0 {
        None
    } else {
        let p1 = rfind_char(s, '-', p2);
        if p1 < 0 {
            None
        } else {
            Some(s.subrange(0, p1))
        }
    }
}

/// Extract the package-name part of a `${name}-${version}-${release}`
/// string; `None` if it holds fewer than two `-` characters.
pub fn split_pkgname(s: &str) -> (r: Option<&str>)
    ensures
        match r {
            Some(name) => spec_split_pkgname(s@) == Some(name@),
            None => spec_split_pkgname(s@) is None,
        },
{
    let n = s.unicode_len();
    let p2 = match scan_char_rev(s, '-', n) {
        Some(k) => k,
        None => {
            return None;
        },
    };
    let p1 = match scan_char_rev(s, '-', p2) {
        Some(k) => k,
        None => {
            return None;
        },
    };
    Some(s.substring_char(0, p1))
}

/// Ghost form of a package record from a sync database.
pub struct SyncPkgView {
    pub name: Seq<char>,
    pub repo: RepoView,
    pub download_size: u64,
    pub install_size: u64,
}

/// A package record from a `desc` file in a sync database.
#[derive(Debug)]
pub struct SyncPkg {
    pub name: String,
    pub repo: Repo,
    pub download_size: u64,
    pub install_size: u64,
}

impl DeepView for SyncPkg {
    type V = SyncPkgView;

    open spec fn deep_view(&self) -> SyncPkgView {
        self@
    }
}

impl View for SyncPkg {
    type V = SyncPkgView;

    open spec fn view(&self) -> SyncPkgView {
        SyncPkgView {
            name: self.name@,
            repo: self.repo@,
            download_size: self.download_size,
            install_size: self.install_size,
        }
    }
}

/// Fold the records of a remote `desc` over the three fields a remote
/// package needs, last occurrence winning, failing on the first non-numeric
/// size value.
pub open spec fn scan_remote(
    pairs: Seq<(Seq<char>, Seq<char>)>,
    nm: Option<Seq<char>>,
    dl: Option<u64>,
    inst: Option<u64>,
) -> Result<(Option<Seq<char>>, Option<u64>, Option<u64>), DescErrView>
    decreases pairs.len(),
{
    if pairs.len() == 0 {
        Ok((nm, dl, inst))
    } else {
        let tag = pairs[0].0;
        let value = pairs[0].1;
        if tag == "NAME"@ {
            scan_remote(pairs.drop_first(), Some(value), dl, inst)
        } else if tag == "CSIZE"@ {
            match parse_u64_spec(value) {
                Some(v) => scan_remote(pairs.drop_first(), nm, Some(v), inst),
                None => Err(DescErrView::BadCsize(value)),
            }
        } else if tag == "ISIZE"@ {
            match parse_u64_spec(value) {
                Some(v) => scan_remote(pairs.drop_first(), nm, dl, Some(v)),
                None => Err(DescErrView::BadIsize(value)),
            }
        } else {
            scan_remote(pairs.drop_first(), nm, dl, inst)
        }
    }
}

/// What building a remote package record from a container text yields: the
/// folded fields where all three are present, the first missing field
/// (`NAME`, then `CSIZE`, then `ISIZE`) otherwise, and the first bad numeric
/// value before either.  The repository is `Unknown` until a loader tags it.
pub open spec fn spec_from_desc(text: Seq<char>) -> Result<SyncPkgView, DescErrView> {
    match scan_remote(spec_records(text), None, None, None) {
        Err(e) => Err(e),
        Ok((nm, dl, inst)) => match nm {
            None => Err(DescErrView::MissingName),
            Some(name) => match dl {
                None => Err(DescErrView::MissingCsize),
                Some(download_size) => match inst {
                    None => Err(DescErrView::MissingIsize),
                    Some(install_size) => Ok(
                        SyncPkgView {
                            name,
                            repo: RepoView::Unknown,
                            download_size,
                            install_size,
                        },
                    ),
                },
            },
        },
    }
}

impl SyncPkg {
    /// Build a remote package record from one `desc` container text.
    pub fn from_desc(desc: &str) -> (r: Result<SyncPkg, DescError>)
        ensures
            match r {
                Ok(p) => spec_from_desc(desc@) == Ok::<SyncPkgView, DescErrView>(p@),
                Err(e) => spec_from_desc(desc@) == Err::<SyncPkgView, DescErrView>(e@),
            },
    {
        let ghost full = spec_records(desc@);
        let mut it = DescIter::new(desc);
        let mut nm: Option<String> = None;
        let mut dl: Option<u64> = None;
        let mut inst: Option<u64> = None;
        loop
            invariant
                it.wf(),
                full == spec_records(desc@),
                scan_remote(it.remaining(), nm.deep_view(), dl, inst) == scan_remote(
                    full,
                    None,
                    None,
                    None,
                ),
            ensures
                full == spec_records(desc@),
                it.remaining().len() == 0,
                scan_remote(it.remaining(), nm.deep_view(), dl, inst) == scan_remote(
                    full,
                    None,
                    None,
                    None,
                ),
            decreases it.remaining().len(),
        {
            match it.next() {
                None => {
                    break;
                },
                Some(p) => {
                    if str_eq(p.0, "NAME") {
                        nm = Some(p.1.to_owned());
                    } else if str_eq(p.0, "CSIZE") {
                        match parse_u64(p.1) {
                            Some(v) => {
                                dl = Some(v);
                            },
                            None => {
                                return Err(DescError::BadCsize(p.1.to_owned()));
                            },
                        }
                    } else if str_eq(p.0, "ISIZE") {
                        match parse_u64(p.1) {
                            Some(v) => {
                                inst = Some(v);
                            },
                            None => {
                                return Err(DescError::BadIsize(p.1.to_owned()));
                            },
                        }
                    }
                },
            }
        }
        let name = match nm {
            Some(name) => name,
            None => {
                return Err(DescError::MissingName);
            },
        };
        let download_size = match dl {
            Some(v) => v,
            None => {
                return Err(DescError::MissingCsize);
            },
        };
        let install_size = match inst {
            Some(v) => v,
            None => {
                return Err(DescError::MissingIsize);
            },
        };
        Ok(SyncPkg { name, repo: Repo::Unknown, download_size, install_size })
    }
}

/// Fold the records of a local `desc` over the `NAME` and `SIZE` tags, last
/// occurrence winning, failing on the first non-numeric `SIZE` value.
pub open spec fn scan_local(
    pairs: Seq<(Seq<char>, Seq<char>)>,
    nm: Option<Seq<char>>,
    size: Option<u64>,
) -> Result<(Option<Seq<char>>, Option<u64>), DescErrView>
    decreases pairs.len(),
{
    if pairs.len() == 0 {
        Ok((nm, size))
    } else {
        let tag = pairs[0].0;
        let value = pairs[0].1;
        if tag == "NAME"@ {
            scan_local(pairs.drop_first(), Some(value), size)
        } else if tag == "SIZE"@ {
            match parse_u64_spec(value) {
                Some(v) => scan_local(pairs.drop_first(), nm, Some(v)),
                None => Err(DescErrView::BadSize(value)),
            }
        } else {
            scan_local(pairs.drop_first(), nm, size)
        }
    }
}

/// The installed size a local `desc` yields for the package `expected`:
/// `Ok(None)` when the record's `NAME` disagrees with the directory-derived
/// name (the directory does not represent the queried package — a skip, not
/// an error), otherwise the last `SIZE` value, with zero where the tag is
/// absent (a metadata package with no payload).
pub open spec fn spec_local_size(expected: Seq<char>, text: Seq<char>) -> Result<
    Option<u64>,
    DescErrView,
> {
    match scan_local(spec_records(text), None, None) {
        Err(e) => Err(e),
        Ok((nm, size)) => {
            if nm matches Some(n) && n != expected {
                Ok(None)
            } else {
                match size {
                    Some(v) => Ok(Some(v)),
                    None => Ok(Some(0)),
                }
            }
        },
    }
}

/// The installed size recorded in one local `desc` container text, checked
/// against the package name the directory claims.
pub fn local_size_from_desc(expected: &str, desc: &str) -> (r: Result<Option<u64>, DescError>)
    ensures
        match r {
            Ok(sz) => spec_local_size(expected@, desc@) == Ok::<Option<u64>, DescErrView>(sz),
            Err(e) => spec_local_size(expected@, desc@) == Err::<Option<u64>, DescErrView>(e@),
        },
{
    let ghost full = spec_records(desc@);
    let mut it = DescIter::new(desc);
    let mut nm: Option<String> = None;
    let mut size: Option<u64> = None;
    loop
        invariant
            it.wf(),
            full == spec_records(desc@),
            scan_local(it.remaining(), nm.deep_view(), size) == scan_local(full, None, None),
        ensures
            full == spec_records(desc@),
            it.remaining().len() == 0,
            scan_local(it.remaining(), nm.deep_view(), size) == scan_local(full, None, None),
        decreases it.remaining().len(),
    {
        match it.next() {
            None => {
                break;
            },
            Some(p) => {
                if str_eq(p.0, "NAME") {
                    nm = Some(p.1.to_owned());
                } else if str_eq(p.0, "SIZE") {
                    match parse_u64(p.1) {
                        Some(v) => {
                            size = Some(v);
                        },
                        None => {
                            return Err(DescError::BadSize(p.1.to_owned()));
                        },
                    }
                }
            },
        }
    }
    match nm {
        Some(n) => {
            if !str_eq(n.as_str(), expected) {
                return Ok(None);
            }
        },
        None => {},
    }
    match size {
        Some(v) => Ok(Some(v)),
        None => Ok(Some(0)),
    }
}

} // verus!
