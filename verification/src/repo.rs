//! Repository identity: which logical repository a record came from.
//!
//! The identity is derived from the database archive's file name stem, never
//! from record content.  Standard repositories get their own variants; any
//! other stem becomes a custom named repository.

use crate::strutil::str_eq;
use vstd::prelude::*;

verus! {

/// Ghost identity of a repository.
pub enum RepoView {
    Core,
    Extra,
    Community,
    Multilib,
    Custom(Seq<char>),
    Unknown,
}

/// A pacman repository: one of the standard ones, a custom named one, or
/// unknown.
#[derive(Debug, PartialEq, Eq)]
pub enum Repo {
    Core,
    Extra,
    Community,
    Multilib,
    Custom(String),
    Unknown,
}

impl View for Repo {
    type V = RepoView;

    open spec fn view(&self) -> RepoView {
        match self {
            Repo::Core => RepoView::Core,
            Repo::Extra => RepoView::Extra,
            Repo::Community => RepoView::Community,
            Repo::Multilib => RepoView::Multilib,
            Repo::Custom(s) => RepoView::Custom(s@),
            Repo::Unknown => RepoView::Unknown,
        }
    }
}

impl Clone for Repo {
    fn clone(&self) -> (r: Self)
        ensures
            r == *self,
    {
        match self {
            Repo::Core => Repo::Core,
            Repo::Extra => Repo::Extra,
            Repo::Community => Repo::Community,
            Repo::Multilib => Repo::Multilib,
            Repo::Custom(s) => Repo::Custom(s.clone()),
            Repo::Unknown => Repo::Unknown,
        }
    }
}

impl Default for Repo {
    fn default() -> (r: Self)
        ensures
            r == Repo::Unknown,
    {
        Repo::Unknown
    }
}

/// The standard repository a name denotes, `Unknown` for the empty name, or
/// `None` where only a custom repository fits.
pub open spec fn spec_from_str_common(s: Seq<char>) -> Option<Repo> {
    if s == "core"@ {
        Some(Repo::Core)
    } else if s == "extra"@ {
        Some(Repo::Extra)
    } else if s == "community"@ {
        Some(Repo::Community)
    } else if s == "multilib"@ {
        Some(Repo::Multilib)
    } else if s == ""@ {
        Some(Repo::Unknown)
    } else {
        None
    }
}

/// The repository a name denotes: a standard one where the name matches,
/// otherwise a custom repository carrying the name itself.
pub open spec fn spec_repo_of_name(s: Seq<char>) -> RepoView {
    match spec_from_str_common(s) {
        Some(r) => r@,
        None => RepoView::Custom(s),
    }
}

/// The canonical rendering of a repository name.
pub open spec fn spec_repo_str(r: RepoView) -> Seq<char> {
    match r {
        RepoView::Core => "core"@,
        RepoView::Extra => "extra"@,
        RepoView::Community => "community"@,
        RepoView::Multilib => "multilib"@,
        RepoView::Custom(s) => s,
        RepoView::Unknown => "[unknown]"@,
    }
}

impl Repo {
    /// Recognize the standard repository names (and the empty name, which
    /// maps to `Unknown`).
    pub fn from_str_common(s: &str) -> (r: Option<Repo>)
        ensures
            r == spec_from_str_common(s@),
    {
        if str_eq(s, "core") {
            Some(Repo::Core)
        } else if str_eq(s, "extra") {
            Some(Repo::Extra)
        } else if str_eq(s, "community") {
            Some(Repo::Community)
        } else if str_eq(s, "multilib") {
            Some(Repo::Multilib)
        } else if str_eq(s, "") {
            Some(Repo::Unknown)
        } else {
            None
        }
    }

    /// The repository a name denotes, falling back to a custom repository.
    pub fn from_name(s: &str) -> (r: Repo)
        ensures
            r@ == spec_repo_of_name(s@),
    {
        match Repo::from_str_common(s) {
            Some(r) => r,
            None => Repo::Custom(s.to_owned()),
        }
    }

    /// The canonical name of this repository.
    pub fn as_str(&self) -> (r: &str)
        ensures
            r@ == spec_repo_str(self@),
    {
        match self {
            Repo::Core => "core",
            Repo::Extra => "extra",
            Repo::Community => "community",
            Repo::Multilib => "multilib",
            Repo::Custom(s) => s.as_str(),
            Repo::Unknown => "[unknown]",
        }
    }
}

} // verus!
