//! Package-name filters handed to the database loaders and the local
//! scanner: either every name passes, or only the names in a fixed list.

use crate::strutil::str_eq;
use vstd::prelude::*;

verus! {

/// A predicate on package names.
pub struct NameFilter {
    names: Option<Vec<String>>,
}

impl NameFilter {
    /// Which names the filter accepts.
    pub closed spec fn accepts(&self, name: Seq<char>) -> bool {
        match self.names {
            None => true,
            Some(ns) => ns.deep_view().contains(name),
        }
    }

    /// The filter accepting every package name.
    pub fn all() -> (f: Self)
        ensures
            forall|n: Seq<char>| f.accepts(n),
    {
        NameFilter { names: None }
    }

    /// The filter accepting exactly the given names.
    pub fn of_names(names: Vec<String>) -> (f: Self)
        ensures
            forall|n: Seq<char>| #[trigger] f.accepts(n) == names.deep_view().contains(n),
    {
        NameFilter { names: Some(names) }
    }

    /// Decide one name.
    pub fn check(&self, name: &str) -> (r: bool)
        ensures
            r == self.accepts(name@),
    {
        match &self.names {
            None => true,
            Some(ns) => {
                let mut i: usize = 0;
                while i < ns.len()
                    invariant
                        i <= ns.len(),
                        self.names == Some(*ns),
                        forall|j: int| 0 <= j < i ==> ns.deep_view()[j] != name@,
                    decreases ns.len() - i,
                {
                    if str_eq(ns[i].as_str(), name) {
                        proof {
                            assert(ns.deep_view().contains(name@)) by {
                                assert(ns.deep_view()[i as int] == name@);
                            }
                        }
                        return true;
                    }
                    i = i + 1;
                }
                proof {
                    assert(!ns.deep_view().contains(name@));
                }
                false
            },
        }
    }
}

} // verus!
