//! The queryable indexes assembled from database records: package name to
//! remote record, and package name to installed size.
//!
//! Both are association lists whose meaning is a map in which later entries
//! overwrite earlier ones sharing a name — the caller controls load order,
//! and the last write wins.

use crate::alpm::{SyncPkg, SyncPkgView};
use crate::strutil::str_eq;
use vstd::prelude::*;

verus! {

/// The map an entry list denotes: later entries overwrite earlier ones
/// sharing a key.
pub open spec fn assoc_map<V>(entries: Seq<(Seq<char>, V)>) -> Map<Seq<char>, V>
    decreases entries.len(),
{
    if entries.len() == 0 {
        Map::empty()
    } else {
        assoc_map(entries.drop_last()).insert(entries.last().0, entries.last().1)
    }
}

/// An entry whose key no later entry repeats gives the map's value at it.
pub proof fn lemma_assoc_map_found<V>(entries: Seq<(Seq<char>, V)>, i: int)
    requires
        0 <= i < entries.len(),
        forall|j: int| i < j < entries.len() ==> (#[trigger] entries[j]).0 != entries[i].0,
    ensures
        assoc_map(entries).contains_key(entries[i].0),
        assoc_map(entries)[entries[i].0] == entries[i].1,
    decreases entries.len(),
{
    if i < entries.len() - 1 {
        assert(entries.drop_last()[i] == entries[i]);
        lemma_assoc_map_found(entries.drop_last(), i);
    }
}

/// A key no entry carries is not in the map.
pub proof fn lemma_assoc_map_absent<V>(entries: Seq<(Seq<char>, V)>, n: Seq<char>)
    requires
        forall|j: int| 0 <= j < entries.len() ==> (#[trigger] entries[j]).0 != n,
    ensures
        !assoc_map(entries).contains_key(n),
    decreases entries.len(),
{
    if entries.len() > 0 {
        lemma_assoc_map_absent(entries.drop_last(), n);
    }
}

/// Inserting under a name and then inserting under the same name again
/// leaves only the later record, whatever the index held before.
pub proof fn lemma_last_write_wins(m: Map<Seq<char>, SyncPkgView>, a: SyncPkgView, b: SyncPkgView)
    requires
        a.name == b.name,
    ensures
        m.insert(a.name, a).insert(b.name, b) == m.insert(b.name, b),
{
    assert(m.insert(a.name, a).insert(b.name, b) =~= m.insert(b.name, b));
}

/// The package index: package name, unique key, to remote package record.
#[derive(Debug)]
pub struct PackageIndex {
    entries: Vec<SyncPkg>,
}

/// The entry list of an index, as keyed pairs.
pub open spec fn keyed(entries: Seq<SyncPkgView>) -> Seq<(Seq<char>, SyncPkgView)> {
    entries.map_values(|p: SyncPkgView| (p.name, p))
}

impl View for PackageIndex {
    type V = Map<Seq<char>, SyncPkgView>;

    closed spec fn view(&self) -> Map<Seq<char>, SyncPkgView> {
        assoc_map(keyed(self.entries.deep_view()))
    }
}

impl PackageIndex {
    /// An empty index.
    pub fn new() -> (idx: Self)
        ensures
            idx@ == Map::<Seq<char>, SyncPkgView>::empty(),
    {
        let idx = PackageIndex { entries: Vec::new() };
        proof {
            assert(keyed(idx.entries.deep_view()) =~= Seq::<(Seq<char>, SyncPkgView)>::empty());
        }
        idx
    }

    /// Insert a record under its package name, replacing any record the
    /// index held under that name.
    pub fn insert(&mut self, pkg: SyncPkg)
        ensures
            final(self)@ == old(self)@.insert(pkg@.name, pkg@),
    {
        let ghost before = keyed(old(self).entries.deep_view());
        self.entries.push(pkg);
        proof {
            assert(keyed(self.entries.deep_view()).drop_last() =~= before);
            assert(keyed(self.entries.deep_view()).last() == (pkg@.name, pkg@));
        }
    }

    /// Look up the record stored under a package name.
    pub fn get(&self, name: &str) -> (r: Option<&SyncPkg>)
        ensures
            match r {
                Some(p) => self@.contains_key(name@) && self@[name@] == p@,
                None => !self@.contains_key(name@),
            },
    {
        let ghost pairs = keyed(self.entries.deep_view());
        let n = self.entries.len();
        let mut i = n;
        while i > 0
            invariant
                i <= n,
                n == self.entries.len(),
                pairs == keyed(self.entries.deep_view()),
                forall|j: int| i <= j < n ==> (#[trigger] pairs[j]).0 != name@,
            decreases i,
        {
            if str_eq(self.entries[i - 1].name.as_str(), name) {
                proof {
                    lemma_assoc_map_found(pairs, i - 1);
                }
                return Some(&self.entries[i - 1]);
            }
            i = i - 1;
        }
        proof {
            lemma_assoc_map_absent(pairs, name@);
        }
        None
    }
}

/// The installed-size index: package name to installed size in bytes.
#[derive(Debug)]
pub struct SizeIndex {
    entries: Vec<(String, u64)>,
}

impl View for SizeIndex {
    type V = Map<Seq<char>, u64>;

    closed spec fn view(&self) -> Map<Seq<char>, u64> {
        assoc_map(self.entries.deep_view())
    }
}

impl SizeIndex {
    /// An empty index.
    pub fn new() -> (idx: Self)
        ensures
            idx@ == Map::<Seq<char>, u64>::empty(),
    {
        let idx = SizeIndex { entries: Vec::new() };
        proof {
            assert(idx.entries.deep_view() =~= Seq::<(Seq<char>, u64)>::empty());
        }
        idx
    }

    /// Record the installed size of a package, replacing any earlier entry.
    pub fn insert(&mut self, name: String, size: u64)
        ensures
            final(self)@ == old(self)@.insert(name@, size),
    {
        let ghost before = old(self).entries.deep_view();
        self.entries.push((name, size));
        proof {
            assert(self.entries.deep_view().drop_last() =~= before);
        }
    }

    /// Look up the installed size recorded for a package name.
    pub fn get(&self, name: &str) -> (r: Option<u64>)
        ensures
            match r {
                Some(sz) => self@.contains_key(name@) && self@[name@] == sz,
                None => !self@.contains_key(name@),
            },
    {
        let ghost pairs = self.entries.deep_view();
        let n = self.entries.len();
        let mut i = n;
        while i > 0
            invariant
                i <= n,
                n == self.entries.len(),
                pairs == self.entries.deep_view(),
                forall|j: int| i <= j < n ==> (#[trigger] pairs[j]).0 != name@,
            decreases i,
        {
            if str_eq(self.entries[i - 1].0.as_str(), name) {
                proof {
                    lemma_assoc_map_found(pairs, i - 1);
                }
                return Some(self.entries[i - 1].1);
            }
            i = i - 1;
        }
        proof {
            lemma_assoc_map_absent(pairs, name@);
        }
        None
    }
}

} // verus!
