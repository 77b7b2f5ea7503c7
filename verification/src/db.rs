//! Loading sync database archives into the package index.
//!
//! One archive is decompressed (by sniffed scheme), walked as a tar
//! archive, and every qualifying entry — a regular file named `desc` whose
//! containing directory name decomposes into a package name that the filter
//! accepts — is parsed and inserted into the index under the record's own
//! name.  A record-level failure aborts the archive but keeps the inserts
//! already made.

use crate::alpm::{spec_from_desc, spec_split_pkgname, split_pkgname, DescErrView, DescError,
    SyncPkg, SyncPkgView};
use crate::archive::{decompress, spec_decompressed, tar_entries, tar_entry_list};
use crate::filter::NameFilter;
use crate::index::PackageIndex;
use crate::paths::{file_stem, has_extension, path_file_name, path_parent_name, spec_extension,
    spec_file_name, spec_file_stem, spec_parent_name};
use crate::repo::{spec_repo_of_name, Repo, RepoView};
use crate::strutil::{str_eq, utf8_to_string};
use vstd::prelude::*;
use vstd::utf8::{decode_utf8, valid_utf8};

verus! {

/// Ghost form of an archive-loading failure.
pub enum LoadErrView {
    NoStem,
    Truncated,
    Decompress,
    TarRead,
    DescUtf8(Seq<char>),
    DescParse(Seq<char>, DescErrView),
}

/// Why loading one database archive failed.
#[derive(Debug, PartialEq, Eq)]
pub enum LoadError {
    /// The database file name has no stem to take a repository name from.
    NoStem,
    /// The archive is shorter than the four-byte magic prefix.
    Truncated,
    /// The selected decompressor rejected the bytes.
    Decompress,
    /// The decompressed bytes are not a readable tar archive.
    TarRead,
    /// A qualifying `desc` entry is not valid text; the path names it.
    DescUtf8(String),
    /// A qualifying `desc` entry failed record building; the path names it.
    DescParse(String, DescError),
}

impl View for LoadError {
    type V = LoadErrView;

    open spec fn view(&self) -> LoadErrView {
        match self {
            LoadError::NoStem => LoadErrView::NoStem,
            LoadError::Truncated => LoadErrView::Truncated,
            LoadError::Decompress => LoadErrView::Decompress,
            LoadError::TarRead => LoadErrView::TarRead,
            LoadError::DescUtf8(p) => LoadErrView::DescUtf8(p@),
            LoadError::DescParse(p, e) => LoadErrView::DescParse(p@, e@),
        }
    }
}

/// The package name an entry is loaded under: present only for a regular
/// file named `desc` whose containing directory name decomposes under the
/// `${name}-${version}-${release}` rule.
pub open spec fn entry_pkgname(e: (Seq<char>, bool, Seq<u8>)) -> Option<Seq<char>> {
    if e.1 && spec_file_name(e.0) == "desc"@ {
        match spec_parent_name(e.0) {
            Some(dir) => spec_split_pkgname(dir),
            None => None,
        }
    } else {
        None
    }
}

/// Fold an archive's entries into the index map, left to right: qualifying
/// entries whose package name the filter accepts are parsed and inserted
/// under the record's `NAME`; the first failure stops the fold, keeping the
/// inserts already made.
pub open spec fn load_entries(
    m: Map<Seq<char>, SyncPkgView>,
    entries: Seq<(Seq<char>, bool, Seq<u8>)>,
    repo: RepoView,
    f: NameFilter,
) -> (Map<Seq<char>, SyncPkgView>, Option<LoadErrView>)
    decreases entries.len(),
{
    if entries.len() == 0 {
        (m, None)
    } else {
        let e = entries[0];
        match entry_pkgname(e) {
            None => load_entries(m, entries.drop_first(), repo, f),
            Some(pn) => {
                if !f.accepts(pn) {
                    load_entries(m, entries.drop_first(), repo, f)
                } else if !valid_utf8(e.2) {
                    (m, Some(LoadErrView::DescUtf8(e.0)))
                } else {
                    match spec_from_desc(decode_utf8(e.2)) {
                        Err(de) => (m, Some(LoadErrView::DescParse(e.0, de))),
                        Ok(pv) => load_entries(
                            m.insert(
                                pv.name,
                                SyncPkgView {
                                    name: pv.name,
                                    repo: repo,
                                    download_size: pv.download_size,
                                    install_size: pv.install_size,
                                },
                            ),
                            entries.drop_first(),
                            repo,
                            f,
                        ),
                    }
                }
            },
        }
    }
}

/// What loading one archive into an index yields: the updated map, and the
/// failure if any.  The repository every inserted record is tagged with
/// comes from the archive file name's stem.
pub open spec fn spec_read_db(
    m: Map<Seq<char>, SyncPkgView>,
    db_file_name: Seq<char>,
    data: Seq<u8>,
    f: NameFilter,
) -> (Map<Seq<char>, SyncPkgView>, Option<LoadErrView>) {
    match spec_file_stem(db_file_name) {
        None => (m, Some(LoadErrView::NoStem)),
        Some(stem) => {
            if data.len() < 4 {
                (m, Some(LoadErrView::Truncated))
            } else {
                match spec_decompressed(data) {
                    None => (m, Some(LoadErrView::Decompress)),
                    Some(raw) => match tar_entry_list(raw) {
                        None => (m, Some(LoadErrView::TarRead)),
                        Some(entries) => load_entries(m, entries, spec_repo_of_name(stem), f),
                    },
                }
            }
        },
    }
}

impl SyncPkg {
    /// Load one database archive (named, say, `core.db`) and collect every
    /// package whose name passes the filter into `map`, keyed by the
    /// record's own `NAME`.  Existing entries under the same name are
    /// replaced.  `Err` may be returned even though some entries have
    /// already been added to `map`.
    #[verifier::loop_isolation(false)]
    pub fn read_one_db(
        map: &mut PackageIndex,
        db_file_name: &str,
        data: &Vec<u8>,
        filter: &NameFilter,
    ) -> (r: Result<(), LoadError>)
        ensures
            final(map)@ == spec_read_db(old(map)@, db_file_name@, data@, *filter).0,
            match r {
                Ok(()) => spec_read_db(old(map)@, db_file_name@, data@, *filter).1 is None,
                Err(e) => spec_read_db(old(map)@, db_file_name@, data@, *filter).1 == Some(e@),
            },
    {
        let stem = match file_stem(db_file_name) {
            Some(s) => s,
            None => {
                return Err(LoadError::NoStem);
            },
        };
        let repo = Repo::from_name(stem);
        if data.len() < 4 {
            return Err(LoadError::Truncated);
        }
        let raw = match decompress(data) {
            Some(v) => v,
            None => {
                return Err(LoadError::Decompress);
            },
        };
        let entries = match tar_entries(&raw) {
            Some(es) => es,
            None => {
                return Err(LoadError::TarRead);
            },
        };
        let ghost evs = entries.deep_view();
        let ghost goal = load_entries(old(map)@, evs, repo@, *filter);
        let mut i: usize = 0;
        proof {
            assert(evs.skip(0) =~= evs);
        }
        while i < entries.len()
            invariant
                i <= entries.len(),
                load_entries(map@, evs.skip(i as int), repo@, *filter) == goal,
            decreases entries.len() - i,
        {
            proof {
                assert(evs.skip(i as int)[0] == evs[i as int]);
                assert(evs.skip(i as int).drop_first() =~= evs.skip(i as int + 1));
            }
            let e = &entries[i];
            if e.is_file {
                if str_eq(path_file_name(e.path.as_str()), "desc") {
                    if let Some(dir) = path_parent_name(e.path.as_str()) {
                        if let Some(pn) = split_pkgname(dir) {
                            if filter.check(pn) {
                                let text = match utf8_to_string(&e.data) {
                                    Some(t) => t,
                                    None => {
                                        return Err(LoadError::DescUtf8(e.path.clone()));
                                    },
                                };
                                match SyncPkg::from_desc(text.as_str()) {
                                    Err(de) => {
                                        return Err(
                                            LoadError::DescParse(e.path.clone(), de),
                                        );
                                    },
                                    Ok(pkg) => {
                                        let tagged = SyncPkg {
                                            name: pkg.name,
                                            repo: repo.clone(),
                                            download_size: pkg.download_size,
                                            install_size: pkg.install_size,
                                        };
                                        map.insert(tagged);
                                    },
                                }
                            }
                        }
                    }
                }
            }
            i = i + 1;
        }
        proof {
            assert(evs.skip(entries.len() as int) =~= Seq::<(Seq<char>, bool, Seq<u8>)>::empty());
        }
        Ok(())
    }

    /// Load a set of database files, in order, into a fresh index: files
    /// without the `db` extension are ignored; a failure in one archive
    /// stops the load and names the file.  When the same package name
    /// occurs in several databases, the last one loaded wins.
    #[verifier::loop_isolation(false)]
    pub fn load_sync_dbs(dbs: &Vec<(String, Vec<u8>)>, filter: &NameFilter) -> (r: Result<
        PackageIndex,
        (String, LoadError),
    >)
        ensures
            match r {
                Ok(idx) => spec_load_dbs(
                    Map::<Seq<char>, SyncPkgView>::empty(),
                    dbs.deep_view(),
                    *filter,
                ) == (idx@, None::<(Seq<char>, LoadErrView)>),
                Err(e) => spec_load_dbs(
                    Map::<Seq<char>, SyncPkgView>::empty(),
                    dbs.deep_view(),
                    *filter,
                ).1 == Some((e.0@, e.1@)),
            },
    {
        let ghost dv = dbs.deep_view();
        let mut idx = PackageIndex::new();
        let ghost goal = spec_load_dbs(Map::<Seq<char>, SyncPkgView>::empty(), dv, *filter);
        let mut i: usize = 0;
        proof {
            assert(dv.skip(0) =~= dv);
        }
        while i < dbs.len()
            invariant
                i <= dbs.len(),
                spec_load_dbs(idx@, dv.skip(i as int), *filter) == goal,
            decreases dbs.len() - i,
        {
            proof {
                assert(dv.skip(i as int)[0] == dv[i as int]);
                assert(dv.skip(i as int).drop_first() =~= dv.skip(i as int + 1));
                assert(dv[i as int].0 == dbs@[i as int].0@);
                assert(dv[i as int].1 =~= dbs@[i as int].1@);
            }
            let name = &dbs[i].0;
            if has_extension(name.as_str(), "db") {
                match SyncPkg::read_one_db(&mut idx, name.as_str(), &dbs[i].1, filter) {
                    Ok(()) => {},
                    Err(e) => {
                        return Err((name.clone(), e));
                    },
                }
            }
            i = i + 1;
        }
        proof {
            assert(dv.skip(dbs.len() as int) =~= Seq::<(Seq<char>, Seq<u8>)>::empty());
        }
        Ok(idx)
    }
}

/// What loading a file list yields: files with the `db` extension are
/// loaded in order into the map; the first failing file stops the load.
pub open spec fn spec_load_dbs(
    m: Map<Seq<char>, SyncPkgView>,
    dbs: Seq<(Seq<char>, Seq<u8>)>,
    f: NameFilter,
) -> (Map<Seq<char>, SyncPkgView>, Option<(Seq<char>, LoadErrView)>)
    decreases dbs.len(),
{
    if dbs.len() == 0 {
        (m, None)
    } else {
        let d = dbs[0];
        if spec_extension(d.0) == Some("db"@) {
            let step = spec_read_db(m, d.0, d.1, f);
            match step.1 {
                Some(e) => (step.0, Some((d.0, e))),
                None => spec_load_dbs(step.0, dbs.drop_first(), f),
            }
        } else {
            spec_load_dbs(m, dbs.drop_first(), f)
        }
    }
}

} // verus!
