//! Scanning a local install database: one subdirectory per installed
//! package, each holding one `desc` record file with the installed size.

use crate::alpm::{local_size_from_desc, spec_local_size, spec_split_pkgname, split_pkgname,
    DescErrView, DescError};
use crate::filter::NameFilter;
use crate::index::SizeIndex;
use vstd::prelude::*;

verus! {

/// What scanning the local package directories yields: for each directory
/// whose name decomposes into a package name the filter accepts, the
/// installed size its record gives, keyed by that name.  Directories that
/// do not decompose, and records naming another package, are skipped; the
/// first bad record stops the scan, naming the directory.
pub open spec fn spec_scan_local(
    m: Map<Seq<char>, u64>,
    files: Seq<(Seq<char>, Seq<char>)>,
    f: NameFilter,
) -> (Map<Seq<char>, u64>, Option<(Seq<char>, DescErrView)>)
    decreases files.len(),
{
    if files.len() == 0 {
        (m, None)
    } else {
        let d = files[0];
        match spec_split_pkgname(d.0) {
            None => spec_scan_local(m, files.drop_first(), f),
            Some(pn) => {
                if !f.accepts(pn) {
                    spec_scan_local(m, files.drop_first(), f)
                } else {
                    match spec_local_size(pn, d.1) {
                        Err(e) => (m, Some((d.0, e))),
                        Ok(None) => spec_scan_local(m, files.drop_first(), f),
                        Ok(Some(sz)) => spec_scan_local(m.insert(pn, sz), files.drop_first(), f),
                    }
                }
            },
        }
    }
}

/// Collect the installed size (`SIZE`) of each locally installed package
/// the filter accepts, given each package directory's name and the text of
/// its `desc` file.
#[verifier::loop_isolation(false)]
pub fn local_package_sizes(files: &Vec<(String, String)>, filter: &NameFilter) -> (r: Result<
    SizeIndex,
    (String, DescError),
>)
    ensures
        match r {
            Ok(idx) => spec_scan_local(Map::<Seq<char>, u64>::empty(), files.deep_view(), *filter)
                == (idx@, None::<(Seq<char>, DescErrView)>),
            Err(e) => spec_scan_local(
                Map::<Seq<char>, u64>::empty(),
                files.deep_view(),
                *filter,
            ).1 == Some((e.0@, e.1@)),
        },
{
    let ghost dv = files.deep_view();
    let mut idx = SizeIndex::new();
    let ghost goal = spec_scan_local(Map::<Seq<char>, u64>::empty(), dv, *filter);
    let mut i: usize = 0;
    proof {
        assert(dv.skip(0) =~= dv);
    }
    while i < files.len()
        invariant
            i <= files.len(),
            spec_scan_local(idx@, dv.skip(i as int), *filter) == goal,
        decreases files.len() - i,
    {
        proof {
            assert(dv.skip(i as int)[0] == dv[i as int]);
            assert(dv.skip(i as int).drop_first() =~= dv.skip(i as int + 1));
        }
        let dirname = &files[i].0;
        if let Some(pn) = split_pkgname(dirname.as_str()) {
            if filter.check(pn) {
                match local_size_from_desc(pn, files[i].1.as_str()) {
                    Err(e) => {
                        return Err((dirname.clone(), e));
                    },
                    Ok(None) => {},
                    Ok(Some(sz)) => {
                        idx.insert(pn.to_owned(), sz);
                    },
                }
            }
        }
        i = i + 1;
    }
    proof {
        assert(dv.skip(files.len() as int) =~= Seq::<(Seq<char>, Seq<char>)>::empty());
    }
    Ok(idx)
}

} // verus!
