//! Tests of the archive decoder, the database loaders, the local scanner,
//! and the indexes, with fixtures built by the real compression crates.

use checkupgrades::alpm::DescError;
use checkupgrades::archive::{decompress, sniff_compression, Compression};
use checkupgrades::db::LoadError;
use checkupgrades::alpm::SyncPkg;
use checkupgrades::filter::NameFilter;
use checkupgrades::index::PackageIndex;
use checkupgrades::localdb::local_package_sizes;
use checkupgrades::repo::Repo;
use checkupgrades::upgrade::{add_extra_info, Upgrade};
use std::io::Write;

fn gzip_bytes(payload: &[u8]) -> Vec<u8> {
    let mut enc = flate2::write::GzEncoder::new(Vec::new(), flate2::Compression::default());
    enc.write_all(payload).unwrap();
    enc.finish().unwrap()
}

fn zstd_bytes(payload: &[u8]) -> Vec<u8> {
    zstd::encode_all(payload, 0).unwrap()
}

/// Build a tar archive holding the given (path, content) regular files.
fn tar_bytes(files: &[(&str, &[u8])]) -> Vec<u8> {
    let mut builder = tar::Builder::new(Vec::new());
    for (path, content) in files {
        let mut header = tar::Header::new_gnu();
        header.set_size(content.len() as u64);
        header.set_mode(0o644);
        header.set_cksum();
        builder.append_data(&mut header, path, *content).unwrap();
    }
    builder.into_inner().unwrap()
}

fn desc_text(name: &str, csize: u64, isize: u64) -> Vec<u8> {
    format!("%NAME%\n{}\n\n%CSIZE%\n{}\n\n%ISIZE%\n{}\n\n", name, csize, isize).into_bytes()
}

#[test]
fn sniff_selects_by_magic() {
    assert_eq!(
        sniff_compression(&vec![0x28, 0xb5, 0x2f, 0xfd, 0x00]),
        Compression::Zstd
    );
    assert_eq!(sniff_compression(&vec![0x1f, 0x8b, 0x08, 0x00]), Compression::Gzip);
    assert_eq!(sniff_compression(&vec![0x00, 0x01, 0x02, 0x03]), Compression::Plain);
    // a gzip magic hiding behind a zstd magic never wins
    assert_eq!(
        sniff_compression(&vec![0x28, 0xb5, 0x2f, 0xfd, 0x1f, 0x8b]),
        Compression::Zstd
    );
}

#[test]
fn decompress_round_trips_each_scheme() {
    let payload: Vec<u8> = (0..200u16).map(|i| (i % 251) as u8).collect();
    let z = zstd_bytes(&payload);
    assert_eq!(sniff_compression(&z), Compression::Zstd);
    assert_eq!(decompress(&z).unwrap(), payload);

    let g = gzip_bytes(&payload);
    assert_eq!(sniff_compression(&g), Compression::Gzip);
    assert_eq!(decompress(&g).unwrap(), payload);

    assert_eq!(decompress(&payload).unwrap(), payload);
}

#[test]
fn decompress_rejects_corrupt_streams() {
    assert!(decompress(&vec![0x28, 0xb5, 0x2f, 0xfd, 0xff, 0xff]).is_none());
    assert!(decompress(&vec![0x1f, 0x8b, 0xff, 0xff, 0xff]).is_none());
}

#[test]
fn read_one_db_loads_qualifying_entries() {
    let tar = tar_bytes(&[
        ("bash-5.2-1/desc", &desc_text("bash", 500, 1200)),
        // a file not named desc is skipped
        ("bash-5.2-1/files", b"%FILES%\nusr/bin/bash\n\n"),
        // a desc whose directory name has too few hyphens is skipped
        ("noversion/desc", &desc_text("noversion", 1, 1)),
        // a top-level desc with no containing directory is skipped
        ("desc", &desc_text("stray", 1, 1)),
    ]);
    let data = gzip_bytes(&tar);
    let mut idx = PackageIndex::new();
    let all = NameFilter::all();
    SyncPkg::read_one_db(&mut idx, "core.db", &data, &all).unwrap();
    let pkg = idx.get("bash").unwrap();
    assert_eq!(pkg.repo, Repo::Core);
    assert_eq!(pkg.download_size, 500);
    assert_eq!(pkg.install_size, 1200);
    assert!(idx.get("noversion").is_none());
    assert!(idx.get("stray").is_none());
}

#[test]
fn read_one_db_applies_the_filter() {
    let tar = tar_bytes(&[
        ("bash-5.2-1/desc", &desc_text("bash", 1, 2)),
        ("vim-9.1-1/desc", &desc_text("vim", 3, 4)),
    ]);
    let data = zstd_bytes(&tar);
    let mut idx = PackageIndex::new();
    let only_vim = NameFilter::of_names(vec!["vim".to_string()]);
    SyncPkg::read_one_db(&mut idx, "extra.db", &data, &only_vim).unwrap();
    assert!(idx.get("bash").is_none());
    assert_eq!(idx.get("vim").unwrap().download_size, 3);
}

#[test]
fn read_one_db_parse_failure_keeps_earlier_inserts() {
    let tar = tar_bytes(&[
        ("good-1-1/desc", &desc_text("good", 10, 20)),
        ("bad-1-1/desc", b"%NAME%\nbad\n\n"),
    ]);
    let mut idx = PackageIndex::new();
    let all = NameFilter::all();
    let err = SyncPkg::read_one_db(&mut idx, "core.db", &tar, &all).unwrap_err();
    assert_eq!(
        err,
        LoadError::DescParse("bad-1-1/desc".to_string(), DescError::MissingCsize)
    );
    assert_eq!(idx.get("good").unwrap().download_size, 10);
}

#[test]
fn read_one_db_error_cases() {
    let all = NameFilter::all();
    let mut idx = PackageIndex::new();
    assert_eq!(
        SyncPkg::read_one_db(&mut idx, "", &vec![0u8; 8], &all).unwrap_err(),
        LoadError::NoStem
    );
    assert_eq!(
        SyncPkg::read_one_db(&mut idx, "core.db", &vec![0u8; 3], &all).unwrap_err(),
        LoadError::Truncated
    );
    assert_eq!(
        SyncPkg::read_one_db(&mut idx, "core.db", &vec![0x1f, 0x8b, 0xff, 0xff], &all)
            .unwrap_err(),
        LoadError::Decompress
    );
    assert_eq!(
        SyncPkg::read_one_db(&mut idx, "core.db", &vec![0xffu8; 1024], &all).unwrap_err(),
        LoadError::TarRead
    );
    let tar = tar_bytes(&[("bad-1-1/desc", &[0x80u8, 0x81, 0x82])]);
    assert_eq!(
        SyncPkg::read_one_db(&mut idx, "core.db", &tar, &all).unwrap_err(),
        LoadError::DescUtf8("bad-1-1/desc".to_string())
    );
}

#[test]
fn later_archive_overwrites_shared_names() {
    let repo_a = tar_bytes(&[("x-1-1/desc", &desc_text("x", 100, 100))]);
    let repo_b = tar_bytes(&[("x-1-1/desc", &desc_text("x", 200, 200))]);
    let dbs = vec![
        ("alpha.db".to_string(), gzip_bytes(&repo_a)),
        ("beta.db".to_string(), zstd_bytes(&repo_b)),
    ];
    let all = NameFilter::all();
    let idx = SyncPkg::load_sync_dbs(&dbs, &all).unwrap();
    let pkg = idx.get("x").unwrap();
    assert_eq!(pkg.repo, Repo::Custom("beta".to_string()));
    assert_eq!(pkg.download_size, 200);
}

#[test]
fn load_sync_dbs_skips_other_extensions() {
    let tar = tar_bytes(&[("x-1-1/desc", &desc_text("x", 1, 1))]);
    let dbs = vec![
        ("core.files".to_string(), tar.clone()),
        ("notadb".to_string(), vec![1, 2, 3]),
        ("core.db".to_string(), tar),
    ];
    let all = NameFilter::all();
    let idx = SyncPkg::load_sync_dbs(&dbs, &all).unwrap();
    assert_eq!(idx.get("x").unwrap().repo, Repo::Core);
}

#[test]
fn load_sync_dbs_failure_names_the_file() {
    let good = tar_bytes(&[("x-1-1/desc", &desc_text("x", 1, 1))]);
    let dbs = vec![
        ("core.db".to_string(), good),
        ("extra.db".to_string(), vec![0xffu8; 1024]),
    ];
    let all = NameFilter::all();
    let (file, err) = SyncPkg::load_sync_dbs(&dbs, &all).unwrap_err();
    assert_eq!(file, "extra.db");
    assert_eq!(err, LoadError::TarRead);
}

#[test]
fn empty_name_filter_accepts_nothing() {
    let tar = tar_bytes(&[("x-1-1/desc", &desc_text("x", 1, 1))]);
    let dbs = vec![("core.db".to_string(), tar)];
    let none = NameFilter::of_names(Vec::new());
    let idx = SyncPkg::load_sync_dbs(&dbs, &none).unwrap();
    assert!(idx.get("x").is_none());
}

#[test]
fn local_scan_collects_sizes() {
    let files = vec![
        ("bash-5.1-1".to_string(), "%NAME%\nbash\n\n%SIZE%\n7000\n\n".to_string()),
        // decomposition fails: skipped
        ("ALPM_DB_VERSION".to_string(), "junk".to_string()),
        // record names another package: skipped
        ("vim-9.0-1".to_string(), "%NAME%\nneovim\n\n%SIZE%\n5\n\n".to_string()),
        // no SIZE tag: zero
        ("meta-1-1".to_string(), "%NAME%\nmeta\n\n".to_string()),
    ];
    let all = NameFilter::all();
    let sizes = local_package_sizes(&files, &all).unwrap();
    assert_eq!(sizes.get("bash"), Some(7000));
    assert_eq!(sizes.get("vim"), None);
    assert_eq!(sizes.get("meta"), Some(0));
}

#[test]
fn local_scan_bad_size_names_the_directory() {
    let files = vec![(
        "bash-5.1-1".to_string(),
        "%NAME%\nbash\n\n%SIZE%\nhuge\n\n".to_string(),
    )];
    let all = NameFilter::all();
    let err = local_package_sizes(&files, &all).unwrap_err();
    assert_eq!(
        err,
        ("bash-5.1-1".to_string(), DescError::BadSize("huge".to_string()))
    );
}

#[test]
fn end_to_end_two_repos_enrich_the_upgrade_list() {
    let core = tar_bytes(&[("bash-5.2-1/desc", &desc_text("bash", 500000, 1200000))]);
    let extra = tar_bytes(&[("vim-9.1-1/desc", &desc_text("vim", 300000, 900000))]);
    let dbs = vec![
        ("core.db".to_string(), gzip_bytes(&core)),
        ("extra.db".to_string(), zstd_bytes(&extra)),
    ];
    let mut upgrades: Vec<Upgrade> = ["bash 5.1-1 -> 5.2-1", "vim 9.0-1 -> 9.1-1"]
        .iter()
        .filter_map(|line| Upgrade::from_line(line))
        .collect();
    let names = NameFilter::of_names(upgrades.iter().map(|u| u.pkgname.clone()).collect());
    let idx = SyncPkg::load_sync_dbs(&dbs, &names).unwrap();

    let local = vec![
        ("bash-5.1-1".to_string(), "%NAME%\nbash\n\n%SIZE%\n1100000\n\n".to_string()),
        ("vim-9.0-1".to_string(), "%NAME%\nvim\n\n%SIZE%\n880000\n\n".to_string()),
    ];
    let sizes = local_package_sizes(&local, &names).unwrap();

    add_extra_info(&mut upgrades, &idx, &sizes);

    assert_eq!(upgrades[0].pkgname, "bash");
    assert_eq!(upgrades[0].repo, Some(Repo::Core));
    assert_eq!(upgrades[0].download_size, 500000);
    assert_eq!(upgrades[0].install_size, 1200000);
    assert_eq!(upgrades[0].old_size, 1100000);

    assert_eq!(upgrades[1].pkgname, "vim");
    assert_eq!(upgrades[1].repo, Some(Repo::Extra));
    assert_eq!(upgrades[1].download_size, 300000);
    assert_eq!(upgrades[1].install_size, 900000);
    assert_eq!(upgrades[1].old_size, 880000);
}
