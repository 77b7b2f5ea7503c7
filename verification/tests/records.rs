//! Tests of the record builders, name decomposition, repositories, and
//! upgrade-line parsing.

use checkupgrades::alpm::{local_size_from_desc, split_pkgname, DescError, SyncPkg};
use checkupgrades::repo::Repo;
use checkupgrades::upgrade::Upgrade;

#[test]
fn from_desc_builds_remote_record() {
    let desc = "%NAME%\nbash\n\n%CSIZE%\n500000\n\n%ISIZE%\n1200000\n\n";
    let pkg = SyncPkg::from_desc(desc).unwrap();
    assert_eq!(pkg.name, "bash");
    assert_eq!(pkg.download_size, 500000);
    assert_eq!(pkg.install_size, 1200000);
    assert_eq!(pkg.repo, Repo::Unknown);
}

#[test]
fn from_desc_missing_csize_names_it() {
    let desc = "%NAME%\nfoo\n\n";
    assert_eq!(SyncPkg::from_desc(desc).unwrap_err(), DescError::MissingCsize);
}

#[test]
fn from_desc_missing_name() {
    let desc = "%CSIZE%\n1\n\n%ISIZE%\n2\n\n";
    assert_eq!(SyncPkg::from_desc(desc).unwrap_err(), DescError::MissingName);
}

#[test]
fn from_desc_missing_isize() {
    let desc = "%NAME%\nfoo\n\n%CSIZE%\n1\n\n";
    assert_eq!(SyncPkg::from_desc(desc).unwrap_err(), DescError::MissingIsize);
}

#[test]
fn from_desc_non_numeric_sizes() {
    let desc = "%NAME%\nfoo\n\n%CSIZE%\nbig\n\n";
    assert_eq!(
        SyncPkg::from_desc(desc).unwrap_err(),
        DescError::BadCsize("big".to_string())
    );
    let desc = "%NAME%\nfoo\n\n%CSIZE%\n1\n\n%ISIZE%\n-3\n\n";
    assert_eq!(
        SyncPkg::from_desc(desc).unwrap_err(),
        DescError::BadIsize("-3".to_string())
    );
}

#[test]
fn from_desc_number_overflow_is_rejected() {
    let desc = "%NAME%\nfoo\n\n%CSIZE%\n99999999999999999999\n\n%ISIZE%\n1\n\n";
    assert_eq!(
        SyncPkg::from_desc(desc).unwrap_err(),
        DescError::BadCsize("99999999999999999999".to_string())
    );
}

#[test]
fn from_desc_accepts_plus_prefix_and_max() {
    let desc = "%NAME%\nfoo\n\n%CSIZE%\n+12\n\n%ISIZE%\n18446744073709551615\n\n";
    let pkg = SyncPkg::from_desc(desc).unwrap();
    assert_eq!(pkg.download_size, 12);
    assert_eq!(pkg.install_size, u64::MAX);
}

#[test]
fn from_desc_last_tag_wins() {
    let desc = "%NAME%\nfirst\n\n%NAME%\nsecond\n\n%CSIZE%\n1\n\n%CSIZE%\n2\n\n%ISIZE%\n3\n\n";
    let pkg = SyncPkg::from_desc(desc).unwrap();
    assert_eq!(pkg.name, "second");
    assert_eq!(pkg.download_size, 2);
}

#[test]
fn split_pkgname_decomposition() {
    assert_eq!(split_pkgname("foo-1.2-3"), Some("foo"));
    assert_eq!(split_pkgname("foo-bar-1.2-3"), Some("foo-bar"));
    assert_eq!(split_pkgname("nodash"), None);
    assert_eq!(split_pkgname("one-dash"), None);
}

#[test]
fn local_size_reads_size_tag() {
    let desc = "%NAME%\nfoo\n\n%SIZE%\n4096\n\n";
    assert_eq!(local_size_from_desc("foo", desc), Ok(Some(4096)));
}

#[test]
fn local_size_missing_size_defaults_to_zero() {
    let desc = "%NAME%\nfoo\n\n%VERSION%\n1.0-1\n\n";
    assert_eq!(local_size_from_desc("foo", desc), Ok(Some(0)));
}

#[test]
fn local_size_name_mismatch_is_a_skip() {
    let desc = "%NAME%\nother\n\n%SIZE%\n4096\n\n";
    assert_eq!(local_size_from_desc("foo", desc), Ok(None));
}

#[test]
fn local_size_bad_number_is_an_error() {
    let desc = "%NAME%\nfoo\n\n%SIZE%\nlots\n\n";
    assert_eq!(
        local_size_from_desc("foo", desc),
        Err(DescError::BadSize("lots".to_string()))
    );
}

#[test]
fn repo_standard_names() {
    assert_eq!(Repo::from_str_common("core"), Some(Repo::Core));
    assert_eq!(Repo::from_str_common("extra"), Some(Repo::Extra));
    assert_eq!(Repo::from_str_common("community"), Some(Repo::Community));
    assert_eq!(Repo::from_str_common("multilib"), Some(Repo::Multilib));
    assert_eq!(Repo::from_str_common(""), Some(Repo::Unknown));
    assert_eq!(Repo::from_str_common("aur"), None);
}

#[test]
fn repo_from_name_falls_back_to_custom() {
    assert_eq!(Repo::from_name("core"), Repo::Core);
    assert_eq!(Repo::from_name("awild"), Repo::Custom("awild".to_string()));
}

#[test]
fn repo_as_str_renders_names() {
    assert_eq!(Repo::Core.as_str(), "core");
    assert_eq!(Repo::Custom("awild".to_string()).as_str(), "awild");
    assert_eq!(Repo::Unknown.as_str(), "[unknown]");
}

#[test]
fn upgrade_from_line_parses_the_list_format() {
    let u = Upgrade::from_line("bash 5.1-1 -> 5.2-1").unwrap();
    assert_eq!(u.pkgname, "bash");
    assert_eq!(u.oldver, "5.1-1");
    assert_eq!(u.newver, "5.2-1");
    assert_eq!(u.repo, None);
    assert_eq!(u.download_size, 0);
    assert_eq!(u.install_size, 0);
    assert_eq!(u.old_size, 0);
}

#[test]
fn upgrade_from_line_drops_other_shapes() {
    assert!(Upgrade::from_line("").is_none());
    assert!(Upgrade::from_line("bash 5.1-1").is_none());
    assert!(Upgrade::from_line("bash 5.1-1 => 5.2-1").is_none());
    assert!(Upgrade::from_line("bash  5.1-1 -> 5.2-1").is_none());
    assert!(Upgrade::from_line("bash 5.1-1 -> 5.2-1 extra").is_none());
    assert!(Upgrade::from_line(" bash 5.1-1 -> 5.2-1").is_none());
    assert!(Upgrade::from_line("bash 5.1-1 -> ").is_none());
    // tokens may not hold Unicode whitespace either
    assert!(Upgrade::from_line("ba\u{a0}sh 5.1-1 -> 5.2-1").is_none());
    assert!(Upgrade::from_line("bash 5.1\u{2009}1 -> 5.2-1").is_none());
}

fn upgrade(old: &str, new: &str) -> Upgrade {
    Upgrade {
        repo: None,
        pkgname: "p".to_string(),
        oldver: old.to_string(),
        newver: new.to_string(),
        download_size: 0,
        install_size: 0,
        old_size: 0,
    }
}

#[test]
fn common_length_stops_at_version_component() {
    // common prefix "5." then a digit run that differs: the run is not split
    assert_eq!(upgrade("5.1-1", "5.2-1").common_length(), 2);
    // common prefix "1.1" ends inside the digit run "1" -> walk back to "1."
    assert_eq!(upgrade("1.10", "1.11").common_length(), 2);
    // nothing in common
    assert_eq!(upgrade("alpha", "beta").common_length(), 0);
    // fully equal versions walk back over the final digit run
    assert_eq!(upgrade("2.0-1", "2.0-1").common_length(), 4);
}
