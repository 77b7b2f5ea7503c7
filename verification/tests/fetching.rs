//! Tests of the sync fetcher's decisions: conditional requests, cache
//! validation, and timestamp handling.

use checkupgrades::fetch::{classify_status, parse_http_timestamp, plan_request, CacheState,
    FetchAction, FetchError};

#[test]
fn classify_distinguishes_cache_download_and_error() {
    assert_eq!(classify_status(304), Ok(FetchAction::UseCache));
    assert_eq!(classify_status(200), Ok(FetchAction::Download));
    assert_eq!(classify_status(206), Ok(FetchAction::Download));
    assert_eq!(classify_status(404), Err(FetchError::HttpStatus(404)));
    assert_eq!(classify_status(500), Err(FetchError::HttpStatus(500)));
    // non-success statuses other than 304 are hard failures too
    assert_eq!(classify_status(301), Err(FetchError::HttpStatus(301)));
    assert_eq!(classify_status(100), Err(FetchError::HttpStatus(100)));
}

#[test]
fn plan_without_cache_sends_no_header() {
    let plan = plan_request(&CacheState { exists: false, is_file: false, mtime_secs: None })
        .unwrap();
    assert_eq!(plan.if_modified_since, None);
}

#[test]
fn plan_with_cache_but_no_mtime_sends_no_header() {
    let plan = plan_request(&CacheState { exists: true, is_file: true, mtime_secs: None })
        .unwrap();
    assert_eq!(plan.if_modified_since, None);
}

#[test]
fn plan_rejects_a_cache_path_that_is_no_file() {
    let r = plan_request(&CacheState { exists: true, is_file: false, mtime_secs: Some(5) });
    assert_eq!(r.unwrap_err(), FetchError::NotAFile);
}

#[test]
fn plan_formats_the_cached_mtime() {
    let plan = plan_request(&CacheState {
        exists: true,
        is_file: true,
        mtime_secs: Some(1431648000),
    })
    .unwrap();
    assert_eq!(
        plan.if_modified_since.as_deref(),
        Some("Fri, 15 May 2015 00:00:00 GMT")
    );
}

#[test]
fn timestamps_round_trip_through_the_header_format() {
    for &t in &[0u64, 1431648000, 4102444800] {
        let plan = plan_request(&CacheState { exists: true, is_file: true, mtime_secs: Some(t) })
            .unwrap();
        let header = plan.if_modified_since.unwrap();
        assert_eq!(parse_http_timestamp(&header), Some(t));
    }
}

#[test]
fn parse_timestamp_rejects_other_shapes() {
    assert_eq!(parse_http_timestamp("not a date"), None);
    assert_eq!(parse_http_timestamp(""), None);
    assert_eq!(parse_http_timestamp("2015-05-15 00:00:00"), None);
}

#[test]
fn cache_validation_scenario() {
    // a cached file with mtime T, a server that answers 304 to
    // If-Modified-Since: T: the cached bytes are reused and nothing is
    // downloaded or written
    let t: u64 = 1431648000;
    let plan = plan_request(&CacheState { exists: true, is_file: true, mtime_secs: Some(t) })
        .unwrap();
    assert!(plan.if_modified_since.is_some());
    let action = classify_status(304).unwrap();
    assert_eq!(action, FetchAction::UseCache);
    assert_ne!(action, FetchAction::Download);
}
