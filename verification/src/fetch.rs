//! Decisions of the sync fetcher: conditional re-download of remote
//! database archives with cache validation by modification time.
//!
//! The network and file I/O live with the caller, one task per source; this
//! module fixes what each task sends and how it acts on each reply: which
//! `If-Modified-Since` header to issue for a cached file, what a response
//! status means, and which modification time to stamp on a fresh download.

use vstd::prelude::*;

verus! {

/// What the cached archive file of one source looks like before a fetch.
pub struct CacheState {
    /// A file-system object exists under the cache path.
    pub exists: bool,
    /// That object is a regular file.
    pub is_file: bool,
    /// Its modification time in whole seconds since the epoch, where the
    /// file system reports one.
    pub mtime_secs: Option<u64>,
}

/// The conditional request to issue for one source.
#[derive(Debug)]
pub struct RequestPlan {
    /// Value of the `If-Modified-Since` header, where one is sent.
    pub if_modified_since: Option<String>,
}

/// How the fetcher acts on a response.
#[derive(Debug, Clone, Copy, PartialEq, Eq, Structural)]
pub enum FetchAction {
    /// `304 Not Modified`: reuse the cached bytes; nothing is written.
    UseCache,
    /// A success status with a body: stream it to the cache file.
    Download,
}

/// A failure of one source's fetch; sibling sources are unaffected.
#[derive(Debug, Clone, Copy, PartialEq, Eq, Structural)]
pub enum FetchError {
    /// The cache path exists but is not a regular file.
    NotAFile,
    /// The server answered with a status that is neither a success nor
    /// `304 Not Modified`.
    HttpStatus(u16),
}

/// The RFC-1123 rendering of a timestamp, where chrono can represent it.
pub uninterp spec fn http_date_chars(secs: u64) -> Option<Seq<char>>;

/// Relies on chrono's DateTime::from_timestamp and its `format`: rendering
/// a timestamp as an RFC-1123 date (`Wed, 21 Oct 2015 07:28:00 GMT`)
/// depends on the timestamp alone; chrono rejects out-of-range seconds.
#[verifier::external_body]
fn format_http_timestamp(secs: u64) -> (r: Option<String>)
    requires
        secs <= i64::MAX as u64,
    ensures
        r.deep_view() == http_date_chars(secs),
{
    let dt = chrono::DateTime::from_timestamp(secs as i64, 0)?;
    Some(dt.format("%a, %d %b %Y %H:%M:%S GMT").to_string())
}

/// The seconds since the epoch chrono reads from an RFC-1123 date, where
/// it accepts the text.
pub uninterp spec fn http_date_secs(s: Seq<char>) -> Option<i64>;

/// Relies on chrono's NaiveDateTime::parse_from_str (with `and_utc` and
/// `timestamp`): the instant an RFC-1123 date denotes depends on the text
/// alone.
#[verifier::external_body]
fn parse_http_date(s: &str) -> (r: Option<i64>)
    ensures
        r == http_date_secs(s@),
{
    let dt = chrono::NaiveDateTime::parse_from_str(s, "%a, %d %b %Y %H:%M:%S GMT").ok()?;
    Some(dt.and_utc().timestamp())
}

/// The modification time to stamp on a fresh download, taken from the
/// response's `Last-Modified` value: present exactly where chrono accepts
/// the text and the instant is not before the epoch.
pub open spec fn spec_mtime_update(s: Seq<char>) -> Option<u64> {
    match http_date_secs(s) {
        Some(ts) => if ts >= 0 {
            Some(ts as u64)
        } else {
            None
        },
        None => None,
    }
}

/// Read a `Last-Modified` header value into a cache timestamp; setting it
/// is best effort, so absence only degrades later cache validation.
pub fn parse_http_timestamp(s: &str) -> (r: Option<u64>)
    ensures
        r == spec_mtime_update(s@),
{
    match parse_http_date(s) {
        Some(ts) => if ts >= 0 {
            Some(ts as u64)
        } else {
            None
        },
        None => None,
    }
}

/// The header a cache state calls for: an `If-Modified-Since` carrying the
/// cached file's modification time where a cached file with a
/// representable time exists, no header otherwise; a cache path occupied
/// by something other than a regular file fails the source.
pub open spec fn spec_plan(c: CacheState) -> Result<Option<Seq<char>>, FetchError> {
    if c.exists && !c.is_file {
        Err(FetchError::NotAFile)
    } else if c.exists {
        match c.mtime_secs {
            Some(t) => if t <= i64::MAX as u64 {
                Ok(http_date_chars(t))
            } else {
                Ok(None)
            },
            None => Ok(None),
        }
    } else {
        Ok(None)
    }
}

/// Decide the conditional request to issue for one source.
pub fn plan_request(c: &CacheState) -> (r: Result<RequestPlan, FetchError>)
    ensures
        match r {
            Ok(p) => spec_plan(*c) == Ok::<Option<Seq<char>>, FetchError>(
                p.if_modified_since.deep_view(),
            ),
            Err(e) => spec_plan(*c) == Err::<Option<Seq<char>>, FetchError>(e),
        },
{
    if c.exists && !c.is_file {
        return Err(FetchError::NotAFile);
    }
    let header = if c.exists {
        match c.mtime_secs {
            Some(t) => {
                if t <= 0x7fff_ffff_ffff_ffff {
                    format_http_timestamp(t)
                } else {
                    None
                }
            },
            None => None,
        }
    } else {
        None
    };
    Ok(RequestPlan { if_modified_since: header })
}

/// What a response status means: `304 Not Modified` reuses the cache, a
/// success status downloads the body, and any other status is a hard
/// failure for the source (siblings are unaffected).
pub open spec fn spec_classify(status: u16) -> Result<FetchAction, FetchError> {
    if status == 304 {
        Ok(FetchAction::UseCache)
    } else if 200 <= status <= 299 {
        Ok(FetchAction::Download)
    } else {
        Err(FetchError::HttpStatus(status))
    }
}

/// Decide how to act on one source's response status.
pub fn classify_status(status: u16) -> (r: Result<FetchAction, FetchError>)
    ensures
        r == spec_classify(status),
{
    if status == 304 {
        Ok(FetchAction::UseCache)
    } else if 200 <= status && status <= 299 {
        Ok(FetchAction::Download)
    } else {
        Err(FetchError::HttpStatus(status))
    }
}

/// Cache validation: a server that answers `304 Not Modified` to the
/// conditional request makes the fetcher reuse the cached bytes — the
/// reply classifies as `UseCache`, never as `Download`, so nothing is
/// downloaded and nothing is written to disk.
pub proof fn lemma_not_modified_uses_cache()
    ensures
        spec_classify(304) == Ok::<FetchAction, FetchError>(FetchAction::UseCache),
        forall|status: u16|
            #[trigger] spec_classify(status) == Ok::<FetchAction, FetchError>(
                FetchAction::Download,
            ) ==> status != 304,
{
}

} // verus!
