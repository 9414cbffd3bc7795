//! Object-store locations: parsing URLs into bucket and key, naming keys.

use vstd::prelude::*;

use crate::text::{
    decimal, decimal_text, has_prefix, joined, split_first, split_once, strip_leading,
    trim_leading,
};

verus! {

/// Why a URL names no object.
#[derive(Debug, Clone, Copy, PartialEq, Eq, Structural)]
pub enum LocationError {
    /// An `http(s)` URL that does not parse.
    InvalidUrl,
    /// A URL of no accepted form, or one without both a bucket and a key.
    Unrecognized,
}

/// The path of a URL, or `None` where the text does not parse as one.
pub uninterp spec fn url_path_of(url: Seq<char>) -> Option<Seq<char>>;

/// Relies on `url::Url::parse` and `url::Url::path`: a text that parses
/// gives its path, which depends on the text alone.
#[verifier::external_body]
fn url_path(url: &str) -> (r: Option<String>)
    ensures
        r matches Some(p) ==> url_path_of(url@) == Some(p@),
        r is None ==> url_path_of(url@) is None,
{
    match url::Url::parse(url) {
        Ok(u) => Some(u.path().to_string()),
        Err(_) => None,
    }
}

/// Text `s` begins with `p`.
pub open spec fn starts_with(s: Seq<char>, p: Seq<char>) -> bool {
    p.len() <= s.len() && s.take(p.len() as int) == p
}

/// Bucket and key of a URL path: the leading slashes dropped, then split at
/// the first remaining slash.
pub open spec fn path_location(path: Seq<char>) -> Option<(Seq<char>, Seq<char>)> {
    split_first(trim_leading(path, '/'), '/')
}

/// Bucket and key named by a URL: `s3://<bucket>/<key>`, or
/// `http(s)://<host>[:port]/<bucket>/<key>`.
pub open spec fn url_location(url: Seq<char>) -> Result<(Seq<char>, Seq<char>), LocationError> {
    if starts_with(url, "s3://"@) && split_first(url.skip(5), '/') is Some {
        Ok(split_first(url.skip(5), '/')->0)
    } else if starts_with(url, "http://"@) || starts_with(url, "https://"@) {
        match url_path_of(url) {
            None => Err(LocationError::InvalidUrl),
            Some(p) => match path_location(p) {
                Some(bk) => Ok(bk),
                None => Err(LocationError::Unrecognized),
            },
        }
    } else {
        Err(LocationError::Unrecognized)
    }
}

/// The view of a parsed location.
pub open spec fn location_view(r: Result<(String, String), LocationError>) -> Result<
    (Seq<char>, Seq<char>),
    LocationError,
> {
    match r {
        Ok(p) => Ok((p.0@, p.1@)),
        Err(e) => Err(e),
    }
}

/// Bucket and key of a URL path.
pub fn split_path(path: &str) -> (r: Option<(String, String)>)
    ensures
        r matches Some(p) ==> path_location(path@) == Some((p.0@, p.1@)),
        r is None ==> path_location(path@) is None,
{
    split_once(strip_leading(path, '/'), '/')
}

/// Bucket and key named by an object-store URL.
pub fn parse_s3_url(url: &str) -> (r: Result<(String, String), LocationError>)
    ensures
        location_view(r) == url_location(url@),
{
    proof {
        reveal_strlit("s3://");
    }
    if has_prefix(url, "s3://") {
        let n = url.unicode_len();
        let rest = url.substring_char(5, n);
        assert(rest@ =~= url@.skip(5));
        match split_once(rest, '/') {
            Some(p) => {
                return Ok(p);
            },
            None => {},
        }
    }
    if has_prefix(url, "http://") || has_prefix(url, "https://") {
        match url_path(url) {
            None => Err(LocationError::InvalidUrl),
            Some(path) => match split_path(path.as_str()) {
                Some(p) => Ok(p),
                None => Err(LocationError::Unrecognized),
            },
        }
    } else {
        Err(LocationError::Unrecognized)
    }
}

/// The key of an artifact: `<prefix>/<track>/<unix_ms>-<suffix>`.
pub open spec fn artifact_key(
    prefix: Seq<char>,
    track_id: Seq<char>,
    unix_ms: nat,
    suffix: Seq<char>,
) -> Seq<char> {
    prefix + "/"@ + track_id + "/"@ + decimal_text(unix_ms) + "-"@ + suffix
}

/// The key of an artifact made at `unix_ms` milliseconds after the epoch.
pub fn generate_key(prefix: &str, track_id: &str, unix_ms: u64, suffix: &str) -> (r: String)
    ensures
        r@ == artifact_key(prefix@, track_id@, unix_ms as nat, suffix@),
{
    let mut s = joined(prefix, "/");
    s.append(track_id);
    s.append("/");
    let ms = decimal(unix_ms);
    s.append(ms.as_str());
    s.append("-");
    s.append(suffix);
    s
}

/// The URL of an uploaded object: `<endpoint>/<bucket>/<key>`.
pub fn object_url(endpoint: &str, bucket: &str, key: &str) -> (r: String)
    ensures
        r@ == endpoint@ + "/"@ + bucket@ + "/"@ + key@,
{
    let mut s = joined(endpoint, "/");
    s.append(bucket);
    s.append("/");
    s.append(key);
    s
}

/// The URL of a job's webhook endpoint: `<api>/webhooks/jobs/<job>/<endpoint>`.
pub fn webhook_url(api: &str, job_id: &str, endpoint: &str) -> (r: String)
    ensures
        r@ == api@ + "/webhooks/jobs/"@ + job_id@ + "/"@ + endpoint@,
{
    let mut s = joined(api, "/webhooks/jobs/");
    s.append(job_id);
    s.append("/");
    s.append(endpoint);
    s
}

} // verus!
