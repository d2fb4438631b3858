//! Where a feed's text comes from: refused once expired, read from its cache
//! while fresh, downloaded otherwise.

use vstd::prelude::*;

verus! {

/// How long a cached feed stays fresh, in seconds.
pub const CACHE_TTL_SECS: i64 = 3600;

/// A configured feed. Times are Unix timestamps in seconds.
#[derive(Debug)]
pub struct Subscription {
    pub name: String,
    /// Path of the cache file.
    pub cache: String,
    pub url: String,
    /// Patterns whose matches are erased from node names.
    pub replacements: Vec<String>,
    /// After this time the feed is refused.
    pub expire: Option<i64>,
}

/// What to do to obtain a feed's text.
#[derive(Debug, Clone, Copy, PartialEq, Eq, Structural)]
pub enum FetchStep {
    /// The feed has expired: touch neither network nor disk.
    Expired,
    /// The cache file is fresh: read it.
    ReadCache,
    /// Download the feed, then write it to the cache file.
    Download,
}

/// Why a feed's text could not be had.
#[derive(Debug)]
pub enum FetchError {
    /// The feed expired at this time.
    Expired(i64),
    /// The download answered with this HTTP status instead of 200.
    BadStatus(u16),
    /// Reading, downloading or writing failed.
    Io(String),
}

/// The step for a feed with expiry `expire`, at time `now`, with its cache
/// file last modified at `cache_modified` (none when the file is missing).
pub open spec fn fetch_step(expire: Option<i64>, now: i64, cache_modified: Option<i64>) -> FetchStep {
    if expire matches Some(t) && now > t {
        FetchStep::Expired
    } else if cache_modified matches Some(m) && now - m < CACHE_TTL_SECS {
        FetchStep::ReadCache
    } else {
        FetchStep::Download
    }
}

impl Subscription {
    /// The step to take at time `now`, the cache file last modified at
    /// `cache_modified` (none when it does not exist).
    pub fn plan(&self, now: i64, cache_modified: Option<i64>) -> (r: FetchStep)
        ensures
            r == fetch_step(self.expire, now, cache_modified),
    {
        if let Some(t) = self.expire {
            if now > t {
                return FetchStep::Expired;
            }
        }
        if let Some(m) = cache_modified {
            if (now as i128) - (m as i128) < CACHE_TTL_SECS as i128 {
                return FetchStep::ReadCache;
            }
        }
        FetchStep::Download
    }

    /// The error for an expired feed.
    pub fn expired(&self) -> (r: FetchError)
        requires
            self.expire is Some,
        ensures
            r == FetchError::Expired(self.expire->0),
    {
        FetchError::Expired(self.expire.unwrap())
    }
}

/// The feed's text from a download's status and body: the body on 200.
pub fn accept_download(status: u16, body: String) -> (r: Result<String, FetchError>)
    ensures
        status == 200 ==> r == Ok::<String, FetchError>(body),
        status != 200 ==> r == Err::<String, FetchError>(FetchError::BadStatus(status)),
{
    if status == 200 {
        Ok(body)
    } else {
        Err(FetchError::BadStatus(status))
    }
}

} // verus!
