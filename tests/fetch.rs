use renamer::fetch::{accept_download, FetchError, FetchStep, Subscription, CACHE_TTL_SECS};

fn sub(expire: Option<i64>) -> Subscription {
    Subscription {
        name: "F".to_string(),
        cache: "cache/f.txt".to_string(),
        url: "https://feed.example/sub".to_string(),
        replacements: vec![],
        expire,
    }
}

const NOW: i64 = 1_700_000_000;

#[test]
fn expired_feed_is_refused_before_any_access() {
    let s = sub(Some(NOW - 1));
    assert_eq!(s.plan(NOW, Some(NOW - 10)), FetchStep::Expired);
    assert_eq!(s.plan(NOW, None), FetchStep::Expired);
    assert!(matches!(s.expired(), FetchError::Expired(t) if t == NOW - 1));
}

#[test]
fn feed_not_yet_expired_goes_on() {
    assert_eq!(sub(Some(NOW)).plan(NOW, None), FetchStep::Download);
    assert_eq!(sub(Some(NOW + 60)).plan(NOW, Some(NOW - 60)), FetchStep::ReadCache);
}

#[test]
fn fresh_cache_is_read() {
    assert_eq!(sub(None).plan(NOW, Some(NOW - 30 * 60)), FetchStep::ReadCache);
    assert_eq!(sub(None).plan(NOW, Some(NOW - CACHE_TTL_SECS + 1)), FetchStep::ReadCache);
}

#[test]
fn stale_or_missing_cache_downloads() {
    assert_eq!(sub(None).plan(NOW, Some(NOW - 2 * 3600)), FetchStep::Download);
    assert_eq!(sub(None).plan(NOW, Some(NOW - CACHE_TTL_SECS)), FetchStep::Download);
    assert_eq!(sub(None).plan(NOW, None), FetchStep::Download);
}

#[test]
fn extreme_times_do_not_overflow() {
    assert_eq!(sub(None).plan(i64::MAX, Some(i64::MIN)), FetchStep::Download);
    assert_eq!(sub(None).plan(i64::MIN, Some(i64::MAX)), FetchStep::ReadCache);
}

#[test]
fn download_status_decides() {
    assert_eq!(accept_download(200, "body".to_string()).unwrap(), "body");
    assert!(matches!(accept_download(500, "oops".to_string()), Err(FetchError::BadStatus(500))));
    assert!(matches!(accept_download(404, String::new()), Err(FetchError::BadStatus(404))));
}
