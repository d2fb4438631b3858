use renamer::feed::{Airport, FeedError};
use renamer::fetch::{accept_download, FetchError};
use renamer::merge::{Failure, Merge};
use renamer::rename::RenameError;

fn vmess_uri(ps: &str) -> String {
    let json = format!("{{\"ps\":{},\"port\":1}}", serde_json::Value::String(ps.to_string()));
    format!("vmess://{}", base64::encode(json))
}

fn feed(names: &[&str]) -> String {
    base64::encode(names.iter().map(|n| vmess_uri(n)).collect::<Vec<_>>().join("\n"))
}

#[test]
fn failed_fetch_is_isolated() {
    let mut m = Merge::new();
    m.add("feed1", Ok(feed(&["a", "b"])), &vec![]);
    m.add("feed2", accept_download(500, String::new()), &vec![]);
    m.add("feed3", Ok(feed(&["c", "d", "剩余流量 1GB", "e"])), &vec![]);
    assert_eq!(m.results.len(), 3);
    assert_eq!(m.results[0].name, "feed1");
    assert!(matches!(m.results[0].outcome, Ok(2)));
    assert_eq!(m.results[1].name, "feed2");
    assert!(matches!(m.results[1].outcome, Err(Failure::Fetch(FetchError::BadStatus(500)))));
    assert!(matches!(m.results[2].outcome, Ok(3)));
    assert_eq!(m.total(), 5);
    let names: Vec<String> = m.nodes.iter().map(|n| n.name().unwrap()).collect();
    assert_eq!(names, vec!["a - feed1", "b - feed1", "c - feed3", "d - feed3", "e - feed3"]);
}

#[test]
fn decode_and_rename_failures_are_recorded() {
    let mut m = Merge::new();
    m.add("bad", Ok(base64::encode("nonsense")), &vec![]);
    m.add("regex", Ok(feed(&["a"])), &vec!["(".to_string()]);
    m.add("io", Err(FetchError::Io("disk".to_string())), &vec![]);
    assert_eq!(m.total(), 0);
    assert!(matches!(m.results[0].outcome, Err(Failure::Feed(FeedError::BadNode(_)))));
    assert!(matches!(m.results[1].outcome, Err(Failure::Rename(RenameError::RegexCompile(_)))));
    assert!(matches!(m.results[2].outcome, Err(Failure::Fetch(FetchError::Io(_)))));
}

#[test]
fn dedup_is_per_feed() {
    let mut m = Merge::new();
    m.add("F1", Ok(feed(&["A"])), &vec![]);
    m.add("F2", Ok(feed(&["A", "A"])), &vec![]);
    let names: Vec<String> = m.nodes.iter().map(|n| n.name().unwrap()).collect();
    assert_eq!(names, vec!["A - F1", "A - F2", "A(2) - F2"]);
}

#[test]
fn output_reads_back_as_a_feed() {
    let mut m = Merge::new();
    m.add("F", Ok(feed(&["x", "y"])), &vec![]);
    let out = m.output();
    let text = String::from_utf8(base64::decode(&out).unwrap()).unwrap();
    assert_eq!(text.lines().count(), 2);
    assert!(text.lines().all(|l| l.starts_with("vmess://")));
    let back = Airport::new("G", &out).unwrap();
    assert_eq!(back.nodes.len(), 2);
    assert_eq!(back.nodes[0].name().unwrap(), "x - F");
    assert_eq!(back.nodes[1].name().unwrap(), "y - F");
}

#[test]
fn empty_merge_outputs_empty_text() {
    assert_eq!(Merge::new().output(), "");
}
