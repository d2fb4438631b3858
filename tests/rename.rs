use renamer::feed::Airport;
use renamer::node::Node;
use renamer::rename::{NameCounter, RenameError};

fn vmess_uri(ps: &str) -> String {
    let json = format!("{{\"ps\":{},\"add\":\"a.example\"}}", serde_json::Value::String(ps.to_string()));
    format!("vmess://{}", base64::encode(json))
}

fn ssr_uri(ps: &str) -> String {
    let text = format!("h:1:origin:none:plain:cA/?remarks={}", base64::encode_config(ps, base64::URL_SAFE_NO_PAD));
    format!("ssr://{}", base64::encode_config(text, base64::URL_SAFE_NO_PAD))
}

fn airport(feed: &str, uris: &[String]) -> Airport {
    Airport::new(feed, &base64::encode(uris.join("\n"))).unwrap()
}

fn names(a: &Airport) -> Vec<String> {
    a.nodes.iter().map(|n| n.name().unwrap()).collect()
}

#[test]
fn dedup_numbers_repeated_names() {
    let mut a = airport("X", &[vmess_uri("A"), vmess_uri("A"), vmess_uri("B")]);
    a.rename(&vec![]).unwrap();
    assert_eq!(names(&a), vec!["A - X", "A(2) - X", "B - X"]);
}

#[test]
fn dedup_counts_cleaned_names_across_kinds() {
    let mut a = airport(
        "Feed",
        &[vmess_uri("HK 01 [x1]"), ssr_uri("HK 01"), vmess_uri(" HK 01 "), ssr_uri("JP"), vmess_uri("HK 01")],
    );
    a.rename(&vec![r"\[x\d\]".to_string()]).unwrap();
    assert_eq!(
        names(&a),
        vec!["HK 01 - Feed", "HK 01(2) - Feed", "HK 01(3) - Feed", "JP - Feed", "HK 01(4) - Feed"]
    );
    assert!(matches!(a.nodes[1], Node::Ssr { .. }));
}

#[test]
fn dedup_reaches_two_digit_counts() {
    let uris: Vec<String> = (0..12).map(|_| vmess_uri("N")).collect();
    let mut a = airport("F", &uris);
    a.rename(&vec![]).unwrap();
    assert_eq!(names(&a)[0], "N - F");
    assert_eq!(names(&a)[11], "N(12) - F");
}

#[test]
fn blacklisted_name_is_dropped() {
    let mut a = airport("X", &[vmess_uri("HK 01"), vmess_uri("过期时间：2030-01-01"), ssr_uri("US 02")]);
    a.rename(&vec!["过期".to_string()]).unwrap();
    assert_eq!(names(&a), vec!["HK 01 - X", "US 02 - X"]);
}

#[test]
fn every_blacklisted_word_drops() {
    let words = ["剩余", "规则", "购买", "收入", "流量", "过期", "链接", "官网", "域名"];
    let mut uris: Vec<String> = words.iter().map(|w| vmess_uri(&format!("a{}b", w))).collect();
    uris.push(vmess_uri("kept"));
    let mut a = airport("X", &uris);
    a.rename(&vec![]).unwrap();
    assert_eq!(names(&a), vec!["kept - X"]);
}

#[test]
fn replacements_apply_in_order_then_trim() {
    let mut a = airport("X", &[vmess_uri("  🇭🇰 HK-01 | 1x  ")]);
    a.rename(&vec![r"\|.*$".to_string(), "HK-".to_string()]).unwrap();
    assert_eq!(names(&a), vec!["🇭🇰 01 - X"]);
}

#[test]
fn unreadable_name_drops_only_that_node() {
    let no_ps = format!("vmess://{}", base64::encode("{\"add\":\"x\"}"));
    let mut a = airport("X", &[vmess_uri("A"), no_ps, vmess_uri("B")]);
    a.rename(&vec![]).unwrap();
    assert_eq!(names(&a), vec!["A - X", "B - X"]);
}

#[test]
fn bad_pattern_fails_before_touching_nodes() {
    let mut a = airport("X", &[vmess_uri("A")]);
    match a.rename(&vec!["ok".to_string(), "(".to_string(), "[".to_string()]) {
        Err(RenameError::RegexCompile(p)) => assert_eq!(p, "("),
        other => panic!("unexpected {:?}", other),
    }
    assert_eq!(names(&a), vec!["A"]);
}

#[test]
fn name_counter_numbers_from_second_time() {
    let chars = |s: &str| s.chars().collect::<Vec<char>>();
    let text = |v: Vec<char>| v.into_iter().collect::<String>();
    let mut c = NameCounter::new();
    assert_eq!(text(c.next_name(&chars("A"), &chars("X"))), "A - X");
    assert_eq!(text(c.next_name(&chars("B"), &chars("X"))), "B - X");
    assert_eq!(text(c.next_name(&chars("A"), &chars("X"))), "A(2) - X");
    assert_eq!(text(c.next_name(&chars(""), &chars("X"))), " - X");
    assert_eq!(text(c.next_name(&chars("A"), &chars("X"))), "A(3) - X");
}
