use renamer::feed::{Airport, FeedError};
use renamer::node::UriError;

fn vmess_uri(ps: &str) -> String {
    let json = format!("{{\"ps\":{}}}", serde_json::Value::String(ps.to_string()));
    format!("vmess://{}", base64::encode(json))
}

#[test]
fn feed_decodes_lines_in_order() {
    let text = format!("{}\r\n\n{}\n", vmess_uri("one"), vmess_uri("two"));
    let a = Airport::new("F", &base64::encode(text)).unwrap();
    assert_eq!(a.name, "F");
    assert_eq!(a.nodes.len(), 2);
    assert_eq!(a.nodes[0].name().unwrap(), "one");
    assert_eq!(a.nodes[1].name().unwrap(), "two");
}

#[test]
fn empty_feed_has_no_nodes() {
    let a = Airport::new("F", "").unwrap();
    assert!(a.nodes.is_empty());
}

#[test]
fn malformed_line_fails_whole_feed() {
    let text = format!("{}\nthis line has no separator\n{}", vmess_uri("one"), vmess_uri("two"));
    match Airport::new("F", &base64::encode(text)) {
        Err(FeedError::BadNode(UriError::MalformedUri)) => {}
        other => panic!("unexpected {:?}", other),
    }
}

#[test]
fn first_bad_line_gives_the_error() {
    let text = format!("{}\nfoo://x\nbar", vmess_uri("one"));
    match Airport::new("F", &base64::encode(text)) {
        Err(FeedError::BadNode(UriError::UnsupportedProtocol(t))) => assert_eq!(t, "foo"),
        other => panic!("unexpected {:?}", other),
    }
}

#[test]
fn feed_encoding_errors() {
    assert!(matches!(Airport::new("F", "not base64!"), Err(FeedError::InvalidBase64)));
    assert!(matches!(Airport::new("F", &base64::encode([0xffu8])), Err(FeedError::InvalidUtf8)));
}

#[test]
fn feed_text_decodes_without_base64() {
    let text = format!("\n{}\n\n", vmess_uri("only"));
    let a = Airport::from_text("T", &text).unwrap();
    assert_eq!(a.name, "T");
    assert_eq!(a.nodes.len(), 1);
    assert!(matches!(Airport::from_text("T", "x://y"), Err(UriError::UnsupportedProtocol(_))));
}
