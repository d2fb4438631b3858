use renamer::node::{NameError, Node, UriError};

fn vmess_uri(json: &str) -> String {
    format!("vmess://{}", base64::encode(json))
}

fn ssr_uri(text: &str) -> String {
    format!("ssr://{}", base64::encode_config(text, base64::URL_SAFE_NO_PAD))
}

fn remarks(name: &str) -> String {
    base64::encode_config(name, base64::URL_SAFE_NO_PAD)
}

#[test]
fn vmess_decodes_members_and_name() {
    let node = Node::decode(&vmess_uri(r#"{"ps":"  HK 01  ","add":"1.2.3.4","port":443}"#)).unwrap();
    match &node {
        Node::VMess { members } => {
            assert_eq!(members.len(), 3);
            assert!(members.contains(&("port".to_string(), "443".to_string())));
            assert!(members.contains(&("add".to_string(), "\"1.2.3.4\"".to_string())));
        }
        _ => panic!("expected a vmess node"),
    }
    assert_eq!(node.name().unwrap(), "HK 01");
}

#[test]
fn ssr_decodes_path_and_query() {
    let text = format!("host:443:origin:aes-256-cfb:plain:cGFzcw/?remarks={}&group=Zw", remarks(" JP 02 "));
    let node = Node::decode(&ssr_uri(&text)).unwrap();
    match &node {
        Node::Ssr { path, query } => {
            assert_eq!(path, "host:443:origin:aes-256-cfb:plain:cGFzcw/");
            assert_eq!(query.len(), 2);
            assert_eq!(query[1], ("group".to_string(), "Zw".to_string()));
        }
        _ => panic!("expected an ssr node"),
    }
    assert_eq!(node.name().unwrap(), "JP 02");
}

#[test]
fn ssr_query_pair_without_value_and_repeated_key() {
    let node = Node::decode(&ssr_uri("p?a=1&flag&a=2&b=x=y")).unwrap();
    match &node {
        Node::Ssr { path, query } => {
            assert_eq!(path, "p");
            assert_eq!(
                query,
                &vec![
                    ("a".to_string(), "2".to_string()),
                    ("flag".to_string(), String::new()),
                    ("b".to_string(), "x=y".to_string()),
                ]
            );
        }
        _ => panic!("expected an ssr node"),
    }
    assert!(matches!(node.name(), Err(NameError::Missing)));
}

#[test]
fn ssr_round_trip() {
    let text = format!("srv:8388:auth_sha1:rc4-md5:tls1.2_ticket_auth:cGFzcw/?remarks={}&group=Zw&obfsparam=", remarks("US 03"));
    let node = Node::decode(&ssr_uri(&text)).unwrap();
    let uri = node.to_string();
    assert!(uri.starts_with("ssr://"));
    let again = Node::decode(&uri).unwrap();
    match (&node, &again) {
        (Node::Ssr { path: p1, query: q1 }, Node::Ssr { path: p2, query: q2 }) => {
            assert_eq!(p1, p2);
            assert_eq!(q1, q2);
        }
        _ => panic!("expected ssr nodes"),
    }
}

#[test]
fn ssr_encoding_uses_padded_url_safe_base64() {
    let node = Node::Ssr {
        path: "a".to_string(),
        query: vec![("k".to_string(), "v".to_string())],
    };
    let uri = node.to_string();
    assert_eq!(uri, format!("ssr://{}", base64::encode_config("a?k=v", base64::URL_SAFE)));
    assert_eq!(uri, "ssr://YT9rPXY=");
}

#[test]
fn vmess_round_trip() {
    let node = Node::decode(&vmess_uri(r#"{"v":"2","ps":"SG 04","add":"x.example","port":"443","tls":{"on":true}}"#)).unwrap();
    let uri = node.to_string();
    assert!(uri.starts_with("vmess://"));
    let again = Node::decode(&uri).unwrap();
    match (&node, &again) {
        (Node::VMess { members: m1 }, Node::VMess { members: m2 }) => assert_eq!(m1, m2),
        _ => panic!("expected vmess nodes"),
    }
    assert_eq!(again.name().unwrap(), "SG 04");
}

#[test]
fn vmess_encoding_is_compact_json() {
    let node = Node::VMess {
        members: vec![("ps".to_string(), "\"a\"".to_string()), ("port".to_string(), "1".to_string())],
    };
    assert_eq!(node.to_string(), format!("vmess://{}", base64::encode("{\"ps\":\"a\",\"port\":1}")));
}

#[test]
fn set_name_on_both_kinds() {
    let mut v = Node::decode(&vmess_uri(r#"{"ps":"old","port":1}"#)).unwrap();
    v.set_name("new \"one\"");
    assert_eq!(v.name().unwrap(), "new \"one\"");
    match &v {
        Node::VMess { members } => assert!(members.contains(&("ps".to_string(), "\"new \\\"one\\\"\"".to_string()))),
        _ => panic!("expected a vmess node"),
    }
    let mut s = Node::decode(&ssr_uri("p?remarks=b2xk")).unwrap();
    s.set_name("香港 01");
    assert_eq!(s.name().unwrap(), "香港 01");
    match &s {
        Node::Ssr { query, .. } => assert_eq!(query[0].1, remarks("香港 01")),
        _ => panic!("expected an ssr node"),
    }
}

#[test]
fn set_name_adds_missing_member() {
    let mut v = Node::decode(&vmess_uri(r#"{"port":1}"#)).unwrap();
    assert!(matches!(v.name(), Err(NameError::Missing)));
    v.set_name("x");
    assert_eq!(v.name().unwrap(), "x");
}

#[test]
fn name_errors() {
    let v = Node::decode(&vmess_uri(r#"{"ps":12}"#)).unwrap();
    assert!(matches!(v.name(), Err(NameError::NotString)));
    let s = Node::decode(&ssr_uri("p?remarks=@@")).unwrap();
    assert!(matches!(s.name(), Err(NameError::InvalidBase64)));
    let bad = base64::encode_config([0xffu8, 0xfe], base64::URL_SAFE_NO_PAD);
    let s = Node::decode(&ssr_uri(&format!("p?remarks={}", bad))).unwrap();
    assert!(matches!(s.name(), Err(NameError::InvalidUtf8)));
}

#[test]
fn decode_errors() {
    assert!(matches!(Node::decode("no separator here"), Err(UriError::MalformedUri)));
    assert!(matches!(Node::decode("vmess://abc://def"), Err(UriError::MalformedUri)));
    match Node::decode("trojan://abc") {
        Err(UriError::UnsupportedProtocol(t)) => assert_eq!(t, "trojan"),
        other => panic!("unexpected {:?}", other),
    }
    assert!(matches!(Node::decode("vmess://%%%"), Err(UriError::InvalidBase64)));
    let not_utf8 = base64::encode([0xc3u8, 0x28]);
    assert!(matches!(Node::decode(&format!("vmess://{}", not_utf8)), Err(UriError::InvalidUtf8)));
    assert!(matches!(Node::decode(&vmess_uri("[1,2]")), Err(UriError::InvalidJson)));
    assert!(matches!(Node::decode(&vmess_uri("{nope")), Err(UriError::InvalidJson)));
    assert!(matches!(Node::decode(&ssr_uri("no-question-mark")), Err(UriError::MissingQuery)));
}

#[test]
fn ssr_text_splits_at_first_question_mark() {
    match Node::from_ssr_text("p?k=v?w&x") {
        Some(Node::Ssr { path, query }) => {
            assert_eq!(path, "p");
            assert_eq!(query, vec![("k".to_string(), "v?w".to_string()), ("x".to_string(), String::new())]);
        }
        other => panic!("unexpected {:?}", other),
    }
    match Node::from_ssr_text("p?") {
        Some(Node::Ssr { query, .. }) => assert_eq!(query, vec![(String::new(), String::new())]),
        other => panic!("unexpected {:?}", other),
    }
    assert!(Node::from_ssr_text("no query").is_none());
}
