use luminol::location::{query_from_search, web_location, RawLocation};

#[test]
fn search_loses_question_mark() {
    assert_eq!(query_from_search("?a=1&b"), "a=1&b");
    assert_eq!(query_from_search("a=1"), "");
    assert_eq!(query_from_search(""), "");
    assert_eq!(query_from_search("?"), "");
    assert_eq!(query_from_search("??x"), "?x");
    assert_eq!(query_from_search("?é"), "é");
}

#[test]
fn location_is_decoded() {
    let raw = RawLocation {
        href: "http://example.com:8080/a%20b?x=1%2C2#frag%21".to_string(),
        protocol: "http:".to_string(),
        host: "example.com:8080".to_string(),
        hostname: "example.com".to_string(),
        port: "8080".to_string(),
        hash: "#frag%21".to_string(),
        search: "?x=1%2C2&y".to_string(),
        origin: "http://example.com:8080".to_string(),
    };
    let loc = web_location(&raw);
    assert_eq!(loc.url, "http://example.com:8080/a b?x=1,2#frag!");
    assert_eq!(loc.protocol, "http:");
    assert_eq!(loc.host, "example.com:8080");
    assert_eq!(loc.hostname, "example.com");
    assert_eq!(loc.port, "8080");
    assert_eq!(loc.hash, "#frag!");
    assert_eq!(loc.query, "x=1%2C2&y");
    assert_eq!(loc.origin, "http://example.com:8080");
    assert_eq!(
        loc.query_map.entries().clone(),
        vec![
            ("x".to_string(), vec!["1,2".to_string()]),
            ("y".to_string(), vec![String::new()])
        ]
    );
}
