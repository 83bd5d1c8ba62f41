use luminol::percent::{percent_decode, percent_decode_slice};
use luminol::query::parse_query_map;
use luminol::query_map::{build_query_map, QueryMap};

fn entries(map: &QueryMap) -> Vec<(String, Vec<String>)> {
    map.entries().clone()
}

fn expect(pairs: &[(&str, &[&str])]) -> Vec<(String, Vec<String>)> {
    pairs
        .iter()
        .map(|(k, vs)| (k.to_string(), vs.iter().map(|v| v.to_string()).collect()))
        .collect()
}

#[test]
fn test_parse_query() {
    assert_eq!(entries(&parse_query_map("")), expect(&[]));
    assert_eq!(entries(&parse_query_map("foo")), expect(&[("foo", &[""])]));
    assert_eq!(entries(&parse_query_map("foo=bar")), expect(&[("foo", &["bar"])]));
    assert_eq!(
        entries(&parse_query_map("foo=bar&baz=42")),
        expect(&[("baz", &["42"]), ("foo", &["bar"])])
    );
    assert_eq!(
        entries(&parse_query_map("foo&baz=42")),
        expect(&[("baz", &["42"]), ("foo", &[""])])
    );
    assert_eq!(
        entries(&parse_query_map("foo&baz&&")),
        expect(&[("baz", &[""]), ("foo", &[""])])
    );
    assert_eq!(
        entries(&parse_query_map(
            "badger=data.rrd%3Fparam1%3Dfoo%26param2%3Dbar&mushroom=snake"
        )),
        expect(&[
            ("badger", &["data.rrd?param1=foo&param2=bar"]),
            ("mushroom", &["snake"])
        ])
    );
}

#[test]
fn repeated_keys_keep_values_in_order() {
    assert_eq!(
        entries(&parse_query_map("a=1&b=x&a=2&a")),
        expect(&[("a", &["1", "2", ""]), ("b", &["x"])])
    );
}

#[test]
fn keys_sorted_by_bytes() {
    assert_eq!(
        entries(&parse_query_map("b=1&a=2&B=3&ab=4&%C3%A9=5")),
        expect(&[("B", &["3"]), ("a", &["2"]), ("ab", &["4"]), ("b", &["1"]), ("é", &["5"])])
    );
}

#[test]
fn keys_equal_after_decoding_are_merged() {
    assert_eq!(entries(&parse_query_map("a%62=1&ab=2")), expect(&[("ab", &["1", "2"])]));
}

#[test]
fn only_first_equals_splits() {
    assert_eq!(entries(&parse_query_map("a=b=c&=x")), expect(&[("", &["x"]), ("a", &["b=c"])]));
}

#[test]
fn invalid_utf8_is_replaced() {
    assert_eq!(entries(&parse_query_map("k=%FF")), expect(&[("k", &["\u{FFFD}"])]));
}

#[test]
fn get_finds_values() {
    let map = parse_query_map("x=1&y=2&x=3");
    assert_eq!(map.get("x"), Some(&vec!["1".to_string(), "3".to_string()]));
    assert_eq!(map.get("y"), Some(&vec!["2".to_string()]));
    assert_eq!(map.get("z"), None);
    assert_eq!(map.len(), 2);
    assert!(!map.is_empty());
    assert!(parse_query_map("&&").is_empty());
}

#[test]
fn insert_pushes_and_sorts() {
    let mut map = QueryMap::new();
    map.insert("m".to_string(), "1".to_string());
    map.insert("c".to_string(), "2".to_string());
    map.insert("m".to_string(), "3".to_string());
    map.insert("z".to_string(), "4".to_string());
    assert_eq!(entries(&map), expect(&[("c", &["2"]), ("m", &["1", "3"]), ("z", &["4"])]));
}

#[test]
fn build_from_decoded_pairs() {
    let pairs = vec![
        ("k".to_string(), "v%20".to_string()),
        ("a".to_string(), "w".to_string()),
        ("k".to_string(), "u".to_string()),
    ];
    assert_eq!(entries(&build_query_map(&pairs)), expect(&[("a", &["w"]), ("k", &["v%20", "u"])]));
}

#[test]
fn percent_decode_examples() {
    assert_eq!(percent_decode("foo%20bar%3f"), "foo bar?");
    assert_eq!(percent_decode("%41%4a%4A"), "AJJ");
    assert_eq!(percent_decode("100%"), "100%");
    assert_eq!(percent_decode("%4"), "%4");
    assert_eq!(percent_decode("%zz%"), "%zz%");
    assert_eq!(percent_decode("plain text"), "plain text");
    assert_eq!(percent_decode("%F0%9F%92%96"), "\u{1F496}");
    assert_eq!(percent_decode("%00%9F%92%96"), "\u{0}\u{FFFD}\u{FFFD}\u{FFFD}");
    assert_eq!(percent_decode("é%C3%A9"), "éé");
    assert_eq!(percent_decode(""), "");
    assert_eq!(percent_decode_slice(b"a%2Bb"), "a+b");
}

#[test]
fn joined_queries_join_their_pairs() {
    let left = "k=1&m=%41";
    let right = "k=2&&z";
    let joined = format!("{left}&{right}");
    let mut expected = QueryMap::new();
    expected.insert("k".to_string(), "1".to_string());
    expected.insert("m".to_string(), "A".to_string());
    expected.insert("k".to_string(), "2".to_string());
    expected.insert("z".to_string(), String::new());
    assert_eq!(entries(&parse_query_map(&joined)), entries(&expected));
}
