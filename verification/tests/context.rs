use blogpost_ffi::context::{deserialize_context, serialize_context};
use blogpost_ffi::metadata::MetadataMap;

fn mapping(entries: &[(&str, &str)]) -> MetadataMap {
    let mut map = MetadataMap::new();
    for (key, value) in entries {
        map.insert(String::from(*key), String::from(*value));
    }
    map
}

fn entries(map: &MetadataMap) -> Vec<(String, String)> {
    (0..map.len())
        .map(|i| {
            let (key, value) = map.entry(i);
            (String::from(key), String::from(value))
        })
        .collect()
}

fn owned(entries: &[(&str, &str)]) -> Vec<(String, String)> {
    entries.iter().map(|(k, v)| (String::from(*k), String::from(*v))).collect()
}

#[test]
fn traceparent_is_written_as_one_line_and_read_back() {
    let context = mapping(&[("traceparent", "00-abc-def-01")]);
    let text = serialize_context(&context);
    assert_eq!(text, "traceparent;00-abc-def-01\n");
    let back = deserialize_context(&text);
    assert_eq!(back.len(), 1);
    assert_eq!(back.get("traceparent"), Some("00-abc-def-01"));
    assert_eq!(entries(&back), owned(&[("traceparent", "00-abc-def-01")]));
}

#[test]
fn writing_and_reading_gives_the_mapping_back() {
    let cases: Vec<Vec<(&str, &str)>> = vec![
        vec![],
        vec![("a", "b")],
        vec![("traceparent", "00-0af7-b7ad-01"), ("tracestate", "k=v,x=y")],
        vec![("", "empty key"), ("empty value", "")],
        vec![("", "")],
        vec![("k", " spaces kept "), ("ключ", "значение"), ("z", "\t")],
    ];
    for case in cases {
        let context = mapping(&case);
        let text = serialize_context(&context);
        let back = deserialize_context(&text);
        assert_eq!(entries(&back), owned(&case));
        for (key, value) in &case {
            assert_eq!(back.get(key), Some(*value));
        }
    }
}

#[test]
fn entries_are_written_in_their_order() {
    let context = mapping(&[("b", "2"), ("a", "1"), ("c", "")]);
    assert_eq!(serialize_context(&context), "b;2\na;1\nc;\n");
    assert_eq!(serialize_context(&MetadataMap::new()), "");
}

#[test]
fn empty_text_holds_no_entry() {
    let context = deserialize_context("");
    assert_eq!(context.len(), 0);
    assert_eq!(context.get(""), None);
    assert!(context.keys().is_empty());
}

#[test]
fn last_line_needs_no_line_feed() {
    let context = deserialize_context("a;1\nb;2");
    assert_eq!(entries(&context), owned(&[("a", "1"), ("b", "2")]));
}

#[test]
fn line_without_semicolon_has_an_empty_value() {
    let context = deserialize_context("lonely\n");
    assert_eq!(entries(&context), owned(&[("lonely", "")]));
    assert_eq!(context.get("lonely"), Some(""));
}

#[test]
fn what_follows_a_second_semicolon_is_not_read() {
    let context = deserialize_context("k;v;rest;more\n;x;y\n");
    assert_eq!(entries(&context), owned(&[("k", "v"), ("", "x")]));
}

#[test]
fn later_line_gives_the_value_of_a_repeated_key() {
    let context = deserialize_context("a;1\nb;2\na;3\n");
    assert_eq!(entries(&context), owned(&[("a", "3"), ("b", "2")]));
    assert_eq!(context.get("a"), Some("3"));
}

#[test]
fn empty_line_in_the_middle_is_an_empty_entry() {
    let context = deserialize_context("a;1\n\nb;2\n");
    assert_eq!(entries(&context), owned(&[("a", "1"), ("", ""), ("b", "2")]));
    let context = deserialize_context("\n");
    assert_eq!(entries(&context), owned(&[("", "")]));
    let context = deserialize_context("\n\n");
    assert_eq!(entries(&context), owned(&[("", "")]));
}

#[test]
fn metadata_map_finds_and_lists_its_keys() {
    let mut map = MetadataMap::new();
    assert_eq!(map.len(), 0);
    map.insert(String::from("one"), String::from("1"));
    map.insert(String::from("two"), String::from("2"));
    map.insert(String::from("one"), String::from("uno"));
    assert_eq!(map.len(), 2);
    assert_eq!(map.get("one"), Some("uno"));
    assert_eq!(map.get("two"), Some("2"));
    assert_eq!(map.get("three"), None);
    assert_eq!(map.keys(), vec!["one", "two"]);
    assert_eq!(map.entry(0), ("one", "uno"));
    assert_eq!(map.entry(1), ("two", "2"));
}

#[test]
fn mapping_is_made_of_entries_and_gives_them_back() {
    let given = owned(&[("a", "1"), ("b", "2"), ("a", "3"), ("c", "")]);
    let map = MetadataMap::from_entries(given);
    assert_eq!(map.to_entries(), owned(&[("a", "3"), ("b", "2"), ("c", "")]));
    assert_eq!(map.len(), 3);
    assert_eq!(MetadataMap::from_entries(Vec::new()).to_entries(), Vec::new());
}
