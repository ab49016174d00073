use agentlb::json::{parse_json, Json};
use agentlb::map::TextMap;
use agentlb::numbers::{read_signed, read_unsigned, write_decimal, write_signed};
use agentlb::path::{join_path, split_path};
use agentlb::runtime::send_initialize_and_read;
use agentlb::text::{
    after_prefix, begins_with, is_blank, is_white_space, join_texts, sorts_before, split_words,
    trim_text,
};
use agentlb::time::{nanos_into_second, now_rfc3339, read_clock, Timestamp};

#[test]
fn white_space_is_that_of_unicode() {
    for n in 0..=0x10ffffu32 {
        if let Some(c) = char::from_u32(n) {
            assert_eq!(is_white_space(c), c.is_whitespace(), "{:x}", n);
        }
    }
}

#[test]
fn texts_are_trimmed_and_split() {
    for s in ["", " ", " a b\t", "\u{2028}x y\u{a0}", "abc", "\n\n", "a  b"] {
        assert_eq!(trim_text(s), s.trim());
        assert_eq!(is_blank(s), s.trim().is_empty());
        assert_eq!(split_words(s), s.split_whitespace().collect::<Vec<_>>());
    }
    let parts = vec!["a".to_string(), "".to_string(), "b".to_string()];
    assert_eq!(join_texts(&parts, ", "), "a, , b");
    assert_eq!(join_texts(&vec![], ", "), "");
    assert!(begins_with("--cmd=x", "--cmd="));
    assert!(!begins_with("--cm", "--cmd="));
    assert_eq!(after_prefix("--cmd=\u{e9}", "--cmd=").as_deref(), Some("\u{e9}"));
    assert_eq!(after_prefix("x", "y"), None);
}

#[test]
fn texts_sort_as_strings_do() {
    let texts = ["", "a", "aa", "ab", "b", "\u{e9}", "\u{ffff}", "\u{10000}", "A"];
    for a in texts {
        for b in texts {
            assert_eq!(sorts_before(a, b), a < b);
        }
    }
}

#[test]
fn numbers_are_read_as_they_are_parsed() {
    let texts = [
        "", "0", "+0", "-0", "7", "+7", "-7", "007", "4294967295", "18446744073709551615",
        "18446744073709551616", "2147483647", "2147483648", "-2147483648", "-2147483649", "+", "-",
        "1 ", " 1", "1a", "--1", "99999999999999999999999999", "\u{661}",
    ];
    for s in texts {
        assert_eq!(read_unsigned(s, u64::MAX), s.parse::<u64>().ok(), "{}", s);
        assert_eq!(read_signed(s), s.parse::<i32>().ok(), "{}", s);
    }
    assert_eq!(read_unsigned("10", 9), None);
    for n in [0, 9, 10, 1234567890, u64::MAX] {
        assert_eq!(write_decimal(n), n.to_string());
    }
    for n in [0, -1, 42, i64::MIN, i64::MAX] {
        assert_eq!(write_signed(n), n.to_string());
    }
}

#[test]
fn paths_are_joined_and_split() {
    for (base, part) in [("/a", "b"), ("/a/", "b"), ("", "b"), ("/a", "/b"), ("/", "b"), ("a", "")] {
        let joined = std::path::Path::new(base).join(part);
        assert_eq!(join_path(base, part), joined.to_str().unwrap());
    }
    assert_eq!(split_path("/a/b"), ("/a".to_string(), "b".to_string()));
    assert_eq!(split_path("/b"), ("/".to_string(), "b".to_string()));
    assert_eq!(split_path("b"), ("".to_string(), "b".to_string()));
    assert_eq!(split_path("/a/"), ("/a".to_string(), "".to_string()));
}

#[test]
fn map_keeps_its_keys_in_order() {
    let mut map: TextMap<u8> = TextMap::new();
    for (key, value) in [("b", 1), ("a", 2), ("c", 3), ("b", 4)] {
        map.insert(key.to_string(), value);
    }
    let entries: Vec<(String, u8)> =
        (0..map.len()).map(|i| (map.key_at(i).clone(), *map.value_at(i))).collect();
    assert_eq!(
        entries,
        vec![("a".to_string(), 2), ("b".to_string(), 4), ("c".to_string(), 3)]
    );
    *map.get_mut("c").unwrap() = 9;
    assert_eq!(map.get("c"), Some(&9));
    assert_eq!(map.remove("a"), Some(2));
    assert_eq!(map.remove("a"), None);
    assert!(!map.contains_key("a") && map.contains_key("b"));
    assert!(map.get_mut("a").is_none());
}

#[test]
fn documents_are_read() {
    let text = "{\"t\":\"x\\u00e9\",\"n\":-5,\"f\":1.5,\"big\":9223372036854775808,\
                \"l\":[null,true],\"o\":{\"i\":3}}";
    let json = parse_json(text).unwrap();
    assert_eq!(json.text_field("t").map(|s| s.as_str()), Some("x\u{e9}"));
    assert_eq!(json.integer_field("n"), Some(-5));
    assert_eq!(json.integer_field("f"), None);
    assert_eq!(json.integer_field("big"), None);
    assert_eq!(json.nested("o", "i").map(|j| format!("{:?}", j)).as_deref(), Some("Number(Some(3))"));
    match json.field("l") {
        Some(Json::List(items)) => {
            assert!(items[0].is_null());
            assert!(matches!(items[1], Json::Bool(true)));
        }
        other => panic!("{:?}", other),
    }
    assert!(json.field("none").is_none());
    assert!(json.text_field("n").is_none());
    assert!(parse_json("not-json").is_none());
    assert!(parse_json("").is_none());
    assert!(parse_json("null").unwrap().is_null());
    // Of two entries with one key the last counts.
    assert_eq!(parse_json("{\"a\":1,\"a\":2}").unwrap().integer_field("a"), Some(2));
}

#[test]
fn requests_are_documents() {
    let sent = send_initialize_and_read("0.1 \"x\"\n");
    let lines: Vec<&str> = sent.lines().collect();
    assert_eq!(lines.len(), 2);
    assert!(sent.ends_with('\n'));
    let init: serde_json::Value = serde_json::from_str(lines[0]).unwrap();
    assert_eq!(init["jsonrpc"], "2.0");
    assert_eq!(init["id"], 1);
    assert_eq!(init["method"], "initialize");
    assert_eq!(init["params"]["clientInfo"]["name"], "agentlb-supervisor");
    assert_eq!(init["params"]["clientInfo"]["version"], "0.1 \"x\"\n");
    assert_eq!(init.to_string(), lines[0]);
    let read: serde_json::Value = serde_json::from_str(lines[1]).unwrap();
    assert_eq!(read["id"], 2);
    assert_eq!(read["method"], "account/rateLimits/read");
    assert_eq!(read.to_string(), lines[1]);
}

#[test]
fn clock_shows_whole_seconds_in_utc() {
    let before = read_clock();
    let text = now_rfc3339();
    let after = read_clock();
    assert!(before.is_wf() && after.is_wf());
    assert!(!after.is_earlier(&before));
    let at = chrono::DateTime::parse_from_rfc3339(&text).unwrap();
    assert!(before.secs <= at.timestamp() && at.timestamp() <= after.secs);
    assert_eq!(at.timestamp_subsec_nanos(), 0);
    assert!(text.ends_with('Z') && text.len() == 20);
    assert_eq!(nanos_into_second(Some((9, 7))), 7);
    assert_eq!(nanos_into_second(None), 0);
    assert!(!Timestamp { secs: 0, nanos: 1_500_000_000 }.is_wf());
    assert!(Timestamp { secs: 59, nanos: 1_500_000_000 }.is_wf());
    assert!(!Timestamp { secs: i64::MAX, nanos: 0 }.is_wf());
}

#[test]
fn range_of_dates_is_that_of_the_calendar() {
    for (secs, there) in [
        (8_210_266_876_799, true),
        (8_210_266_876_800, false),
        (-8_334_601_228_800, true),
        (-8_334_601_228_801, false),
    ] {
        assert_eq!(chrono::DateTime::from_timestamp(secs, 0).is_some(), there);
        assert_eq!(Timestamp { secs, nanos: 0 }.is_wf(), there);
    }
}
