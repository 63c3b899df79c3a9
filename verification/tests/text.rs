//! Text, JSON, identifiers and times.
use edocrs::json::Json;
use edocrs::stamp::{SessionId, Timestamp};
use edocrs::text::{
    bytes_of, decimal_text, parse_u32, signed_text, split_lines, split_once, strip_prefix,
    take_chars, trim, trim_end_matches, truncate, white_space,
};

#[test]
fn white_space_is_that_of_unicode() {
    for n in 0..=0x10ffff {
        if let Some(c) = char::from_u32(n) {
            assert_eq!(white_space(c), c.is_whitespace(), "{n:x}");
        }
    }
}

#[test]
fn text_is_cut_and_split() {
    assert_eq!(trim(" \u{3000}a b\n"), "a b");
    assert_eq!(trim_end_matches("http://x//", '/'), "http://x");
    assert_eq!(take_chars("中文字", 2), "中文");
    assert_eq!(take_chars("a", 2), "a");
    assert_eq!(split_once("a b c", ' '), Some(("a".into(), "b c".into())));
    assert_eq!(split_once("abc", ' '), None);
    assert_eq!(strip_prefix("data: x", "data: "), Some("x".into()));
    assert_eq!(strip_prefix("dat", "data"), None);
}

#[test]
fn lines_are_those_of_std() {
    for s in ["", "a", "a\n", "a\r\nb", "\n\n", "a\r", "a\r\r\nb\n", "一\n二"] {
        let expected: Vec<String> = s.lines().map(String::from).collect();
        assert_eq!(split_lines(s), expected, "{s:?}");
    }
}

#[test]
fn numbers_are_written_and_read() {
    for n in [0, 9, 10, 99, 100, u64::MAX] {
        assert_eq!(decimal_text(n), n.to_string());
    }
    for n in [0, -1, i32::MIN, i32::MAX] {
        assert_eq!(signed_text(n), n.to_string());
    }
    for s in ["0", "+5", "007", "4294967295", "4294967296", "", "+", "-1", "1a", " 1"] {
        assert_eq!(parse_u32(s), s.parse::<u32>().ok(), "{s:?}");
    }
}

#[test]
fn truncation_counts_bytes() {
    assert_eq!(bytes_of("a中"), 4);
    assert_eq!(truncate("abc".into(), 3), "abc");
    assert_eq!(truncate("abcd".into(), 3), "abc\n... [截断, 还有 1 字节未显示]\n");
    assert_eq!(truncate("é中😀".into(), 0), "\n... [截断, 还有 9 字节未显示]\n");
    assert_eq!(truncate("é中😀".into(), 5), "é中\n... [截断, 还有 4 字节未显示]\n");
    assert_eq!(truncate("é中😀".into(), 8), "é中\n... [截断, 还有 4 字节未显示]\n");
}

#[test]
fn json_is_read_and_written() {
    let text = r#"{"b":[1,null,true,"x\ny"],"a":{"c":1.5,"d":-2}}"#;
    let j = Json::parse(text).unwrap();
    assert!(matches!(j.get("b").unwrap().first(), Some(Json::Number(1))));
    assert!(matches!(j.get("a").unwrap().get("c"), Some(Json::OtherNumber(s)) if s.text() == "1.5"));
    assert!(matches!(j.get("a").unwrap().get("d"), Some(Json::OtherNumber(s)) if s.text() == "-2"));
    assert_eq!(j.get("b").unwrap().to_text().unwrap(), r#"[1,null,true,"x\ny"]"#);
    assert_eq!(j.to_text().unwrap(), text);
    assert!(j.get("zzz").is_none());
    assert!(Json::parse("{").is_err());
}

#[test]
fn every_number_is_written_as_it_was_read() {
    for text in ["-1", "0.1", "1e300", "18446744073709551616", "-9223372036854775808", "2.5e-8"] {
        let v: serde_json::Value = serde_json::from_str(text).unwrap();
        let j = Json::parse(text).unwrap();
        assert!(matches!(&j, Json::OtherNumber(n) if n.text() == v.to_string()));
        assert_eq!(j.to_text().unwrap(), v.to_string());
        assert_eq!(j.clone().to_pretty().unwrap(), v.to_string());
        assert_eq!(Json::from_value(v.clone()).to_text().unwrap(), v.to_string());
    }
    let third = serde_json::Value::from(1.0 / 3.0);
    assert_eq!(Json::from_value(third.clone()).to_text().unwrap(), third.to_string());
    assert!(matches!(Json::parse("18446744073709551615"), Ok(Json::Number(u64::MAX))));
}

#[test]
fn repeated_keys_are_handled() {
    let j = Json::parse(r#"{"a":1,"a":2}"#).unwrap();
    assert_eq!(j.get("a").unwrap().as_number(), Some(2));
    let twice = Json::Object(vec![("a".into(), Json::Null), ("a".into(), Json::Null)]);
    assert!(twice.to_text().is_none());
    assert!(twice.get("a").unwrap().is_null());
}

#[test]
fn json_copies_are_equal() {
    let j = Json::parse(r#"{"a":[{"b":"c"}],"d":false}"#).unwrap();
    assert_eq!(j.clone().to_text(), j.to_text());
}

#[test]
fn identifiers_are_read_back() {
    let id = SessionId::fresh();
    let text = id.to_text();
    assert_eq!(text.len(), 36);
    assert_eq!(&text[14..15], "4");
    assert_eq!(SessionId::parse(&text), Some(id));
    assert_eq!(SessionId::parse("nope"), None);
    assert_ne!(SessionId::fresh(), id);
}

#[test]
fn times_are_read_back() {
    for t in [
        Timestamp { secs: 0, nanos: 0 },
        Timestamp { secs: -62_167_219_200, nanos: 1 },
        Timestamp { secs: 253_402_300_799, nanos: 999_999_999 },
        Timestamp { secs: 1_700_000_000, nanos: 120_000_000 },
    ] {
        let text = t.to_text().unwrap();
        assert_eq!(Timestamp::parse(&text), Some(t), "{text}");
    }
    assert_eq!(Timestamp { secs: 0, nanos: 0 }.to_text().unwrap(), "1970-01-01T00:00:00Z");
    assert_eq!(Timestamp { secs: 86_400, nanos: 0 }.date().unwrap(), "1970-01-02");
    assert_eq!(Timestamp::parse("later"), None);
    assert!(Timestamp { secs: i64::MAX, nanos: 0 }.date().is_none());
    assert!(Timestamp::now().to_text().is_some());
}
