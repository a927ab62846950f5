use chimera::json::{comes_before, get_field, parse_json, put_field, to_string, to_string_pretty, Json};
use chimera::str_map::StrMap;
use chimera::text;

#[test]
fn white_space_is_that_of_the_standard_library() {
    for n in 0..=0x10FFFFu32 {
        if let Some(c) = char::from_u32(n) {
            assert_eq!(text::white(c), c.is_whitespace(), "{n:x}");
        }
    }
}

#[test]
fn text_functions_agree_with_the_standard_library() {
    let samples = ["", "a", "aaa", " a b ", "a\nb\r\n", "\r\n\r", "\u{a0}x\u{3000}", "aXbXc", "XX", "\u{e9}X"];
    for s in samples {
        assert_eq!(text::trim(s), s.trim());
        assert_eq!(text::lines(s), s.lines().map(|l| l.to_string()).collect::<Vec<_>>());
        assert_eq!(text::lower(s), s.to_ascii_lowercase());
        assert_eq!(text::trim_slashes(&format!("{s}//")), s.trim_end_matches('/'));
        for p in ["X", "aa", "b "] {
            assert_eq!(text::split(s, p), s.split(p).map(|l| l.to_string()).collect::<Vec<_>>());
            assert_eq!(text::replace(s, p, "--"), s.replace(p, "--"));
            assert_eq!(text::contains(s, p), s.contains(p));
            assert_eq!(text::starts_with(s, p), s.starts_with(p));
            assert_eq!(text::ends_with(s, p), s.ends_with(p));
            assert_eq!(
                text::split_once(s, p),
                s.split_once(p).map(|(a, b)| (a.to_string(), b.to_string()))
            );
            assert_eq!(text::strip_prefix(s, p), s.strip_prefix(p).map(|x| x.to_string()));
            assert_eq!(text::strip_suffix(s, p), s.strip_suffix(p).map(|x| x.to_string()));
            assert_eq!(comes_before(s, p), s < p);
            assert_eq!(text::same(s, p), s == p);
        }
    }
    assert_eq!(text::join(&vec!["a".into(), "b".into(), "".into()], "-"), "a-b-");
    assert_eq!(text::underscore("a.b-c d", ".-"), "a_b_c d");
}

#[test]
fn numbers_are_read_and_shown() {
    assert_eq!(text::parse_u64("18446744073709551615"), Some(u64::MAX));
    assert_eq!(text::parse_u64("18446744073709551616"), None);
    assert_eq!(text::parse_u64("007"), Some(7));
    assert_eq!(text::parse_u64(""), None);
    assert_eq!(text::parse_u64("1x"), None);
    assert_eq!(text::show(0), "0");
    assert_eq!(text::show(u64::MAX), "18446744073709551615");
    assert_eq!(text::show_padded(42, 7), "0000042");
    assert_eq!(text::show_padded(12345678, 7), "12345678");
}

#[test]
fn maps_keep_one_value_per_key() {
    let mut m = StrMap::new();
    m.put("a", "1");
    m.put("b", "2");
    m.put("a", "3");
    assert_eq!(m.len(), 2);
    assert_eq!(m.get("a").unwrap(), "3");
    assert_eq!(m.key(0), "a");
    assert_eq!(m.remove("a").unwrap(), "3");
    assert!(m.remove("a").is_none());
    assert!(!m.contains("a"));
    let mut other = StrMap::new();
    other.put("b", "x");
    other.put("c", "y");
    m.extend(&other);
    assert_eq!(m.copy().get("b").unwrap(), "x");
    assert_eq!(m.len(), 2);
}

#[test]
fn objects_stay_in_order() {
    let mut v = Vec::new();
    put_field(&mut v, "b", Json::Bool(true));
    put_field(&mut v, "a", Json::Null);
    put_field(&mut v, "c", Json::Number("1".into()));
    put_field(&mut v, "b", Json::Bool(false));
    assert!(get_field(&v, "b") == Some(&Json::Bool(false)));
    assert_eq!(to_string(&Json::Object(v)), r#"{"a":null,"b":false,"c":1}"#);
}

#[test]
fn json_is_read_and_written() {
    let j = parse_json(r#"{"b":[1,2.5,"x",null,true],"a":{}}"#).unwrap();
    assert_eq!(to_string(&j), r#"{"a":{},"b":[1,2.5,"x",null,true]}"#);
    assert_eq!(to_string_pretty(&parse_json("[1]").unwrap()), "[\n  1\n]");
    assert!(parse_json("{").is_none());
    assert!(j.copy() == j);
    assert_eq!(j.get("b").unwrap().get("x"), None);
    assert_eq!(parse_json("7").unwrap().as_u64(), Some(7));
    assert_eq!(parse_json("-7").unwrap().as_u64(), None);
    assert_eq!(parse_json("7.0").unwrap().as_u64(), None);
}
