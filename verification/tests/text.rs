use openshell::number::{
    parse_i64, parse_u16, push_two_digits, render_hex16, render_i64, render_u64,
};
use openshell::string_map::{is_before, StringMap};
use openshell::text::{
    chars, contains, ends_with, is_blank, is_whitespace, join, rsplit_once, same, split_once,
    starts_with, strip_prefix, to_ascii_lowercase, trim, trim_end_char, words,
};

const SAMPLES: [&str; 14] = [
    "", " ", "a", " a ", "\u{3000}é x\r\n", "CONNECT h:443 HTTP/1.1", "::", "a:b:c", "ÀB", "//",
    "x//", "\t\n", "\u{85}y\u{a0}", "aa aa",
];

#[test]
fn white_space_is_what_std_says() {
    for n in 0..=0x10ffffu32 {
        if let Some(c) = char::from_u32(n) {
            assert_eq!(is_whitespace(c), c.is_whitespace(), "{n:x}");
        }
    }
}

#[test]
fn string_operations_agree_with_std() {
    for s in SAMPLES {
        assert_eq!(chars(s), s.chars().collect::<Vec<char>>());
        assert_eq!(trim(s), s.trim());
        assert_eq!(is_blank(s), s.trim().is_empty());
        assert_eq!(to_ascii_lowercase(s), s.to_ascii_lowercase());
        assert_eq!(words(s), s.split_whitespace().collect::<Vec<&str>>());
        assert_eq!(trim_end_char(s, '/'), s.trim_end_matches('/'));
        let pair = |p: (&str, &str)| (p.0.to_string(), p.1.to_string());
        assert_eq!(split_once(s, ':'), s.split_once(':').map(pair));
        assert_eq!(rsplit_once(s, ':'), s.rsplit_once(':').map(pair));
        for t in SAMPLES {
            assert_eq!(same(s, t), s == t);
            assert_eq!(contains(s, t), s.contains(t));
            assert_eq!(starts_with(s, t), s.starts_with(t));
            assert_eq!(ends_with(s, t), s.ends_with(t));
            assert_eq!(strip_prefix(s, t), s.strip_prefix(t).map(str::to_string));
            assert_eq!(is_before(s, t), s < t);
        }
    }
    let parts = vec!["a".to_string(), "".to_string(), "c".to_string()];
    assert_eq!(join(&parts, ", "), parts.join(", "));
    assert_eq!(join(&Vec::new(), "x"), "");
}

#[test]
fn numbers_are_read_as_std_reads_them() {
    for s in [
        "", "0", "00", "65535", "65536", "+7", "-0", "-1", "+", "-", " 1", "1 ", "1_0", "0x1",
        "9223372036854775807", "9223372036854775808", "-9223372036854775808",
        "-9223372036854775809", "99999999999999999999999", "+-1", "٣", "007",
    ] {
        assert_eq!(parse_u16(s), s.parse::<u16>().ok(), "{s}");
        assert_eq!(parse_i64(s), s.parse::<i64>().ok(), "{s}");
    }
}

#[test]
fn numbers_are_written_as_std_writes_them() {
    for n in [0u64, 1, 9, 10, 99, 12345, u64::MAX] {
        assert_eq!(render_u64(n), n.to_string());
        assert_eq!(render_hex16(n), format!("{n:016x}"));
    }
    for i in [0i64, -1, 10, -10, i64::MIN, i64::MAX] {
        assert_eq!(render_i64(i), i.to_string());
        assert_eq!(parse_i64(&render_i64(i)), Some(i));
    }
    for n in 0..100u8 {
        let mut s = "x".to_string();
        push_two_digits(&mut s, n);
        assert_eq!(s, format!("x{n:02}"));
    }
}

#[test]
fn maps_keep_the_last_value_and_list_in_order() {
    let mut m = StringMap::new();
    assert!(m.is_empty());
    for (k, v) in [("b", "1"), ("a", "2"), ("é", "3"), ("b", "4"), ("aa", "5"), ("Z", "6")] {
        m.insert(k.to_string(), v.to_string());
    }
    assert!(!m.is_empty());
    assert_eq!(m.keys(), vec!["Z", "a", "aa", "b", "é"]);
    assert_eq!(m.get("b").unwrap(), "4");
    assert!(m.get("c").is_none());
    let listed: Vec<&str> = m.entries().iter().map(|(_, v)| v.as_str()).collect();
    assert_eq!(listed, vec!["6", "2", "5", "4", "3"]);
}
