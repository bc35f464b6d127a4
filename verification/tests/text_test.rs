use miarh::number::{parse_usize, push_decimal};
use miarh::text::{chars_of, find, slice_of, split_on, starts_with, string_of, text_of};
use miarh::text_map::TextMap;

fn chars(s: &str) -> Vec<char> {
    s.chars().collect()
}

fn pieces(s: &str, pat: &str) -> Vec<String> {
    split_on(&chars(s), &chars(pat)).iter().map(|p| p.iter().collect()).collect()
}

#[test]
fn chars_and_back() {
    assert_eq!(chars_of("héllo"), chars("héllo"));
    assert_eq!(text_of(&chars("héllo")), "héllo");
    assert_eq!(string_of(&chars("héllo"), 1, 3), "él");
    assert_eq!(slice_of(&chars("hello"), 2, 5), chars("llo"));
    assert_eq!(chars_of(""), Vec::<char>::new());
}

#[test]
fn split_is_what_str_split_gives() {
    let samples = [
        ("", " "), ("a", " "), ("a b c", " "), (" a  b ", " "), ("host: host: x", "host: "),
        ("aaa", "aa"), ("aaaa", "aa"), ("abc", "abc"), ("abcabc", "abc"), ("ab", "abc"),
        ("x=1&y=2&&z", "&"), ("k=v=w", "="), ("/a/b/../c", "/"), ("é é", " "),
    ];
    for (s, pat) in samples {
        let expected: Vec<String> = s.split(pat).map(|p| p.to_string()).collect();
        assert_eq!(pieces(s, pat), expected, "{:?} by {:?}", s, pat);
    }
}

#[test]
fn find_gives_the_first_occurrence() {
    assert_eq!(find(&chars("foo bar foo"), &chars("foo"), 0), Some(0));
    assert_eq!(find(&chars("foo bar foo"), &chars("foo"), 1), Some(8));
    assert_eq!(find(&chars("foo bar foo"), &chars("foo"), 9), None);
    assert_eq!(find(&chars("foo"), &chars("quux"), 0), None);
    assert_eq!(find(&chars("foo"), &chars(""), 2), Some(2));
    assert_eq!(find(&chars("foo"), &chars("o"), 7), None);
}

#[test]
fn starts_with_is_a_prefix_test() {
    assert!(starts_with(&chars("/static/a"), &chars("/static/")));
    assert!(!starts_with(&chars("/stati"), &chars("/static/")));
    assert!(starts_with(&chars("abc"), &chars("")));
    assert!(!starts_with(&chars("xabc"), &chars("abc")));
}

#[test]
fn map_keeps_the_last_value_of_a_key() {
    let mut m: TextMap<String> = TextMap::new();
    assert!(m.get("a").is_none());
    assert!(!m.contains_key("a"));
    m.insert("a".to_string(), "1".to_string());
    m.insert("b".to_string(), "2".to_string());
    m.insert("a".to_string(), "3".to_string());
    assert_eq!(m.get("a"), Some(&"3".to_string()));
    assert_eq!(m.get("b"), Some(&"2".to_string()));
    assert!(m.contains_key("b"));
    assert!(m.get("c").is_none());
    assert_eq!(m.entries.len(), 2);
    let copy = m.duplicate();
    assert_eq!(copy.entries, m.entries);
}

#[test]
fn decimal_is_what_to_string_gives() {
    for n in [0usize, 1, 9, 10, 11, 99, 100, 404, 413, 65535, 1234567890, usize::MAX] {
        let mut s = String::from("x");
        push_decimal(&mut s, n);
        assert_eq!(s, format!("x{}", n));
    }
}

#[test]
fn parse_usize_is_what_str_parse_gives() {
    let max = usize::MAX.to_string();
    let over = format!("{}0", usize::MAX);
    let just_over = "18446744073709551616";
    let samples = [
        "", "0", "12", "+12", "-12", "+", "-", "012", "1 2", " 12", "12 ", "1a", "a", "١٢",
        "++1", max.as_str(), over.as_str(), just_over, "00000000000000000000000000001",
    ];
    for s in samples {
        assert_eq!(parse_usize(&chars(s)), s.parse::<usize>().ok(), "{:?}", s);
    }
}
