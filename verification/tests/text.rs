use neopult::text::{
    chars_of, contains, ends_with, find_first, find_text, join, matches_at, parse_u16, split,
    starts_with, str_equals, strip_prefix, text_between, u64_to_decimal,
};

fn chars(text: &str) -> Vec<char> {
    text.chars().collect()
}

fn strings(parts: &[&str]) -> Vec<String> {
    parts.iter().map(|p| p.to_string()).collect()
}

#[test]
fn texts_and_characters_convert_both_ways() {
    assert_eq!(chars_of("añb"), vec!['a', 'ñ', 'b']);
    assert_eq!(chars_of(""), Vec::<char>::new());
    let round_trip = chars_of("round trip ß");
    assert_eq!(text_between(&round_trip, 0, round_trip.len()), "round trip ß");
    assert_eq!(text_between(&chars("hello"), 1, 3), "el");
    assert_eq!(text_between(&chars("hello"), 2, 2), "");
}

#[test]
fn numbers_are_runs_of_digits() {
    let parse = |text: &str| {
        let v = chars(text);
        parse_u16(&v, 0, v.len())
    };
    assert_eq!(parse("0"), Some(0));
    assert_eq!(parse("65535"), Some(65535));
    assert_eq!(parse("00065535"), Some(65535));
    assert_eq!(parse("65536"), None);
    assert_eq!(parse("99999999999999999999"), None);
    assert_eq!(parse(""), None);
    assert_eq!(parse("+1"), None);
    assert_eq!(parse("-1"), None);
    assert_eq!(parse("1 "), None);
    assert_eq!(parse("１"), None);
    assert_eq!(parse_u16(&chars("ab123cd"), 2, 5), Some(123));
}

#[test]
fn numbers_are_written_in_decimal() {
    assert_eq!(u64_to_decimal(0), "0");
    assert_eq!(u64_to_decimal(7), "7");
    assert_eq!(u64_to_decimal(10), "10");
    assert_eq!(u64_to_decimal(4200), "4200");
    assert_eq!(u64_to_decimal(u64::MAX), "18446744073709551615");
}

#[test]
fn searching_for_characters_and_texts() {
    let v = chars("480x360-0+0");
    assert_eq!(find_first(&v, 0, 'x', 'x'), 3);
    assert_eq!(find_first(&v, 4, '+', '-'), 7);
    assert_eq!(find_first(&v, 8, '+', '-'), 9);
    assert_eq!(find_first(&v, 10, '+', '-'), 11);
    assert_eq!(find_text(&chars("a::b::c"), 0, &chars("::")), 1);
    assert_eq!(find_text(&chars("a::b::c"), 2, &chars("::")), 4);
    assert_eq!(find_text(&chars("a::b::c"), 5, &chars("::")), 7);
    assert!(matches_at(&chars("abc"), 1, &chars("bc")));
    assert!(!matches_at(&chars("abc"), 2, &chars("bc")));
    assert!(matches_at(&chars("abc"), 3, &chars("")));
}

#[test]
fn prefixes_suffixes_and_occurrences() {
    assert!(str_equals("abc", "abc"));
    assert!(!str_equals("abc", "abd"));
    assert!(starts_with("VNC-0", "VNC"));
    assert!(starts_with("VNC", ""));
    assert!(!starts_with("VN", "VNC"));
    assert!(ends_with("12.pid", ".pid"));
    assert!(!ends_with("pid", ".pid"));
    assert!(contains("ssvncviewer", "vnc"));
    assert!(contains("abc", ""));
    assert!(contains("", ""));
    assert!(!contains("abc", "abcd"));
    assert!(!contains("", "a"));
    assert_eq!(strip_prefix("call p::m::a", "call "), Some("p::m::a".to_string()));
    assert_eq!(strip_prefix("call", "call "), None);
}

#[test]
fn splitting_cuts_at_each_separator() {
    assert_eq!(split("a::b::c", "::"), strings(&["a", "b", "c"]));
    assert_eq!(split("abc", "::"), strings(&["abc"]));
    assert_eq!(split("", "::"), strings(&[""]));
    assert_eq!(split("::", "::"), strings(&["", ""]));
    assert_eq!(split("a:::b", "::"), strings(&["a", ":b"]));
    assert_eq!(split("a::::b", "::"), strings(&["a", "", "b"]));
    assert_eq!(split("a,b,", ","), strings(&["a", "b", ""]));
}

#[test]
fn joining_puts_the_separator_between() {
    assert_eq!(join(&strings(&["a", "b", "c"]), "\n"), "a\nb\nc");
    assert_eq!(join(&strings(&["a"]), "\n"), "a");
    assert_eq!(join(&strings(&[]), "\n"), "");
    assert_eq!(join(&strings(&["", ""]), "-"), "-");
}
