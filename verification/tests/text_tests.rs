use photoweb::text::{
    decimal, first_six_bytes, has_bytes, lowercase_equals, parse_number, same_text, split_text,
    strip_ends,
};

fn texts(v: &[&str]) -> Vec<String> {
    v.iter().map(|s| s.to_string()).collect()
}

#[test]
fn split_keeps_empty_pieces() {
    assert_eq!(split_text("a b", ' '), texts(&["a", "b"]));
    assert_eq!(split_text("a  b", ' '), texts(&["a", "", "b"]));
    assert_eq!(split_text("", ' '), texts(&[""]));
    assert_eq!(split_text(" ", ' '), texts(&["", ""]));
    assert_eq!(split_text("18-55,55-200", ','), texts(&["18-55", "55-200"]));
}

#[test]
fn split_matches_std_split() {
    for s in ["1 deg 21 min 29 sec N", "2023:05:01 12:00:00", "x", "  a b  ", "été à Nîmes"] {
        let expected: Vec<String> = s.split(' ').map(|p| p.to_string()).collect();
        assert_eq!(split_text(s, ' '), expected);
    }
}

#[test]
fn split_then_join_gives_text_back() {
    for s in ["a,b,,c", ",", "", "abc"] {
        assert_eq!(split_text(s, ',').join(","), s);
    }
}

#[test]
fn parse_number_reads_digit_strings() {
    assert_eq!(parse_number("123"), Some(123));
    assert_eq!(parse_number("007"), Some(7));
    assert_eq!(parse_number("2147483647"), Some(i32::MAX));
    assert_eq!(parse_number("2147483648"), None);
    assert_eq!(parse_number("99999999999999999999"), None);
    assert_eq!(parse_number(""), None);
    assert_eq!(parse_number("12a"), None);
}

#[test]
fn decimal_writes_numbers() {
    assert_eq!(decimal(0), "0");
    assert_eq!(decimal(7), "7");
    assert_eq!(decimal(4000), "4000");
    assert_eq!(decimal(u32::MAX), "4294967295");
}

#[test]
fn decimal_reads_back() {
    for n in [0u32, 9, 10, 6000, 123456, i32::MAX as u32] {
        assert_eq!(parse_number(&decimal(n)), Some(n as i32));
    }
}

#[test]
fn same_text_compares_characters() {
    assert!(same_text("Latitude", "Latitude"));
    assert!(!same_text("Latitude", "Longitude"));
    assert!(!same_text("Lens", "Lens model"));
}

#[test]
fn lowercase_equals_ignores_ascii_case_of_first() {
    assert!(lowercase_equals("JPG", "jpg"));
    assert!(lowercase_equals("jPg", "jpg"));
    assert!(!lowercase_equals("jpeg", "jpg"));
    assert!(!lowercase_equals("jpg", "JPG"));
}

#[test]
fn has_bytes_counts_utf8_bytes() {
    assert!(has_bytes("abc", 3));
    assert!(!has_bytes("ab", 3));
    assert!(has_bytes("é", 2));
    assert!(!has_bytes("é", 3));
    assert!(has_bytes("€", 3));
}

#[test]
fn strip_ends_removes_quotes() {
    assert_eq!(strip_ends("\"X-T3\""), "X-T3");
    assert_eq!(strip_ends("\"\""), "\"\"");
    assert_eq!(strip_ends("ab"), "ab");
    assert_eq!(strip_ends("\"é"), "");
}

#[test]
fn first_six_bytes_cuts_long_values() {
    assert_eq!(first_six_bytes("f/2.8000"), "f/2.80");
    assert_eq!(first_six_bytes("f/2.8"), "f/2.8");
    assert_eq!(first_six_bytes("f/2.80"), "f/2.80");
    assert_eq!(first_six_bytes("ab€def"), "ab€d");
}

#[test]
fn split_pieces_hold_no_separator() {
    for s in ["a,b,,c", ",,", "no separator"] {
        assert!(split_text(s, ',').iter().all(|p| !p.contains(',')));
    }
}
