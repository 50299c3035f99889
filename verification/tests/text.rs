use cinode_extract::text::{
    contains, from_chars, push_decimal, stands_at, strip, to_chars, to_decimal, to_hex, up_to,
};

#[test]
fn chars_round_trip() {
    let text = "Åre/β 1.txt";
    let chars = to_chars(text);
    assert_eq!(chars.len(), 11);
    assert_eq!(chars[0], 'Å');
    assert_eq!(chars[4], 'β');
    assert_eq!(from_chars(&chars), text);
}

#[test]
fn chars_of_empty_text() {
    assert_eq!(to_chars(""), Vec::<char>::new());
    assert_eq!(from_chars(&Vec::new()), "");
}

#[test]
fn contains_finds_a_run_anywhere() {
    assert!(contains("Too many requests for 24 hrs.", "requests"));
    assert!(contains("abc", "abc"));
    assert!(contains("abc", "c"));
    assert!(contains("aab", "ab"));
}

#[test]
fn contains_rejects_what_is_not_there() {
    assert!(!contains("abc", "abcd"));
    assert!(!contains("abc", "ac"));
    assert!(!contains("", "a"));
}

#[test]
fn contains_the_empty_run() {
    assert!(contains("abc", ""));
    assert!(contains("", ""));
}

#[test]
fn stands_at_checks_one_position() {
    let text = to_chars("filename=a;");
    let part = to_chars("name");
    assert!(stands_at(&text, &part, 4));
    assert!(!stands_at(&text, &part, 3));
    assert!(!stands_at(&text, &part, 8));
    assert!(!stands_at(&text, &part, 40));
}

#[test]
fn strip_takes_every_occurrence_out() {
    assert_eq!(strip("a;b;c;", ";"), "abc");
    assert_eq!(strip("filename=\"x\";", "filename="), "\"x\";");
    assert_eq!(strip("aaa", "aa"), "a");
    assert_eq!(strip("abab", "ab"), "");
}

#[test]
fn strip_goes_from_the_left_and_does_not_look_back() {
    assert_eq!(strip("aabb", "ab"), "ab");
    assert_eq!(strip("ababa", "aba"), "ba");
}

#[test]
fn strip_leaves_other_text_alone() {
    assert_eq!(strip("abc", "x"), "abc");
    assert_eq!(strip("abc", ""), "abc");
    assert_eq!(strip("", "abc"), "");
    assert_eq!(strip("ab", "abc"), "ab");
}

#[test]
fn up_to_stops_at_the_first_stop() {
    assert_eq!(up_to("a.b.c", '.'), "a");
    assert_eq!(up_to("abc", '.'), "abc");
    assert_eq!(up_to(".abc", '.'), "");
    assert_eq!(up_to("", '.'), "");
    assert_eq!(up_to("abc.", '.'), "abc");
}

#[test]
fn decimal_of_small_and_large_numbers() {
    assert_eq!(to_decimal(0), "0");
    assert_eq!(to_decimal(7), "7");
    assert_eq!(to_decimal(10), "10");
    assert_eq!(to_decimal(31), "31");
    assert_eq!(to_decimal(1005), "1005");
    assert_eq!(to_decimal(u32::MAX), "4294967295");
}

#[test]
fn push_decimal_appends() {
    let mut text = String::from("id-");
    push_decimal(&mut text, 420);
    assert_eq!(text, "id-420");
}

#[test]
fn hex_is_lower_case_with_two_digits_per_byte() {
    assert_eq!(to_hex(&[0x00, 0xff, 0x1a, 0xa1, 0x09]), "00ff1aa109");
    assert_eq!(to_hex(&[]), "");
}
