use opie::text::{
    chars_of, count_in, decimal_string, find_in,
    push_decimal, push_padded_decimal, push_range, push_signed_decimal, replace_all_in,
    replace_first_in, rfind_char_in, split_lines, string_of_range, trimmed,
};

#[test]
fn trimming_removes_unicode_white_space_at_both_ends() {
    assert_eq!(trimmed("  hi there \n"), "hi there");
    assert_eq!(trimmed("\u{a0}\u{3000}x\u{2028}"), "x");
    assert_eq!(trimmed("   "), "");
    assert_eq!(trimmed(""), "");
    assert_eq!(trimmed("a b"), "a b");
}

#[test]
fn character_classes() {
    assert_eq!(trimmed(" \u{0b}x\u{0b} "), "x");
    assert_eq!(trimmed("\u{0b}x\u{1}"), "x\u{1}");
    assert_eq!(opie::storage::SessionStorage::sanitize_filename("é7-x!_"), "é7-x__");
    assert_eq!(opie::storage::SessionStorage::sanitize_filename("Ω٣.z"), "Ω٣_z");
}

#[test]
fn lines_follow_str_lines() {
    assert_eq!(split_lines("a\nb\r\nc"), vec!["a", "b", "c"]);
    assert_eq!(split_lines("a\n"), vec!["a"]);
    assert_eq!(split_lines("a\n\nb"), vec!["a", "", "b"]);
    assert_eq!(split_lines(""), Vec::<String>::new());
    assert_eq!(split_lines("\n"), vec![""]);
    assert_eq!(split_lines("x\r"), vec!["x\r"]);
    let text = "one\r\ntwo\n\nthree\n";
    assert_eq!(split_lines(text), text.lines().collect::<Vec<_>>());
}

#[test]
fn counting_matches_like_str_matches() {
    for (h, p) in [("aaaa", "aa"), ("abcabc", "bc"), ("abc", "x"), ("abc", ""), ("", ""), ("", "a")] {
        let hv = chars_of(h);
        let pv = chars_of(p);
        assert_eq!(count_in(&hv, &pv), h.matches(p).count(), "{} in {}", p, h);
    }
}

#[test]
fn replacing_like_str_replace() {
    for (h, p, r) in [
        ("aaaa", "aa", "b"),
        ("abcabc", "bc", "X"),
        ("abc", "", "-"),
        ("", "", "-"),
        ("abc", "z", "y"),
        ("héllo wörld", "ö", "o"),
    ] {
        let hv = chars_of(h);
        let pv = chars_of(p);
        assert_eq!(replace_all_in(&hv, &pv, r), h.replace(p, r));
        assert_eq!(replace_first_in(&hv, &pv, r), h.replacen(p, r, 1));
    }
}

#[test]
fn finding_like_str_find() {
    let h = chars_of("hello world");
    assert_eq!(find_in(&h, &chars_of("o")), Some(4));
    assert_eq!(find_in(&h, &chars_of("world")), Some(6));
    assert_eq!(find_in(&h, &chars_of("xyz")), None);
    assert_eq!(find_in(&h, &chars_of("")), Some(0));
    assert_eq!(rfind_char_in(&h, 'o'), Some(7));
    assert_eq!(rfind_char_in(&h, 'z'), None);
}

#[test]
fn decimal_rendering() {
    assert_eq!(decimal_string(0), "0");
    assert_eq!(decimal_string(1234567), "1234567");
    assert_eq!(decimal_string(u64::MAX), u64::MAX.to_string());
    let mut s = String::from("n=");
    push_decimal(&mut s, 42);
    assert_eq!(s, "n=42");
    let mut neg = String::new();
    push_signed_decimal(&mut neg, -17);
    assert_eq!(neg, "-17");
    let mut min = String::new();
    push_signed_decimal(&mut min, i32::MIN);
    assert_eq!(min, i32::MIN.to_string());
    let mut padded = String::new();
    push_padded_decimal(&mut padded, 42, 6);
    assert_eq!(padded, format!("{:6}", 42));
    let mut wide = String::new();
    push_padded_decimal(&mut wide, 1234567, 6);
    assert_eq!(wide, "1234567");
}

#[test]
fn small_string_helpers() {
    let mut s = String::from("<");
    push_range(&mut s, &chars_of("abcdef"), 2, 4);
    assert_eq!(s, "<cd");
    assert_eq!(string_of_range(&chars_of("héllo"), 1, 3), "él");
}
