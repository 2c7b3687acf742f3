use predator_sense_gui::text::{
    is_whitespace, join_from, join_path, lines, parse_unsigned, same_text, starts_with,
    text_le_exec, to_decimal, trim, trim_end_char, words,
};

#[test]
fn trim_drops_unicode_whitespace_at_both_ends() {
    assert_eq!(trim("  \t0\n"), "0");
    assert_eq!(trim("\u{a0}\u{3000}x y\u{2028}"), "x y");
    assert_eq!(trim(" \n\t "), "");
    assert_eq!(trim(""), "");
    assert_eq!(trim("abc"), "abc");
}

#[test]
fn whitespace_matches_std() {
    for c in ['\t', '\n', '\u{b}', '\u{c}', '\r', ' ', '\u{85}', '\u{a0}', '\u{1680}', '\u{2000}',
        '\u{200a}', '\u{2028}', '\u{2029}', '\u{202f}', '\u{205f}', '\u{3000}', 'a', '0', '\u{200b}',
        '\u{feff}', '%']
    {
        assert_eq!(is_whitespace(c), c.is_whitespace(), "char {:?}", c);
    }
}

#[test]
fn parse_unsigned_follows_str_parse() {
    let cases = ["", "+", "-", "0", "+7", "-5", "007", "255", "65535", "65536", "12a", " 1",
        "99999999999999999999"];
    for s in cases {
        assert_eq!(parse_unsigned(s, 65535), s.parse::<u16>().ok().map(|v| v as u64), "{:?}", s);
        assert_eq!(parse_unsigned(s, u64::MAX), s.parse::<u64>().ok(), "{:?}", s);
    }
    assert_eq!(parse_unsigned("18446744073709551615", u64::MAX), Some(u64::MAX));
    assert_eq!(parse_unsigned("18446744073709551616", u64::MAX), None);
}

#[test]
fn decimal_rendering() {
    assert_eq!(to_decimal(0), "0");
    assert_eq!(to_decimal(127), "127");
    assert_eq!(to_decimal(u64::MAX), u64::MAX.to_string());
}

#[test]
fn words_split_on_whitespace() {
    assert_eq!(words("  /dev/sda1  ext4 100\t50 "), vec!["/dev/sda1", "ext4", "100", "50"]);
    assert!(words("   ").is_empty());
    assert!(words("").is_empty());
}

#[test]
fn lines_follow_str_lines() {
    let text = "foo\nbar\n\r\nbaz\r";
    assert_eq!(lines(text), text.lines().collect::<Vec<_>>());
    assert_eq!(lines("a\n"), vec!["a"]);
    assert_eq!(lines("\n"), vec![""]);
    assert!(lines("").is_empty());
}

#[test]
fn join_and_trim_end() {
    let parts = vec!["a".to_string(), "b".to_string(), "c d".to_string()];
    assert_eq!(join_from(&parts, 0, " "), "a b c d");
    assert_eq!(join_from(&parts, 1, "-"), "b-c d");
    assert_eq!(join_from(&parts, 3, " "), "");
    assert_eq!(trim_end_char("42%%", '%'), "42");
    assert_eq!(trim_end_char("%", '%'), "");
}

#[test]
fn prefix_equality_and_order() {
    assert!(starts_with("/boot/efi", "/boot"));
    assert!(!starts_with("/bo", "/boot"));
    assert!(same_text("Mains", "Mains"));
    assert!(!same_text("Mains", "Main"));
    assert!(text_le_exec("hwmon1", "hwmon10"));
    assert!(text_le_exec("hwmon10", "hwmon2"));
    assert!(!text_le_exec("hwmon2", "hwmon10"));
    assert!(text_le_exec("", ""));
}

#[test]
fn join_path_like_path_join() {
    assert_eq!(join_path("/sys/class/hwmon/hwmon0", "name"), "/sys/class/hwmon/hwmon0/name");
    assert_eq!(join_path("/sys/", "name"), "/sys/name");
    assert_eq!(join_path("", "name"), "name");
    assert_eq!(join_path("/sys/class/hwmon/hwmon0", "/abs/file"), "/abs/file");
    for (dir, file) in [("/a/b", "c"), ("/a/b/", "c"), ("", "c"), ("/a", "/x/y"), ("a", "../r")] {
        let expected = std::path::Path::new(dir).join(file).to_string_lossy().to_string();
        assert_eq!(join_path(dir, file), expected);
    }
}
