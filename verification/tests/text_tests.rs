use mu_t::text_util::{parse_usize, split_lines, trim_str};

#[test]
fn lines_split_at_lf_and_crlf() {
    assert_eq!(split_lines("a\r\nb\n"), vec![String::from("a"), String::from("b")]);
    assert_eq!(split_lines("a\n\nb"), vec![String::from("a"), String::from(""), String::from("b")]);
    assert_eq!(split_lines("x\r"), vec![String::from("x\r")]);
    assert!(split_lines("").is_empty());
    assert_eq!(split_lines("\n"), vec![String::from("")]);
}

#[test]
fn trimming_removes_unicode_white_space() {
    assert_eq!(trim_str("  x y \t\n"), "x y");
    assert_eq!(trim_str("\u{a0}x\u{3000}"), "x");
    assert_eq!(trim_str("   "), "");
}

#[test]
fn numbers_parse_like_std() {
    assert_eq!(parse_usize("12"), Some(12));
    assert_eq!(parse_usize("+7"), Some(7));
    assert_eq!(parse_usize(""), None);
    assert_eq!(parse_usize("+"), None);
    assert_eq!(parse_usize("-1"), None);
    assert_eq!(parse_usize("1a"), None);
    assert_eq!(parse_usize("99999999999999999999999"), None);
}
