use isoflash::text::{
    decimal_exec, lines_exec, parse_u64_exec, replace_exec, split_char_exec, str_contains,
    str_ends_with, str_eq, str_starts_with, trim_end_char_exec, trim_end_str_exec,
    trim_start_char_exec, trim_start_str_exec, trim_ws_exec, two_digits_exec,
};

#[test]
fn parse_u64_accepts_plus_and_digits_only() {
    assert_eq!(parse_u64_exec("0"), Some(0));
    assert_eq!(parse_u64_exec("+42"), Some(42));
    assert_eq!(parse_u64_exec("18446744073709551615"), Some(u64::MAX));
    assert_eq!(parse_u64_exec("18446744073709551616"), None);
    assert_eq!(parse_u64_exec(""), None);
    assert_eq!(parse_u64_exec("+"), None);
    assert_eq!(parse_u64_exec("-1"), None);
    assert_eq!(parse_u64_exec(" 1"), None);
    assert_eq!(parse_u64_exec("1a"), None);
    assert_eq!(parse_u64_exec("١"), None);
}

#[test]
fn parse_u64_agrees_with_std() {
    for s in ["7", "+0", "007", "99999999999999999999", "", "x", "+-3", "12 "] {
        assert_eq!(parse_u64_exec(s), s.parse::<u64>().ok(), "{s}");
    }
}

#[test]
fn decimal_text() {
    assert_eq!(decimal_exec(0), "0");
    assert_eq!(decimal_exec(4096), "4096");
    assert_eq!(decimal_exec(u64::MAX), u64::MAX.to_string());
    assert_eq!(two_digits_exec(7), "07");
    assert_eq!(two_digits_exec(42), "42");
    assert_eq!(two_digits_exec(123), "123");
}

#[test]
fn split_like_std() {
    for (s, c) in [("a.b.c", '.'), ("", '.'), (".", '.'), ("a..b.", '.'), ("/x/y", '/')] {
        let expected: Vec<String> = s.split(c).map(|p| p.to_string()).collect();
        assert_eq!(split_char_exec(s, c), expected);
    }
}

#[test]
fn trims_like_std() {
    assert_eq!(trim_end_char_exec("a//", '/'), "a");
    assert_eq!(trim_end_char_exec("///", '/'), "");
    assert_eq!(trim_start_char_exec("vv3.20", 'v'), "3.20");
    assert_eq!(trim_end_str_exec("x.iso.iso", ".iso"), "x");
    assert_eq!(trim_end_str_exec("abc", ""), "abc");
    assert_eq!(trim_start_str_exec("/dev//dev/sdb", "/dev/"), "sdb");
    for (s, p) in [("/dev/dev/x", "/dev/"), ("aaa", "aa"), ("abc", ""), ("", "x")] {
        assert_eq!(trim_start_str_exec(s, p), s.trim_start_matches(p));
        assert_eq!(trim_end_str_exec(s, p), s.trim_end_matches(p));
    }
    assert_eq!(trim_start_str_exec("/dev/sdb", "/dev/"), "sdb");
    for s in ["  a b \t\n", "\u{3000}x\u{a0}", "", " ", "\u{200b}y"] {
        assert_eq!(trim_ws_exec(s), s.trim());
    }
}

#[test]
fn search_helpers() {
    assert!(str_contains("abcabd", "abd"));
    assert!(!str_contains("ab", "abc"));
    assert!(str_contains("x", ""));
    assert!(str_starts_with("nixos-24.11", "nixos-"));
    assert!(str_ends_with("a-xfce.iso", "-xfce.iso"));
    assert!(str_eq("é", "é"));
    assert!(!str_eq("a", "ab"));
}

#[test]
fn replace_like_std() {
    for (s, p, r) in [("{0} and {0}", "{0}", "x"), ("aaa", "aa", "b"), ("none", "{1}", "y"), ("", "a", "b")] {
        assert_eq!(replace_exec(s, p, r), s.replace(p, r));
    }
}

#[test]
fn lines_like_std() {
    for s in ["a\nb", "a\r\nb\r\n", "", "\n", "x\r", "a\n\nb\n", "\r\n\r\n"] {
        let expected: Vec<String> = s.lines().map(|l| l.to_string()).collect();
        assert_eq!(lines_exec(s), expected, "{s:?}");
    }
}
