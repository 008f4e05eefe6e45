use fedora_kernel_manager::text::{
    chars_of, contains, ends_with, first_line, is_whitespace, parse_u32, starts_with, str_equal,
    strip_prefix, strip_suffix, trim, u64_to_decimal,
};

#[test]
fn trim_removes_unicode_white_space_at_both_ends() {
    assert_eq!(trim("  abc \n"), "abc");
    assert_eq!(trim("\u{3000}\tx y\u{a0}\r"), "x y");
    assert_eq!(trim(" \n\t "), "");
    assert_eq!(trim(""), "");
    assert_eq!(trim("a"), "a");
}

#[test]
fn trim_twice_is_trim_once() {
    let once = trim("\u{2003} value \u{85}");
    assert_eq!(trim(&once), once);
}

#[test]
fn white_space_classification() {
    assert!(is_whitespace(' '));
    assert!(is_whitespace('\u{b}'));
    assert!(is_whitespace('\u{2028}'));
    assert!(!is_whitespace('\u{200b}'));
    assert!(!is_whitespace('a'));
}

#[test]
fn prefixes_and_suffixes() {
    assert!(starts_with("SCX_FLAGS=-k", "SCX_FLAGS="));
    assert!(!starts_with("SCX", "SCX_FLAGS="));
    assert!(ends_with("en_US.UTF-8", ".UTF-8"));
    assert_eq!(strip_prefix("sched_ext: rusty", "sched_ext: "), Some("rusty".to_string()));
    assert_eq!(strip_prefix("sched", "sched_ext: "), None);
    assert_eq!(strip_suffix("en_US.UTF-8", ".UTF-8"), Some("en_US".to_string()));
    assert_eq!(strip_suffix("C", ".UTF-8"), None);
}

#[test]
fn substring_search() {
    assert!(contains("kernel-cachyos-lts", "lts"));
    assert!(contains("abc", ""));
    assert!(contains("", ""));
    assert!(!contains("abc", "abcd"));
    assert!(!contains("kernel", "lts"));
    assert!(contains("aab", "ab"));
}

#[test]
fn equality_and_characters() {
    assert!(str_equal("ä", "ä"));
    assert!(!str_equal("a", "ab"));
    assert_eq!(chars_of("äb"), vec!['ä', 'b']);
}

#[test]
fn first_line_as_lines_gives_it() {
    assert_eq!(first_line(""), None);
    assert_eq!(first_line("abc"), Some("abc".to_string()));
    assert_eq!(first_line("a\r\nb"), Some("a".to_string()));
    assert_eq!(first_line("a\r"), Some("a\r".to_string()));
    assert_eq!(first_line("\nrest"), Some(String::new()));
    assert_eq!(first_line("one\ntwo\n"), Some("one".to_string()));
}

#[test]
fn decimal_formatting() {
    assert_eq!(u64_to_decimal(0), "0");
    assert_eq!(u64_to_decimal(7), "7");
    assert_eq!(u64_to_decimal(1234), "1234");
    assert_eq!(u64_to_decimal(u64::MAX), u64::MAX.to_string());
}

#[test]
fn u32_parsing_follows_the_standard_parser() {
    for s in ["3", "+7", "+", "", "-1", "-0", "4294967295", "4294967296", "12a", "007", " 1", "99999999999999999999"] {
        assert_eq!(parse_u32(s), s.parse::<u32>().ok(), "input {:?}", s);
    }
    assert_eq!(parse_u32("3"), Some(3));
    assert_eq!(parse_u32("4294967296"), None);
}

#[test]
fn formatted_numbers_parse_back() {
    for n in [0u32, 1, 9, 10, 65535, u32::MAX] {
        assert_eq!(parse_u32(&u64_to_decimal(n as u64)), Some(n));
    }
}

const SAMPLES: [&str; 14] = [
    "",
    " ",
    "abc",
    "  a b  ",
    "\u{85}x\u{2029}",
    "\u{200b}x\u{200b}",
    "\t\n\u{b}\u{c}\r \u{a0}\u{1680}\u{2000}\u{2005}\u{200a}\u{2028}\u{202f}\u{205f}\u{3000}y",
    "line one\r\nline two",
    "\r\n",
    "a\rb\nc",
    "x86-64-v3 (supported, searched)",
    "SCX_FLAGS=",
    "äöü ÄÖÜ",
    "\n\n",
];

#[test]
fn trim_agrees_with_the_standard_library() {
    for s in SAMPLES {
        assert_eq!(trim(s), s.trim(), "input {:?}", s);
    }
    for c in ['\u{9}', '\u{a}', '\u{b}', '\u{c}', '\u{d}', ' ', '\u{85}', '\u{a0}', '\u{1680}', '\u{2000}', '\u{200a}', '\u{2028}', '\u{2029}', '\u{202f}', '\u{205f}', '\u{3000}', '\u{180e}', '\u{feff}', 'x'] {
        assert_eq!(is_whitespace(c), c.is_whitespace(), "char {:?}", c);
    }
}

#[test]
fn first_line_agrees_with_the_standard_library() {
    for s in SAMPLES {
        assert_eq!(first_line(s), s.lines().next().map(|l| l.to_string()), "input {:?}", s);
    }
}

#[test]
fn searches_agree_with_the_standard_library() {
    for h in SAMPLES {
        for n in SAMPLES {
            assert_eq!(contains(h, n), h.contains(n), "{:?} in {:?}", n, h);
            assert_eq!(starts_with(h, n), h.starts_with(n), "{:?} starts {:?}", h, n);
            assert_eq!(ends_with(h, n), h.ends_with(n), "{:?} ends {:?}", h, n);
            assert_eq!(strip_prefix(h, n), h.strip_prefix(n).map(|s| s.to_string()));
            assert_eq!(strip_suffix(h, n), h.strip_suffix(n).map(|s| s.to_string()));
            assert_eq!(str_equal(h, n), h == n);
        }
    }
}
