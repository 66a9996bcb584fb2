use aur_guard::numeral::parse_number;
use aur_guard::numeral::write_number;
use aur_guard::numeral::write_signed;
use aur_guard::text::blank;
use aur_guard::text::listed_names;
use aur_guard::text::same_ignoring_ascii_case;
use aur_guard::text::split_lines;
use aur_guard::text::trimmed;
use aur_guard::text::truncate;
use aur_guard::text::truncate_display;
use aur_guard::text::Class;
use aur_guard::wrap::words_of;

fn chars(s: &str) -> Vec<char> {
    s.chars().collect()
}

fn text(c: &[char]) -> String {
    c.iter().collect()
}

#[test]
fn blanks_are_those_of_unicode() {
    for n in 0..=0x10ffffu32 {
        if let Some(c) = char::from_u32(n) {
            assert_eq!(blank(c), c.is_whitespace(), "{:x}", n);
        }
    }
}

#[test]
fn lines_split_as_std_does() {
    for s in ["", "a", "a\n", "a\n\nb", "a\r\nb\r", "\n", "\r\n", "a\r\r\n", "é\nü"] {
        let c = chars(s);
        let got: Vec<String> = split_lines(&c).iter().map(|l| text(l)).collect();
        let want: Vec<String> = s.lines().map(|l| l.to_string()).collect();
        assert_eq!(got, want, "{:?}", s);
    }
}

#[test]
fn words_split_as_std_does() {
    for s in ["", " ", "a", " a  b\tc\n", "\u{a0}x\u{3000}y", "one"] {
        let c = chars(s);
        let got: Vec<String> = words_of(&c).iter().map(|l| text(l)).collect();
        let want: Vec<String> = s.split_whitespace().map(|l| l.to_string()).collect();
        assert_eq!(got, want, "{:?}", s);
    }
}

#[test]
fn texts_are_trimmed_as_std_does() {
    for s in ["", "  ", " a b ", "\u{2003}x\r\n", "a"] {
        assert_eq!(text(trimmed(&chars(s), Class::Blank)), s.trim());
    }
    assert_eq!(text(trimmed(&chars("'\"a'b\""), Class::Quote)), "a'b");
}

#[test]
fn cutting_by_bytes() {
    let cut = |s: &str, n: usize| truncate(&chars(s), n);
    assert_eq!(cut("abc", 3), "abc");
    assert_eq!(cut("abcd", 3), "abc…");
    assert_eq!(cut("aéb", 2), "a…");
    assert_eq!(cut("aéb", 3), "aé…");
    assert_eq!(cut("aéb", 4), "aéb");
    assert_eq!(cut("😀", 3), "…");
    assert_eq!(cut("x", 0), "…");
    assert_eq!(cut("", 0), "");
}

#[test]
fn cutting_by_characters() {
    let cut = |s: &str, n: usize| truncate_display(&chars(s), n);
    assert_eq!(cut("äöü", 3), "äöü");
    assert_eq!(cut("äöüß", 3), "äö…");
    assert_eq!(cut("ab", 1), "…");
    assert_eq!(cut("ab", 0), "…");
    assert_eq!(cut("", 0), "");
}

#[test]
fn numbers_are_written_and_read() {
    for n in [0u64, 1, 9, 10, 99, 100, 86_400, u64::MAX] {
        assert_eq!(write_number(n), format!("{}", n));
        assert_eq!(parse_number(&chars(&write_number(n)), u64::MAX), Some(n));
    }
    for n in [0i64, -1, 7, -86_400, i64::MAX, i64::MIN + 1, i64::MIN] {
        assert_eq!(write_signed(n), format!("{}", n));
    }
    for s in ["", "+", "-1", "1a", " 1", "00012", "+5", "18446744073709551616", "++1", "٣"] {
        assert_eq!(parse_number(&chars(s), u64::MAX), s.parse::<u64>().ok(), "{}", s);
    }
    assert_eq!(parse_number(&chars("256"), 255), None);
    assert_eq!(parse_number(&chars("255"), 255), Some(255));
}

#[test]
fn case_is_ignored_in_ascii_only() {
    assert!(same_ignoring_ascii_case(&chars("SkIp"), &chars("sKiP")));
    assert!(!same_ignoring_ascii_case(&chars("É"), &chars("é")));
    assert!(!same_ignoring_ascii_case(&chars("a"), &chars("ab")));
    assert!(!same_ignoring_ascii_case(&chars("@"), &chars("`")));
}

#[test]
fn names_are_listed() {
    assert_eq!(listed_names(" a \n\n b\r\n"), vec!["a".to_string(), "b".to_string()]);
}
