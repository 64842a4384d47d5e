use e621_downloader::parser::{trim_str, BaseParser, CharClass, ParseErrorKind};
use e621_downloader::text::{split_str, str_contains_char, str_eq, string_from_str};

#[test]
fn split_keeps_empty_pieces() {
    assert_eq!(split_str("a  b", ' '), vec!["a", "", "b"]);
    assert_eq!(split_str("", ' '), vec![""]);
    assert_eq!(split_str(" x ", ' '), vec!["", "x", ""]);
}

#[test]
fn small_string_helpers() {
    assert_eq!(trim_str("  \t a b \n"), "a b");
    assert_eq!(trim_str("   "), "");
    assert!(str_contains_char("rating:s", ':'));
    assert!(!str_contains_char("cat", ':'));
    assert!(str_eq("abc", "abc"));
    assert!(!str_eq("abc", "abd"));
    assert_eq!(string_from_str("été"), "été");
}

#[test]
fn parser_trims_and_reads() {
    let mut p = BaseParser::new("  ab 12\nc  ".to_string());
    assert_eq!(p.total_len(), 11);
    assert_eq!(p.total_columns(), 1);
    assert_eq!(p.pos(), 0);
    assert!(p.starts_with("ab"));
    assert!(!p.starts_with("b"));
    assert_eq!(p.next_char(), 'a');
    assert_eq!(p.consume_while(CharClass::BlacklistRating), "ab");
    p.consume_whitespace();
    assert!(p.next_is('1'));
    assert_eq!(p.consume_while(CharClass::BlacklistId), "12");
    assert_eq!(p.current_column(), 1);
    assert_eq!(p.consume_char(), '\n');
    let rest: String = p.get_current_input().iter().collect();
    assert_eq!(rest, "c");
    assert!(!p.eof());
    p.consume_char();
    assert!(p.eof());
    let e = p.report_error(ParseErrorKind::NoProgress, "x".to_string());
    assert_eq!((e.kind, e.pos, e.column, e.detail.as_str()), (ParseErrorKind::NoProgress, 7, 1, "x"));
}

#[test]
fn unicode_whitespace_is_trimmed() {
    assert_eq!(trim_str("\u{3000}\u{85}a b\u{2029}\u{a0}"), "a b");
    assert_eq!(trim_str("\u{200b}a"), "\u{200b}a");
    for c in ['\t', '\n', '\u{b}', '\u{c}', '\r', ' ', '\u{1680}', '\u{2000}', '\u{200a}', '\u{2028}', '\u{202f}', '\u{205f}'] {
        assert_eq!(trim_str(&format!("{c}x{c}")), "x");
    }
}

#[test]
fn trimming_agrees_with_std_on_every_char() {
    for c in (0u32..=0x3100).chain((0x3100u32..=0x10FFFF).step_by(61)).filter_map(char::from_u32) {
        let text = format!("{c}x{c}");
        assert_eq!(trim_str(&text), text.trim(), "char {:x}", c as u32);
    }
}
