use std::ops::Range;

use unescape::{scan_escape, unescape_char, unescape_str, EscapeError, Mode};

fn expect_char_err(literal_text: &str, expected_error: EscapeError) {
    let actual_result = unescape_char(literal_text);
    assert_eq!(actual_result, Err(expected_error));
}

fn expect_char_ok(literal_text: &str, expected_char: char) {
    let actual_result = unescape_char(literal_text);
    assert_eq!(actual_result, Ok(expected_char));
}

fn expect_str(literal_text: &str, expected: &str) {
    let mut buf: Result<String, (Range<usize>, EscapeError)> =
        Ok(String::with_capacity(literal_text.len()));
    for (range, c) in unescape_str(literal_text) {
        if let Ok(b) = &mut buf {
            match c {
                Ok(c) => b.push(c),
                Err(e) => buf = Err((range, e)),
            }
        }
    }
    let buf = buf.as_ref().map(|it| it.as_ref());
    assert_eq!(buf, Ok(expected))
}

fn decoded_chars(literal_text: &str) -> String {
    unescape_str(literal_text).into_iter().filter_map(|(_, c)| c.ok()).collect()
}

#[test]
fn test_unescape_char_bad() {
    expect_char_err("", EscapeError::ZeroChars);
    expect_char_err(r"\", EscapeError::LoneSlash);

    expect_char_err("\n", EscapeError::EscapeOnlyChar);
    expect_char_err("\r\n", EscapeError::EscapeOnlyChar);
    expect_char_err("\t", EscapeError::EscapeOnlyChar);
    expect_char_err("'", EscapeError::EscapeOnlyChar);
    expect_char_err("\r", EscapeError::BareCarriageReturn);

    expect_char_err("spam", EscapeError::MoreThanOneChar);
    expect_char_err(r"\x0ff", EscapeError::MoreThanOneChar);
    expect_char_err(r#"\"a"#, EscapeError::MoreThanOneChar);
    expect_char_err(r"\na", EscapeError::MoreThanOneChar);
    expect_char_err(r"\ra", EscapeError::MoreThanOneChar);
    expect_char_err(r"\ta", EscapeError::MoreThanOneChar);
    expect_char_err(r"\\a", EscapeError::MoreThanOneChar);
    expect_char_err(r"\'a", EscapeError::MoreThanOneChar);
    expect_char_err(r"\0a", EscapeError::MoreThanOneChar);
    expect_char_err(r"\u{0}x", EscapeError::MoreThanOneChar);
    expect_char_err(r"\u{1F63b}}", EscapeError::MoreThanOneChar);

    expect_char_err(r"\v", EscapeError::InvalidEscape);
    expect_char_err(r"\ðŸ’©", EscapeError::InvalidEscape);
    expect_char_err(r"\â—", EscapeError::InvalidEscape);

    expect_char_err(r"\x", EscapeError::InvalidHexEscape);
    expect_char_err(r"\x0", EscapeError::InvalidHexEscape);
    expect_char_err(r"\xa", EscapeError::InvalidHexEscape);
    expect_char_err(r"\xf", EscapeError::InvalidHexEscape);
    expect_char_err(r"\xx", EscapeError::InvalidHexEscape);
    expect_char_err(r"\xÑ‹", EscapeError::InvalidHexEscape);
    expect_char_err(r"\xðŸ¦€", EscapeError::InvalidHexEscape);
    expect_char_err(r"\xtt", EscapeError::InvalidHexEscape);
    expect_char_err(r"\xff", EscapeError::OutOfRangeHexEscape);
    expect_char_err(r"\xFF", EscapeError::OutOfRangeHexEscape);
    expect_char_err(r"\x80", EscapeError::OutOfRangeHexEscape);

    expect_char_err(r"\u", EscapeError::InvalidUnicodeEscape);
    expect_char_err(r"\u[0123]", EscapeError::InvalidUnicodeEscape);
    expect_char_err(r"\u{", EscapeError::UnclosedUnicodeEscape);
    expect_char_err(r"\u{0000", EscapeError::UnclosedUnicodeEscape);
    expect_char_err(r"\u{}", EscapeError::EmptyUnicodeEscape);
    expect_char_err(r"\u{_0000}", EscapeError::LeadingUnderscoreUnicodeEscape);
    expect_char_err(r"\u{0000000}", EscapeError::OverlongUnicodeEscape);
    expect_char_err(r"\u{FFFFFF}", EscapeError::OutOfRangeUnicodeEscape);
    expect_char_err(r"\u{ffffff}", EscapeError::OutOfRangeUnicodeEscape);
    expect_char_err(r"\u{ffffff}", EscapeError::OutOfRangeUnicodeEscape);

    expect_char_err(r"\u{DC00}", EscapeError::LoneSurrogateUnicodeEscape);
    expect_char_err(r"\u{DDDD}", EscapeError::LoneSurrogateUnicodeEscape);
    expect_char_err(r"\u{DFFF}", EscapeError::LoneSurrogateUnicodeEscape);

    expect_char_err(r"\u{D800}", EscapeError::LoneSurrogateUnicodeEscape);
    expect_char_err(r"\u{DAAA}", EscapeError::LoneSurrogateUnicodeEscape);
    expect_char_err(r"\u{DBFF}", EscapeError::LoneSurrogateUnicodeEscape);
}

#[test]
fn test_unescape_char_good() {
    expect_char_ok("a", 'a');
    expect_char_ok("ы", 'ы');
    expect_char_ok("🦀", '🦀');

    expect_char_ok(r#"\""#, '"');
    expect_char_ok(r"\n", '\n');
    expect_char_ok(r"\r", '\r');
    expect_char_ok(r"\t", '\t');
    expect_char_ok(r"\\", '\\');
    expect_char_ok(r"\'", '\'');
    expect_char_ok(r"\0", '\0');

    expect_char_ok(r"\x00", '\0');
    expect_char_ok(r"\x5a", 'Z');
    expect_char_ok(r"\x5A", 'Z');
    expect_char_ok(r"\x7f", 127 as char);

    expect_char_ok(r"\u{0}", '\0');
    expect_char_ok(r"\u{000000}", '\0');
    expect_char_ok(r"\u{41}", 'A');
    expect_char_ok(r"\u{0041}", 'A');
    expect_char_ok(r"\u{00_41}", 'A');
    expect_char_ok(r"\u{4__1__}", 'A');
    expect_char_ok(r"\u{1F63b}", '😻');
}

#[test]
fn test_unescape_str_good() {
    expect_str("foo", "foo");
    expect_str("", "");
    expect_str(" \n\r\n", " \n\n");

    expect_str("hello \\\n     world", "hello world");
    expect_str("hello \\\r\n     world", "hello world");
    expect_str("thread's", "thread's")
}

#[test]
fn char_mojibake_is_several_chars() {
    expect_char_err("ðŸ¦€", EscapeError::MoreThanOneChar);
    expect_char_err("Ñ‹", EscapeError::MoreThanOneChar);
}

#[test]
fn char_empty_is_zero_chars() {
    assert_eq!(unescape_char(""), Err(EscapeError::ZeroChars));
}

#[test]
fn char_printable_ascii_decodes_to_itself() {
    for b in 0x20u8..0x7f {
        let c = b as char;
        if c == '\\' || c == '\'' {
            continue;
        }
        assert_eq!(unescape_char(&c.to_string()), Ok(c));
    }
}

#[test]
fn char_lone_slash() {
    assert_eq!(unescape_char("\\"), Err(EscapeError::LoneSlash));
}

#[test]
fn char_hex_escapes() {
    assert_eq!(unescape_char("\\x"), Err(EscapeError::InvalidHexEscape));
    assert_eq!(unescape_char("\\x0"), Err(EscapeError::InvalidHexEscape));
    assert_eq!(unescape_char("\\xg"), Err(EscapeError::InvalidHexEscape));
    assert_eq!(unescape_char("\\xff"), Err(EscapeError::OutOfRangeHexEscape));
    assert_eq!(unescape_char("\\x41"), Ok('A'));
}

#[test]
fn char_unicode_escapes() {
    assert_eq!(unescape_char("\\u{1F63B}"), Ok('\u{1F63B}'));
    assert_eq!(unescape_char("\\u{D800}"), Err(EscapeError::LoneSurrogateUnicodeEscape));
    assert_eq!(unescape_char("\\u{110000}"), Err(EscapeError::OutOfRangeUnicodeEscape));
    assert_eq!(unescape_char("\\u{0000000}"), Err(EscapeError::OverlongUnicodeEscape));
    assert_eq!(unescape_char("\\u{10FFFF}"), Ok('\u{10FFFF}'));
    assert_eq!(unescape_char("\\u{7}x"), Err(EscapeError::MoreThanOneChar));
    assert_eq!(unescape_char("\\u{1234567}"), Err(EscapeError::OverlongUnicodeEscape));
    assert_eq!(unescape_char("\\u{12g}"), Err(EscapeError::InvalidUnicodeEscape));
    assert_eq!(unescape_char("\\u{g}"), Err(EscapeError::InvalidUnicodeEscape));
}

#[test]
fn unescaped_chars_round_trip() {
    for c in ['a', 'Z', ' ', '"', 'ы', '🦀', '\u{7f}', '\0'] {
        assert_eq!(unescape_char(&c.to_string()), Ok(c));
    }
    for c in ['a', '\'', '\n', 'ы', '🦀', '\0'] {
        let s = c.to_string();
        assert_eq!(unescape_str(&s), vec![(0..s.len(), Ok(c))]);
    }
    assert_eq!(unescape_str("\""), vec![(0..1, Err(EscapeError::EscapeOnlyChar))]);
}

#[test]
fn str_ranges_cover_input() {
    let units = unescape_str("aы\\n🦀\\u{41}");
    let ranges: Vec<Range<usize>> = units.iter().map(|(r, _)| r.clone()).collect();
    assert_eq!(ranges, vec![0..1, 1..3, 3..5, 5..9, 9..15]);
    let units = unescape_str("a\\\n  \\\n\tb");
    assert_eq!(units, vec![(0..1, Ok('a')), (8..9, Ok('b'))]);
    assert_eq!(unescape_str("\\\n \n"), vec![]);
}

#[test]
fn str_line_continuation() {
    assert_eq!(decoded_chars("hello \\\n   world"), "hello world");
}

#[test]
fn str_crlf_line_continuation() {
    assert_eq!(decoded_chars("hello \\\r\n   world"), "hello world");
}

#[test]
fn str_newlines() {
    assert_eq!(decoded_chars(" \n\r\n"), " \n\n");
    assert_eq!(
        unescape_str(" \n\r\n"),
        vec![(0..1, Ok(' ')), (1..2, Ok('\n')), (2..4, Ok('\n'))]
    );
}

#[test]
fn str_errors_do_not_stop_decoding() {
    assert_eq!(
        unescape_str("\\x\\q"),
        vec![(0..2, Err(EscapeError::InvalidHexEscape)), (2..4, Err(EscapeError::InvalidEscape))]
    );
}

#[test]
fn str_error_kinds() {
    assert_eq!(unescape_str("\r"), vec![(0..1, Err(EscapeError::BareCarriageReturn))]);
    assert_eq!(unescape_str("\t"), vec![(0..1, Err(EscapeError::EscapeOnlyChar))]);
    assert_eq!(unescape_str("\\"), vec![(0..1, Err(EscapeError::LoneSlash))]);
    assert_eq!(unescape_str("\\x8f"), vec![(0..4, Err(EscapeError::OutOfRangeHexEscape))]);
    assert_eq!(
        unescape_str("\\x4z"),
        vec![(0..3, Err(EscapeError::InvalidHexEscape)), (3..4, Ok('z'))]
    );
    assert_eq!(unescape_str("\\u{}"), vec![(0..4, Err(EscapeError::EmptyUnicodeEscape))]);
    assert_eq!(unescape_str("\\u{_1}"), vec![(0..4, Err(EscapeError::LeadingUnderscoreUnicodeEscape)), (4..5, Ok('1')), (5..6, Ok('}'))]);
    assert_eq!(unescape_str("\\u{12"), vec![(0..5, Err(EscapeError::UnclosedUnicodeEscape))]);
    assert_eq!(unescape_str("\\u{DFFF}"), vec![(0..8, Err(EscapeError::LoneSurrogateUnicodeEscape))]);
    assert_eq!(unescape_str("\\u{200000}"), vec![(0..10, Err(EscapeError::OutOfRangeUnicodeEscape))]);
    assert_eq!(
        unescape_str("\\u{1234567}"),
        vec![(0..10, Err(EscapeError::OverlongUnicodeEscape)), (10..11, Ok('}'))]
    );
    assert_eq!(
        unescape_str("\\u(1)"),
        vec![(0..2, Err(EscapeError::InvalidUnicodeEscape)), (2..3, Ok('(')), (3..4, Ok('1')), (4..5, Ok(')'))]
    );
}

#[test]
fn scan_escape_advances_cursor() {
    let chars: Vec<char> = "\\u{4_1}rest".chars().collect();
    let mut pos: usize = 1;
    assert_eq!(scan_escape(chars[0], &chars, &mut pos, Mode::Str), Ok('A'));
    assert_eq!(pos, 7);
    let chars: Vec<char> = "\"x".chars().collect();
    let mut pos: usize = 1;
    assert_eq!(scan_escape(chars[0], &chars, &mut pos, Mode::Str), Err(EscapeError::EscapeOnlyChar));
    let mut pos: usize = 1;
    assert_eq!(scan_escape(chars[0], &chars, &mut pos, Mode::Char), Ok('"'));
    assert_eq!(pos, 1);
    assert!(Mode::Char.is_char() && !Mode::Char.is_str());
    assert!(Mode::Str.is_str() && !Mode::Str.is_char());
}
