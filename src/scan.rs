use vstd::prelude::*;
use vstd::utf8::is_scalar;

use crate::error::EscapeError;
use crate::mode::Mode;

verus! {

/// The value of `c` as a hexadecimal digit, upper or lower case.
pub open spec fn hex_value(c: char) -> Option<u32> {
    let v = c as u32;
    if '0' as u32 <= v && v <= '9' as u32 {
        Some((v - '0' as u32) as u32)
    } else if 'a' as u32 <= v && v <= 'f' as u32 {
        Some((v - 'a' as u32 + 10) as u32)
    } else if 'A' as u32 <= v && v <= 'F' as u32 {
        Some((v - 'A' as u32 + 10) as u32)
    } else {
        None
    }
}

/// What a character standing unescaped decodes to. `next` is the character
/// after it, if any (a carriage return before a line feed is told apart from
/// a bare one).
pub open spec fn plain_char(c: char, next: Option<char>, mode: Mode) -> Result<char, EscapeError> {
    if c == '\t' || c == '\n' {
        Err(EscapeError::EscapeOnlyChar)
    } else if c == '\r' {
        if next == Some('\n') {
            Err(EscapeError::EscapeOnlyChar)
        } else {
            Err(EscapeError::BareCarriageReturn)
        }
    } else if c == mode.quote() {
        Err(EscapeError::EscapeOnlyChar)
    } else {
        Ok(c)
    }
}

/// The character at `pos`, if the text reaches that far.
pub open spec fn char_at(text: Seq<char>, pos: int) -> Option<char> {
    if 0 <= pos < text.len() {
        Some(text[pos])
    } else {
        None
    }
}

/// The character that a single-character escape tag stands for.
pub open spec fn simple_escape(tag: char) -> Option<char> {
    if tag == '"' {
        Some('"')
    } else if tag == 'n' {
        Some('\n')
    } else if tag == 'r' {
        Some('\r')
    } else if tag == 't' {
        Some('\t')
    } else if tag == '\\' {
        Some('\\')
    } else if tag == '\'' {
        Some('\'')
    } else if tag == '0' {
        Some('\0')
    } else {
        None
    }
}

proof fn lemma_scan_unicode_digits_bounds(text: Seq<char>, pos: int, value: u32, n_digits: nat)
    requires
        0 <= pos <= text.len(),
    ensures
        pos <= scan_unicode_digits(text, pos, value, n_digits).1 <= text.len(),
    decreases text.len() - pos,
{
    if pos < text.len() && text[pos] == '_' {
        lemma_scan_unicode_digits_bounds(text, pos + 1, value, n_digits);
    } else if pos < text.len() && text[pos] != '}' && hex_value(text[pos]) is Some && n_digits
        + 1 <= 6 {
        let d = hex_value(text[pos])->0;
        lemma_scan_unicode_digits_bounds(text, pos + 1, (value * 16 + d) as u32, n_digits + 1);
    }
}

/// A unit never reads past the end of the text, nor goes back.
pub proof fn lemma_scan_bounds(first: char, text: Seq<char>, pos: int, mode: Mode)
    requires
        0 <= pos <= text.len(),
    ensures
        pos <= scan(first, text, pos, mode).1 <= text.len(),
{
    if first == '\\' && pos < text.len() && text[pos] == 'u' && char_at(text, pos + 1) == Some(
        '{',
    ) && pos + 2 < text.len() {
        let c = text[pos + 2];
        if c != '_' && c != '}' && hex_value(c) is Some {
            lemma_scan_unicode_digits_bounds(text, pos + 3, hex_value(c)->0, 1);
        }
    }
}

/// Sixteen to the power `n`.
pub open spec fn pow16(n: nat) -> nat
    decreases n,
{
    if n == 0 {
        1
    } else {
        16 * pow16((n - 1) as nat)
    }
}

proof fn lemma_pow16_monotonic(a: nat, b: nat)
    requires
        a <= b,
    ensures
        1 <= pow16(a) <= pow16(b),
    decreases b,
{
    if b > 0 {
        if a == b {
            lemma_pow16_monotonic(0, (b - 1) as nat);
        } else {
            lemma_pow16_monotonic(a, (b - 1) as nat);
        }
    }
}

/// The outcome of a `\u{...}` escape whose digits spell `value`.
pub open spec fn unicode_value(value: u32) -> Result<char, EscapeError> {
    if value > 0x10FFFF {
        Err(EscapeError::OutOfRangeUnicodeEscape)
    } else if 0xD800 <= value <= 0xDFFF {
        Err(EscapeError::LoneSurrogateUnicodeEscape)
    } else {
        Ok(value as char)
    }
}

/// A `\x` escape whose digits start at `pos`: the outcome and where the
/// escape ends. A character that is no hexadecimal digit is not part of the
/// escape.
pub open spec fn scan_hex(text: Seq<char>, pos: int) -> (Result<char, EscapeError>, int) {
    match (char_at(text, pos), char_at(text, pos + 1)) {
        (Some(h), Some(l)) if hex_value(h) is Some && hex_value(l) is Some => {
            let v = hex_value(h)->0 * 16 + hex_value(l)->0;
            if v > 0x7F {
                (Err(EscapeError::OutOfRangeHexEscape), pos + 2)
            } else {
                (Ok((v as u32) as char), pos + 2)
            }
        },
        (Some(h), _) if hex_value(h) is Some => (Err(EscapeError::InvalidHexEscape), pos + 1),
        _ => (Err(EscapeError::InvalidHexEscape), pos),
    }
}

/// The digits of a `\u{...}` escape from `pos` on, after `n_digits` digits
/// that spell `value`: the outcome and where the escape ends. The seventh
/// digit ends the escape as soon as it is read.
pub open spec fn scan_unicode_digits(text: Seq<char>, pos: int, value: u32, n_digits: nat) -> (
    Result<char, EscapeError>,
    int,
)
    decreases text.len() - pos,
{
    if pos < 0 || pos >= text.len() {
        (Err(EscapeError::UnclosedUnicodeEscape), pos)
    } else if text[pos] == '_' {
        scan_unicode_digits(text, pos + 1, value, n_digits)
    } else if text[pos] == '}' {
        (unicode_value(value), pos + 1)
    } else {
        match hex_value(text[pos]) {
            None => (Err(EscapeError::InvalidUnicodeEscape), pos),
            Some(d) => if n_digits + 1 > 6 {
                (Err(EscapeError::OverlongUnicodeEscape), pos + 1)
            } else {
                scan_unicode_digits(text, pos + 1, (value * 16 + d) as u32, n_digits + 1)
            },
        }
    }
}

/// A `\u` escape whose `{` should stand at `pos`: the outcome and where the
/// escape ends. A character that cannot belong to the escape (no `{` after
/// the tag, no digit, `_` or `}` inside the braces) is left for what follows.
pub open spec fn scan_unicode(text: Seq<char>, pos: int) -> (Result<char, EscapeError>, int) {
    if char_at(text, pos) != Some('{') {
        (Err(EscapeError::InvalidUnicodeEscape), pos)
    } else {
        match char_at(text, pos + 1) {
            None => (Err(EscapeError::UnclosedUnicodeEscape), pos + 1),
            Some(c) => if c == '_' {
                (Err(EscapeError::LeadingUnderscoreUnicodeEscape), pos + 2)
            } else if c == '}' {
                (Err(EscapeError::EmptyUnicodeEscape), pos + 2)
            } else {
                match hex_value(c) {
                    None => (Err(EscapeError::InvalidUnicodeEscape), pos + 1),
                    Some(d) => scan_unicode_digits(text, pos + 2, d, 1),
                }
            },
        }
    }
}

/// One unit of a literal that starts with `first`, the rest of the text
/// following from `pos` on: what it decodes to and where it ends.
pub open spec fn scan(first: char, text: Seq<char>, pos: int, mode: Mode) -> (
    Result<char, EscapeError>,
    int,
) {
    if first != '\\' {
        (plain_char(first, char_at(text, pos), mode), pos)
    } else {
        match char_at(text, pos) {
            None => (Err(EscapeError::LoneSlash), pos),
            Some(tag) => if simple_escape(tag) is Some {
                (Ok(simple_escape(tag)->0), pos + 1)
            } else if tag == 'x' {
                scan_hex(text, pos + 1)
            } else if tag == 'u' {
                scan_unicode(text, pos + 1)
            } else {
                (Err(EscapeError::InvalidEscape), pos + 1)
            },
        }
    }
}

/// The value of `c` as a hexadecimal digit.
pub fn hex_digit(c: char) -> (r: Option<u32>)
    ensures
        r == hex_value(c),
{
    let v = c as u32;
    if '0' as u32 <= v && v <= '9' as u32 {
        Some(v - '0' as u32)
    } else if 'a' as u32 <= v && v <= 'f' as u32 {
        Some(v - 'a' as u32 + 10)
    } else if 'A' as u32 <= v && v <= 'F' as u32 {
        Some(v - 'A' as u32 + 10)
    } else {
        None
    }
}

/// Relies on char::from_u32: `Some` exactly for Unicode scalar values, holding
/// the character with that code point.
#[verifier::external_body]
fn char_from_u32(v: u32) -> (r: Option<char>)
    ensures
        r is Some <==> is_scalar(v),
        r matches Some(c) ==> c as u32 == v,
{
    char::from_u32(v)
}

/// The character at `pos` of `chars`, if there is one.
fn peek(chars: &[char], pos: usize) -> (r: Option<char>)
    ensures
        r == char_at(chars@, pos as int),
        r is Some ==> pos < chars.len(),
{
    if pos < chars.len() {
        Some(chars[pos])
    } else {
        None
    }
}

/// Decodes the unit that starts with `first_char`, reading on in `chars` from
/// `*pos` and leaving `*pos` at the end of the unit.
pub fn scan_escape(first_char: char, chars: &[char], pos: &mut usize, mode: Mode) -> (r: Result<
    char,
    EscapeError,
>)
    requires
        *old(pos) <= chars@.len(),
    ensures
        (r, *final(pos) as int) == scan(first_char, chars@, *old(pos) as int, mode),
        *old(pos) <= *final(pos) <= chars@.len(),
{
    if first_char != '\\' {
        let next = peek(chars, *pos);
        return match first_char {
            '\t' | '\n' => Err(EscapeError::EscapeOnlyChar),
            '\r' => Err(
                if next == Some('\n') {
                    EscapeError::EscapeOnlyChar
                } else {
                    EscapeError::BareCarriageReturn
                },
            ),
            '\'' if mode.is_char() => Err(EscapeError::EscapeOnlyChar),
            '"' if mode.is_str() => Err(EscapeError::EscapeOnlyChar),
            _ => Ok(first_char),
        };
    }
    let second_char = match peek(chars, *pos) {
        Some(c) => c,
        None => return Err(EscapeError::LoneSlash),
    };
    *pos = *pos + 1;
    match second_char {
        '"' => Ok('"'),
        'n' => Ok('\n'),
        'r' => Ok('\r'),
        't' => Ok('\t'),
        '\\' => Ok('\\'),
        '\'' => Ok('\''),
        '0' => Ok('\0'),
        'x' => scan_hex_escape(chars, pos),
        'u' => scan_unicode_escape(chars, pos),
        _ => Err(EscapeError::InvalidEscape),
    }
}

/// The digits of a `\x` escape, from `*pos` on.
fn scan_hex_escape(chars: &[char], pos: &mut usize) -> (r: Result<char, EscapeError>)
    requires
        *old(pos) <= chars@.len(),
    ensures
        (r, *final(pos) as int) == scan_hex(chars@, *old(pos) as int),
        *old(pos) <= *final(pos) <= chars@.len(),
{
    let hi = match peek(chars, *pos) {
        Some(c) => match hex_digit(c) {
            Some(d) => d,
            None => return Err(EscapeError::InvalidHexEscape),
        },
        None => return Err(EscapeError::InvalidHexEscape),
    };
    *pos = *pos + 1;
    let lo = match peek(chars, *pos) {
        Some(c) => match hex_digit(c) {
            Some(d) => d,
            None => return Err(EscapeError::InvalidHexEscape),
        },
        None => return Err(EscapeError::InvalidHexEscape),
    };
    *pos = *pos + 1;
    let value = hi * 16 + lo;
    if value > 0x7f {
        return Err(EscapeError::OutOfRangeHexEscape);
    }
    Ok((value as u8) as char)
}

/// The rest of a `\u` escape, from its `{` on at `*pos`.
fn scan_unicode_escape(chars: &[char], pos: &mut usize) -> (r: Result<char, EscapeError>)
    requires
        *old(pos) <= chars@.len(),
    ensures
        (r, *final(pos) as int) == scan_unicode(chars@, *old(pos) as int),
        *old(pos) <= *final(pos) <= chars@.len(),
{
    let ghost start = *pos as int;
    if peek(chars, *pos) != Some('{') {
        return Err(EscapeError::InvalidUnicodeEscape);
    }
    *pos = *pos + 1;
    let first = match peek(chars, *pos) {
        Some(c) => c,
        None => return Err(EscapeError::UnclosedUnicodeEscape),
    };
    let mut value: u32 = match first {
        '_' => {
            *pos = *pos + 1;
            return Err(EscapeError::LeadingUnderscoreUnicodeEscape);
        },
        '}' => {
            *pos = *pos + 1;
            return Err(EscapeError::EmptyUnicodeEscape);
        },
        c => match hex_digit(c) {
            Some(d) => d,
            None => return Err(EscapeError::InvalidUnicodeEscape),
        },
    };
    *pos = *pos + 1;
    let mut n_digits: usize = 1;
    let ghost target = scan_unicode_digits(chars@, *pos as int, value, 1);
    proof {
        reveal_with_fuel(pow16, 7);
        assert(pow16(6) == 0x1000000);
    }
    loop
        invariant
            start == *old(pos),
            pow16(6) == 0x1000000,
            start < *pos <= chars@.len(),
            1 <= n_digits <= 6,
            target == scan_unicode(chars@, start),
            value < pow16(n_digits as nat),
            scan_unicode_digits(chars@, *pos as int, value, n_digits as nat) == target,
        decreases chars@.len() - *pos,
    {
        let c = match peek(chars, *pos) {
            Some(c) => c,
            None => return Err(EscapeError::UnclosedUnicodeEscape),
        };
        if c == '_' {
            *pos = *pos + 1;
            continue;
        }
        if c == '}' {
            *pos = *pos + 1;
            return match char_from_u32(value) {
                Some(ch) => {
                    proof {
                        vstd::utf8::char_u32_cast(ch, value);
                    }
                    Ok(ch)
                },
                None => Err(
                    if value > 0x10FFFF {
                        EscapeError::OutOfRangeUnicodeEscape
                    } else {
                        EscapeError::LoneSurrogateUnicodeEscape
                    },
                ),
            };
        }
        let digit = match hex_digit(c) {
            Some(d) => d,
            None => return Err(EscapeError::InvalidUnicodeEscape),
        };
        *pos = *pos + 1;
        n_digits = n_digits + 1;
        if n_digits > 6 {
            return Err(EscapeError::OverlongUnicodeEscape);
        }
        proof {
            lemma_pow16_monotonic(n_digits as nat, 6);
            assert(value * 16 + digit < pow16(n_digits as nat)) by (nonlinear_arith)
                requires
                    value < pow16((n_digits - 1) as nat),
                    digit < 16,
                    pow16(n_digits as nat) == 16 * pow16((n_digits - 1) as nat),
            ;
        }
        value = value * 16 + digit;
    }
}

} // verus!
