use vstd::prelude::*;

use crate::error::EscapeError;
use crate::mode::Mode;
use crate::scan::{char_at, lemma_scan_bounds, scan, scan_escape};
use crate::utf8::{byte_offset, char_width, lemma_byte_offset_monotonic, lemma_byte_offset_step};
use std::ops::Range;

verus! {

/// What the contents of a character literal decode to.
pub open spec fn char_literal(text: Seq<char>) -> Result<char, EscapeError> {
    if text.len() == 0 {
        Err(EscapeError::ZeroChars)
    } else {
        let (r, end) = scan(text[0], text, 1, Mode::Char);
        match r {
            Err(e) => Err(e),
            Ok(c) => if end < text.len() {
                Err(EscapeError::MoreThanOneChar)
            } else {
                Ok(c)
            },
        }
    }
}

/// The characters of `s`, in order.
fn chars_of(s: &str) -> (r: Vec<char>)
    ensures
        r@ == s@,
{
    let mut r: Vec<char> = Vec::new();
    for c in it: s.chars()
        invariant
            r@ == it.seq().take(it.index() as int),
    {
        r.push(c);
    }
    r
}

/// Decodes the contents of a character literal, quotes left out, to the one
/// character they denote.
pub fn unescape_char(literal_text: &str) -> (r: Result<char, EscapeError>)
    ensures
        r == char_literal(literal_text@),
        literal_text@.len() == 0 ==> r == Err::<char, EscapeError>(EscapeError::ZeroChars),
{
    let chars = chars_of(literal_text);
    if chars.len() == 0 {
        return Err(EscapeError::ZeroChars);
    }
    let mut pos: usize = 1;
    let res = scan_escape(chars[0], chars.as_slice(), &mut pos, Mode::Char);
    match res {
        Err(e) => Err(e),
        Ok(c) => if pos < chars.len() {
            Err(EscapeError::MoreThanOneChar)
        } else {
            Ok(c)
        },
    }
}

/// The whitespace that a line continuation swallows.
pub open spec fn is_continuation_space(c: char) -> bool {
    c == ' ' || c == '\t' || c == '\n' || c == '\r'
}

/// The index of the first character at or after `pos` that a line
/// continuation does not swallow, or the end of the text.
pub open spec fn skip_whitespace(text: Seq<char>, pos: int) -> int
    decreases text.len() - pos,
{
    if 0 <= pos < text.len() && is_continuation_space(text[pos]) {
        skip_whitespace(text, pos + 1)
    } else {
        pos
    }
}

/// Whether a line continuation starts at `pos`: a backslash, then a line
/// feed or a carriage return and a line feed.
pub open spec fn is_line_continuation(text: Seq<char>, pos: int) -> bool {
    &&& char_at(text, pos) == Some('\\')
    &&& (char_at(text, pos + 1) == Some('\n') || (char_at(text, pos + 1) == Some('\r')
        && char_at(text, pos + 2) == Some('\n')))
}

/// The unit of a string literal that starts at `pos`, when no line
/// continuation starts there: what it decodes to and where it ends.
pub open spec fn str_unit(text: Seq<char>, pos: int) -> (Result<char, EscapeError>, int) {
    let first = text[pos];
    if first == '\n' {
        (Ok('\n'), pos + 1)
    } else if first == '\r' && char_at(text, pos + 1) == Some('\n') {
        (Ok('\n'), pos + 2)
    } else {
        scan(first, text, pos + 1, Mode::Str)
    }
}

/// The units of a string literal from `pos` on, in order: for each, the range
/// of character indices it spans and what it decodes to. Line continuations
/// give no unit.
pub open spec fn str_units(text: Seq<char>, pos: int) -> Seq<(int, int, Result<char, EscapeError>)>
    decreases text.len() - pos,
    via str_units_decreases
{
    if pos < 0 || pos >= text.len() {
        Seq::empty()
    } else if is_line_continuation(text, pos) {
        str_units(text, skip_whitespace(text, pos + 1))
    } else {
        let (r, end) = str_unit(text, pos);
        seq![(pos, end, r)] + str_units(text, end)
    }
}

pub(crate) proof fn lemma_skip_whitespace_bounds(text: Seq<char>, pos: int)
    requires
        0 <= pos <= text.len(),
    ensures
        pos <= skip_whitespace(text, pos) <= text.len(),
        skip_whitespace(text, pos) < text.len() ==> !is_continuation_space(
            text[skip_whitespace(text, pos)],
        ),
        forall|j: int| pos <= j < skip_whitespace(text, pos) ==> is_continuation_space(text[j]),
    decreases text.len() - pos,
{
    if pos < text.len() && is_continuation_space(text[pos]) {
        lemma_skip_whitespace_bounds(text, pos + 1);
    }
}

/// A unit spans at least one character and stays inside the text.
pub proof fn lemma_str_unit_bounds(text: Seq<char>, pos: int)
    requires
        0 <= pos < text.len(),
    ensures
        pos < str_unit(text, pos).1 <= text.len(),
{
    lemma_scan_bounds(text[pos], text, pos + 1, Mode::Str);
}

#[via_fn]
proof fn str_units_decreases(text: Seq<char>, pos: int) {
    if 0 <= pos < text.len() {
        if is_line_continuation(text, pos) {
            lemma_skip_whitespace_bounds(text, pos + 1);
        } else {
            lemma_str_unit_bounds(text, pos);
        }
    }
}

/// A unit with its character range turned into a range of byte offsets.
pub open spec fn byte_unit(text: Seq<char>, u: (int, int, Result<char, EscapeError>)) -> (
    int,
    int,
    Result<char, EscapeError>,
) {
    (byte_offset(text, u.0) as int, byte_offset(text, u.1) as int, u.2)
}

/// The units of the string literal `text`, with byte ranges.
pub open spec fn str_literal(text: Seq<char>) -> Seq<(int, int, Result<char, EscapeError>)> {
    str_units(text, 0).map_values(|u: (int, int, Result<char, EscapeError>)| byte_unit(text, u))
}

/// A unit as the decoder hands it out, in the terms of `str_literal`.
pub open spec fn unit_view(u: (Range<usize>, Result<char, EscapeError>)) -> (
    int,
    int,
    Result<char, EscapeError>,
) {
    (u.0.start as int, u.0.end as int, u.1)
}

/// The byte offset of each character of `chars`, and of its end.
fn byte_offsets(chars: &[char]) -> (r: Vec<usize>)
    requires
        vstd::utf8::encode_utf8(chars@).len() <= usize::MAX,
    ensures
        r@.len() == chars@.len() + 1,
        forall|i: int| 0 <= i <= chars@.len() ==> r@[i] == byte_offset(chars@, i),
{
    let mut r: Vec<usize> = Vec::new();
    let mut acc: usize = 0;
    let mut i: usize = 0;
    assert(chars@.take(0) =~= Seq::<char>::empty());
    r.push(acc);
    while i < chars.len()
        invariant
            i <= chars@.len(),
            r@.len() == i + 1,
            acc == byte_offset(chars@, i as int),
            forall|j: int| 0 <= j <= i ==> r@[j] == byte_offset(chars@, j),
            vstd::utf8::encode_utf8(chars@).len() <= usize::MAX,
        decreases chars@.len() - i,
    {
        proof {
            lemma_byte_offset_step(chars@, i as int);
            lemma_byte_offset_monotonic(chars@, i + 1, chars@.len() as int);
        }
        acc = acc + char_width(chars[i]);
        i = i + 1;
        r.push(acc);
    }
    r
}

/// The index of the first character at or after `pos` that a line
/// continuation does not swallow.
fn skip_ascii_whitespace(chars: &[char], pos: usize) -> (r: usize)
    requires
        pos <= chars@.len(),
    ensures
        r == skip_whitespace(chars@, pos as int),
        pos <= r <= chars@.len(),
{
    let mut i: usize = pos;
    while i < chars.len() && (chars[i] == ' ' || chars[i] == '\t' || chars[i] == '\n' || chars[i]
        == '\r')
        invariant
            pos <= i <= chars@.len(),
            skip_whitespace(chars@, i as int) == skip_whitespace(chars@, pos as int),
        decreases chars@.len() - i,
    {
        i = i + 1;
    }
    i
}

/// Decodes the contents of a string literal, quotes left out, into its units
/// in order: for each, the range of bytes it spans and the character it
/// denotes or why it is invalid. An error ends only its own unit; decoding
/// goes on to the end. A line continuation (a backslash before a line break,
/// with the whitespace after it) gives no unit.
pub fn unescape_str(src: &str) -> (r: Vec<(Range<usize>, Result<char, EscapeError>)>)
    ensures
        r@.map_values(|u: (Range<usize>, Result<char, EscapeError>)| unit_view(u)) == str_literal(
            src@,
        ),
{
    // The length of the UTF-8 form fits a `usize`, and so does every offset into it.
    let byte_len = src.as_bytes().len();
    assert(byte_len == vstd::utf8::encode_utf8(src@).len());
    let chars = chars_of(src);
    let offsets = byte_offsets(chars.as_slice());
    let ghost text = chars@;
    let mut units: Vec<(Range<usize>, Result<char, EscapeError>)> = Vec::new();
    let ghost mut done: Seq<(int, int, Result<char, EscapeError>)> = Seq::empty();
    let mut pos: usize = 0;
    while pos < chars.len()
        invariant
            text == chars@,
            pos <= text.len(),
            offsets@.len() == text.len() + 1,
            forall|i: int| 0 <= i <= text.len() ==> offsets@[i] == byte_offset(text, i),
            done + str_units(text, pos as int) == str_units(text, 0),
            units@.len() == done.len(),
            forall|i: int| 0 <= i < done.len() ==> unit_view(#[trigger] units@[i]) == byte_unit(text, done[i]),
        decreases text.len() - pos,
    {
        let first = chars[pos];
        let start = pos;
        let second = if pos + 1 < chars.len() { Some(chars[pos + 1]) } else { None };
        let third = if pos + 1 < chars.len() && pos + 2 < chars.len() { Some(chars[pos + 2]) } else { None };
        if first == '\\' && (second == Some('\n') || (second == Some('\r') && third == Some('\n'))) {
            pos = skip_ascii_whitespace(chars.as_slice(), pos + 1);
            continue;
        }
        let res = if first == '\n' {
            pos = pos + 1;
            Ok('\n')
        } else if first == '\r' && second == Some('\n') {
            pos = pos + 2;
            Ok('\n')
        } else {
            pos = pos + 1;
            scan_escape(first, chars.as_slice(), &mut pos, Mode::Str)
        };
        proof {
            let u = (start as int, pos as int, res);
            assert(str_units(text, start as int) == seq![u] + str_units(text, pos as int));
            done = done.push(u);
        }
        units.push((offsets[start]..offsets[pos], res));
    }
    assert(units@.map_values(|u: (Range<usize>, Result<char, EscapeError>)| unit_view(u)) =~= str_literal(src@));
    units
}

} // verus!
