use vstd::prelude::*;

use crate::literal::{
    byte_unit, char_literal, is_line_continuation, lemma_skip_whitespace_bounds,
    lemma_str_unit_bounds, skip_whitespace, str_literal, str_unit, str_units,
};
use crate::mode::Mode;
use crate::scan::{char_at, scan};
use crate::utf8::{byte_offset, lemma_byte_offset_monotonic, lemma_byte_offset_step, utf8_width};

verus! {

/// Whether `c` may not stand unescaped in a literal of the given mode.
pub open spec fn must_escape(c: char, mode: Mode) -> bool {
    ||| c == '\\'
    ||| c == '\t'
    ||| c == '\r'
    ||| c == mode.quote()
    ||| (c == '\n' && mode == Mode::Char)
}

/// Whether the character indices `[a, b)` are taken up by line continuations
/// alone, one after another.
pub open spec fn continuation_run(text: Seq<char>, a: int, b: int) -> bool
    decreases b - a,
{
    if a >= b {
        a == b
    } else {
        &&& is_line_continuation(text, a)
        &&& a < skip_whitespace(text, a + 1) <= b
        &&& continuation_run(text, skip_whitespace(text, a + 1), b)
    }
}

/// A printable ASCII character other than the backslash and the single quote
/// is a character literal that decodes to itself.
pub proof fn lemma_printable_ascii_char(c: char)
    requires
        ' ' <= c <= '~',
        c != '\\',
        c != '\'',
    ensures
        char_literal(seq![c]) == Ok::<char, crate::EscapeError>(c),
{
    lemma_unescaped_char_round_trip(c, Mode::Char);
}

/// A character that needs no escape in a mode, written alone as a literal of
/// that mode, decodes to itself: as a character literal to that character,
/// as a string literal to one unit spanning its bytes.
pub proof fn lemma_unescaped_char_round_trip(c: char, mode: Mode)
    requires
        !must_escape(c, mode),
    ensures
        mode == Mode::Char ==> char_literal(seq![c]) == Ok::<char, crate::EscapeError>(c),
        mode == Mode::Str ==> str_literal(seq![c]) == seq![
            (0int, utf8_width(c) as int, Ok::<char, crate::EscapeError>(c)),
        ],
{
    let text = seq![c];
    if c != '\n' {
        assert(scan(c, text, 1, mode) == (Ok::<char, crate::EscapeError>(c), 1int));
    }
    if mode == Mode::Str {
        assert(!is_line_continuation(text, 0));
        assert(str_unit(text, 0) == (Ok::<char, crate::EscapeError>(c), 1int));
        assert(str_units(text, 1) =~= Seq::empty());
        assert(str_units(text, 0) =~= seq![(0int, 1int, Ok::<char, crate::EscapeError>(c))]);
        assert(text.take(0) =~= Seq::<char>::empty());
        lemma_byte_offset_step(text, 0);
        assert(str_literal(text) =~= seq![
            (0int, utf8_width(c) as int, Ok::<char, crate::EscapeError>(c)),
        ]);
    }
}

proof fn lemma_units_from(text: Seq<char>, pos: int)
    requires
        0 <= pos <= text.len(),
    ensures
        forall|i: int|
            0 <= i < str_units(text, pos).len() ==> pos <= #[trigger] str_units(text, pos)[i].0
                < str_units(text, pos)[i].1 <= text.len(),
        forall|i: int|
            0 <= i < str_units(text, pos).len() - 1 ==> continuation_run(
                text,
                #[trigger] str_units(text, pos)[i].1,
                str_units(text, pos)[i + 1].0,
            ),
        str_units(text, pos).len() == 0 ==> continuation_run(text, pos, text.len() as int),
        str_units(text, pos).len() > 0 ==> continuation_run(text, pos, str_units(text, pos)[0].0)
            && continuation_run(text, str_units(text, pos).last().1, text.len() as int),
    decreases text.len() - pos,
{
    if pos < text.len() {
        if is_line_continuation(text, pos) {
            let q = skip_whitespace(text, pos + 1);
            lemma_skip_whitespace_bounds(text, pos + 1);
            lemma_units_from(text, q);
        } else {
            let end = str_unit(text, pos).1;
            lemma_str_unit_bounds(text, pos);
            lemma_units_from(text, end);
            let rest = str_units(text, end);
            let u = str_units(text, pos);
            assert(u == seq![(pos, end, str_unit(text, pos).0)] + rest);
            assert forall|i: int| 0 <= i < u.len() - 1 implies continuation_run(
                text,
                #[trigger] u[i].1,
                u[i + 1].0,
            ) by {
                if i > 0 {
                    assert(u[i] == rest[i - 1]);
                    assert(u[i + 1] == rest[i]);
                }
            }
            assert forall|i: int| 0 <= i < u.len() implies pos <= #[trigger] u[i].0 < u[i].1
                <= text.len() by {
                if i > 0 {
                    assert(u[i] == rest[i - 1]);
                }
            }
        }
    }
}

/// The units of a string literal lie in order: each spans at least one
/// character, each ends at or before the start of the next, and all that
/// lies outside them (before the first, between two, after the last) is line
/// continuations. Their byte ranges keep that order and stay inside the
/// text's UTF-8 form.
pub proof fn lemma_str_units_cover(text: Seq<char>)
    ensures
        forall|i: int|
            0 <= i < str_units(text, 0).len() ==> 0 <= #[trigger] str_units(text, 0)[i].0
                < str_units(text, 0)[i].1 <= text.len(),
        forall|i: int|
            0 <= i < str_units(text, 0).len() - 1 ==> continuation_run(
                text,
                #[trigger] str_units(text, 0)[i].1,
                str_units(text, 0)[i + 1].0,
            ),
        str_units(text, 0).len() == 0 ==> continuation_run(text, 0, text.len() as int),
        str_units(text, 0).len() > 0 ==> continuation_run(text, 0, str_units(text, 0)[0].0)
            && continuation_run(text, str_units(text, 0).last().1, text.len() as int),
        str_literal(text).len() == str_units(text, 0).len(),
        forall|i: int|
            0 <= i < str_literal(text).len() ==> #[trigger] str_literal(text)[i] == byte_unit(
                text,
                str_units(text, 0)[i],
            ),
        forall|i: int|
            0 <= i < str_literal(text).len() ==> 0 <= #[trigger] str_literal(text)[i].0
                < str_literal(text)[i].1 <= vstd::utf8::encode_utf8(text).len(),
        forall|i: int|
            0 <= i < str_literal(text).len() - 1 ==> #[trigger] str_literal(text)[i].1
                <= str_literal(text)[i + 1].0,
{
    lemma_units_from(text, 0);
    let u = str_units(text, 0);
    let b = str_literal(text);
    assert forall|i: int| 0 <= i < b.len() implies 0 <= #[trigger] b[i].0 < b[i].1
        <= vstd::utf8::encode_utf8(text).len() by {
        assert(0 <= u[i].0 < u[i].1 <= text.len());
        lemma_byte_offset_step(text, u[i].0);
        lemma_byte_offset_monotonic(text, u[i].0 + 1, u[i].1);
        lemma_byte_offset_monotonic(text, u[i].1, text.len() as int);
    }
    assert forall|i: int| 0 <= i < b.len() - 1 implies #[trigger] b[i].1 <= b[i + 1].0 by {
        assert(continuation_run(text, u[i].1, u[i + 1].0));
        assert(0 <= u[i + 1].0 < u[i + 1].1 <= text.len());
        lemma_byte_offset_monotonic(text, u[i].1, u[i + 1].0);
    }
}

} // verus!
