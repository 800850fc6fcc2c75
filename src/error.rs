use vstd::prelude::*;

verus! {

/// Why a unit of a literal could not be decoded.
#[derive(Debug, Clone, Copy, PartialEq, Eq, Structural)]
pub enum EscapeError {
    /// The contents of a character literal are empty.
    ZeroChars,
    /// A character literal holds more than one character.
    MoreThanOneChar,
    /// A backslash ends the input, with no tag after it.
    LoneSlash,
    /// The character after a backslash starts no known escape.
    InvalidEscape,
    /// An unescaped carriage return that no line feed follows.
    BareCarriageReturn,
    /// A character that may stand only in escaped form.
    EscapeOnlyChar,
    /// `\x` without two hexadecimal digits after it.
    InvalidHexEscape,
    /// `\x` with a value above 0x7F.
    OutOfRangeHexEscape,
    /// `\u` without `{`, or a character inside the braces that does not belong there.
    InvalidUnicodeEscape,
    /// `\u{}` with no digits.
    EmptyUnicodeEscape,
    /// `\u{` whose closing `}` never comes.
    UnclosedUnicodeEscape,
    /// `\u{_`: an underscore before the first digit.
    LeadingUnderscoreUnicodeEscape,
    /// More than six hexadecimal digits inside `\u{...}`.
    OverlongUnicodeEscape,
    /// `\u{...}` naming a surrogate code point, 0xD800 to 0xDFFF.
    LoneSurrogateUnicodeEscape,
    /// `\u{...}` with a value above 0x10FFFF.
    OutOfRangeUnicodeEscape,
}

} // verus!
