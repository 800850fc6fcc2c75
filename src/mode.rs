use vstd::prelude::*;

verus! {

/// The kind of literal being decoded. It decides one rule only: which quote
/// may not stand unescaped inside the literal.
#[derive(Debug, Clone, Copy, PartialEq, Eq, Structural)]
pub enum Mode {
    /// A character literal, delimited by `'`.
    Char,
    /// A string literal, delimited by `"`.
    Str,
}

impl Mode {
    /// The quote that delimits a literal of this kind.
    pub open spec fn quote(self) -> char {
        match self {
            Mode::Char => '\'',
            Mode::Str => '"',
        }
    }

    /// Whether this is the mode of character literals.
    pub fn is_char(self) -> (r: bool)
        ensures
            r <==> self == Mode::Char,
    {
        match self {
            Mode::Char => true,
            Mode::Str => false,
        }
    }

    /// Whether this is the mode of string literals.
    pub fn is_str(self) -> (r: bool)
        ensures
            r <==> self == Mode::Str,
    {
        match self {
            Mode::Char => false,
            Mode::Str => true,
        }
    }
}

} // verus!
