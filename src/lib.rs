//! Decoding of the text inside character and string literals: backslash
//! escapes are resolved to the characters they denote, and every malformed
//! unit is reported with the reason it is invalid.

pub mod error;
pub mod laws;
pub mod literal;
pub mod mode;
pub mod scan;
pub mod utf8;

pub use error::EscapeError;
pub use laws::{lemma_printable_ascii_char, lemma_str_units_cover, lemma_unescaped_char_round_trip};
pub use literal::{unescape_char, unescape_str};
pub use mode::Mode;
pub use scan::scan_escape;
