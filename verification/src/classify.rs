//! Character classes: which characters are skipped, which start and continue
//! a word, and which make up a number.

use vstd::prelude::*;

verus! {

/// The three classes of characters of which the lexer consumes whole runs.
#[derive(Clone, Copy, Debug)]
pub enum CharClass {
    /// Space, tab, line feed and carriage return.
    Whitespace,
    /// The ASCII letters and the underscore.
    Letter,
    /// The ASCII decimal digits.
    Digit,
}

/// The characters that separate tokens and are skipped: space, tab, line
/// feed and carriage return, and no other.
pub open spec fn is_whitespace(c: char) -> bool {
    c == ' ' || c == '\t' || c == '\n' || c == '\r'
}

/// The characters of which words are made: `a` to `z`, `A` to `Z` and `_`.
pub open spec fn is_letter(c: char) -> bool {
    ('a' <= c && c <= 'z') || ('A' <= c && c <= 'Z') || c == '_'
}

/// The characters of which numbers are made: `0` to `9`.
pub open spec fn is_digit(c: char) -> bool {
    '0' <= c && c <= '9'
}

/// The value of a decimal digit; meaningful where `is_digit(c)`.
pub open spec fn digit_value(c: char) -> int {
    c as int - '0' as int
}

impl CharClass {
    /// Whether `c` belongs to this class.
    pub open spec fn contains(self, c: char) -> bool {
        match self {
            CharClass::Whitespace => is_whitespace(c),
            CharClass::Letter => is_letter(c),
            CharClass::Digit => is_digit(c),
        }
    }

    /// Decides membership of `c` in this class.
    pub fn accepts(&self, c: char) -> (b: bool)
        ensures
            b == self.contains(c),
    {
        match self {
            CharClass::Whitespace => c == ' ' || c == '\t' || c == '\n' || c == '\r',
            CharClass::Letter => ('a' <= c && c <= 'z') || ('A' <= c && c <= 'Z') || c == '_',
            CharClass::Digit => '0' <= c && c <= '9',
        }
    }
}

/// The numeric value of the decimal digit `c`.
pub(crate) fn digit_of(c: char) -> (d: u8)
    requires
        is_digit(c),
    ensures
        d == digit_value(c),
        d <= 9,
{
    (c as u32 - '0' as u32) as u8
}

} // verus!
