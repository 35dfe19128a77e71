//! The lexical grammar, as functions of the source characters.
//!
//! Everything here is specification: `scan` says which token starts at a
//! cursor position and where the cursor stands afterwards, and `tokens_from`
//! says which tokens a whole text holds. The executable lexer is proved to
//! compute exactly these.

use vstd::prelude::*;
use crate::classify::{CharClass, is_letter, is_digit, digit_value};
use crate::token::TokenView;

verus! {

/// Where the maximal run of characters of `class` that starts at `from` ends:
/// the index of the first character at or after `from` that is not in
/// `class`, or the length of `s` if there is none.
pub open spec fn run_end(s: Seq<char>, from: int, class: CharClass) -> int
    decreases s.len() - from,
{
    if 0 <= from < s.len() && class.contains(s[from]) {
        run_end(s, from + 1, class)
    } else {
        from
    }
}

/// The number that a sequence of decimal digits denotes, read most
/// significant digit first. Leading zeros do not change it.
pub open spec fn decimal_value(digits: Seq<char>) -> int
    decreases digits.len(),
{
    if digits.len() == 0 {
        0
    } else {
        10 * decimal_value(digits.drop_last()) + digit_value(digits.last())
    }
}

/// The reserved word spelled exactly `text`, if there is one.
pub open spec fn keyword(text: Seq<char>) -> Option<TokenView> {
    if text == "let"@ {
        Some(TokenView::Let)
    } else if text == "fn"@ {
        Some(TokenView::Function)
    } else if text == "true"@ {
        Some(TokenView::True)
    } else if text == "false"@ {
        Some(TokenView::False)
    } else if text == "if"@ {
        Some(TokenView::If)
    } else if text == "else"@ {
        Some(TokenView::Else)
    } else if text == "return"@ {
        Some(TokenView::Return)
    } else {
        None
    }
}

/// The token of a run of letters: its reserved word, or else an identifier
/// that carries the whole run.
pub open spec fn word_token(text: Seq<char>) -> TokenView {
    match keyword(text) {
        Some(reserved) => reserved,
        None => TokenView::Identifier(text),
    }
}

/// The token of a run of digits: the integer it denotes if that fits an
/// `i32`, or else an illegal token that carries the whole run.
pub open spec fn number_token(digits: Seq<char>) -> TokenView {
    if decimal_value(digits) <= i32::MAX {
        TokenView::Integer(decimal_value(digits))
    } else {
        TokenView::Illegal(digits)
    }
}

/// The operator or delimiter that `c` alone always denotes. `!` and `=` are
/// not among them: what they denote depends on the next character.
pub open spec fn symbol_token(c: char) -> Option<TokenView> {
    if c == '+' {
        Some(TokenView::Plus)
    } else if c == '-' {
        Some(TokenView::Minus)
    } else if c == '/' {
        Some(TokenView::Divide)
    } else if c == '*' {
        Some(TokenView::Multiply)
    } else if c == '<' {
        Some(TokenView::Lt)
    } else if c == '>' {
        Some(TokenView::Gt)
    } else if c == '(' {
        Some(TokenView::LeftParen)
    } else if c == ')' {
        Some(TokenView::RightParen)
    } else if c == '{' {
        Some(TokenView::LeftBrace)
    } else if c == '}' {
        Some(TokenView::RightBrace)
    } else if c == ',' {
        Some(TokenView::Comma)
    } else if c == ';' {
        Some(TokenView::Semicolon)
    } else {
        None
    }
}

/// The character of `s` at index `at`, or `None` where `at` is no index of
/// `s`.
pub open spec fn char_at(s: Seq<char>, at: int) -> Option<char> {
    if 0 <= at < s.len() {
        Some(s[at])
    } else {
        None
    }
}

/// A token together with the cursor position behind its lexeme.
pub ghost struct Scanned {
    pub token: TokenView,
    pub next: int,
}

/// The token whose lexeme starts exactly at `start`, and where it ends.
/// Past the end of `s` this is `Eof`, and the position stays.
pub open spec fn scan_at(s: Seq<char>, start: int) -> Scanned {
    match char_at(s, start) {
        None => Scanned { token: TokenView::Eof, next: start },
        Some(c) => {
            if c == '!' {
                if char_at(s, start + 1) == Some('=') {
                    Scanned { token: TokenView::NotEq, next: start + 2 }
                } else {
                    Scanned { token: TokenView::Bang, next: start + 1 }
                }
            } else if c == '=' {
                if char_at(s, start + 1) == Some('=') {
                    Scanned { token: TokenView::Eq, next: start + 2 }
                } else {
                    Scanned { token: TokenView::Assign, next: start + 1 }
                }
            } else if symbol_token(c) is Some {
                Scanned { token: symbol_token(c).unwrap(), next: start + 1 }
            } else if is_letter(c) {
                let end = run_end(s, start, CharClass::Letter);
                Scanned { token: word_token(s.subrange(start, end)), next: end }
            } else if is_digit(c) {
                let end = run_end(s, start, CharClass::Digit);
                Scanned { token: number_token(s.subrange(start, end)), next: end }
            } else {
                Scanned { token: TokenView::Illegal(seq![c]), next: start + 1 }
            }
        },
    }
}

/// The next token for a cursor at `pos`: whitespace is passed over, then a
/// token is read.
pub open spec fn scan(s: Seq<char>, pos: int) -> Scanned {
    scan_at(s, run_end(s, pos, CharClass::Whitespace))
}

/// A run starts where it is asked for and ends inside the text.
pub proof fn lemma_run_end_bounds(s: Seq<char>, from: int, class: CharClass)
    requires
        0 <= from <= s.len(),
    ensures
        from <= run_end(s, from, class) <= s.len(),
    decreases s.len() - from,
{
    if from < s.len() && class.contains(s[from]) {
        lemma_run_end_bounds(s, from + 1, class);
    }
}

/// Maximal munch: every character of a run is in the class, and the run
/// stops only at the end of the text or before a character that is not.
pub proof fn lemma_run_end_maximal(s: Seq<char>, from: int, class: CharClass)
    requires
        0 <= from <= s.len(),
    ensures
        forall|i: int| from <= i < run_end(s, from, class) ==> class.contains(#[trigger] s[i]),
        match char_at(s, run_end(s, from, class)) {
            Some(c) => !class.contains(c),
            None => run_end(s, from, class) == s.len(),
        },
    decreases s.len() - from,
{
    if from < s.len() && class.contains(s[from]) {
        lemma_run_end_maximal(s, from + 1, class);
    }
}

/// A run is determined by its two properties: if all of `s[from..end]` is in
/// the class and `end` is the end of the text or the index of a character
/// that is not, then `end` is where the run from `from` ends.
pub proof fn lemma_run_end_unique(s: Seq<char>, from: int, end: int, class: CharClass)
    requires
        0 <= from <= end <= s.len(),
        forall|i: int| from <= i < end ==> class.contains(#[trigger] s[i]),
        end < s.len() ==> !class.contains(s[end]),
    ensures
        run_end(s, from, class) == end,
    decreases end - from,
{
    if from < end {
        lemma_run_end_unique(s, from + 1, end, class);
    }
}

/// Appending one digit multiplies the value by ten and adds the digit.
pub proof fn lemma_decimal_value_push(digits: Seq<char>, c: char)
    ensures
        decimal_value(digits.push(c)) == 10 * decimal_value(digits) + digit_value(c),
{
    assert(digits.push(c).drop_last() =~= digits);
}

/// The value of a run of digits is never negative.
pub proof fn lemma_decimal_value_nonnegative(digits: Seq<char>)
    requires
        forall|i: int| 0 <= i < digits.len() ==> is_digit(#[trigger] digits[i]),
    ensures
        0 <= decimal_value(digits),
    decreases digits.len(),
{
    if digits.len() > 0 {
        lemma_decimal_value_nonnegative(digits.drop_last());
    }
}

/// Where a character stands, a token is read: never `Eof`, and never an
/// empty lexeme.
pub proof fn lemma_character_starts_a_token(s: Seq<char>, start: int)
    requires
        0 <= start < s.len(),
    ensures
        !(scan_at(s, start).token is Eof),
        start < scan_at(s, start).next <= s.len(),
{
    lemma_run_end_bounds(s, start + 1, CharClass::Letter);
    lemma_run_end_bounds(s, start + 1, CharClass::Digit);
}

/// Every token ends inside the text. Every token but `Eof` consumes at
/// least one character, and `Eof` leaves the cursor at the end of the text.
pub proof fn lemma_scan_advances(s: Seq<char>, pos: int)
    requires
        0 <= pos <= s.len(),
    ensures
        pos <= scan(s, pos).next <= s.len(),
        scan(s, pos).token is Eof ==> scan(s, pos).next == s.len(),
        !(scan(s, pos).token is Eof) ==> pos < scan(s, pos).next,
{
    let start = run_end(s, pos, CharClass::Whitespace);
    lemma_run_end_bounds(s, pos, CharClass::Whitespace);
    if start < s.len() {
        lemma_character_starts_a_token(s, start);
    }
}

/// The tokens of `s` from the cursor position `pos` on, up to but without
/// the closing `Eof`.
pub open spec fn tokens_from(s: Seq<char>, pos: int) -> Seq<TokenView>
    decreases s.len() - pos,
    when 0 <= pos <= s.len()
    via tokens_from_decreases
{
    let step = scan(s, pos);
    if step.token is Eof {
        Seq::empty()
    } else {
        seq![step.token] + tokens_from(s, step.next)
    }
}

#[via_fn]
proof fn tokens_from_decreases(s: Seq<char>, pos: int) {
    lemma_scan_advances(s, pos);
}

/// No token of a text is `Eof`: that one only closes the stream.
pub proof fn lemma_tokens_hold_no_eof(s: Seq<char>, pos: int)
    requires
        0 <= pos <= s.len(),
    ensures
        forall|i: int|
            0 <= i < tokens_from(s, pos).len() ==> !(#[trigger] tokens_from(s, pos)[i] is Eof),
    decreases s.len() - pos,
{
    let step = scan(s, pos);
    lemma_scan_advances(s, pos);
    if !(step.token is Eof) {
        lemma_tokens_hold_no_eof(s, step.next);
    }
}

/// All the tokens of `s`, without the closing `Eof`.
pub open spec fn tokens(s: Seq<char>) -> Seq<TokenView> {
    tokens_from(s, 0)
}

} // verus!
