//! Properties of the grammar that hold of every source text.
//!
//! The lexer's operations are specified by `scan`; each law below is a
//! statement about `scan`, and so about every lexer in every state.

use vstd::prelude::*;
use crate::classify::{CharClass, is_digit, is_letter, is_whitespace};
use crate::grammar::{
    char_at, decimal_value, keyword, lemma_decimal_value_nonnegative, lemma_run_end_bounds,
    lemma_run_end_maximal, lemma_run_end_unique, run_end, scan, scan_at, symbol_token, tokens,
    tokens_from, Scanned,
};
use crate::token::TokenView;

verus! {

/// No character belongs to two classes, and none that belongs to a class is
/// an operator or a delimiter: the first character of a lexeme decides what
/// kind of token is read.
pub proof fn lemma_classes_are_disjoint(c: char)
    ensures
        !(is_whitespace(c) && is_letter(c)),
        !(is_whitespace(c) && is_digit(c)),
        !(is_letter(c) && is_digit(c)),
        is_whitespace(c) || is_letter(c) || is_digit(c) ==> lone_symbol_token(c) is None,
{
}

/// Where the cursor stands on a character that is not whitespace, the
/// token's lexeme starts right there.
pub proof fn lemma_scan_starts_at_cursor(s: Seq<char>, pos: int)
    requires
        0 <= pos < s.len(),
        !is_whitespace(s[pos]),
    ensures
        scan(s, pos) == scan_at(s, pos),
{
}

/// Whitespace before a token does not change the token: a cursor on a run
/// of whitespace reads what a cursor behind the run reads.
pub proof fn lemma_leading_whitespace_is_skipped(s: Seq<char>, pos: int, start: int)
    requires
        0 <= pos <= start <= s.len(),
        forall|i: int| pos <= i < start ==> is_whitespace(#[trigger] s[i]),
    ensures
        scan(s, pos) == scan(s, start),
    decreases start - pos,
{
    if pos < start {
        lemma_leading_whitespace_is_skipped(s, pos + 1, start);
    }
}

/// A text of nothing but whitespace, the empty text included, holds no
/// token: the first token read is `Eof`, from whatever position.
pub proof fn lemma_whitespace_only_scans_eof(s: Seq<char>, pos: int)
    requires
        0 <= pos <= s.len(),
        forall|i: int| 0 <= i < s.len() ==> is_whitespace(#[trigger] s[i]),
    ensures
        scan(s, pos) == (Scanned { token: TokenView::Eof, next: s.len() as int }),
        tokens(s) == Seq::<TokenView>::empty(),
{
    lemma_run_end_unique(s, pos, s.len() as int, CharClass::Whitespace);
    lemma_run_end_unique(s, 0, s.len() as int, CharClass::Whitespace);
}

/// The token that a text of the single character `c` holds, where `c` is an
/// operator or a delimiter.
pub open spec fn lone_symbol_token(c: char) -> Option<TokenView> {
    if c == '!' {
        Some(TokenView::Bang)
    } else if c == '=' {
        Some(TokenView::Assign)
    } else {
        symbol_token(c)
    }
}

/// A text that is one operator or delimiter character holds exactly the
/// matching token: it is read first, it consumes the character, and `Eof`
/// follows.
pub proof fn lemma_lone_symbol(c: char)
    requires
        lone_symbol_token(c) is Some,
    ensures
        scan(seq![c], 0) == (Scanned { token: lone_symbol_token(c).unwrap(), next: 1 }),
        scan(seq![c], 1) == (Scanned { token: TokenView::Eof, next: 1 }),
        tokens(seq![c]) == seq![lone_symbol_token(c).unwrap()],
{
    assert(tokens_from(seq![c], 1) == Seq::<TokenView>::empty());
}

/// An operator or delimiter other than `!` and `=` is one character long,
/// whatever follows it.
pub proof fn lemma_symbol_consumes_one(s: Seq<char>, pos: int)
    requires
        0 <= pos < s.len(),
        symbol_token(s[pos]) is Some,
    ensures
        scan(s, pos) == (Scanned { token: symbol_token(s[pos]).unwrap(), next: pos + 1 }),
{
}

/// `=` followed by `=` is `Eq` and consumes both characters. `=` followed by
/// anything else, or by nothing, is `Assign` and consumes only itself: the
/// lookahead character is left for the next token.
pub proof fn lemma_equals_lookahead(s: Seq<char>, pos: int)
    requires
        0 <= pos < s.len(),
        s[pos] == '=',
    ensures
        char_at(s, pos + 1) == Some('=') ==> scan(s, pos) == (Scanned {
            token: TokenView::Eq,
            next: pos + 2,
        }),
        char_at(s, pos + 1) != Some('=') ==> scan(s, pos) == (Scanned {
            token: TokenView::Assign,
            next: pos + 1,
        }),
{
}

/// `!` followed by `=` is `NotEq` and consumes both characters. `!` followed
/// by anything else, or by nothing, is `Bang` and consumes only itself: the
/// lookahead character is left for the next token.
pub proof fn lemma_bang_lookahead(s: Seq<char>, pos: int)
    requires
        0 <= pos < s.len(),
        s[pos] == '!',
    ensures
        char_at(s, pos + 1) == Some('=') ==> scan(s, pos) == (Scanned {
            token: TokenView::NotEq,
            next: pos + 2,
        }),
        char_at(s, pos + 1) != Some('=') ==> scan(s, pos) == (Scanned {
            token: TokenView::Bang,
            next: pos + 1,
        }),
{
}

/// The keyword table holds the seven reserved words, each under its exact
/// spelling.
pub proof fn lemma_keyword_table()
    ensures
        keyword("let"@) == Some(TokenView::Let),
        keyword("fn"@) == Some(TokenView::Function),
        keyword("true"@) == Some(TokenView::True),
        keyword("false"@) == Some(TokenView::False),
        keyword("if"@) == Some(TokenView::If),
        keyword("else"@) == Some(TokenView::Else),
        keyword("return"@) == Some(TokenView::Return),
{
    reveal_strlit("let");
    reveal_strlit("fn");
    reveal_strlit("true");
    reveal_strlit("false");
    reveal_strlit("if");
    reveal_strlit("else");
    reveal_strlit("return");
    assert("let"@.len() == 3);
    assert("fn"@.len() == 2 && "fn"@[0] == 'f');
    assert("true"@.len() == 4 && "true"@[0] == 't');
    assert("false"@.len() == 5);
    assert("if"@.len() == 2 && "if"@[0] == 'i');
    assert("else"@.len() == 4 && "else"@[0] == 'e');
    assert("return"@.len() == 6);
}

/// A reserved word is made of letters only.
pub proof fn lemma_keywords_are_words(text: Seq<char>)
    requires
        keyword(text) is Some,
    ensures
        text.len() > 0,
        forall|i: int| 0 <= i < text.len() ==> is_letter(#[trigger] text[i]),
{
    reveal_strlit("let");
    reveal_strlit("fn");
    reveal_strlit("true");
    reveal_strlit("false");
    reveal_strlit("if");
    reveal_strlit("else");
    reveal_strlit("return");
}

/// A letter or underscore starts a word. The word is the longest run of
/// letters and underscores from there: it is not empty, a digit or any other
/// character ends it, and the cursor is left on that character. The token is
/// the reserved word that the run spells, or else an identifier that carries
/// the whole run.
pub proof fn lemma_word(s: Seq<char>, pos: int)
    requires
        0 <= pos < s.len(),
        is_letter(s[pos]),
    ensures
        pos < scan(s, pos).next <= s.len(),
        forall|i: int| pos <= i < scan(s, pos).next ==> is_letter(#[trigger] s[i]),
        match char_at(s, scan(s, pos).next) {
            Some(c) => !is_letter(c),
            None => scan(s, pos).next == s.len(),
        },
        scan(s, pos).token == match keyword(s.subrange(pos, scan(s, pos).next)) {
            Some(reserved) => reserved,
            None => TokenView::Identifier(s.subrange(pos, scan(s, pos).next)),
        },
{
    lemma_run_end_bounds(s, pos + 1, CharClass::Letter);
    lemma_run_end_maximal(s, pos, CharClass::Letter);
}

/// A decimal digit starts a number. The number is the longest run of digits
/// from there: it is not empty, a letter or any other character ends it, and
/// the cursor is left on that character. The token is the integer that the
/// run denotes, or, where that is more than `i32::MAX`, an illegal token
/// that carries the whole run.
pub proof fn lemma_number(s: Seq<char>, pos: int)
    requires
        0 <= pos < s.len(),
        is_digit(s[pos]),
    ensures
        pos < scan(s, pos).next <= s.len(),
        forall|i: int| pos <= i < scan(s, pos).next ==> is_digit(#[trigger] s[i]),
        match char_at(s, scan(s, pos).next) {
            Some(c) => !is_digit(c),
            None => scan(s, pos).next == s.len(),
        },
        scan(s, pos).token == if decimal_value(s.subrange(pos, scan(s, pos).next)) <= i32::MAX {
            TokenView::Integer(decimal_value(s.subrange(pos, scan(s, pos).next)))
        } else {
            TokenView::Illegal(s.subrange(pos, scan(s, pos).next))
        },
{
    lemma_run_end_bounds(s, pos + 1, CharClass::Digit);
    lemma_run_end_maximal(s, pos, CharClass::Digit);
}

/// A character that is neither whitespace, nor an operator or delimiter, nor
/// a letter, underscore or digit is read as an illegal token that
/// carries just that character, and only that character is consumed.
pub proof fn lemma_illegal_character(s: Seq<char>, pos: int)
    requires
        0 <= pos < s.len(),
        !is_whitespace(s[pos]),
        lone_symbol_token(s[pos]) is None,
        !is_letter(s[pos]),
        !is_digit(s[pos]),
    ensures
        scan(s, pos) == (Scanned { token: TokenView::Illegal(seq![s[pos]]), next: pos + 1 }),
{
}

/// Once `Eof` has been read, it is read again, and the cursor stays where
/// it is.
pub proof fn lemma_eof_is_stable(s: Seq<char>, pos: int)
    requires
        scan(s, pos).token is Eof,
    ensures
        scan(s, scan(s, pos).next) == scan(s, pos),
{
}

/// `Eof` is read exactly where nothing but whitespace is left.
pub proof fn lemma_eof_iff_only_whitespace_left(s: Seq<char>, pos: int)
    requires
        0 <= pos <= s.len(),
    ensures
        scan(s, pos).token is Eof <==> forall|i: int|
            pos <= i < s.len() ==> is_whitespace(#[trigger] s[i]),
{
    lemma_run_end_bounds(s, pos, CharClass::Whitespace);
    lemma_run_end_maximal(s, pos, CharClass::Whitespace);
}

/// The integer that a number token carries is never negative and fits an
/// `i32`.
pub proof fn lemma_integer_in_range(s: Seq<char>, pos: int)
    requires
        0 <= pos <= s.len(),
    ensures
        scan(s, pos).token matches TokenView::Integer(value) ==> 0 <= value <= i32::MAX,
{
    let start = run_end(s, pos, CharClass::Whitespace);
    lemma_run_end_bounds(s, pos, CharClass::Whitespace);
    if start < s.len() && is_digit(s[start]) {
        lemma_run_end_bounds(s, start, CharClass::Digit);
        lemma_run_end_maximal(s, start, CharClass::Digit);
        let end = run_end(s, start, CharClass::Digit);
        lemma_decimal_value_nonnegative(s.subrange(start, end));
    }
}

} // verus!
