//! The lexer: a source text, a cursor into it, and the operations that move
//! the cursor and read tokens.

use vstd::prelude::*;
use crate::classify::{digit_of, CharClass};
use crate::grammar::{
    char_at, decimal_value, lemma_decimal_value_push, lemma_scan_advances, run_end, scan, tokens,
    tokens_from,
};
use crate::token::{lookup_keyword, token_views, Token};

verus! {

/// Assumed of `String::push`, not proved: it appends the character to the
/// end of the string and changes nothing else of it.
pub assume_specification[ String::push ](text: &mut String, c: char)
    ensures
        final(text)@ == old(text)@.push(c),
;

/// A source text with a cursor.
///
/// The cursor is the index of the current character, the one that is
/// classified next. Once every character has been consumed it equals the
/// length of the text and stays there.
pub struct Lexer {
    input: Vec<char>,
    position: usize,
}

impl Lexer {
    #[verifier::type_invariant]
    spec fn cursor_in_bounds(self) -> bool {
        self.position <= self.input.len()
    }

    /// The text that is being read. No operation changes it.
    pub closed spec fn source(&self) -> Seq<char> {
        self.input@
    }

    /// The index of the current character, or the length of the text once
    /// the cursor is past the end.
    pub closed spec fn position(&self) -> int {
        self.position as int
    }

    /// The index of the lookahead character: one behind the current
    /// character, or the length of the text once the cursor is past the end.
    pub open spec fn read_position(&self) -> int {
        if self.position() < self.source().len() {
            self.position() + 1
        } else {
            self.source().len() as int
        }
    }

    /// A lexer for `input` whose current character is the first one.
    pub fn new(input: String) -> (lexer: Lexer)
        ensures
            lexer.source() == input@,
            lexer.position() == 0,
    {
        let mut chars: Vec<char> = Vec::new();
        for c in it: input.as_str().chars()
            invariant
                it.seq() == input@,
                chars@ == input@.take(it.index()),
        {
            chars.push(c);
        }
        Lexer { input: chars, position: 0 }
    }

    /// The current character, or `None` once the cursor is past the end.
    pub fn current_char(&self) -> (c: Option<char>)
        ensures
            c == char_at(self.source(), self.position()),
            0 <= self.position() <= self.source().len(),
    {
        proof {
            use_type_invariant(self);
        }
        if self.position < self.input.len() {
            Some(self.input[self.position])
        } else {
            None
        }
    }

    /// The lookahead character, the one behind the current character, or
    /// `None` where the text has no such character.
    pub fn peek_char(&self) -> (c: Option<char>)
        ensures
            c == char_at(self.source(), self.read_position()),
            c == char_at(self.source(), self.position() + 1),
    {
        proof {
            use_type_invariant(self);
        }
        if self.position < self.input.len() && self.position + 1 < self.input.len() {
            Some(self.input[self.position + 1])
        } else {
            None
        }
    }

    /// Consumes the current character: the lookahead character becomes the
    /// current one. Past the end nothing changes.
    pub fn read_char(&mut self)
        ensures
            final(self).source() == old(self).source(),
            final(self).position() == old(self).read_position(),
            0 <= final(self).position() <= final(self).source().len(),
    {
        proof {
            use_type_invariant(&*self);
        }
        if self.position < self.input.len() {
            self.position = self.position + 1;
        }
    }

    /// Consumes the maximal run of characters of `class` at the cursor.
    fn read_run(&mut self, class: CharClass)
        ensures
            final(self).source() == old(self).source(),
            final(self).position() == run_end(old(self).source(), old(self).position(), class),
            0 <= old(self).position() <= final(self).position() <= final(self).source().len(),
    {
        proof {
            use_type_invariant(&*self);
        }
        let ghost source = self.input@;
        let ghost start = self.position as int;
        while self.position < self.input.len() && class.accepts(self.input[self.position])
            invariant
                self.input@ == source,
                start <= self.position <= self.input.len(),
                run_end(source, self.position as int, class) == run_end(source, start, class),
            decreases self.input.len() - self.position,
        {
            self.position = self.position + 1;
        }
    }

    /// The text between two positions, as a string of its own.
    fn lexeme(&self, from: usize, to: usize) -> (text: String)
        requires
            from <= to <= self.source().len(),
        ensures
            text@ == self.source().subrange(from as int, to as int),
    {
        let mut text = String::new();
        let mut at: usize = from;
        while at < to
            invariant
                from <= at <= to <= self.input.len(),
                text@ == self.input@.subrange(from as int, at as int),
            decreases to - at,
        {
            text.push(self.input[at]);
            at = at + 1;
        }
        text
    }

    /// Passes over the whitespace at the cursor, if there is any.
    pub fn skip_whitespace(&mut self)
        ensures
            final(self).source() == old(self).source(),
            final(self).position() == run_end(
                old(self).source(),
                old(self).position(),
                CharClass::Whitespace,
            ),
            0 <= old(self).position() <= final(self).position() <= final(self).source().len(),
    {
        self.read_run(CharClass::Whitespace);
    }

    /// Reads the maximal run of letters and underscores at the cursor and
    /// leaves the cursor behind it. The run is empty where the current
    /// character starts no word.
    pub fn read_identifier(&mut self) -> (word: String)
        ensures
            final(self).source() == old(self).source(),
            final(self).position() == run_end(
                old(self).source(),
                old(self).position(),
                CharClass::Letter,
            ),
            word@ == old(self).source().subrange(old(self).position(), final(self).position()),
            0 <= old(self).position() <= final(self).position() <= final(self).source().len(),
    {
        let start = self.position;
        self.read_run(CharClass::Letter);
        self.lexeme(start, self.position)
    }

    /// Reads the maximal run of decimal digits at the cursor and leaves the
    /// cursor behind it. Returns the number that the run denotes, or `None`
    /// where that number is greater than `i32::MAX`. An empty run denotes 0.
    pub fn read_number(&mut self) -> (value: Option<i32>)
        ensures
            final(self).source() == old(self).source(),
            final(self).position() == run_end(
                old(self).source(),
                old(self).position(),
                CharClass::Digit,
            ),
            0 <= old(self).position() <= final(self).position() <= final(self).source().len(),
            match value {
                Some(v) => v == decimal_value(
                    old(self).source().subrange(old(self).position(), final(self).position()),
                ),
                None => decimal_value(
                    old(self).source().subrange(old(self).position(), final(self).position()),
                ) > i32::MAX,
            },
    {
        proof {
            use_type_invariant(&*self);
        }
        let ghost source = self.input@;
        let ghost start = self.position as int;
        let mut value: i32 = 0;
        let mut fits = true;
        while self.position < self.input.len() && CharClass::Digit.accepts(
            self.input[self.position],
        )
            invariant
                self.input@ == source,
                0 <= start <= self.position <= self.input.len(),
                run_end(source, self.position as int, CharClass::Digit) == run_end(
                    source,
                    start,
                    CharClass::Digit,
                ),
                0 <= value,
                fits ==> value == decimal_value(source.subrange(start, self.position as int)),
                !fits ==> decimal_value(source.subrange(start, self.position as int)) > i32::MAX,
            decreases self.input.len() - self.position,
        {
            let c = self.input[self.position];
            let digit = digit_of(c);
            proof {
                let read = source.subrange(start, self.position as int);
                assert(source.subrange(start, self.position + 1) =~= read.push(c));
                lemma_decimal_value_push(read, c);
            }
            if fits {
                let wider: i64 = (value as i64) * 10 + (digit as i64);
                if wider <= i32::MAX as i64 {
                    value = wider as i32;
                } else {
                    fits = false;
                }
            }
            self.position = self.position + 1;
        }
        if fits {
            Some(value)
        } else {
            None
        }
    }

    /// Reads the next token and leaves the cursor behind its lexeme.
    ///
    /// Whitespace before the token is passed over. At the end of the text
    /// the token is `Eof`, and the cursor stays where it is, so that every
    /// later call returns `Eof` again. An operator or delimiter consumes its
    /// one or two characters. A word or a number consumes its whole run:
    /// reading the run leaves the cursor behind the lexeme, and it is not
    /// advanced again. A run of digits that denotes more than `i32::MAX` is
    /// read as an `Illegal` token that carries the run, and so is any
    /// character that starts no token.
    pub fn next_token(&mut self) -> (token: Token)
        ensures
            final(self).source() == old(self).source(),
            token@ == scan(old(self).source(), old(self).position()).token,
            final(self).position() == scan(old(self).source(), old(self).position()).next,
            old(self).position() <= final(self).position() <= final(self).source().len(),
            token@ is Eof ==> final(self).position() == final(self).source().len(),
            !(token@ is Eof) ==> old(self).position() < final(self).position(),
    {
        proof {
            use_type_invariant(&*self);
            lemma_scan_advances(self.input@, self.position as int);
        }
        self.skip_whitespace();
        let start = self.position;
        let c = match self.current_char() {
            Some(c) => c,
            None => {
                return Token::Eof;
            },
        };
        let token = match c {
            '+' => Token::Plus,
            '-' => Token::Minus,
            '/' => Token::Divide,
            '*' => Token::Multiply,
            '!' => {
                if self.followed_by_equals() {
                    self.read_char();
                    Token::NotEq
                } else {
                    Token::Bang
                }
            },
            '<' => Token::Lt,
            '>' => Token::Gt,
            '=' => {
                if self.followed_by_equals() {
                    self.read_char();
                    Token::Eq
                } else {
                    Token::Assign
                }
            },
            '(' => Token::LeftParen,
            ')' => Token::RightParen,
            '{' => Token::LeftBrace,
            '}' => Token::RightBrace,
            ',' => Token::Comma,
            ';' => Token::Semicolon,
            _ => {
                if CharClass::Letter.accepts(c) {
                    let word = self.read_identifier();
                    return match lookup_keyword(word.as_str()) {
                        Some(reserved) => reserved,
                        None => Token::Identifier(word),
                    };
                } else if CharClass::Digit.accepts(c) {
                    return match self.read_number() {
                        Some(value) => Token::Integer(value),
                        None => Token::Illegal(self.lexeme(start, self.position)),
                    };
                } else {
                    let mut text = String::new();
                    text.push(c);
                    Token::Illegal(text)
                }
            },
        };
        self.read_char();
        token
    }

    /// Whether the lookahead character is `=`.
    fn followed_by_equals(&self) -> (b: bool)
        ensures
            b == (char_at(self.source(), self.position() + 1) == Some('=')),
    {
        match self.peek_char() {
            Some(c) => c == '=',
            None => false,
        }
    }
}

/// Reads all the tokens of `input`, in order. The closing `Eof` is not among
/// them.
pub fn tokenize(input: String) -> (found: Vec<Token>)
    ensures
        token_views(found@) == tokens(input@),
{
    let ghost source = input@;
    let mut lexer = Lexer::new(input);
    let mut found: Vec<Token> = Vec::new();
    loop
        invariant
            lexer.source() == source,
            0 <= lexer.position() <= source.len(),
            token_views(found@) + tokens_from(source, lexer.position()) == tokens(source),
        ensures
            token_views(found@) == tokens(source),
        decreases source.len() - lexer.position(),
    {
        let ghost read = found@;
        let token = lexer.next_token();
        match token {
            Token::Eof => {
                break;
            },
            other => {
                found.push(other);
                assert(token_views(read).push(other@) + tokens_from(source, lexer.position())
                    =~= token_views(read) + (seq![other@] + tokens_from(
                    source,
                    lexer.position(),
                )));
            },
        }
    }
    found
}

} // verus!
