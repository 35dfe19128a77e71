//! The tokens of the language and their mathematical view.

use vstd::prelude::*;
use vstd::std_specs::iter::IteratorSpec;
use crate::grammar::keyword;

verus! {

/// One lexical unit of the source text.
#[derive(Debug)]
pub enum Token {
    Identifier(String),
    Integer(i32),
    Plus,
    Minus,
    Multiply,
    Divide,
    Bang,
    Lt,
    Gt,
    Eq,
    NotEq,
    Assign,
    /// Text that is no token of the language: a single character that starts
    /// none, or a whole run of digits whose value does not fit an `i32`.
    Illegal(String),
    Eof,
    Comma,
    Semicolon,
    LeftParen,
    RightParen,
    LeftBrace,
    RightBrace,
    Function,
    Let,
    True,
    False,
    If,
    Else,
    Return,
}

/// What a [`Token`] stands for: the same variants, with text as a sequence of
/// characters and the number as a mathematical integer.
pub ghost enum TokenView {
    Identifier(Seq<char>),
    Integer(int),
    Plus,
    Minus,
    Multiply,
    Divide,
    Bang,
    Lt,
    Gt,
    Eq,
    NotEq,
    Assign,
    Illegal(Seq<char>),
    Eof,
    Comma,
    Semicolon,
    LeftParen,
    RightParen,
    LeftBrace,
    RightBrace,
    Function,
    Let,
    True,
    False,
    If,
    Else,
    Return,
}

impl View for Token {
    type V = TokenView;

    open spec fn view(&self) -> TokenView {
        match self {
            Token::Identifier(text) => TokenView::Identifier(text@),
            Token::Integer(value) => TokenView::Integer(*value as int),
            Token::Plus => TokenView::Plus,
            Token::Minus => TokenView::Minus,
            Token::Multiply => TokenView::Multiply,
            Token::Divide => TokenView::Divide,
            Token::Bang => TokenView::Bang,
            Token::Lt => TokenView::Lt,
            Token::Gt => TokenView::Gt,
            Token::Eq => TokenView::Eq,
            Token::NotEq => TokenView::NotEq,
            Token::Assign => TokenView::Assign,
            Token::Illegal(text) => TokenView::Illegal(text@),
            Token::Eof => TokenView::Eof,
            Token::Comma => TokenView::Comma,
            Token::Semicolon => TokenView::Semicolon,
            Token::LeftParen => TokenView::LeftParen,
            Token::RightParen => TokenView::RightParen,
            Token::LeftBrace => TokenView::LeftBrace,
            Token::RightBrace => TokenView::RightBrace,
            Token::Function => TokenView::Function,
            Token::Let => TokenView::Let,
            Token::True => TokenView::True,
            Token::False => TokenView::False,
            Token::If => TokenView::If,
            Token::Else => TokenView::Else,
            Token::Return => TokenView::Return,
        }
    }
}

/// What a sequence of tokens stands for, token by token.
pub open spec fn token_views(tokens: Seq<Token>) -> Seq<TokenView> {
    tokens.map_values(|token: Token| token@)
}

impl PartialEq for Token {
    fn eq(&self, other: &Token) -> (same: bool) {
        match self {
            Token::Identifier(text) => match other {
                Token::Identifier(other_text) => *text == *other_text,
                _ => false,
            },
            Token::Integer(value) => match other {
                Token::Integer(other_value) => *value == *other_value,
                _ => false,
            },
            Token::Illegal(text) => match other {
                Token::Illegal(other_text) => *text == *other_text,
                _ => false,
            },
            Token::Plus => matches!(other, Token::Plus),
            Token::Minus => matches!(other, Token::Minus),
            Token::Multiply => matches!(other, Token::Multiply),
            Token::Divide => matches!(other, Token::Divide),
            Token::Bang => matches!(other, Token::Bang),
            Token::Lt => matches!(other, Token::Lt),
            Token::Gt => matches!(other, Token::Gt),
            Token::Eq => matches!(other, Token::Eq),
            Token::NotEq => matches!(other, Token::NotEq),
            Token::Assign => matches!(other, Token::Assign),
            Token::Eof => matches!(other, Token::Eof),
            Token::Comma => matches!(other, Token::Comma),
            Token::Semicolon => matches!(other, Token::Semicolon),
            Token::LeftParen => matches!(other, Token::LeftParen),
            Token::RightParen => matches!(other, Token::RightParen),
            Token::LeftBrace => matches!(other, Token::LeftBrace),
            Token::RightBrace => matches!(other, Token::RightBrace),
            Token::Function => matches!(other, Token::Function),
            Token::Let => matches!(other, Token::Let),
            Token::True => matches!(other, Token::True),
            Token::False => matches!(other, Token::False),
            Token::If => matches!(other, Token::If),
            Token::Else => matches!(other, Token::Else),
            Token::Return => matches!(other, Token::Return),
        }
    }
}

/// Two tokens are equal where they stand for the same thing: the same
/// variant, with the same text or number.
impl vstd::std_specs::cmp::PartialEqSpecImpl for Token {
    open spec fn obeys_eq_spec() -> bool {
        true
    }

    open spec fn eq_spec(&self, other: &Token) -> bool {
        self@ == other@
    }
}

/// Whether two texts hold the same characters.
pub fn same_text(a: &str, b: &str) -> (same: bool)
    ensures
        same == (a@ == b@),
{
    let mut others = b.chars();
    for c in it: a.chars()
        invariant
            it.seq() == a@,
            it.index() <= b@.len(),
            others.remaining() == b@.skip(it.index()),
            a@.take(it.index()) == b@.take(it.index()),
    {
        match others.next() {
            Some(other) => {
                if c != other {
                    return false;
                }
            },
            None => {
                return false;
            },
        }
    }
    assert(a@.take(a@.len() as int) =~= a@);
    match others.next() {
        Some(_) => false,
        None => {
            assert(b@.take(b@.len() as int) =~= b@);
            true
        },
    }
}

/// The keyword table: the reserved word that `word` spells, if it spells
/// one. The spelling must match exactly, letter case included.
pub fn lookup_keyword(word: &str) -> (reserved: Option<Token>)
    ensures
        match reserved {
            Some(token) => keyword(word@) == Some(token@),
            None => keyword(word@) is None,
        },
{
    if same_text(word, "let") {
        Some(Token::Let)
    } else if same_text(word, "fn") {
        Some(Token::Function)
    } else if same_text(word, "true") {
        Some(Token::True)
    } else if same_text(word, "false") {
        Some(Token::False)
    } else if same_text(word, "if") {
        Some(Token::If)
    } else if same_text(word, "else") {
        Some(Token::Else)
    } else if same_text(word, "return") {
        Some(Token::Return)
    } else {
        None
    }
}

} // verus!
