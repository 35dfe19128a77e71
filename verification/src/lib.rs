//! A lexer for the Monkey scripting language.
//!
//! A [`lexer::Lexer`] owns a source text and hands out one [`token::Token`]
//! per call of `next_token`. What each call returns is fixed by the spec
//! functions of [`grammar`], which describe the token stream as a function of
//! the source characters and a cursor position. [`laws`] holds what follows
//! from them for every text: maximal munch, one character of lookahead, and an
//! `Eof` that repeats.

pub mod classify;
pub mod token;
pub mod grammar;
pub mod lexer;
pub mod laws;
