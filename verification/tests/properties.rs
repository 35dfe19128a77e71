use monkey_lexer::classify::CharClass;
use monkey_lexer::lexer::Lexer;
use monkey_lexer::token::{lookup_keyword, same_text, Token};

fn read_all(input: &str) -> Vec<Token> {
    let mut lexer = Lexer::new(input.to_string());
    let mut found = Vec::new();
    loop {
        let token = lexer.next_token();
        let last = token == Token::Eof;
        found.push(token);
        if last {
            return found;
        }
    }
}

fn identifier(text: &str) -> Token {
    Token::Identifier(text.to_string())
}

fn illegal(text: &str) -> Token {
    Token::Illegal(text.to_string())
}

#[test]
fn empty_text_is_eof_at_once() {
    let mut lexer = Lexer::new(String::new());
    assert_eq!(lexer.next_token(), Token::Eof);
}

#[test]
fn whitespace_only_is_eof_at_once() {
    for input in [" ", "\t", "\n", "\r", "  \t\t\r\n\n  ", "\r\n"] {
        let mut lexer = Lexer::new(input.to_string());
        assert_eq!(lexer.next_token(), Token::Eof);
        assert_eq!(lexer.current_char(), None);
    }
}

#[test]
fn each_single_symbol_is_one_token_then_eof() {
    let cases = [
        ("+", Token::Plus),
        ("-", Token::Minus),
        ("/", Token::Divide),
        ("*", Token::Multiply),
        ("<", Token::Lt),
        (">", Token::Gt),
        ("(", Token::LeftParen),
        (")", Token::RightParen),
        ("{", Token::LeftBrace),
        ("}", Token::RightBrace),
        (",", Token::Comma),
        (";", Token::Semicolon),
        ("!", Token::Bang),
        ("=", Token::Assign),
    ];
    for (input, expected) in cases {
        let mut lexer = Lexer::new(input.to_string());
        assert_eq!(lexer.next_token(), expected);
        assert_eq!(lexer.current_char(), None);
        assert_eq!(lexer.next_token(), Token::Eof);
    }
}

#[test]
fn assign_and_eq_are_told_apart() {
    assert_eq!(read_all("="), vec![Token::Assign, Token::Eof]);
    assert_eq!(read_all("=="), vec![Token::Eq, Token::Eof]);
    assert_eq!(read_all("==="), vec![Token::Eq, Token::Assign, Token::Eof]);
    assert_eq!(read_all("===="), vec![Token::Eq, Token::Eq, Token::Eof]);
    assert_eq!(read_all("= ="), vec![Token::Assign, Token::Assign, Token::Eof]);
}

#[test]
fn bang_and_not_eq_are_told_apart() {
    assert_eq!(read_all("!"), vec![Token::Bang, Token::Eof]);
    assert_eq!(read_all("!="), vec![Token::NotEq, Token::Eof]);
    assert_eq!(read_all("!=="), vec![Token::NotEq, Token::Assign, Token::Eof]);
    assert_eq!(read_all("!!="), vec![Token::Bang, Token::NotEq, Token::Eof]);
    assert_eq!(read_all("! ="), vec![Token::Bang, Token::Assign, Token::Eof]);
}

#[test]
fn lookahead_leaves_a_character_that_does_not_match() {
    assert_eq!(read_all("=x"), vec![Token::Assign, identifier("x"), Token::Eof]);
    assert_eq!(read_all("!x"), vec![Token::Bang, identifier("x"), Token::Eof]);
    assert_eq!(read_all("=1"), vec![Token::Assign, Token::Integer(1), Token::Eof]);
    assert_eq!(read_all("=!"), vec![Token::Assign, Token::Bang, Token::Eof]);
    assert_eq!(read_all("=+"), vec![Token::Assign, Token::Plus, Token::Eof]);
    let mut lexer = Lexer::new("=x".to_string());
    assert_eq!(lexer.next_token(), Token::Assign);
    assert_eq!(lexer.current_char(), Some('x'));
}

#[test]
fn two_character_tokens_consume_both_characters() {
    let mut lexer = Lexer::new("==x".to_string());
    assert_eq!(lexer.next_token(), Token::Eq);
    assert_eq!(lexer.current_char(), Some('x'));
    let mut lexer = Lexer::new("!=x".to_string());
    assert_eq!(lexer.next_token(), Token::NotEq);
    assert_eq!(lexer.current_char(), Some('x'));
}

#[test]
fn each_keyword_is_its_own_token() {
    let cases = [
        ("let", Token::Let),
        ("fn", Token::Function),
        ("true", Token::True),
        ("false", Token::False),
        ("if", Token::If),
        ("else", Token::Else),
        ("return", Token::Return),
    ];
    for (input, expected) in cases {
        let mut lexer = Lexer::new(input.to_string());
        assert_eq!(lexer.next_token(), expected);
        assert_eq!(lexer.next_token(), Token::Eof);
    }
}

#[test]
fn other_words_are_identifiers_with_the_full_text() {
    for word in [
        "letx", "result", "le", "f", "fnn", "iff", "elsee", "returns", "truefalse", "Let", "LET",
        "True", "_", "__", "_let", "let_", "snake_case", "CamelCase", "x",
    ] {
        assert_eq!(read_all(word), vec![identifier(word), Token::Eof]);
    }
}

#[test]
fn keyword_table_matches_exact_spelling_only() {
    assert_eq!(lookup_keyword("let"), Some(Token::Let));
    assert_eq!(lookup_keyword("fn"), Some(Token::Function));
    assert_eq!(lookup_keyword("true"), Some(Token::True));
    assert_eq!(lookup_keyword("false"), Some(Token::False));
    assert_eq!(lookup_keyword("if"), Some(Token::If));
    assert_eq!(lookup_keyword("else"), Some(Token::Else));
    assert_eq!(lookup_keyword("return"), Some(Token::Return));
    assert_eq!(lookup_keyword(""), None);
    assert_eq!(lookup_keyword("Let"), None);
    assert_eq!(lookup_keyword("lets"), None);
    assert_eq!(lookup_keyword("le"), None);
    assert_eq!(lookup_keyword("fi"), None);
    assert_eq!(lookup_keyword(" let"), None);
}

#[test]
fn same_text_compares_character_by_character() {
    assert!(same_text("", ""));
    assert!(same_text("abc", "abc"));
    assert!(same_text("\u{e9}t\u{e9}", "\u{e9}t\u{e9}"));
    assert!(!same_text("abc", "abd"));
    assert!(!same_text("abc", "ab"));
    assert!(!same_text("ab", "abc"));
    assert!(!same_text("", "a"));
    assert!(!same_text("\u{e9}", "e"));
}

#[test]
fn digits_do_not_continue_a_word() {
    assert_eq!(read_all("x1"), vec![identifier("x"), Token::Integer(1), Token::Eof]);
    assert_eq!(
        read_all("a1b2"),
        vec![identifier("a"), Token::Integer(1), identifier("b"), Token::Integer(2), Token::Eof]
    );
    assert_eq!(read_all("let5"), vec![Token::Let, Token::Integer(5), Token::Eof]);
}

#[test]
fn letters_do_not_continue_a_number() {
    assert_eq!(read_all("1x"), vec![Token::Integer(1), identifier("x"), Token::Eof]);
    assert_eq!(read_all("123abc"), vec![Token::Integer(123), identifier("abc"), Token::Eof]);
    assert_eq!(read_all("5_"), vec![Token::Integer(5), identifier("_"), Token::Eof]);
    assert_eq!(read_all("10if"), vec![Token::Integer(10), Token::If, Token::Eof]);
}

#[test]
fn number_value_is_decimal() {
    assert_eq!(read_all("12345"), vec![Token::Integer(12345), Token::Eof]);
    assert_eq!(read_all("0"), vec![Token::Integer(0), Token::Eof]);
    assert_eq!(read_all("007"), vec![Token::Integer(7), Token::Eof]);
    assert_eq!(read_all("1000000000"), vec![Token::Integer(1000000000), Token::Eof]);
    assert_eq!(read_all("2147483647"), vec![Token::Integer(2147483647), Token::Eof]);
}

#[test]
fn number_stops_at_the_boundary() {
    let mut lexer = Lexer::new("12+3".to_string());
    assert_eq!(lexer.next_token(), Token::Integer(12));
    assert_eq!(lexer.current_char(), Some('+'));
    assert_eq!(lexer.next_token(), Token::Plus);
    assert_eq!(lexer.next_token(), Token::Integer(3));
    assert_eq!(lexer.next_token(), Token::Eof);
    let mut lexer = Lexer::new("9;".to_string());
    assert_eq!(lexer.next_token(), Token::Integer(9));
    assert_eq!(lexer.next_token(), Token::Semicolon);
}

#[test]
fn number_out_of_range_is_illegal_with_its_digits() {
    assert_eq!(read_all("2147483648"), vec![illegal("2147483648"), Token::Eof]);
    assert_eq!(
        read_all("x = 99999999999;"),
        vec![identifier("x"), Token::Assign, illegal("99999999999"), Token::Semicolon, Token::Eof]
    );
    assert_eq!(
        read_all("00000000004294967296"),
        vec![illegal("00000000004294967296"), Token::Eof]
    );
    assert_eq!(
        read_all("-2147483648"),
        vec![Token::Minus, illegal("2147483648"), Token::Eof]
    );
}

#[test]
fn word_leaves_the_cursor_right_behind_it() {
    let mut lexer = Lexer::new("ab+cd".to_string());
    assert_eq!(lexer.next_token(), identifier("ab"));
    assert_eq!(lexer.current_char(), Some('+'));
    assert_eq!(lexer.peek_char(), Some('c'));
    assert_eq!(lexer.next_token(), Token::Plus);
    assert_eq!(lexer.current_char(), Some('c'));
    assert_eq!(lexer.next_token(), identifier("cd"));
    assert_eq!(lexer.current_char(), None);
    assert_eq!(lexer.next_token(), Token::Eof);
}

#[test]
fn keyword_leaves_the_cursor_right_behind_it() {
    let mut lexer = Lexer::new("fn(".to_string());
    assert_eq!(lexer.next_token(), Token::Function);
    assert_eq!(lexer.current_char(), Some('('));
    assert_eq!(lexer.next_token(), Token::LeftParen);
    assert_eq!(lexer.next_token(), Token::Eof);
}

#[test]
fn symbol_leaves_the_cursor_right_behind_it() {
    let mut lexer = Lexer::new("+-".to_string());
    assert_eq!(lexer.next_token(), Token::Plus);
    assert_eq!(lexer.current_char(), Some('-'));
    assert_eq!(lexer.next_token(), Token::Minus);
    assert_eq!(lexer.current_char(), None);
}

#[test]
fn word_at_the_end_of_the_text_is_read() {
    assert_eq!(read_all("return x"), vec![Token::Return, identifier("x"), Token::Eof]);
    assert_eq!(
        read_all("1 + 2"),
        vec![Token::Integer(1), Token::Plus, Token::Integer(2), Token::Eof]
    );
}

#[test]
fn unknown_characters_are_illegal_one_by_one() {
    assert_eq!(read_all("@"), vec![illegal("@"), Token::Eof]);
    assert_eq!(read_all("@#"), vec![illegal("@"), illegal("#"), Token::Eof]);
    assert_eq!(
        read_all("a$b"),
        vec![identifier("a"), illegal("$"), identifier("b"), Token::Eof]
    );
    assert_eq!(read_all("\u{e9}"), vec![illegal("\u{e9}"), Token::Eof]);
    assert_eq!(
        read_all("x\u{4e16}\u{754c}"),
        vec![identifier("x"), illegal("\u{4e16}"), illegal("\u{754c}"), Token::Eof]
    );
    assert_eq!(
        read_all("\"a\""),
        vec![illegal("\""), identifier("a"), illegal("\""), Token::Eof]
    );
    assert_eq!(
        read_all("1.5"),
        vec![Token::Integer(1), illegal("."), Token::Integer(5), Token::Eof]
    );
}

#[test]
fn other_unicode_whitespace_is_illegal() {
    assert_eq!(read_all("\u{c}"), vec![illegal("\u{c}"), Token::Eof]);
    assert_eq!(
        read_all("a\u{a0}b"),
        vec![identifier("a"), illegal("\u{a0}"), identifier("b"), Token::Eof]
    );
}

#[test]
fn eof_repeats() {
    let mut lexer = Lexer::new("x".to_string());
    assert_eq!(lexer.next_token(), identifier("x"));
    for _ in 0..10 {
        assert_eq!(lexer.next_token(), Token::Eof);
        assert_eq!(lexer.current_char(), None);
        assert_eq!(lexer.peek_char(), None);
    }
}

#[test]
fn eof_repeats_after_trailing_whitespace() {
    let mut lexer = Lexer::new("; \n".to_string());
    assert_eq!(lexer.next_token(), Token::Semicolon);
    assert_eq!(lexer.next_token(), Token::Eof);
    assert_eq!(lexer.next_token(), Token::Eof);
    lexer.read_char();
    lexer.skip_whitespace();
    assert_eq!(lexer.next_token(), Token::Eof);
}

#[test]
fn whitespace_between_tokens_is_not_needed() {
    assert_eq!(
        read_all("a+b*c"),
        vec![
            identifier("a"),
            Token::Plus,
            identifier("b"),
            Token::Multiply,
            identifier("c"),
            Token::Eof,
        ]
    );
    assert_eq!(
        read_all("  a \t+\nb\r"),
        vec![identifier("a"), Token::Plus, identifier("b"), Token::Eof]
    );
}

#[test]
fn char_classes_hold_what_they_should() {
    for c in [' ', '\t', '\n', '\r'] {
        assert!(CharClass::Whitespace.accepts(c));
        assert!(!CharClass::Letter.accepts(c));
        assert!(!CharClass::Digit.accepts(c));
    }
    for c in ['a', 'm', 'z', 'A', 'M', 'Z', '_'] {
        assert!(CharClass::Letter.accepts(c));
        assert!(!CharClass::Whitespace.accepts(c));
        assert!(!CharClass::Digit.accepts(c));
    }
    for c in ['0', '5', '9'] {
        assert!(CharClass::Digit.accepts(c));
        assert!(!CharClass::Letter.accepts(c));
        assert!(!CharClass::Whitespace.accepts(c));
    }
    for c in ['`', '{', '@', '[', '/', ':', '\u{b}', '\u{c}', '\u{e9}', '\u{660}', '\u{2003}'] {
        assert!(!CharClass::Whitespace.accepts(c));
        assert!(!CharClass::Letter.accepts(c));
        assert!(!CharClass::Digit.accepts(c));
    }
}

#[test]
fn tokens_are_equal_by_variant_and_payload() {
    assert_eq!(identifier("a"), identifier("a"));
    assert_ne!(identifier("a"), identifier("b"));
    assert_ne!(identifier("a"), illegal("a"));
    assert_eq!(Token::Integer(3), Token::Integer(3));
    assert_ne!(Token::Integer(3), Token::Integer(4));
    assert_ne!(Token::Integer(0), Token::Eof);
    assert_eq!(Token::Eq, Token::Eq);
    assert_ne!(Token::Eq, Token::Assign);
    assert_ne!(Token::Eq, Token::NotEq);
    assert_ne!(Token::Let, identifier("let"));
    assert_ne!(Token::True, Token::False);
    assert_ne!(Token::LeftParen, Token::RightParen);
    assert_ne!(Token::LeftBrace, Token::LeftParen);
}
