use lang::lexer::Lexer;
use lang::tokens::Token;

/// Scans `src` to exhaustion and collects every produced token.
fn drain(src: &str) -> Vec<Token> {
    let mut lex = Lexer::new(src.to_string());
    let mut out = Vec::new();
    while let Some(token) = lex.next() {
        out.push(token);
    }
    out
}

#[test]
fn test_next_token() {
    let code = "import std;\
            fn foo(a: i8, b: i8) i32 {\
                return 42;\
            }\
            fn main() {\
                std.io.printf(\"Hello, World!\n\");\
                if 5 % 2 == 1 { \
                    std.io.printf(\"5 is odd\n\"); \
                } \
            }";

    let mut lex = Lexer::new(code.to_string());

    let result = vec![
        Token::Import,
        Token::Ident(String::from("std")),
        Token::SemiColon,
        Token::Fn,
        Token::Ident(String::from("foo")),
        Token::LParen,
        Token::Ident(String::from("a")),
        Token::Colon,
        Token::Ident(String::from("i8")),
        Token::Comma,
        Token::Ident(String::from("b")),
        Token::Colon,
        Token::Ident(String::from("i8")),
        Token::RParen,
        Token::Ident(String::from("i32")),
        Token::LBrace,
        Token::Return,
        Token::Number(String::from("42")),
        Token::SemiColon,
        Token::RBrace,
        Token::Fn,
        Token::Ident(String::from("main")),
        Token::LParen,
        Token::RParen,
        Token::LBrace,
        Token::Ident(String::from("std")),
        Token::Dot,
        Token::Ident(String::from("io")),
        Token::Dot,
        Token::Ident(String::from("printf")),
        Token::LParen,
        Token::Str(String::from("Hello, World!\n")),
        Token::RParen,
        Token::SemiColon,
        Token::If,
        Token::Number(String::from("5")),
        Token::Mod,
        Token::Number(String::from("2")),
        Token::EqEq,
        Token::Number(String::from("1")),
        Token::LBrace,
        Token::Ident(String::from("std")),
        Token::Dot,
        Token::Ident(String::from("io")),
        Token::Dot,
        Token::Ident(String::from("printf")),
        Token::LParen,
        Token::Str(String::from("5 is odd\n")),
        Token::RParen,
        Token::SemiColon,
        Token::RBrace,
        Token::RBrace,
    ];

    for res in result.iter() {
        assert_eq!(*res, lex.next().unwrap())
    }
}

#[test]
fn test_compound_greedy() {
    assert_eq!(drain("+="), vec![Token::PlusEq]);
    assert_eq!(drain("+ ="), vec![Token::Plus, Token::Eq]);
}

#[test]
fn test_all_compound_operators() {
    assert_eq!(
        drain("== != += -= *= /= %= >= <="),
        vec![
            Token::EqEq,
            Token::BangEq,
            Token::PlusEq,
            Token::MinusEq,
            Token::AsterixEq,
            Token::SlashEq,
            Token::ModEq,
            Token::GtEq,
            Token::LtEq,
        ]
    );
}

#[test]
fn test_single_operators() {
    assert_eq!(
        drain("! = < > + - * / %"),
        vec![
            Token::Bang,
            Token::Eq,
            Token::Lt,
            Token::Gt,
            Token::Plus,
            Token::Minus,
            Token::Asterix,
            Token::Slash,
            Token::Mod,
        ]
    );
    // The peeked character is left unconsumed when it is not `=`.
    assert_eq!(drain("+-"), vec![Token::Plus, Token::Minus]);
}

#[test]
fn test_punctuation() {
    assert_eq!(
        drain("(){},;:."),
        vec![
            Token::LParen,
            Token::RParen,
            Token::LBrace,
            Token::RBrace,
            Token::Comma,
            Token::SemiColon,
            Token::Colon,
            Token::Dot,
        ]
    );
}

#[test]
fn test_keyword_precedence() {
    assert_eq!(drain("iffy"), vec![Token::Ident(String::from("iffy"))]);
    assert_eq!(drain("if"), vec![Token::If]);
}

#[test]
fn test_all_keywords() {
    assert_eq!(
        drain("fn import true false if elif else return"),
        vec![
            Token::Fn,
            Token::Import,
            Token::True,
            Token::False,
            Token::If,
            Token::Elif,
            Token::Else,
            Token::Return,
        ]
    );
}

#[test]
fn test_identifier_spelling() {
    assert_eq!(
        drain("_foo1 x"),
        vec![
            Token::Ident(String::from("_foo1")),
            Token::Ident(String::from("x")),
        ]
    );
}

#[test]
fn test_number_literal() {
    // A number at the very end of the input is still fully recognized.
    assert_eq!(drain("42"), vec![Token::Number(String::from("42"))]);
    assert_eq!(
        drain("42x7"),
        vec![
            Token::Number(String::from("42")),
            Token::Ident(String::from("x7")),
        ]
    );
}

#[test]
fn test_line_column_tracking() {
    assert_eq!(
        drain("a\nb"),
        vec![
            Token::Ident(String::from("a")),
            Token::Ident(String::from("b")),
        ]
    );
    // After a newline the line counter has advanced by one and the column
    // counter has reset, as the coordinates of the illegal token show: the
    // stray character is encountered at position 2, column 0, line 1.
    assert_eq!(
        drain("a\n@"),
        vec![Token::Ident(String::from("a")), Token::Illegal(2, 0, 1)]
    );
}

#[test]
fn test_column_counts_consumed_characters() {
    // Every consumed character advances the column counter: two for the
    // identifier and one for the space, so the stray character is
    // encountered at position 3, column 3.
    assert_eq!(
        drain("ab @"),
        vec![Token::Ident(String::from("ab")), Token::Illegal(3, 3, 0)]
    );
}

#[test]
fn test_string_roundtrip() {
    assert_eq!(drain("\"hello\""), vec![Token::Str(String::from("hello"))]);
    // The closing quote is consumed: the scan resumes right after it.
    assert_eq!(
        drain("\"hi\"x"),
        vec![Token::Str(String::from("hi")), Token::Ident(String::from("x"))]
    );
}

#[test]
fn test_empty_string_literal() {
    assert_eq!(drain("\"\""), vec![Token::Str(String::from(""))]);
}

#[test]
fn test_unterminated_string_literal() {
    // Without a closing quote the literal runs to the end of the input and
    // whatever was scanned becomes the body.
    assert_eq!(drain("\"abc"), vec![Token::Str(String::from("abc"))]);
}

#[test]
fn test_string_keeps_newline_as_content() {
    // A newline inside a string literal is ordinary content: the line
    // counter does not advance, as the illegal token after it shows.
    assert_eq!(
        drain("\"a\nb\"@"),
        vec![Token::Str(String::from("a\nb")), Token::Illegal(5, 5, 0)]
    );
}

#[test]
fn test_illegal_coordinates() {
    // The recorded coordinates are the cursor state at the moment the stray
    // character was encountered: the very start of the input.
    let mut lex = Lexer::new("@".to_string());
    assert_eq!(lex.next(), Some(Token::Illegal(0, 0, 0)));
    assert_eq!(lex.next(), None);
}

#[test]
fn test_end_of_input_idempotence() {
    let mut empty = Lexer::new(String::new());
    assert_eq!(empty.next(), None);
    assert_eq!(empty.next(), None);
    assert_eq!(empty.next(), None);

    let mut lex = Lexer::new("x".to_string());
    assert_eq!(lex.next(), Some(Token::Ident(String::from("x"))));
    assert_eq!(lex.next(), None);
    assert_eq!(lex.next(), None);
}

#[test]
fn test_whitespace_only() {
    assert_eq!(drain(" \t\r\n"), vec![]);
}

#[test]
fn test_concrete_scenario() {
    assert_eq!(
        drain("if 5 % 2 == 1 { }"),
        vec![
            Token::If,
            Token::Number(String::from("5")),
            Token::Mod,
            Token::Number(String::from("2")),
            Token::EqEq,
            Token::Number(String::from("1")),
            Token::LBrace,
            Token::RBrace,
        ]
    );
}
