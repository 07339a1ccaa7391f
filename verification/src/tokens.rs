//! The token type produced by the scanner, together with its
//! mathematical model and the classification of names and symbols.

use vstd::prelude::*;

verus! {

/// One classified lexical unit.
///
/// Literal-carrying variants keep their spelling as scanned: an identifier
/// carries its name, a number carries its decimal digit spelling (not yet
/// parsed to a value), and a string literal carries the body between the
/// quotes, uninterpreted. `Illegal` records the cursor position, the column
/// offset and the line number at which an unrecognized character was found.
#[derive(Debug, Clone, PartialEq)]
pub enum Token {
    Fn,
    Import,
    True,
    False,
    If,
    Elif,
    Else,
    Return,
    Ident(String),
    Number(String),
    Str(String),
    Plus,
    Minus,
    Asterix,
    Slash,
    Mod,
    Gt,
    Lt,
    Eq,
    Bang,
    PlusEq,
    MinusEq,
    AsterixEq,
    SlashEq,
    ModEq,
    GtEq,
    LtEq,
    EqEq,
    BangEq,
    LParen,
    RParen,
    LBrace,
    RBrace,
    Comma,
    SemiColon,
    Colon,
    Dot,
    Illegal(usize, usize, usize),
}

/// The mathematical model of a token: the same variants as `Token`, with
/// spellings as character sequences and coordinates as unbounded naturals.
pub enum SpecToken {
    Fn,
    Import,
    True,
    False,
    If,
    Elif,
    Else,
    Return,
    Ident(Seq<char>),
    Number(Seq<char>),
    Str(Seq<char>),
    Plus,
    Minus,
    Asterix,
    Slash,
    Mod,
    Gt,
    Lt,
    Eq,
    Bang,
    PlusEq,
    MinusEq,
    AsterixEq,
    SlashEq,
    ModEq,
    GtEq,
    LtEq,
    EqEq,
    BangEq,
    LParen,
    RParen,
    LBrace,
    RBrace,
    Comma,
    SemiColon,
    Colon,
    Dot,
    Illegal(nat, nat, nat),
}

impl View for Token {
    type V = SpecToken;

    open spec fn view(&self) -> SpecToken {
        match self {
            Token::Fn => SpecToken::Fn,
            Token::Import => SpecToken::Import,
            Token::True => SpecToken::True,
            Token::False => SpecToken::False,
            Token::If => SpecToken::If,
            Token::Elif => SpecToken::Elif,
            Token::Else => SpecToken::Else,
            Token::Return => SpecToken::Return,
            Token::Ident(s) => SpecToken::Ident(s@),
            Token::Number(s) => SpecToken::Number(s@),
            Token::Str(s) => SpecToken::Str(s@),
            Token::Plus => SpecToken::Plus,
            Token::Minus => SpecToken::Minus,
            Token::Asterix => SpecToken::Asterix,
            Token::Slash => SpecToken::Slash,
            Token::Mod => SpecToken::Mod,
            Token::Gt => SpecToken::Gt,
            Token::Lt => SpecToken::Lt,
            Token::Eq => SpecToken::Eq,
            Token::Bang => SpecToken::Bang,
            Token::PlusEq => SpecToken::PlusEq,
            Token::MinusEq => SpecToken::MinusEq,
            Token::AsterixEq => SpecToken::AsterixEq,
            Token::SlashEq => SpecToken::SlashEq,
            Token::ModEq => SpecToken::ModEq,
            Token::GtEq => SpecToken::GtEq,
            Token::LtEq => SpecToken::LtEq,
            Token::EqEq => SpecToken::EqEq,
            Token::BangEq => SpecToken::BangEq,
            Token::LParen => SpecToken::LParen,
            Token::RParen => SpecToken::RParen,
            Token::LBrace => SpecToken::LBrace,
            Token::RBrace => SpecToken::RBrace,
            Token::Comma => SpecToken::Comma,
            Token::SemiColon => SpecToken::SemiColon,
            Token::Colon => SpecToken::Colon,
            Token::Dot => SpecToken::Dot,
            Token::Illegal(p, o, l) => SpecToken::Illegal(*p as nat, *o as nat, *l as nat),
        }
    }
}

/// The reserved word whose spelling is `name`, if there is one.
/// Keywords are recognized by exact spelling match against the identifier
/// family, not by a separate scan path.
pub open spec fn keyword_of(name: Seq<char>) -> Option<SpecToken> {
    if name == "fn"@ {
        Some(SpecToken::Fn)
    } else if name == "import"@ {
        Some(SpecToken::Import)
    } else if name == "true"@ {
        Some(SpecToken::True)
    } else if name == "false"@ {
        Some(SpecToken::False)
    } else if name == "if"@ {
        Some(SpecToken::If)
    } else if name == "elif"@ {
        Some(SpecToken::Elif)
    } else if name == "else"@ {
        Some(SpecToken::Else)
    } else if name == "return"@ {
        Some(SpecToken::Return)
    } else {
        None
    }
}

/// The token for a scanned name: the keyword of that exact spelling if one
/// exists, otherwise an identifier carrying the spelling.
pub open spec fn ident_or_keyword(name: Seq<char>) -> SpecToken {
    match keyword_of(name) {
        Some(t) => t,
        None => SpecToken::Ident(name),
    }
}

/// The one-character operator token for an operator-class character.
pub open spec fn single_op_token(c: char) -> SpecToken {
    if c == '+' {
        SpecToken::Plus
    } else if c == '-' {
        SpecToken::Minus
    } else if c == '*' {
        SpecToken::Asterix
    } else if c == '/' {
        SpecToken::Slash
    } else if c == '%' {
        SpecToken::Mod
    } else if c == '>' {
        SpecToken::Gt
    } else if c == '<' {
        SpecToken::Lt
    } else if c == '=' {
        SpecToken::Eq
    } else {
        SpecToken::Bang
    }
}

/// The two-character compound token for an operator-class character
/// followed by `=`.
pub open spec fn compound_op_token(c: char) -> SpecToken {
    if c == '+' {
        SpecToken::PlusEq
    } else if c == '-' {
        SpecToken::MinusEq
    } else if c == '*' {
        SpecToken::AsterixEq
    } else if c == '/' {
        SpecToken::SlashEq
    } else if c == '%' {
        SpecToken::ModEq
    } else if c == '>' {
        SpecToken::GtEq
    } else if c == '<' {
        SpecToken::LtEq
    } else if c == '=' {
        SpecToken::EqEq
    } else {
        SpecToken::BangEq
    }
}

/// The token for a single-character punctuation mark.
pub open spec fn punct_token(c: char) -> SpecToken {
    if c == '(' {
        SpecToken::LParen
    } else if c == ')' {
        SpecToken::RParen
    } else if c == '{' {
        SpecToken::LBrace
    } else if c == '}' {
        SpecToken::RBrace
    } else if c == ',' {
        SpecToken::Comma
    } else if c == ';' {
        SpecToken::SemiColon
    } else if c == ':' {
        SpecToken::Colon
    } else {
        SpecToken::Dot
    }
}

} // verus!
