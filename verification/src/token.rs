//! Lexical tokens of the source language.

use vstd::prelude::*;

use crate::text::dec_str;
use crate::text::str_eq;
use crate::text::u64_to_string;

verus! {

/// One lexical token.
#[derive(Debug, Clone)]
pub enum Token {
    // Special
    Assign,
    Ident(String),
    Illegal,
    Eof,
    Newline,
    Whitespace,
    // Literals
    Int(u64),
    Char(char),
    String(String),
    // Operators
    Equal,
    NotEqual,
    Plus,
    Minus,
    Asterisk,
    ForwardSlash,
    LessThan,
    LessThanEqual,
    GreaterThan,
    GreaterThanEqual,
    // Keywords
    Let,
    If,
    Else,
    While,
    Return,
    // Separators
    LParen,
    RParen,
    LBrace,
    RBrace,
    Comma,
    SemiColon,
}

/// Token equality: same variant, and payloads with the same content.
pub open spec fn token_eq(a: Token, b: Token) -> bool {
    match (a, b) {
        (Token::Assign, Token::Assign) => true,
        (Token::Ident(x), Token::Ident(y)) => x@ == y@,
        (Token::Illegal, Token::Illegal) => true,
        (Token::Eof, Token::Eof) => true,
        (Token::Newline, Token::Newline) => true,
        (Token::Whitespace, Token::Whitespace) => true,
        (Token::Int(x), Token::Int(y)) => x == y,
        (Token::Char(x), Token::Char(y)) => x == y,
        (Token::String(x), Token::String(y)) => x@ == y@,
        (Token::Equal, Token::Equal) => true,
        (Token::NotEqual, Token::NotEqual) => true,
        (Token::Plus, Token::Plus) => true,
        (Token::Minus, Token::Minus) => true,
        (Token::Asterisk, Token::Asterisk) => true,
        (Token::ForwardSlash, Token::ForwardSlash) => true,
        (Token::LessThan, Token::LessThan) => true,
        (Token::LessThanEqual, Token::LessThanEqual) => true,
        (Token::GreaterThan, Token::GreaterThan) => true,
        (Token::GreaterThanEqual, Token::GreaterThanEqual) => true,
        (Token::Let, Token::Let) => true,
        (Token::If, Token::If) => true,
        (Token::Else, Token::Else) => true,
        (Token::While, Token::While) => true,
        (Token::Return, Token::Return) => true,
        (Token::LParen, Token::LParen) => true,
        (Token::RParen, Token::RParen) => true,
        (Token::LBrace, Token::LBrace) => true,
        (Token::RBrace, Token::RBrace) => true,
        (Token::Comma, Token::Comma) => true,
        (Token::SemiColon, Token::SemiColon) => true,
        _ => false,
    }
}

impl PartialEq for Token {
    fn eq(&self, other: &Token) -> (r: bool) {
        match (self, other) {
            (Token::Assign, Token::Assign) => true,
            (Token::Ident(x), Token::Ident(y)) => str_eq(x.as_str(), y.as_str()),
            (Token::Illegal, Token::Illegal) => true,
            (Token::Eof, Token::Eof) => true,
            (Token::Newline, Token::Newline) => true,
            (Token::Whitespace, Token::Whitespace) => true,
            (Token::Int(x), Token::Int(y)) => x == y,
            (Token::Char(x), Token::Char(y)) => x == y,
            (Token::String(x), Token::String(y)) => str_eq(x.as_str(), y.as_str()),
            (Token::Equal, Token::Equal) => true,
            (Token::NotEqual, Token::NotEqual) => true,
            (Token::Plus, Token::Plus) => true,
            (Token::Minus, Token::Minus) => true,
            (Token::Asterisk, Token::Asterisk) => true,
            (Token::ForwardSlash, Token::ForwardSlash) => true,
            (Token::LessThan, Token::LessThan) => true,
            (Token::LessThanEqual, Token::LessThanEqual) => true,
            (Token::GreaterThan, Token::GreaterThan) => true,
            (Token::GreaterThanEqual, Token::GreaterThanEqual) => true,
            (Token::Let, Token::Let) => true,
            (Token::If, Token::If) => true,
            (Token::Else, Token::Else) => true,
            (Token::While, Token::While) => true,
            (Token::Return, Token::Return) => true,
            (Token::LParen, Token::LParen) => true,
            (Token::RParen, Token::RParen) => true,
            (Token::LBrace, Token::LBrace) => true,
            (Token::RBrace, Token::RBrace) => true,
            (Token::Comma, Token::Comma) => true,
            (Token::SemiColon, Token::SemiColon) => true,
            _ => false,
        }
    }
}

impl vstd::std_specs::cmp::PartialEqSpecImpl for Token {
    open spec fn obeys_eq_spec() -> bool {
        true
    }

    open spec fn eq_spec(&self, other: &Token) -> bool {
        token_eq(*self, *other)
    }
}

impl Token {
    /// The token one character lexes to, when no longer token starts
    /// with it; unknown characters are `Illegal`.
    pub open spec fn spec_from_u8(ch: u8) -> Token {
        if ch == 0x3d {
            Token::Assign
        } else if ch == 0x2b {
            Token::Plus
        } else if ch == 0x2d {
            Token::Minus
        } else if ch == 0x2a {
            Token::Asterisk
        } else if ch == 0x2f {
            Token::ForwardSlash
        } else if ch == 0x3c {
            Token::LessThan
        } else if ch == 0x3e {
            Token::GreaterThan
        } else if ch == 0x0a {
            Token::Newline
        } else if ch == 0x00 {
            Token::Eof
        } else if ch == 0x28 {
            Token::LParen
        } else if ch == 0x29 {
            Token::RParen
        } else if ch == 0x7b {
            Token::LBrace
        } else if ch == 0x7d {
            Token::RBrace
        } else if ch == 0x2c {
            Token::Comma
        } else if ch == 0x3b {
            Token::SemiColon
        } else {
            Token::Illegal
        }
    }

    /// The token two characters lex to together, or `Illegal` when the
    /// pair is no token.
    pub open spec fn spec_from_pair(ch: u8, next_ch: u8) -> Token {
        if ch == 0x3d && next_ch == 0x3d {
            Token::Equal
        } else if ch == 0x21 && next_ch == 0x3d {
            Token::NotEqual
        } else if ch == 0x3c && next_ch == 0x3d {
            Token::LessThanEqual
        } else if ch == 0x3e && next_ch == 0x3d {
            Token::GreaterThanEqual
        } else {
            Token::Illegal
        }
    }

    /// The token a word lexes to: a keyword, or an identifier.
    pub open spec fn spec_from_word(value: String) -> Token {
        if value@ == "let"@ {
            Token::Let
        } else if value@ == "if"@ {
            Token::If
        } else if value@ == "else"@ {
            Token::Else
        } else if value@ == "while"@ {
            Token::While
        } else if value@ == "return"@ {
            Token::Return
        } else {
            Token::Ident(value)
        }
    }
}

impl From<u8> for Token {
    fn from(ch: u8) -> (r: Token) {
        match ch {
            0x3d => Token::Assign,
            0x2b => Token::Plus,
            0x2d => Token::Minus,
            0x2a => Token::Asterisk,
            0x2f => Token::ForwardSlash,
            0x3c => Token::LessThan,
            0x3e => Token::GreaterThan,
            0x0a => Token::Newline,
            0x00 => Token::Eof,
            0x28 => Token::LParen,
            0x29 => Token::RParen,
            0x7b => Token::LBrace,
            0x7d => Token::RBrace,
            0x2c => Token::Comma,
            0x3b => Token::SemiColon,
            _ => Token::Illegal,
        }
    }
}

impl vstd::std_specs::convert::FromSpecImpl<u8> for Token {
    open spec fn obeys_from_spec() -> bool {
        true
    }

    open spec fn from_spec(ch: u8) -> Token {
        Token::spec_from_u8(ch)
    }
}

impl From<(u8, u8)> for Token {
    fn from(pair: (u8, u8)) -> (r: Token) {
        match pair {
            (0x3d, 0x3d) => Token::Equal,
            (0x21, 0x3d) => Token::NotEqual,
            (0x3c, 0x3d) => Token::LessThanEqual,
            (0x3e, 0x3d) => Token::GreaterThanEqual,
            _ => Token::Illegal,
        }
    }
}

impl vstd::std_specs::convert::FromSpecImpl<(u8, u8)> for Token {
    open spec fn obeys_from_spec() -> bool {
        true
    }

    open spec fn from_spec(pair: (u8, u8)) -> Token {
        Token::spec_from_pair(pair.0, pair.1)
    }
}

impl From<String> for Token {
    fn from(value: String) -> (r: Token) {
        if str_eq(value.as_str(), "let") {
            Token::Let
        } else if str_eq(value.as_str(), "if") {
            Token::If
        } else if str_eq(value.as_str(), "else") {
            Token::Else
        } else if str_eq(value.as_str(), "while") {
            Token::While
        } else if str_eq(value.as_str(), "return") {
            Token::Return
        } else {
            Token::Ident(value)
        }
    }
}

impl vstd::std_specs::convert::FromSpecImpl<String> for Token {
    open spec fn obeys_from_spec() -> bool {
        true
    }

    open spec fn from_spec(value: String) -> Token {
        Token::spec_from_word(value)
    }
}

impl Token {
    /// The token's textual rendering: operators and separators as
    /// themselves, keywords as their word, payload-carrying tokens
    /// wrapped in their kind's name.
    pub fn to_display_string(&self) -> (r: String)
        ensures
            ({
                match self {
                    Token::Assign => r@ == "="@,
                    Token::Ident(v) => r@ == "Ident("@ + v@ + ")"@,
                    Token::Illegal => r@ == "<Illegal>"@,
                    Token::Eof => r@ == "EoF"@,
                    Token::Newline => r@ == "\\n"@,
                    Token::Whitespace => r@ == " "@,
                    Token::Int(v) => r@ == "Integer("@ + dec_str(*v as int) + ")"@,
                    Token::Char(c) => r@ == "Char("@ + seq![*c] + ")"@,
                    Token::String(v) => r@ == "String("@ + v@ + ")"@,
                    Token::Equal => r@ == "=="@,
                    Token::NotEqual => r@ == "!="@,
                    Token::Plus => r@ == "+"@,
                    Token::Minus => r@ == "-"@,
                    Token::Asterisk => r@ == "*"@,
                    Token::ForwardSlash => r@ == "/"@,
                    Token::LessThan => r@ == "<"@,
                    Token::LessThanEqual => r@ == "<="@,
                    Token::GreaterThan => r@ == ">"@,
                    Token::GreaterThanEqual => r@ == ">="@,
                    Token::Let => r@ == "let"@,
                    Token::If => r@ == "if"@,
                    Token::Else => r@ == "else"@,
                    Token::While => r@ == "while"@,
                    Token::Return => r@ == "return"@,
                    Token::LParen => r@ == "("@,
                    Token::RParen => r@ == ")"@,
                    Token::LBrace => r@ == "{"@,
                    Token::RBrace => r@ == "}"@,
                    Token::Comma => r@ == ","@,
                    Token::SemiColon => r@ == ";"@,
                }
            }),
    {
        match self {
            Token::Assign => String::from_str("="),
            Token::Ident(v) => {
                let mut s = String::from_str("Ident(");
                s.append(v.as_str());
                s.append(")");
                s
            },
            Token::Illegal => String::from_str("<Illegal>"),
            Token::Eof => String::from_str("EoF"),
            Token::Newline => String::from_str("\\n"),
            Token::Whitespace => String::from_str(" "),
            Token::Int(v) => {
                let mut s = String::from_str("Integer(");
                let num = u64_to_string(*v);
                s.append(num.as_str());
                s.append(")");
                s
            },
            Token::Char(c) => {
                let mut s = String::from_str("Char(");
                let ch = crate::text::char_to_string(*c);
                s.append(ch.as_str());
                s.append(")");
                s
            },
            Token::String(v) => {
                let mut s = String::from_str("String(");
                s.append(v.as_str());
                s.append(")");
                s
            },
            Token::Equal => String::from_str("=="),
            Token::NotEqual => String::from_str("!="),
            Token::Plus => String::from_str("+"),
            Token::Minus => String::from_str("-"),
            Token::Asterisk => String::from_str("*"),
            Token::ForwardSlash => String::from_str("/"),
            Token::LessThan => String::from_str("<"),
            Token::LessThanEqual => String::from_str("<="),
            Token::GreaterThan => String::from_str(">"),
            Token::GreaterThanEqual => String::from_str(">="),
            Token::Let => String::from_str("let"),
            Token::If => String::from_str("if"),
            Token::Else => String::from_str("else"),
            Token::While => String::from_str("while"),
            Token::Return => String::from_str("return"),
            Token::LParen => String::from_str("("),
            Token::RParen => String::from_str(")"),
            Token::LBrace => String::from_str("{"),
            Token::RBrace => String::from_str("}"),
            Token::Comma => String::from_str(","),
            Token::SemiColon => String::from_str(";"),
        }
    }
}

} // verus!
