//! The lexer: source text to tokens.

use vstd::prelude::*;

use crate::span::Span;
use crate::token::Token;

verus! {

/// Whether a character is horizontal or vertical whitespace.
pub open spec fn is_space_char(c: char) -> bool {
    c == ' ' || c == '\t' || c == '\r' || c == '\n'
}

/// Whether a character is an ASCII digit.
pub open spec fn is_digit_char(c: char) -> bool {
    '0' <= c <= '9'
}

/// Whether a character may appear in an identifier.
pub open spec fn is_word_char(c: char) -> bool {
    ('a' <= c <= 'z') || ('A' <= c <= 'Z') || c == '_' || is_digit_char(c)
}

fn is_space(c: char) -> (r: bool)
    ensures
        r == is_space_char(c),
{
    c == ' ' || c == '\t' || c == '\r' || c == '\n'
}

fn is_digit(c: char) -> (r: bool)
    ensures
        r == is_digit_char(c),
{
    '0' <= c && c <= '9'
}

fn is_word_start(c: char) -> (r: bool)
    ensures
        r == (is_word_char(c) && !is_digit_char(c)),
{
    ('a' <= c && c <= 'z') || ('A' <= c && c <= 'Z') || c == '_'
}

fn is_word(c: char) -> (r: bool)
    ensures
        r == is_word_char(c),
{
    ('a' <= c && c <= 'z') || ('A' <= c && c <= 'Z') || c == '_' || ('0' <= c && c <= '9')
}

/// The lexer: the text and a cursor, in characters.
#[derive(Debug)]
pub struct Lexer {
    pub text: String,
    pub pos: usize,
}

impl Lexer {
    /// The cursor sits inside the text.
    pub open spec fn wf(&self) -> bool {
        self.pos <= self.text@.len()
    }

    /// A lexer at the start of `text`.
    pub fn new(text: String) -> (r: Lexer)
        ensures
            r.wf(),
            r.text == text,
            r.pos == 0,
    {
        Lexer { text, pos: 0 }
    }

    /// The next token and its span. Whitespace is skipped; at the end
    /// of the text the token is `Eof` — exactly then does the cursor
    /// not move forward.
    pub fn next_token(&mut self) -> (r: (Token, Span))
        requires
            old(self).wf(),
        ensures
            final(self).wf(),
            final(self).text == old(self).text,
            final(self).pos >= old(self).pos,
            r.0 is Eof ==> final(self).pos == final(self).text@.len(),
            !(r.0 is Eof) ==> final(self).pos > old(self).pos,
    {
        let n = self.text.as_str().unicode_len();
        while self.pos < n && is_space(self.text.as_str().get_char(self.pos))
            invariant
                self.wf(),
                n == self.text@.len(),
                self.text == old(self).text,
                self.pos >= old(self).pos,
            decreases n - self.pos,
        {
            self.pos = self.pos + 1;
        }
        if self.pos >= n {
            return (Token::Eof, Span::new(self.pos, self.pos));
        }
        let start = self.pos;
        let c = self.text.as_str().get_char(self.pos);
        if is_digit(c) {
            let mut value: u64 = 0;
            let mut overflow = false;
            while self.pos < n && is_digit(self.text.as_str().get_char(self.pos))
                invariant
                    self.wf(),
                    n == self.text@.len(),
                    self.text == old(self).text,
                    self.pos >= start,
                decreases n - self.pos,
            {
                let d = self.text.as_str().get_char(self.pos);
                let dv: u64 = ((d as u32) - 0x30) as u64;
                proof {
                    assert('0' <= d <= '9' ==> (d as u32) >= 0x30 && (d as u32) <= 0x39);
                }
                if value <= (u64::MAX - 9) / 10 {
                    proof {
                        assert(value <= (u64::MAX - 9) / 10 && dv <= 9 ==> value * 10 + dv
                            <= u64::MAX) by (nonlinear_arith);
                    }
                    value = value * 10 + dv;
                } else {
                    overflow = true;
                }
                self.pos = self.pos + 1;
            }
            let tok = if overflow {
                Token::Illegal
            } else {
                Token::Int(value)
            };
            return (tok, Span::new(start, self.pos));
        }
        if is_word_start(c) {
            while self.pos < n && is_word(self.text.as_str().get_char(self.pos))
                invariant
                    self.wf(),
                    n == self.text@.len(),
                    self.text == old(self).text,
                    self.pos >= start,
                    start < n,
                decreases n - self.pos,
            {
                self.pos = self.pos + 1;
            }
            let word = self.text.as_str().substring_char(start, self.pos).to_owned();
            return (Token::from(word), Span::new(start, self.pos));
        }
        if c == '"' {
            self.pos = self.pos + 1;
            let content_start = self.pos;
            while self.pos < n && self.text.as_str().get_char(self.pos) != '"'
                invariant
                    self.wf(),
                    n == self.text@.len(),
                    self.text == old(self).text,
                    content_start <= self.pos,
                decreases n - self.pos,
            {
                self.pos = self.pos + 1;
            }
            if self.pos >= n {
                // The string never closes.
                return (Token::Illegal, Span::new(start, self.pos));
            }
            let content = self.text.as_str().substring_char(content_start, self.pos).to_owned();
            self.pos = self.pos + 1;
            return (Token::String(content), Span::new(start, self.pos));
        }
        if c == '\'' {
            if n - self.pos >= 2 {
                let inner = self.text.as_str().get_char(self.pos + 1);
                if n - self.pos >= 3 && self.text.as_str().get_char(self.pos + 2) == '\'' {
                    self.pos = self.pos + 3;
                    return (Token::Char(inner), Span::new(start, self.pos));
                }
            }
            self.pos = self.pos + 1;
            return (Token::Illegal, Span::new(start, self.pos));
        }
        if self.pos + 1 < n {
            let c2 = self.text.as_str().get_char(self.pos + 1);
            let pair = if c == '=' && c2 == '=' {
                Some(Token::Equal)
            } else if c == '!' && c2 == '=' {
                Some(Token::NotEqual)
            } else if c == '<' && c2 == '=' {
                Some(Token::LessThanEqual)
            } else if c == '>' && c2 == '=' {
                Some(Token::GreaterThanEqual)
            } else {
                None
            };
            match pair {
                Some(t) => {
                    self.pos = self.pos + 2;
                    return (t, Span::new(start, self.pos));
                },
                None => (),
            }
        }
        let single = if c == '=' {
            Token::Assign
        } else if c == '+' {
            Token::Plus
        } else if c == '-' {
            Token::Minus
        } else if c == '*' {
            Token::Asterisk
        } else if c == '/' {
            Token::ForwardSlash
        } else if c == '<' {
            Token::LessThan
        } else if c == '>' {
            Token::GreaterThan
        } else if c == '(' {
            Token::LParen
        } else if c == ')' {
            Token::RParen
        } else if c == '{' {
            Token::LBrace
        } else if c == '}' {
            Token::RBrace
        } else if c == ',' {
            Token::Comma
        } else if c == ';' {
            Token::SemiColon
        } else {
            Token::Illegal
        };
        self.pos = self.pos + 1;
        (single, Span::new(start, self.pos))
    }
}

} // verus!
