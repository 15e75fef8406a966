//! The parser controller: a two-token window over the lexed stream.

use vstd::prelude::*;

use crate::ast::Assignment;
use crate::ast::Call;
use crate::ast::Definition;
use crate::ast::Function;
use crate::ast::If;
use crate::ast::Pattern;
use crate::ast::Program;
use crate::ast::Stmt;
use crate::ast::While;
use crate::diagnostics::DiagView;
use crate::diagnostics::DiagnosticBag;
use crate::expression::Expr;
use crate::lexer::Lexer;
use crate::span::Span;
use crate::token::Token;
use crate::token::token_eq;

verus! {

/// The parser: the current and the following token, the rest of the
/// stream (nearest token last), and the diagnostics found so far.
#[derive(Debug)]
pub struct Parser {
    pub current_token: Token,
    pub next_token: Token,
    pub current_span: Span,
    pub next_span: Span,
    pub rest: Vec<(Token, Span)>,
    pub diagnostics: DiagnosticBag,
}

impl Parser {
    /// The stream leaves room to count the two-token window.
    pub open spec fn wf(&self) -> bool {
        self.rest@.len() <= usize::MAX - 2
    }

    /// How much input is left: the stream plus the window's tokens not
    /// yet exhausted. Every consuming operation drives this down.
    pub open spec fn measure(&self) -> int {
        self.rest@.len() + (if self.current_token is Eof {
            0int
        } else {
            1int
        }) + (if self.next_token is Eof {
            0int
        } else {
            1int
        })
    }

    /// The measure, as a runtime value.
    pub fn measure_exec(&self) -> (r: usize)
        requires
            self.wf(),
        ensures
            r == self.measure(),
    {
        let a: usize = if matches!(self.current_token, Token::Eof) {
            0
        } else {
            1
        };
        let b: usize = if matches!(self.next_token, Token::Eof) {
            0
        } else {
            1
        };
        self.rest.len() + a + b
    }

    /// Lex the whole input and open the two-token window on it.
    pub fn new(lexer: &mut Lexer) -> (r: Parser)
        requires
            old(lexer).wf(),
        ensures
            r.wf(),
            r.diagnostics.diagnostics@.len() == 0,
    {
        let mut toks: Vec<(Token, Span)> = Vec::new();
        loop
            invariant
                lexer.wf(),
                toks@.len() <= usize::MAX - 2,
            decreases lexer.text@.len() - lexer.pos, usize::MAX - 2 - toks@.len(),
        {
            if toks.len() >= usize::MAX - 2 {
                break ;
            }
            let ghost pos0 = lexer.pos;
            let (tok, span) = lexer.next_token();
            let is_eof = matches!(tok, Token::Eof);
            if is_eof {
                break ;
            }
            toks.push((tok, span));
            proof {
                assert(lexer.pos > pos0);
            }
        }
        let mut rest: Vec<(Token, Span)> = Vec::new();
        loop
            invariant
                rest@.len() + toks@.len() <= usize::MAX - 2,
            decreases toks@.len(),
        {
            match toks.pop() {
                Some(t) => {
                    rest.push(t);
                },
                None => { break ; },
            }
        }
        let mut p = Parser {
            current_token: Token::Eof,
            next_token: Token::Eof,
            current_span: Span::zero(),
            next_span: Span::zero(),
            rest,
            diagnostics: DiagnosticBag::new(),
        };
        p.step();
        p.step();
        p
    }

    /// Pull the nearest token off the stream, or `Eof` past its end.
    fn pull(&mut self) -> (r: (Token, Span))
        requires
            old(self).wf(),
        ensures
            final(self).wf(),
            final(self).current_token == old(self).current_token,
            final(self).next_token == old(self).next_token,
            final(self).current_span == old(self).current_span,
            final(self).next_span == old(self).next_span,
            final(self).diagnostics == old(self).diagnostics,
            old(self).rest@.len() > 0 ==> r == old(self).rest@.last()
                && final(self).rest@ == old(self).rest@.drop_last(),
            old(self).rest@.len() == 0 ==> r.0 is Eof && final(self).rest@ == old(self).rest@,
    {
        match self.rest.pop() {
            Some(t) => t,
            None => (Token::Eof, Span::zero()),
        }
    }

    /// Slide the window one token forward.
    pub fn step(&mut self)
        requires
            old(self).wf(),
        ensures
            final(self).wf(),
            final(self).current_token == old(self).next_token,
            final(self).current_span == old(self).next_span,
            final(self).diagnostics == old(self).diagnostics,
            final(self).measure() <= old(self).measure(),
            !(old(self).current_token is Eof) ==> final(self).measure() < old(self).measure(),
            old(self).rest@.len() > 0 ==> (final(self).next_token == old(self).rest@.last().0
                && final(self).next_span == old(self).rest@.last().1 && final(self).rest@ == old(
                self,
            ).rest@.drop_last()),
            old(self).rest@.len() == 0 ==> (final(self).next_token is Eof && final(self).rest@
                == old(self).rest@),
    {
        let (t, sp) = self.pull();
        core::mem::swap(&mut self.current_token, &mut self.next_token);
        self.current_span = self.next_span;
        self.next_token = t;
        self.next_span = sp;
        proof {
            if old(self).rest@.len() > 0 {
                assert(self.rest@.len() == old(self).rest@.len() - 1);
            }
        }
    }

    /// Take the current token, sliding the window forward.
    pub fn eat(&mut self) -> (r: Token)
        requires
            old(self).wf(),
        ensures
            final(self).wf(),
            r == old(self).current_token,
            final(self).current_token == old(self).next_token,
            final(self).diagnostics == old(self).diagnostics,
            final(self).measure() <= old(self).measure(),
            !(old(self).current_token is Eof) ==> final(self).measure() < old(self).measure(),
            old(self).rest@.len() > 0 ==> (final(self).next_token == old(self).rest@.last().0
                && final(self).next_span == old(self).rest@.last().1 && final(self).rest@ == old(
                self,
            ).rest@.drop_last()),
            old(self).rest@.len() == 0 ==> (final(self).next_token is Eof && final(self).rest@
                == old(self).rest@),
    {
        let (t, sp) = self.pull();
        core::mem::swap(&mut self.current_token, &mut self.next_token);
        self.current_span = self.next_span;
        let mut taken = t;
        core::mem::swap(&mut self.next_token, &mut taken);
        self.next_span = sp;
        taken
    }

    /// Take the current token together with its span.
    pub fn consume(&mut self) -> (r: (Token, Span))
        requires
            old(self).wf(),
        ensures
            final(self).wf(),
            r.0 == old(self).current_token,
            r.1 == old(self).current_span,
            final(self).current_token == old(self).next_token,
            final(self).diagnostics == old(self).diagnostics,
            final(self).measure() <= old(self).measure(),
            !(old(self).current_token is Eof) ==> final(self).measure() < old(self).measure(),
            old(self).rest@.len() > 0 ==> (final(self).next_token == old(self).rest@.last().0
                && final(self).next_span == old(self).rest@.last().1 && final(self).rest@ == old(
                self,
            ).rest@.drop_last()),
            old(self).rest@.len() == 0 ==> (final(self).next_token is Eof && final(self).rest@
                == old(self).rest@),
    {
        let sp = self.current_span;
        let t = self.eat();
        (t, sp)
    }

    /// Whether the current token equals `token`.
    pub fn current_token(&self, token: &Token) -> (r: bool)
        ensures
            r == token_eq(self.current_token, *token),
    {
        self.current_token == *token
    }

    /// Whether the following token equals `token`.
    pub fn next_token(&self, token: Token) -> (r: bool)
        ensures
            r == token_eq(self.next_token, token),
    {
        self.next_token == token
    }

    /// Take the current token; when it is not the one required, report
    /// it.
    pub fn consume_and_check(&mut self, token: Token)
        requires
            old(self).wf(),
        ensures
            final(self).wf(),
            final(self).current_token == old(self).next_token,
            final(self).measure() <= old(self).measure(),
            !(old(self).current_token is Eof) ==> final(self).measure() < old(self).measure(),
            token_eq(old(self).current_token, token) ==> final(self).diagnostics == old(self).diagnostics,
            !token_eq(old(self).current_token, token) ==> final(self).diagnostics@ == old(
                self,
            ).diagnostics@.push(DiagView::UnexpectedToken(old(self).current_span)),
    {
        let (t, sp) = self.consume();
        if !(t == token) {
            self.diagnostics.unexpected_token(&sp);
        }
    }

    /// Parse the whole input: the top-level statements, gathered as the
    /// body of a single function.
    pub fn parse(&mut self) -> (r: Program)
        requires
            old(self).wf(),
        ensures
            final(self).wf(),
            r.functions@.len() == 1,
    {
        let mut body: Vec<Stmt> = Vec::new();
        loop
            invariant
                self.wf(),
            decreases self.measure(),
        {
            if matches!(self.current_token, Token::Eof) {
                break ;
            }
            match self.parse_statement() {
                Some(st) => body.push(st),
                None => (),
            }
        }
        let pattern = Pattern::new(String::from_str("main"), Span::zero());
        let function = Function { pattern, parameters: Vec::new(), body };
        let mut functions: Vec<Function> = Vec::new();
        functions.push(function);
        Program { functions }
    }

    /// Parse one statement; `None` when the tokens form none, with the
    /// reason reported. At least one token is consumed.
    pub fn parse_statement(&mut self) -> (r: Option<Stmt>)
        requires
            old(self).wf(),
        ensures
            final(self).wf(),
            final(self).measure() <= old(self).measure(),
            !(old(self).current_token is Eof) ==> final(self).measure() < old(self).measure(),
        decreases old(self).measure(), 10int,
    {
        match &self.current_token {
            Token::Let => {
                self.step();
                let (name_tok, name_span) = self.consume();
                let pattern = match name_tok {
                    Token::Ident(name) => Pattern::new(name, name_span),
                    _ => {
                        self.diagnostics.unexpected_token(&name_span);
                        return None;
                    },
                };
                self.consume_and_check(Token::Assign);
                let value = Expr::parse(self);
                self.consume_and_check(Token::SemiColon);
                Some(Stmt::Definition(Definition { pattern, value }))
            },
            Token::If => {
                self.step();
                let condition = Expr::parse(self);
                self.consume_and_check(Token::LBrace);
                let body = self.parse_block();
                Some(Stmt::If(If { condition, body }))
            },
            Token::While => {
                self.step();
                let condition = Expr::parse(self);
                self.consume_and_check(Token::LBrace);
                let body = self.parse_block();
                Some(Stmt::While(While { condition, body }))
            },
            Token::Return => {
                self.step();
                let value = Expr::parse(self);
                self.consume_and_check(Token::SemiColon);
                Some(Stmt::Return(value))
            },
            Token::Ident(_) => {
                let (name_tok, name_span) = self.consume();
                let pattern = match name_tok {
                    Token::Ident(name) => Pattern::new(name, name_span),
                    _ => { return None },
                };
                match &self.current_token {
                    Token::Assign => {
                        self.step();
                        let value = Expr::parse(self);
                        self.consume_and_check(Token::SemiColon);
                        Some(Stmt::Assignment(Assignment { pattern, value }))
                    },
                    Token::LParen => {
                        self.step();
                        let arguments = self.parse_arguments();
                        self.consume_and_check(Token::SemiColon);
                        Some(Stmt::Call(Call { pattern, arguments }))
                    },
                    _ => {
                        let sp = self.current_span;
                        self.diagnostics.unexpected_token(&sp);
                        None
                    },
                }
            },
            _ => {
                let (_t, sp) = self.consume();
                self.diagnostics.unexpected_token(&sp);
                None
            },
        }
    }

    /// Parse the arguments of a call, up to the closing parenthesis.
    fn parse_arguments(&mut self) -> (r: Vec<Expr>)
        requires
            old(self).wf(),
        ensures
            final(self).wf(),
            final(self).measure() <= old(self).measure(),
        decreases old(self).measure(), 9int,
    {
        let mut arguments: Vec<Expr> = Vec::new();
        if matches!(self.current_token, Token::RParen) {
            self.step();
            return arguments;
        }
        loop
            invariant
                self.wf(),
                self.measure() <= old(self).measure(),
            decreases self.measure(),
        {
            let before = self.measure_exec();
            arguments.push(Expr::parse(self));
            if matches!(self.current_token, Token::Comma) {
                self.step();
            }
            if matches!(self.current_token, Token::RParen) {
                self.step();
                break ;
            }
            if matches!(self.current_token, Token::Eof) {
                let sp = self.current_span;
                self.diagnostics.unexpected_token(&sp);
                break ;
            }
            if self.measure_exec() >= before {
                // No progress was made; stop rather than spin.
                let sp = self.current_span;
                self.diagnostics.unexpected_token(&sp);
                break ;
            }
        }
        arguments
    }

    /// Parse statements up to the closing brace.
    fn parse_block(&mut self) -> (r: Vec<Stmt>)
        requires
            old(self).wf(),
        ensures
            final(self).wf(),
            final(self).measure() <= old(self).measure(),
        decreases old(self).measure(), 11int,
    {
        let mut body: Vec<Stmt> = Vec::new();
        loop
            invariant
                self.wf(),
                self.measure() <= old(self).measure(),
            decreases self.measure(),
        {
            if matches!(self.current_token, Token::RBrace) {
                self.step();
                break ;
            }
            if matches!(self.current_token, Token::Eof) {
                let sp = self.current_span;
                self.diagnostics.unexpected_token(&sp);
                break ;
            }
            match self.parse_statement() {
                Some(st) => body.push(st),
                None => (),
            }
        }
        body
    }
}

} // verus!
