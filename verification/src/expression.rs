//! Expressions and the Pratt parser that builds them.

use vstd::prelude::*;

use crate::diagnostics::DiagView;
use crate::parser::Parser;
use crate::span::Span;
use crate::token::Token;

verus! {

/// An expression with its source span.
#[derive(Debug)]
pub struct Expr {
    pub kind: ExprKind,
    pub span: Span,
}

/// The shapes an expression can take. `Error` stands where no
/// expression could be parsed.
#[derive(Debug)]
pub enum ExprKind {
    Binary(BinOp, Box<Expr>, Box<Expr>),
    Unary(UnOp, Box<Expr>),
    Literal(Literal),
    Variable(String, Span),
    Error,
}

/// A binary operator.
#[derive(Clone, Copy, Debug, PartialEq, Eq, Structural)]
pub enum BinOp {
    Add,
    Sub,
    Mul,
    Div,
    Eq,
    NotEq,
    LessThan,
    LessThanEq,
    GreaterThan,
    GreaterThanEq,
}

/// A unary operator.
#[derive(Clone, Copy, Debug, PartialEq, Eq, Structural)]
pub enum UnOp {
    Neg,
}

/// A literal value.
#[derive(Debug, Clone)]
pub enum Literal {
    String(String),
    Integer(isize),
}

impl BinOp {
    /// Whether a token can begin a binary operator.
    pub open spec fn spec_token_match(token: Token) -> bool {
        ||| token is Plus
        ||| token is Minus
        ||| token is Asterisk
        ||| token is ForwardSlash
        ||| token is Equal
        ||| token is NotEqual
        ||| token is LessThan
        ||| token is LessThanEqual
        ||| token is GreaterThan
        ||| token is GreaterThanEqual
    }

    pub fn token_match(token: &Token) -> (r: bool)
        ensures
            r == Self::spec_token_match(*token),
    {
        match token {
            Token::Plus | Token::Minus | Token::Asterisk | Token::ForwardSlash | Token::Equal
                | Token::NotEqual | Token::LessThan | Token::LessThanEqual | Token::GreaterThan
                | Token::GreaterThanEqual => true,
            _ => false,
        }
    }

    /// The operator's binding strength, as the folding loop compares
    /// them: sums 18, products 19, comparisons 29, equalities 30.
    pub open spec fn spec_precedence(self) -> u8 {
        match self {
            BinOp::Add | BinOp::Sub => 18,
            BinOp::Mul | BinOp::Div => 19,
            BinOp::Eq | BinOp::NotEq => 30,
            BinOp::LessThan | BinOp::LessThanEq | BinOp::GreaterThan | BinOp::GreaterThanEq => 29,
        }
    }

    pub fn precedence(&self) -> (r: u8)
        ensures
            r == self.spec_precedence(),
    {
        match self {
            BinOp::Add | BinOp::Sub => 18,
            BinOp::Mul | BinOp::Div => 19,
            BinOp::Eq | BinOp::NotEq => 30,
            BinOp::LessThan | BinOp::LessThanEq | BinOp::GreaterThan | BinOp::GreaterThanEq => 29,
        }
    }
}

/// The binary operator a token begins, if any: the exact mapping the
/// parser uses.
pub open spec fn binop_of(token: Token) -> Option<BinOp> {
    match token {
        Token::Plus => Some(BinOp::Add),
        Token::Minus => Some(BinOp::Sub),
        Token::ForwardSlash => Some(BinOp::Div),
        Token::Asterisk => Some(BinOp::Mul),
        Token::GreaterThan => Some(BinOp::GreaterThan),
        Token::GreaterThanEqual => Some(BinOp::GreaterThanEq),
        Token::LessThan => Some(BinOp::LessThan),
        Token::LessThanEqual => Some(BinOp::LessThanEq),
        Token::Equal => Some(BinOp::Eq),
        Token::NotEqual => Some(BinOp::NotEq),
        _ => None,
    }
}

impl UnOp {
    /// Whether a token can begin a unary operator.
    pub fn token_match(token: &Token) -> (r: bool)
        ensures
            r == token is Minus,
    {
        match token {
            Token::Minus => true,
            _ => false,
        }
    }
}

/// The expression at the bottom of a tree's left spine: what the
/// binary-operator fold started from.
pub open spec fn left_spine_base(k: ExprKind) -> ExprKind
    decreases k,
{
    match k {
        ExprKind::Binary(_, lhs, _) => left_spine_base(lhs.kind),
        _ => k,
    }
}

impl Expr {
    /// Parse a whole expression: a unary or primary expression,
    /// extended by binary operators.
    pub fn parse(parser: &mut Parser) -> (r: Expr)
        requires
            old(parser).wf(),
        ensures
            final(parser).wf(),
            final(parser).measure() <= old(parser).measure(),
            old(parser).current_token matches Token::Int(v) ==> (binop_of(
                old(parser).next_token,
            ) is None ==> (r.kind matches ExprKind::Literal(Literal::Integer(n)) && n == v as isize
                && final(parser).current_token == old(parser).next_token && final(parser).diagnostics == old(parser).diagnostics)),
            old(parser).current_token matches Token::String(s) ==> (binop_of(
                old(parser).next_token,
            ) is None ==> (r.kind matches ExprKind::Literal(Literal::String(t)) && t@ == s@
                && final(parser).current_token == old(parser).next_token && final(parser).diagnostics == old(parser).diagnostics)),
            old(parser).current_token matches Token::Ident(name) ==> (binop_of(
                old(parser).next_token,
            ) is None ==> (r.kind matches ExprKind::Variable(sym, _) && sym@ == name@
                && final(parser).current_token == old(parser).next_token
                && final(parser).diagnostics == old(parser).diagnostics)),
        decreases old(parser).measure(), 3int,
    {
        let start_span = parser.current_span;
        let left = Self::parse_unary_or_primary(parser);
        let kind = Self::parse_binary(parser, left, 0);
        let span = start_span.combine(parser.current_span);
        Expr { kind, span }
    }

    /// Grammar: (expression) (operator) (expression)
    ///
    /// Folds operators of at least `precedence` onto `left`, parsing
    /// tighter-binding operators into the right-hand sides: the fold
    /// never touches what `left` ends on, so the result's left spine
    /// still bottoms out at `left`'s, and a fold that ran at all tops
    /// the tree with an operator of at least `precedence`.
    pub fn parse_binary(parser: &mut Parser, left: ExprKind, precedence: u8) -> (r: ExprKind)
        requires
            old(parser).wf(),
        ensures
            final(parser).wf(),
            final(parser).measure() <= old(parser).measure(),
            left_spine_base(r) == left_spine_base(left),
            ({
                match binop_of(old(parser).current_token) {
                    None => r == left && *final(parser) == *old(parser),
                    Some(op) => op.spec_precedence() < precedence ==> (r == left && *final(parser)
                        == *old(parser)),
                }
            }),
            (binop_of(old(parser).current_token) matches Some(op) && op.spec_precedence()
                >= precedence) ==> (r matches ExprKind::Binary(top, _, _)
                && top.spec_precedence() >= precedence),
            binop_of(final(parser).current_token) matches Some(stop) ==> stop.spec_precedence()
                < precedence,
        decreases old(parser).measure(), 2int,
    {
        let ghost left0 = left;
        let mut left = left;
        let start_span = parser.current_span;
        loop
            invariant
                parser.wf(),
                parser.measure() <= old(parser).measure(),
                left_spine_base(left) == left_spine_base(left0),
                (match binop_of(old(parser).current_token) {
                    None => left == left0 && *parser == *old(parser),
                    Some(op) => op.spec_precedence() < precedence ==> (left == left0 && *parser
                        == *old(parser)),
                }),
                (binop_of(old(parser).current_token) matches Some(op) && op.spec_precedence()
                    >= precedence) ==> ((left matches ExprKind::Binary(top, _, _)
                    && top.spec_precedence() >= precedence) || (left == left0 && *parser == *old(
                    parser,
                ))),
            ensures
                parser.wf(),
                parser.measure() <= old(parser).measure(),
                left_spine_base(left) == left_spine_base(left0),
                (match binop_of(old(parser).current_token) {
                    None => left == left0 && *parser == *old(parser),
                    Some(op) => op.spec_precedence() < precedence ==> (left == left0 && *parser
                        == *old(parser)),
                }),
                (binop_of(old(parser).current_token) matches Some(op) && op.spec_precedence()
                    >= precedence) ==> (left matches ExprKind::Binary(top, _, _)
                    && top.spec_precedence() >= precedence),
                binop_of(parser.current_token) matches Some(stop) ==> stop.spec_precedence()
                    < precedence,
            decreases parser.measure(),
        {
            let operator = match Self::parse_binary_operator(parser) {
                Some(op) => op,
                None => { break ; },
            };
            if operator.precedence() < precedence {
                break ;
            }
            let ghost outer = parser.measure();
            parser.step();
            proof {
                assert(parser.measure() < outer);
            }
            let mut right = Self::parse_unary_or_primary(parser);
            loop
                invariant
                    parser.wf(),
                    parser.measure() < outer,
                    outer <= old(parser).measure(),
                decreases parser.measure(),
            {
                let inner_operator = match Self::parse_binary_operator(parser) {
                    Some(op) => op,
                    None => { break ; },
                };
                let greater_precedence = inner_operator.precedence() > operator.precedence();
                let equal_precedence = inner_operator.precedence() == operator.precedence();
                if !greater_precedence && !equal_precedence {
                    break ;
                }
                let before = parser.measure_exec();
                let stronger = if operator.precedence() >= inner_operator.precedence() {
                    operator.precedence()
                } else {
                    inner_operator.precedence()
                };
                right = Self::parse_binary(parser, right, stronger);
                if parser.measure_exec() >= before {
                    // No token was consumed; stop rather than spin.
                    break ;
                }
            }
            left = ExprKind::Binary(
                operator,
                Box::new(Expr { kind: left, span: start_span }),
                Box::new(Expr { kind: right, span: parser.current_span }),
            );
        }
        left
    }

    /// The binary operator the current token begins, if any.
    fn parse_binary_operator(parser: &Parser) -> (r: Option<BinOp>)
        ensures
            r == binop_of(parser.current_token),
            r is Some <==> BinOp::spec_token_match(parser.current_token),
    {
        match &parser.current_token {
            Token::Plus => Some(BinOp::Add),
            Token::Minus => Some(BinOp::Sub),
            Token::ForwardSlash => Some(BinOp::Div),
            Token::Asterisk => Some(BinOp::Mul),
            Token::GreaterThan => Some(BinOp::GreaterThan),
            Token::GreaterThanEqual => Some(BinOp::GreaterThanEq),
            Token::LessThan => Some(BinOp::LessThan),
            Token::LessThanEqual => Some(BinOp::LessThanEq),
            Token::Equal => Some(BinOp::Eq),
            Token::NotEqual => Some(BinOp::NotEq),
            _ => None,
        }
    }

    /// Parse a unary expression where the current token begins one —
    /// only `-` does — else a primary one.
    pub fn parse_unary_or_primary(parser: &mut Parser) -> (r: ExprKind)
        requires
            old(parser).wf(),
        ensures
            final(parser).wf(),
            final(parser).measure() <= old(parser).measure(),
            old(parser).current_token matches Token::Int(v) ==> (r matches ExprKind::Literal(
                Literal::Integer(n),
            ) && n == v as isize),
            old(parser).current_token matches Token::String(s) ==> (r matches ExprKind::Literal(
                Literal::String(t),
            ) && t@ == s@),
            old(parser).current_token matches Token::Ident(name) ==> (r matches ExprKind::Variable(
                sym,
                sp,
            ) && sym@ == name@ && sp == old(parser).current_span),
            (old(parser).current_token is Int || old(parser).current_token is String || old(
                parser,
            ).current_token is Ident) ==> (final(parser).current_token == old(parser).next_token
                && final(parser).diagnostics == old(parser).diagnostics),
            old(parser).current_token is Minus ==> (r matches ExprKind::Unary(UnOp::Neg, _)
                && final(parser).measure() < old(parser).measure()),
            old(parser).current_token is Minus ==> (old(parser).next_token matches Token::Int(v)
                ==> (r matches ExprKind::Unary(UnOp::Neg, e) && (*e).kind matches
                ExprKind::Literal(Literal::Integer(n)) && n == v as isize)),
            old(parser).current_token is Minus ==> (old(parser).next_token matches Token::Ident(
                name,
            ) ==> (r matches ExprKind::Unary(UnOp::Neg, e) && (*e).kind matches
                ExprKind::Variable(sym, _) && sym@ == name@)),
            (!(old(parser).current_token is Int) && !(old(parser).current_token is String) && !(
            old(parser).current_token is Ident) && !(old(parser).current_token is LParen) && !(old(
                parser,
            ).current_token is Minus)) ==> (r is Error && final(parser).current_token == old(
                parser,
            ).next_token && final(parser).diagnostics@ == old(parser).diagnostics@.push(
                DiagView::UnknownExpression(old(parser).current_span),
            )),
        decreases old(parser).measure(), 1int,
    {
        let is_unary = UnOp::token_match(&parser.current_token);
        if is_unary {
            Self::parse_unary(parser)
        } else {
            Self::parse_primary(parser)
        }
    }

    /// Grammar: (operator) (expression)
    ///
    /// On `-` the operator is consumed and the operand is the unary or
    /// primary expression the following tokens parse to; on any other
    /// token nothing is consumed and one `InvalidOperator` is reported.
    pub fn parse_unary(parser: &mut Parser) -> (r: ExprKind)
        requires
            old(parser).wf(),
        ensures
            final(parser).wf(),
            final(parser).measure() <= old(parser).measure(),
            old(parser).current_token is Minus ==> (r matches ExprKind::Unary(UnOp::Neg, _)
                && final(parser).measure() < old(parser).measure()),
            old(parser).current_token is Minus ==> (old(parser).next_token matches Token::Int(v)
                ==> (r matches ExprKind::Unary(UnOp::Neg, e) && (*e).kind matches
                ExprKind::Literal(Literal::Integer(n)) && n == v as isize)),
            old(parser).current_token is Minus ==> (old(parser).next_token matches Token::String(
                s,
            ) ==> (r matches ExprKind::Unary(UnOp::Neg, e) && (*e).kind matches
                ExprKind::Literal(Literal::String(t)) && t@ == s@)),
            old(parser).current_token is Minus ==> (old(parser).next_token matches Token::Ident(
                name,
            ) ==> (r matches ExprKind::Unary(UnOp::Neg, e) && (*e).kind matches
                ExprKind::Variable(sym, _) && sym@ == name@)),
            !(old(parser).current_token is Minus) ==> (r is Error
                && final(parser).diagnostics@ == old(parser).diagnostics@.push(DiagView::InvalidOperator(old(parser).current_span))
                && final(parser).current_token == old(parser).current_token
                && final(parser).next_token == old(parser).next_token
                && final(parser).rest == old(parser).rest
                && final(parser).current_span == old(parser).current_span
                && final(parser).next_span == old(parser).next_span),
        decreases old(parser).measure(), 0int,
    {
        let start_span = parser.current_span;
        let operator = match &parser.current_token {
            Token::Minus => UnOp::Neg,
            _ => {
                let sp = parser.current_span;
                parser.diagnostics.invalid_operator(&sp);
                return ExprKind::Error;
            },
        };
        parser.step();
        let inner = Self::parse_unary_or_primary(parser);
        let expr = Box::new(
            Expr { kind: inner, span: start_span.combine(parser.current_span) },
        );
        ExprKind::Unary(operator, expr)
    }

    /// Grammar: (literal) | (group) | (identifier)
    pub fn parse_primary(parser: &mut Parser) -> (r: ExprKind)
        requires
            old(parser).wf(),
        ensures
            final(parser).wf(),
            final(parser).measure() <= old(parser).measure(),
            old(parser).current_token matches Token::Int(v) ==> (r matches ExprKind::Literal(
                Literal::Integer(n),
            ) && n == v as isize),
            old(parser).current_token matches Token::String(s) ==> (r matches ExprKind::Literal(
                Literal::String(t),
            ) && t@ == s@),
            old(parser).current_token matches Token::Ident(name) ==> (r matches ExprKind::Variable(
                sym,
                sp,
            ) && sym@ == name@ && sp == old(parser).current_span),
            (old(parser).current_token is Int || old(parser).current_token is String
                || old(parser).current_token is Ident) ==> (final(parser).current_token == old(parser).next_token
                && final(parser).diagnostics == old(parser).diagnostics),
            (!(old(parser).current_token is Int) && !(old(parser).current_token is String)
                && !(old(parser).current_token is Ident) && !(old(parser).current_token is LParen))
                ==> (r is Error
                && final(parser).current_token == old(parser).next_token
                && final(parser).diagnostics@ == old(parser).diagnostics@.push(DiagView::UnknownExpression(old(parser).current_span))),
            old(parser).current_token is LParen ==> (old(parser).next_token matches Token::Int(v)
                ==> ((old(parser).rest@.len() > 0 && old(parser).rest@.last().0 is RParen) ==> (
                r matches ExprKind::Literal(Literal::Integer(n)) && n == v as isize
                && final(parser).diagnostics == old(parser).diagnostics))),
        decreases old(parser).measure(), 0int,
    {
        let (token, span) = parser.consume();
        match token {
            Token::Int(value) => ExprKind::Literal(Literal::Integer(value as isize)),
            Token::String(value) => ExprKind::Literal(Literal::String(value)),
            Token::LParen => Self::parse_group(parser),
            Token::Ident(symbol) => ExprKind::Variable(symbol, span),
            _ => {
                parser.diagnostics.unknown_expression(&span);
                ExprKind::Error
            },
        }
    }

    /// Grammar: "(" (expression) ")"
    ///
    /// Grouping adds no node: the result is the inner expression's
    /// kind, and when the closing parenthesis directly follows it,
    /// nothing is reported.
    pub fn parse_group(parser: &mut Parser) -> (r: ExprKind)
        requires
            old(parser).wf(),
        ensures
            final(parser).wf(),
            final(parser).measure() <= old(parser).measure(),
            old(parser).current_token matches Token::Int(v) ==> (old(parser).next_token
                is RParen ==> (r matches ExprKind::Literal(Literal::Integer(n)) && n == v as isize
                && final(parser).diagnostics == old(parser).diagnostics)),
            old(parser).current_token matches Token::Ident(name) ==> (old(parser).next_token
                is RParen ==> (r matches ExprKind::Variable(sym, _) && sym@ == name@
                && final(parser).diagnostics == old(parser).diagnostics)),
        decreases old(parser).measure(), 4int,
    {
        let expr = Expr::parse(parser);
        parser.consume_and_check(Token::RParen);
        expr.kind
    }

    /// Grammar: (literal) => Token::Int | Token::String
    pub fn parse_literal(parser: &mut Parser) -> (r: ExprKind)
        requires
            old(parser).wf(),
        ensures
            final(parser).wf(),
            old(parser).current_token matches Token::Int(v) ==> (r matches ExprKind::Literal(
                Literal::Integer(n),
            ) && n == v as isize && *final(parser) == *old(parser)),
            old(parser).current_token matches Token::String(s) ==> (r matches ExprKind::Literal(
                Literal::String(t),
            ) && t@ == s@ && *final(parser) == *old(parser)),
            !(old(parser).current_token is Int) && !(old(parser).current_token is String) ==> (r
                is Error
                && final(parser).diagnostics@ == old(parser).diagnostics@.push(DiagView::UnknownExpression(old(parser).current_span))
                && final(parser).current_token == old(parser).current_token
                && final(parser).next_token == old(parser).next_token
                && final(parser).rest == old(parser).rest
                && final(parser).current_span == old(parser).current_span
                && final(parser).next_span == old(parser).next_span),
    {
        match &parser.current_token {
            Token::String(value) => ExprKind::Literal(Literal::String(value.clone())),
            Token::Int(value) => ExprKind::Literal(Literal::Integer(*value as isize)),
            _ => {
                let sp = parser.current_span;
                parser.diagnostics.unknown_expression(&sp);
                ExprKind::Error
            },
        }
    }
}

} // verus!
