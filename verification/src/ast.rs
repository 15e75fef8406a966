//! The front end's syntax tree.

use vstd::prelude::*;

use crate::expression::Expr;
use crate::span::Span;

verus! {

/// A binding occurrence of a name.
#[derive(Debug)]
pub struct Pattern {
    pub name: String,
    pub span: Span,
}

impl Pattern {
    /// A pattern for `name` at `span`.
    pub fn new(name: String, span: Span) -> (r: Pattern)
        ensures
            r.name == name,
            r.span == span,
    {
        Pattern { name, span }
    }
}

/// A whole program: its functions.
#[derive(Debug)]
pub struct Program {
    pub functions: Vec<Function>,
}

/// A function: its name, parameters and body.
#[derive(Debug)]
pub struct Function {
    pub pattern: Pattern,
    pub parameters: Vec<Pattern>,
    pub body: Vec<Stmt>,
}

/// One statement.
#[derive(Debug)]
pub enum Stmt {
    Definition(Definition),
    Assignment(Assignment),
    If(If),
    While(While),
    Call(Call),
    Return(Expr),
}

/// `let name = value;`
#[derive(Debug)]
pub struct Definition {
    pub pattern: Pattern,
    pub value: Expr,
}

/// `name = value;`
#[derive(Debug)]
pub struct Assignment {
    pub pattern: Pattern,
    pub value: Expr,
}

/// `if condition { body }`
#[derive(Debug)]
pub struct If {
    pub condition: Expr,
    pub body: Vec<Stmt>,
}

/// `while condition { body }`
#[derive(Debug)]
pub struct While {
    pub condition: Expr,
    pub body: Vec<Stmt>,
}

/// `name(arguments);`
#[derive(Debug)]
pub struct Call {
    pub pattern: Pattern,
    pub arguments: Vec<Expr>,
}

} // verus!
