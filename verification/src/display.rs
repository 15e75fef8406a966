//! Rendering the syntax tree as an indented, coloured outline.
//!
//! The exact layout is presentation, not contract: what the builder
//! guarantees is that it only ever appends to its output, and where a
//! piece of text is cheap to pin down — a newline, a header's shape —
//! the contract pins it down.

use vstd::prelude::*;

use crate::ast::Call;
use crate::ast::Definition;
use crate::ast::Function;
use crate::ast::If;
use crate::ast::Program;
use crate::ast::Stmt;
use crate::ast::While;
use crate::expression::Expr;
use crate::expression::ExprKind;
use crate::expression::Literal;
use crate::text::u64_to_string;

verus! {

broadcast use {crate::text::lemma_prefix_append, crate::text::lemma_prefix_trans};

/// An ANSI colour code.
#[derive(Clone, Copy, Debug, PartialEq, Eq, Structural)]
pub enum Color {
    Magenta,
    Cyan,
    Reset,
}

impl Color {
    /// The escape sequence selecting this colour.
    pub fn code(&self) -> (r: &'static str)
        ensures
            *self is Magenta ==> r@ == "\u{1b}[35m"@,
            *self is Cyan ==> r@ == "\u{1b}[36m"@,
            *self is Reset ==> r@ == "\u{1b}[0m"@,
    {
        match self {
            Color::Magenta => "\u{1b}[35m",
            Color::Cyan => "\u{1b}[36m",
            Color::Reset => "\u{1b}[0m",
        }
    }
}

/// Two spaces for each indentation level.
pub open spec fn pad(n: nat) -> Seq<char>
    decreases n,
{
    if n == 0 {
        Seq::empty()
    } else {
        pad((n - 1) as nat) + seq![' ', ' ']
    }
}

/// The text `add_block_end` appends: the `End` marker, in magenta, on
/// a fresh line at the stepped-back indentation, followed by a fresh
/// padded line.
pub open spec fn block_end_text(indent: nat) -> Seq<char> {
    seq!['\n'] + pad(indent) + "\u{1b}[35m"@ + "End"@ + "\u{1b}[0m"@ + seq![' '] + seq!['\n'] + pad(
        indent,
    )
}

/// The text a literal renders to: the decimal writing of an integer,
/// with `-` ahead of a negative one, and a string between quotes.
pub open spec fn literal_text(lit: Literal) -> Seq<char> {
    match lit {
        Literal::Integer(v) => if v < 0 {
            seq!['-'] + crate::text::dec_str(
                if v == isize::MIN {
                    isize::MAX as int + 1
                } else {
                    -(v as int)
                },
            )
        } else {
            crate::text::dec_str(v as int)
        },
        Literal::String(s) => seq!['"'] + s@ + seq!['"'],
    }
}

/// The outline builder: the indentation level and the text built so
/// far.
#[derive(Debug)]
pub struct AstDisplay {
    pub indent: usize,
    pub result: String,
}

impl AstDisplay {
    /// An empty outline at indentation zero.
    pub fn new() -> (r: AstDisplay)
        ensures
            r.indent == 0,
            r.result@.len() == 0,
    {
        AstDisplay { indent: 0, result: String::new() }
    }

    /// Render a whole program, handing out the text; a program with no
    /// functions appends nothing.
    pub fn build(&mut self, program: &Program) -> (r: &String)
        ensures
            old(self).result@.is_prefix_of(final(self).result@),
            r == &final(self).result,
            program.functions@.len() == 0 ==> *final(self) == *old(self),
    {
        self.visit_program(program);
        &self.result
    }

    /// Append one newline.
    fn add_newline(&mut self)
        ensures
            final(self).result@ == old(self).result@ + "\n"@,
            final(self).indent == old(self).indent,
    {
        self.result.append("\n");
    }

    /// Append two spaces per indentation level.
    fn add_padding(&mut self)
        ensures
            final(self).result@ == old(self).result@ + pad(old(self).indent as nat),
            final(self).indent == old(self).indent,
    {
        let mut i: usize = 0;
        proof {
            assert(self.result@ =~= old(self).result@ + pad(0));
        }
        while i < self.indent
            invariant
                i <= self.indent,
                self.result@ == old(self).result@ + pad(i as nat),
                self.indent == old(self).indent,
            decreases self.indent - i,
        {
            self.result.append("  ");
            proof {
                reveal_strlit("  ");
                assert("  "@ =~= seq![' ', ' ']);
                assert(self.result@ =~= old(self).result@ + pad((i + 1) as nat));
            }
            i = i + 1;
        }
    }

    /// Append a statement header: `text:` in magenta on a fresh,
    /// padded line.
    fn add_statement_header(&mut self, text: &str)
        ensures
            final(self).result@ == old(self).result@ + seq!['\n'] + pad(old(self).indent as nat)
                + "\u{1b}[35m"@ + text@ + ":"@ + "\u{1b}[0m"@ + seq![' '],
            final(self).indent == old(self).indent,
    {
        self.add_newline();
        self.add_padding();
        self.result.append(Color::Magenta.code());
        self.result.append(text);
        self.result.append(":");
        self.result.append(Color::Reset.code());
        self.result.append(" ");
        proof {
            reveal_strlit("\n");
            reveal_strlit(" ");
            assert(self.result@ =~= old(self).result@ + seq!['\n'] + pad(
                old(self).indent as nat,
            ) + "\u{1b}[35m"@ + text@ + ":"@ + "\u{1b}[0m"@ + seq![' ']);
        }
    }

    /// Append an expression header: `text:` in cyan on a fresh, padded
    /// line.
    fn add_expression_header(&mut self, text: &str)
        ensures
            final(self).result@ == old(self).result@ + seq!['\n'] + pad(old(self).indent as nat)
                + "\u{1b}[36m"@ + text@ + ":"@ + "\u{1b}[0m"@ + seq![' '],
            final(self).indent == old(self).indent,
    {
        self.add_newline();
        self.add_padding();
        self.result.append(Color::Cyan.code());
        self.result.append(text);
        self.result.append(":");
        self.result.append(Color::Reset.code());
        self.result.append(" ");
        proof {
            reveal_strlit("\n");
            reveal_strlit(" ");
            assert(self.result@ =~= old(self).result@ + seq!['\n'] + pad(
                old(self).indent as nat,
            ) + "\u{1b}[36m"@ + text@ + ":"@ + "\u{1b}[0m"@ + seq![' ']);
        }
    }

    /// Close a block: step the indentation back two levels, holding at
    /// zero, and append exactly the `End` marker text at the new
    /// indentation.
    fn add_block_end(&mut self)
        ensures
            final(self).indent == if old(self).indent >= 2 {
                (old(self).indent - 2) as usize
            } else {
                0
            },
            final(self).result@ == old(self).result@ + block_end_text(final(self).indent as nat),
    {
        if self.indent >= 2 {
            self.indent = self.indent - 2;
        } else {
            self.indent = 0;
        }
        self.add_newline();
        self.add_padding();
        self.result.append(Color::Magenta.code());
        self.result.append("End");
        self.result.append(Color::Reset.code());
        self.result.append(" ");
        self.add_newline();
        self.add_padding();
        proof {
            reveal_strlit("\n");
            reveal_strlit(" ");
            assert(self.result@ =~= old(self).result@ + block_end_text(self.indent as nat));
        }
    }

    /// Bump the indentation one level, holding at the top instead of
    /// overflowing.
    fn push_indent(&mut self)
        ensures
            final(self).result == old(self).result,
            final(self).indent >= old(self).indent,
    {
        if self.indent < usize::MAX {
            self.indent = self.indent + 1;
        }
    }

    /// Step the indentation one level back.
    fn pop_indent(&mut self)
        ensures
            final(self).result == old(self).result,
            final(self).indent <= old(self).indent,
    {
        if self.indent >= 1 {
            self.indent = self.indent - 1;
        }
    }

    /// Render every function of the program; none appends nothing.
    pub fn visit_program(&mut self, program: &Program)
        ensures
            old(self).result@.is_prefix_of(final(self).result@),
            program.functions@.len() == 0 ==> *final(self) == *old(self),
    {
        let n = program.functions.len();
        let mut i: usize = 0;
        while i < n
            invariant
                i <= n,
                n == program.functions@.len(),
                old(self).result@.is_prefix_of(self.result@),
                i == 0 ==> *self == *old(self),
            decreases n - i,
        {
            self.visit_function(&program.functions[i]);
            i = i + 1;
        }
    }

    /// Render one function: header, parameter list, body, end marker.
    pub fn visit_function(&mut self, func: &Function)
        ensures
            old(self).result@.is_prefix_of(final(self).result@),
        decreases *func,
    {
        self.add_statement_header("Function");
        self.result.append(func.pattern.name.as_str());
        self.push_indent();
        self.add_statement_header("Parameters");
        let n = func.parameters.len();
        let mut i: usize = 0;
        while i < n
            invariant
                i <= n,
                n == func.parameters@.len(),
                old(self).result@.is_prefix_of(self.result@),
            decreases n - i,
        {
            self.result.append(func.parameters[i].name.as_str());
            self.result.append(" ");
            proof {
                assert(old(self).result@.is_prefix_of(self.result@));
            }
            i = i + 1;
        }
        self.add_newline();
        self.add_statement_header("Body");
        self.push_indent();
        self.visit_block(&func.body);
        self.add_block_end();
    }

    /// Render a block of statements.
    pub fn visit_block(&mut self, body: &Vec<Stmt>)
        ensures
            old(self).result@.is_prefix_of(final(self).result@),
        decreases *body,
    {
        let n = body.len();
        let mut i: usize = 0;
        while i < n
            invariant
                i <= n,
                n == body@.len(),
                old(self).result@.is_prefix_of(self.result@),
            decreases n - i,
        {
            self.visit_stmt(&body[i]);
            i = i + 1;
        }
    }

    /// Render one statement.
    pub fn visit_stmt(&mut self, stmt: &Stmt)
        ensures
            old(self).result@.is_prefix_of(final(self).result@),
        decreases *stmt,
    {
        match stmt {
            Stmt::Definition(def) => self.visit_definition(def),
            Stmt::Assignment(def) => self.visit_assignment(def),
            Stmt::If(if_stmt) => self.visit_if(if_stmt),
            Stmt::While(while_stmt) => self.visit_while(while_stmt),
            Stmt::Call(call) => self.visit_call(call),
            Stmt::Return(value) => self.visit_return(value),
        }
    }

    /// Render a `return` statement.
    pub fn visit_return(&mut self, ret: &Expr)
        ensures
            old(self).result@.is_prefix_of(final(self).result@),
        decreases *ret,
    {
        self.add_statement_header("Return");
        self.push_indent();
        self.add_expression_header("Expression");
        self.visit_expr(ret);
        self.pop_indent();
    }

    /// Render a `let` definition.
    pub fn visit_definition(&mut self, def: &Definition)
        ensures
            old(self).result@.is_prefix_of(final(self).result@),
        decreases *def,
    {
        self.add_statement_header("Declare");
        self.result.append(def.pattern.name.as_str());
        self.push_indent();
        self.add_expression_header("Expression");
        self.visit_expr(&def.value);
        self.pop_indent();
    }

    /// Render an assignment.
    pub fn visit_assignment(&mut self, def: &crate::ast::Assignment)
        ensures
            old(self).result@.is_prefix_of(final(self).result@),
        decreases *def,
    {
        self.add_statement_header("Assign");
        self.result.append(def.pattern.name.as_str());
        self.push_indent();
        self.add_expression_header("Expression");
        self.visit_expr(&def.value);
        self.pop_indent();
    }

    /// Render a call and its arguments.
    pub fn visit_call(&mut self, call: &Call)
        ensures
            old(self).result@.is_prefix_of(final(self).result@),
        decreases *call,
    {
        self.add_statement_header("Call");
        self.result.append(call.pattern.name.as_str());
        self.push_indent();
        self.add_statement_header("Arguments");
        let n = call.arguments.len();
        let mut i: usize = 0;
        while i < n
            invariant
                i <= n,
                n == call.arguments@.len(),
                old(self).result@.is_prefix_of(self.result@),
            decreases n - i,
        {
            self.push_indent();
            self.add_expression_header("Expression");
            self.visit_expr(&call.arguments[i]);
            self.pop_indent();
            i = i + 1;
        }
        self.pop_indent();
    }

    /// Render one expression. A leaf — a literal, a variable, an error
    /// — appends exactly its own text and leaves the indentation
    /// alone.
    pub fn visit_expr(&mut self, e: &Expr)
        ensures
            old(self).result@.is_prefix_of(final(self).result@),
            e.kind matches ExprKind::Literal(lit) ==> (final(self).result@ == old(self).result@
                + literal_text(lit) && final(self).indent == old(self).indent),
            e.kind matches ExprKind::Variable(name, _) ==> (final(self).result@ == old(self).result@ + name@ && final(self).indent == old(self).indent),
            e.kind is Error ==> (final(self).result@ == old(self).result@ + "<error>"@ && final(self).indent == old(self).indent),
        decreases *e,
    {
        match &e.kind {
            ExprKind::Binary(op, lhs, rhs) => {
                self.push_indent();
                self.add_expression_header("Left");
                self.visit_expr(lhs);
                self.add_expression_header("Op");
                let name = match op {
                    crate::expression::BinOp::Add => "Add",
                    crate::expression::BinOp::Sub => "Sub",
                    crate::expression::BinOp::Mul => "Mul",
                    crate::expression::BinOp::Div => "Div",
                    crate::expression::BinOp::Eq => "Eq",
                    crate::expression::BinOp::NotEq => "NotEq",
                    crate::expression::BinOp::LessThan => "LessThan",
                    crate::expression::BinOp::LessThanEq => "LessThanEq",
                    crate::expression::BinOp::GreaterThan => "GreaterThan",
                    crate::expression::BinOp::GreaterThanEq => "GreaterThanEq",
                };
                self.result.append(name);
                self.add_expression_header("Right");
                self.visit_expr(rhs);
                self.pop_indent();
            },
            ExprKind::Unary(_, operand) => {
                self.push_indent();
                self.add_expression_header("Op");
                self.result.append("Neg");
                self.add_expression_header("Operand");
                self.visit_expr(operand);
                self.pop_indent();
            },
            ExprKind::Literal(lit) => {
                self.visit_literal(lit);
            },
            ExprKind::Variable(name, _) => {
                self.result.append(name.as_str());
            },
            ExprKind::Error => {
                self.result.append("<error>");
            },
        }
    }

    /// Render a literal: exactly its text, the indentation untouched.
    pub fn visit_literal(&mut self, lit: &Literal)
        ensures
            final(self).result@ == old(self).result@ + literal_text(*lit),
            final(self).indent == old(self).indent,
    {
        match lit {
            Literal::Integer(i) => {
                let v = *i;
                if v < 0 {
                    self.result.append("-");
                    let magnitude: u64 = if v == isize::MIN {
                        (isize::MAX as u64) + 1
                    } else {
                        (-v) as u64
                    };
                    let num = u64_to_string(magnitude);
                    self.result.append(num.as_str());
                    proof {
                        reveal_strlit("-");
                        assert("-"@ =~= seq!['-']);
                        assert(self.result@ =~= old(self).result@ + literal_text(*lit));
                    }
                } else {
                    let num = u64_to_string(v as u64);
                    self.result.append(num.as_str());
                }
            },
            Literal::String(s) => {
                self.result.append("\"");
                self.result.append(s.as_str());
                self.result.append("\"");
                proof {
                    reveal_strlit("\"");
                    assert("\""@ =~= seq!['"']);
                    assert(self.result@ =~= old(self).result@ + literal_text(*lit));
                }
            },
        }
    }

    /// Render a `while` and its block.
    pub fn visit_while(&mut self, while_stmt: &While)
        ensures
            old(self).result@.is_prefix_of(final(self).result@),
        decreases *while_stmt,
    {
        self.add_newline();
        self.add_statement_header("While");
        self.push_indent();
        self.add_statement_header("Condition");
        self.push_indent();
        self.add_expression_header("Expression");
        self.visit_expr(&while_stmt.condition);
        self.pop_indent();
        self.add_newline();
        self.add_statement_header("Body");
        self.push_indent();
        self.visit_block(&while_stmt.body);
        self.add_block_end();
    }

    /// Render an `if` and its block.
    pub fn visit_if(&mut self, if_stmt: &If)
        ensures
            old(self).result@.is_prefix_of(final(self).result@),
        decreases *if_stmt,
    {
        self.add_newline();
        self.add_statement_header("If");
        self.push_indent();
        self.add_statement_header("Condition");
        self.push_indent();
        self.add_expression_header("Expression");
        self.visit_expr(&if_stmt.condition);
        self.pop_indent();
        self.add_newline();
        self.add_statement_header("Body");
        self.push_indent();
        self.visit_block(&if_stmt.body);
        self.add_block_end();
    }
}

} // verus!
