//! Diagnostics collected by the front-end passes.
//!
//! A diagnostic is structured data — which rule was broken, for which
//! name, at which span; rendering is left to the host. The bag's view
//! is the sequence of findings with names read as character sequences,
//! so a pass's contract can say exactly which findings it appends.

use vstd::prelude::*;

use crate::span::Span;

verus! {

/// One finding of the parser or of a resolution pass.
#[derive(Clone, Debug)]
pub enum Diagnostic {
    /// A name was declared twice in the same scope.
    SymbolAlreadyDeclared(String, Span),
    /// A name was assigned before it was declared.
    UndeclaredAssignment(String, Span),
    /// A name was referenced before it was declared.
    UndefinedReference(String, Span),
    /// A token cannot begin an operator at this position.
    InvalidOperator(Span),
    /// A token cannot begin an expression at this position.
    UnknownExpression(Span),
    /// A specific token was expected and another was found.
    UnexpectedToken(Span),
}

/// A finding's mathematical shape: its kind, the name it concerns as
/// characters, and its span.
pub enum DiagView {
    SymbolAlreadyDeclared(Seq<char>, Span),
    UndeclaredAssignment(Seq<char>, Span),
    UndefinedReference(Seq<char>, Span),
    InvalidOperator(Span),
    UnknownExpression(Span),
    UnexpectedToken(Span),
}

/// The shape of one finding.
pub open spec fn diag_view(d: Diagnostic) -> DiagView {
    match d {
        Diagnostic::SymbolAlreadyDeclared(n, sp) => DiagView::SymbolAlreadyDeclared(n@, sp),
        Diagnostic::UndeclaredAssignment(n, sp) => DiagView::UndeclaredAssignment(n@, sp),
        Diagnostic::UndefinedReference(n, sp) => DiagView::UndefinedReference(n@, sp),
        Diagnostic::InvalidOperator(sp) => DiagView::InvalidOperator(sp),
        Diagnostic::UnknownExpression(sp) => DiagView::UnknownExpression(sp),
        Diagnostic::UnexpectedToken(sp) => DiagView::UnexpectedToken(sp),
    }
}

/// The bag the passes drop their findings into.
#[derive(Clone, Debug)]
pub struct DiagnosticBag {
    pub diagnostics: Vec<Diagnostic>,
}

impl View for DiagnosticBag {
    type V = Seq<DiagView>;

    open spec fn view(&self) -> Seq<DiagView> {
        self.diagnostics@.map_values(|d: Diagnostic| diag_view(d))
    }
}

impl DiagnosticBag {
    /// An empty bag.
    pub fn new() -> (r: DiagnosticBag)
        ensures
            r@ == Seq::<DiagView>::empty(),
            r.diagnostics@.len() == 0,
    {
        let r = DiagnosticBag { diagnostics: Vec::new() };
        proof {
            assert(r@ =~= Seq::<DiagView>::empty());
        }
        r
    }

    /// Nothing has been reported.
    pub fn is_empty(&self) -> (r: bool)
        ensures
            r == (self@.len() == 0),
    {
        self.diagnostics.len() == 0
    }

    /// Append one finding.
    fn push(&mut self, d: Diagnostic)
        ensures
            final(self)@ == old(self)@.push(diag_view(d)),
    {
        self.diagnostics.push(d);
        proof {
            assert(self@ =~= old(self)@.push(diag_view(self.diagnostics@.last())));
        }
    }

    /// Report a name declared twice in one scope.
    pub fn symbol_already_declared(&mut self, name: &str, span: &Span)
        ensures
            final(self)@ == old(self)@.push(DiagView::SymbolAlreadyDeclared(name@, *span)),
    {
        self.push(Diagnostic::SymbolAlreadyDeclared(name.to_owned(), *span));
    }

    /// Report an assignment to an undeclared name.
    pub fn undeclared_assignment(&mut self, name: &str, span: &Span)
        ensures
            final(self)@ == old(self)@.push(DiagView::UndeclaredAssignment(name@, *span)),
    {
        self.push(Diagnostic::UndeclaredAssignment(name.to_owned(), *span));
    }

    /// Report a reference to an undeclared name.
    pub fn undefined_reference(&mut self, name: &str, span: &Span)
        ensures
            final(self)@ == old(self)@.push(DiagView::UndefinedReference(name@, *span)),
    {
        self.push(Diagnostic::UndefinedReference(name.to_owned(), *span));
    }

    /// Report a token that cannot begin an operator.
    pub fn invalid_operator(&mut self, span: &Span)
        ensures
            final(self)@ == old(self)@.push(DiagView::InvalidOperator(*span)),
    {
        self.push(Diagnostic::InvalidOperator(*span));
    }

    /// Report a token that cannot begin an expression.
    pub fn unknown_expression(&mut self, span: &Span)
        ensures
            final(self)@ == old(self)@.push(DiagView::UnknownExpression(*span)),
    {
        self.push(Diagnostic::UnknownExpression(*span));
    }

    /// Report a token that was not the one required.
    pub fn unexpected_token(&mut self, span: &Span)
        ensures
            final(self)@ == old(self)@.push(DiagView::UnexpectedToken(*span)),
    {
        self.push(Diagnostic::UnexpectedToken(*span));
    }
}

} // verus!
