//! Variable resolution: every name must be declared before it is
//! assigned or referenced.
//!
//! The resolver walks the syntax tree against a prepared symbol table,
//! entering each block's scope in declaration order, and reports one
//! diagnostic for each name that does not resolve.

use vstd::prelude::*;

use crate::ast::Assignment;
use crate::ast::Definition;
use crate::ast::Pattern;
use crate::ast::If;
use crate::ast::Program;
use crate::ast::Stmt;
use crate::ast::While;
use crate::assoc::assoc_get;
use crate::ast::Function;
use crate::diagnostics::DiagView;
use crate::diagnostics::DiagnosticBag;
use crate::display::AstDisplay;
use crate::error::CompilerError;
use crate::expression::Expr;
use crate::expression::ExprKind;
use crate::lexer::Lexer;
use crate::parser::Parser;
use crate::symbol_table::SymbolTable;
use crate::symbol_table::Variable;

verus! {

broadcast use {crate::text::lemma_prefix_append, crate::text::lemma_prefix_push, crate::text::lemma_prefix_trans, crate::text::lemma_prefix_index};

/// The identity of one definition site.
#[derive(Clone, Copy, Debug, PartialEq, Eq, Structural)]
pub struct DefinitionId(pub usize);

/// An item that knows how to record its own definition.
pub trait ResolveVisitor {
    /// Record this item's definitions with the resolver.
    fn define(&self, resolver: &mut NameResolver);
}

impl ResolveVisitor for Definition {
    /// A `let` definition declares its pattern in the current scope.
    fn define(&self, resolver: &mut NameResolver) {
        resolver.symbol_table.insert_variable(
            Pattern::new(self.pattern.name.clone(), self.pattern.span),
            Variable { span: self.pattern.span },
        );
    }
}

/// The findings walking an expression leaves behind: one
/// `UndefinedReference`, with the variable's name and span, for each
/// variable the table does not resolve, in traversal order. The
/// sequence is empty exactly when every variable resolves.
pub open spec fn expr_diags(table: SymbolTable, e: Expr) -> Seq<DiagView>
    decreases e,
{
    match e.kind {
        ExprKind::Binary(_, lhs, rhs) => expr_diags(table, *lhs) + expr_diags(table, *rhs),
        ExprKind::Unary(_, inner) => expr_diags(table, *inner),
        ExprKind::Literal(_) => Seq::empty(),
        ExprKind::Variable(name, span) => if table.spec_lookup(name@) is Some {
            Seq::empty()
        } else {
            seq![DiagView::UndefinedReference(name@, span)]
        },
        ExprKind::Error => Seq::empty(),
    }
}

/// The findings walking an assignment leaves behind: an
/// `UndeclaredAssignment` when the target does not resolve, then the
/// value's findings.
pub open spec fn assignment_diags(table: SymbolTable, def: Assignment) -> Seq<DiagView> {
    (if table.spec_lookup(def.pattern.name@) is Some {
        Seq::empty()
    } else {
        seq![DiagView::UndeclaredAssignment(def.pattern.name@, def.pattern.span)]
    }) + expr_diags(table, def.value)
}

/// A finding the resolution pass can produce.
pub open spec fn resolution_finding(d: DiagView) -> bool {
    d is UndefinedReference || d is UndeclaredAssignment
}

/// Every finding of an expression walk is a resolution finding.
proof fn lemma_expr_diags_kinds(table: SymbolTable, e: Expr)
    ensures
        forall|j: int|
            0 <= j < expr_diags(table, e).len() ==> resolution_finding(
                #[trigger] expr_diags(table, e)[j],
            ),
    decreases e,
{
    match &e.kind {
        ExprKind::Binary(_, lhs, rhs) => {
            lemma_expr_diags_kinds(table, **lhs);
            lemma_expr_diags_kinds(table, **rhs);
            assert(expr_diags(table, e) == expr_diags(table, **lhs) + expr_diags(table, **rhs));
            assert forall|j: int| 0 <= j < expr_diags(table, e).len() implies resolution_finding(
                #[trigger] expr_diags(table, e)[j],
            ) by {
                if j < expr_diags(table, **lhs).len() {
                    assert(expr_diags(table, e)[j] == expr_diags(table, **lhs)[j]);
                } else {
                    assert(expr_diags(table, e)[j] == expr_diags(table, **rhs)[j - expr_diags(
                        table,
                        **lhs,
                    ).len()]);
                }
            }
        },
        ExprKind::Unary(_, inner) => {
            lemma_expr_diags_kinds(table, **inner);
            assert(expr_diags(table, e) == expr_diags(table, **inner));
            assert(forall|j: int|
                0 <= j < expr_diags(table, e).len() ==> resolution_finding(
                    #[trigger] expr_diags(table, e)[j],
                ));
        },
        ExprKind::Variable(name, span) => {
            assert forall|j: int| 0 <= j < expr_diags(table, e).len() implies resolution_finding(
                #[trigger] expr_diags(table, e)[j],
            ) by {
                assert(expr_diags(table, e)[j] == DiagView::UndefinedReference(name@, *span));
            }
        },
        _ => {
            assert(expr_diags(table, e).len() == 0);
        },
    }
}

/// Every finding of an assignment walk is a resolution finding.
proof fn lemma_assignment_diags_kinds(table: SymbolTable, def: Assignment)
    ensures
        forall|j: int|
            0 <= j < assignment_diags(table, def).len() ==> resolution_finding(
                #[trigger] assignment_diags(table, def)[j],
            ),
{
    lemma_expr_diags_kinds(table, def.value);
    let head = (if table.spec_lookup(def.pattern.name@) is Some {
        Seq::<DiagView>::empty()
    } else {
        seq![DiagView::UndeclaredAssignment(def.pattern.name@, def.pattern.span)]
    });
    assert forall|j: int| 0 <= j < assignment_diags(table, def).len() implies resolution_finding(
        #[trigger] assignment_diags(table, def)[j],
    ) by {
        if j < head.len() {
            assert(assignment_diags(table, def)[j] == head[j]);
        } else {
            assert(assignment_diags(table, def)[j] == expr_diags(table, def.value)[j - head.len()]);
        }
    }
}

/// Appending resolution findings keeps the old findings a prefix and
/// every new finding a resolution finding.
proof fn lemma_diags_append_kinds(d0: Seq<DiagView>, d: Seq<DiagView>)
    requires
        forall|j: int| 0 <= j < d.len() ==> resolution_finding(#[trigger] d[j]),
    ensures
        d0.is_prefix_of(d0 + d),
        forall|j: int|
            d0.len() <= j < (d0 + d).len() ==> resolution_finding(#[trigger] (d0 + d)[j]),
{
    assert forall|j: int| d0.len() <= j < (d0 + d).len() implies resolution_finding(
        #[trigger] (d0 + d)[j],
    ) by {
        assert((d0 + d)[j] == d[j - d0.len()]);
    }
}

/// Two rounds of appended resolution findings compose.
proof fn lemma_kinds_compose(a: Seq<DiagView>, b: Seq<DiagView>, c: Seq<DiagView>)
    requires
        a.is_prefix_of(b),
        b.is_prefix_of(c),
        forall|j: int| a.len() <= j < b.len() ==> resolution_finding(#[trigger] b[j]),
        forall|j: int| b.len() <= j < c.len() ==> resolution_finding(#[trigger] c[j]),
    ensures
        a.is_prefix_of(c),
        forall|j: int| a.len() <= j < c.len() ==> resolution_finding(#[trigger] c[j]),
{
    assert forall|j: int| a.len() <= j < c.len() implies resolution_finding(#[trigger] c[j]) by {
        if j < b.len() {
            assert(c[j] == b[j]);
        }
    }
}

/// Whether `ct` is the table the resolver walks inside child scope
/// `idx` of `t`: the child's own names, child scopes and scope counter,
/// with `t` — its names, and its enclosing scopes — as the enclosing
/// scope.
pub open spec fn child_scope_of(ct: SymbolTable, t: SymbolTable, idx: int) -> bool {
    &&& 0 <= idx < t.scopes@.len()
    &&& ct.variables@ == t.scopes@[idx].variables@
    &&& ct.scopes@ == t.scopes@[idx].scopes@
    &&& ct.scope_idx == t.scopes@[idx].scope_idx
    &&& ct.parent matches Some(p) && p.variables@ == t.variables@ && p.parent == t.parent
}

/// The resolution pass: the table being walked, the findings, and the
/// index of the next child scope to enter.
#[derive(Debug)]
pub struct NameResolver {
    pub symbol_table: SymbolTable,
    pub diagnostics: DiagnosticBag,
    pub scope_idx: usize,
}

impl NameResolver {
    /// A resolver at the root of `symbol_table`.
    pub fn new(symbol_table: SymbolTable, diagnostics: DiagnosticBag) -> (r: NameResolver)
        ensures
            r.symbol_table == symbol_table,
            r.diagnostics == diagnostics,
            r.scope_idx == 0,
    {
        NameResolver { symbol_table, diagnostics, scope_idx: 0 }
    }

    /// Descend into the next child scope: the child becomes the current
    /// table and the old current table becomes its parent, with the
    /// child's slot left empty. The answer is the child's index, for
    /// `exit_scope`.
    pub fn enter_scope(&mut self) -> (r: usize)
        requires
            old(self).scope_idx < old(self).symbol_table.scopes@.len(),
        ensures
            r == old(self).scope_idx,
            final(self).scope_idx == old(self).scope_idx,
            final(self).diagnostics == old(self).diagnostics,
            final(self).symbol_table.variables@ == old(self).symbol_table.scopes@[r as int].variables@,
            final(self).symbol_table.scopes@ == old(self).symbol_table.scopes@[r as int].scopes@,
            final(self).symbol_table.scope_idx == old(self).symbol_table.scopes@[r as int].scope_idx,
            final(self).symbol_table.parent matches Some(p) && p.variables@ == old(
                self,
            ).symbol_table.variables@ && p.parent == old(self).symbol_table.parent && p.scope_idx
                == old(self).symbol_table.scope_idx && p.scopes@.len() == old(
                self,
            ).symbol_table.scopes@.len() && (forall|j: int|
                0 <= j < p.scopes@.len() && j != r as int ==> p.scopes@[j] == old(
                    self,
                ).symbol_table.scopes@[j]),
    {
        let idx = self.scope_idx;
        let mut child = SymbolTable::empty();
        core::mem::swap(&mut self.symbol_table.scopes[idx], &mut child);
        let mut current = SymbolTable::empty();
        core::mem::swap(&mut self.symbol_table, &mut current);
        child.parent = Some(Box::new(current));
        self.symbol_table = child;
        idx
    }

    /// Climb back out of child scope `index`: the child, its slot
    /// restored, goes back into its parent, which becomes the current
    /// table again; the next scope to enter is the one after `index`.
    pub fn exit_scope(&mut self, index: usize)
        requires
            old(self).symbol_table.parent is Some,
            index < old(self).symbol_table.parent.unwrap().scopes@.len(),
            index < usize::MAX,
        ensures
            final(self).scope_idx == index + 1,
            final(self).diagnostics == old(self).diagnostics,
            ({
                let p = *old(self).symbol_table.parent.unwrap();
                &&& final(self).symbol_table.variables@ == p.variables@
                &&& final(self).symbol_table.parent == p.parent
                &&& final(self).symbol_table.scope_idx == p.scope_idx
                &&& final(self).symbol_table.scopes@.len() == p.scopes@.len()
                &&& (forall|j: int|
                    0 <= j < p.scopes@.len() && j != index as int
                        ==> final(self).symbol_table.scopes@[j] == p.scopes@[j])
                &&& final(self).symbol_table.scopes@[index as int].variables@ == old(
                    self,
                ).symbol_table.variables@
                &&& final(self).symbol_table.scopes@[index as int].parent is None
            }),
    {
        let mut parent_opt: Option<Box<SymbolTable>> = None;
        core::mem::swap(&mut self.symbol_table.parent, &mut parent_opt);
        let parent = match parent_opt {
            Some(b) => *b,
            None => {
                proof {
                    assert(false);
                }
                SymbolTable::empty()
            },
        };
        let mut child = parent;
        core::mem::swap(&mut self.symbol_table, &mut child);
        // `child` is now the scope being left, its parent link cleared;
        // the parent is the current table again.
        core::mem::swap(&mut self.symbol_table.scopes[index], &mut child);
        self.scope_idx = index + 1;
    }

    /// Walk an expression: the findings grow by exactly
    /// `expr_diags(table, e)` — one `UndefinedReference` per variable
    /// the table does not resolve — and nothing else changes.
    pub fn visit_expr(&mut self, e: &Expr)
        ensures
            final(self).symbol_table == old(self).symbol_table,
            final(self).scope_idx == old(self).scope_idx,
            final(self).diagnostics@ == old(self).diagnostics@ + expr_diags(
                old(self).symbol_table,
                *e,
            ),
        decreases *e,
    {
        let ghost d0 = self.diagnostics@;
        match &e.kind {
            ExprKind::Binary(_, lhs, rhs) => {
                self.visit_expr(lhs);
                self.visit_expr(rhs);
                proof {
                    assert(self.diagnostics@ =~= d0 + expr_diags(self.symbol_table, *e));
                }
            },
            ExprKind::Unary(_, inner) => {
                self.visit_expr(inner);
            },
            ExprKind::Literal(_) => {
                proof {
                    assert(self.diagnostics@ =~= d0 + expr_diags(self.symbol_table, *e));
                }
            },
            ExprKind::Variable(name, span) => {
                if !self.symbol_table.resolves(name.as_str()) {
                    let sp = *span;
                    self.diagnostics.undefined_reference(name.as_str(), &sp);
                }
                proof {
                    assert(self.diagnostics@ =~= d0 + expr_diags(self.symbol_table, *e));
                }
            },
            ExprKind::Error => {
                proof {
                    assert(self.diagnostics@ =~= d0 + expr_diags(self.symbol_table, *e));
                }
            },
        }
    }

    /// Walk an assignment: the findings grow by exactly
    /// `assignment_diags(table, def)` — an `UndeclaredAssignment` when
    /// the target is not declared, then the value's findings.
    pub fn visit_assignment(&mut self, def: &Assignment)
        ensures
            final(self).symbol_table == old(self).symbol_table,
            final(self).scope_idx == old(self).scope_idx,
            final(self).diagnostics@ == old(self).diagnostics@ + assignment_diags(
                old(self).symbol_table,
                *def,
            ),
    {
        let ghost d0 = self.diagnostics@;
        if !self.symbol_table.resolves(def.pattern.name.as_str()) {
            let sp = def.pattern.span;
            self.diagnostics.undeclared_assignment(def.pattern.name.as_str(), &sp);
        }
        self.visit_expr(&def.value);
        proof {
            assert(self.diagnostics@ =~= d0 + assignment_diags(self.symbol_table, *def));
        }
    }

    /// Walk an `if` inside the next child scope, when one is left to
    /// enter: the condition's findings — those of walking it against
    /// the child scope — open what is appended, and the walked table
    /// keeps its own names. Past the last child scope the walk stays
    /// in the current one and moves nothing. Every finding appended is
    /// a resolution finding.
    pub fn visit_if(&mut self, if_stmt: &If)
        ensures
            old(self).diagnostics@.is_prefix_of(final(self).diagnostics@),
            forall|j: int|
                old(self).diagnostics@.len() <= j < final(self).diagnostics@.len()
                    ==> resolution_finding(#[trigger] final(self).diagnostics@[j]),
            final(self).symbol_table.parent == old(self).symbol_table.parent,
            final(self).symbol_table.variables@ == old(self).symbol_table.variables@,
            final(self).symbol_table.scopes@.len() == old(self).symbol_table.scopes@.len(),
            old(self).scope_idx < old(self).symbol_table.scopes@.len() ==> final(self).scope_idx
                == old(self).scope_idx + 1,
            old(self).scope_idx < old(self).symbol_table.scopes@.len() ==> exists|ct: SymbolTable|
                #[trigger] child_scope_of(ct, old(self).symbol_table, old(self).scope_idx as int)
                    && expr_diags(ct, if_stmt.condition).is_prefix_of(
                    final(self).diagnostics@.skip(old(self).diagnostics@.len() as int),
                ),
            old(self).scope_idx >= old(self).symbol_table.scopes@.len() ==> (final(self).scope_idx
                == old(self).scope_idx && final(self).symbol_table == old(self).symbol_table),
        decreases *if_stmt, 0int,
    {
        self.visit_scoped(&if_stmt.condition, &if_stmt.body);
    }

    /// Walk a `while` inside the next child scope, as `visit_if` does.
    pub fn visit_while(&mut self, while_stmt: &While)
        ensures
            old(self).diagnostics@.is_prefix_of(final(self).diagnostics@),
            forall|j: int|
                old(self).diagnostics@.len() <= j < final(self).diagnostics@.len()
                    ==> resolution_finding(#[trigger] final(self).diagnostics@[j]),
            final(self).symbol_table.parent == old(self).symbol_table.parent,
            final(self).symbol_table.variables@ == old(self).symbol_table.variables@,
            final(self).symbol_table.scopes@.len() == old(self).symbol_table.scopes@.len(),
            old(self).scope_idx < old(self).symbol_table.scopes@.len() ==> final(self).scope_idx
                == old(self).scope_idx + 1,
            old(self).scope_idx < old(self).symbol_table.scopes@.len() ==> exists|ct: SymbolTable|
                #[trigger] child_scope_of(ct, old(self).symbol_table, old(self).scope_idx as int)
                    && expr_diags(ct, while_stmt.condition).is_prefix_of(
                    final(self).diagnostics@.skip(old(self).diagnostics@.len() as int),
                ),
            old(self).scope_idx >= old(self).symbol_table.scopes@.len() ==> (final(self).scope_idx
                == old(self).scope_idx && final(self).symbol_table == old(self).symbol_table),
        decreases *while_stmt, 0int,
    {
        self.visit_scoped(&while_stmt.condition, &while_stmt.body);
    }

    /// Walk a condition and a block inside the next child scope; the
    /// common body of `visit_if` and `visit_while`.
    fn visit_scoped(&mut self, condition: &Expr, body: &Vec<Stmt>)
        ensures
            old(self).diagnostics@.is_prefix_of(final(self).diagnostics@),
            forall|j: int|
                old(self).diagnostics@.len() <= j < final(self).diagnostics@.len()
                    ==> resolution_finding(#[trigger] final(self).diagnostics@[j]),
            final(self).symbol_table.parent == old(self).symbol_table.parent,
            final(self).symbol_table.variables@ == old(self).symbol_table.variables@,
            final(self).symbol_table.scopes@.len() == old(self).symbol_table.scopes@.len(),
            old(self).scope_idx < old(self).symbol_table.scopes@.len() ==> final(self).scope_idx
                == old(self).scope_idx + 1,
            old(self).scope_idx < old(self).symbol_table.scopes@.len() ==> exists|ct: SymbolTable|
                #[trigger] child_scope_of(ct, old(self).symbol_table, old(self).scope_idx as int)
                    && expr_diags(ct, *condition).is_prefix_of(
                    final(self).diagnostics@.skip(old(self).diagnostics@.len() as int),
                ),
            old(self).scope_idx >= old(self).symbol_table.scopes@.len() ==> (final(self).scope_idx
                == old(self).scope_idx && final(self).symbol_table == old(self).symbol_table),
        decreases *body, 1int,
    {
        let ghost d0 = self.diagnostics@;
        if self.scope_idx < self.symbol_table.scopes.len() {
            let idx = self.enter_scope();
            let ghost ct = self.symbol_table;
            self.visit_expr(condition);
            proof {
                lemma_expr_diags_kinds(self.symbol_table, *condition);
                lemma_diags_append_kinds(d0, expr_diags(self.symbol_table, *condition));
            }
            let ghost d1 = self.diagnostics@;
            self.visit_block(body);
            proof {
                lemma_kinds_compose(d0, d1, self.diagnostics@);
            }
            self.exit_scope(idx);
            proof {
                assert(child_scope_of(ct, old(self).symbol_table, idx as int));
                let appended = self.diagnostics@.skip(d0.len() as int);
                let ed = expr_diags(ct, *condition);
                assert(ed.is_prefix_of(appended)) by {
                    assert(d1 == d0 + ed);
                    assert(d1.is_prefix_of(self.diagnostics@));
                    assert forall|j: int| 0 <= j < ed.len() implies appended[j] == ed[j] by {
                        assert(self.diagnostics@[d0.len() + j] == d1[d0.len() + j]);
                        assert(d1[d0.len() + j] == ed[j]);
                    }
                    assert(appended.take(ed.len() as int) =~= ed);
                }
            }
        } else {
            self.visit_expr(condition);
            proof {
                lemma_expr_diags_kinds(self.symbol_table, *condition);
                lemma_diags_append_kinds(d0, expr_diags(self.symbol_table, *condition));
            }
            let ghost d1 = self.diagnostics@;
            self.visit_block(body);
            proof {
                lemma_kinds_compose(d0, d1, self.diagnostics@);
            }
        }
    }

    /// Walk one statement. Every finding appended is a resolution
    /// finding; past the last child scope of the current table, the
    /// walk leaves the table and the scope counter untouched.
    pub fn visit_stmt(&mut self, stmt: &Stmt)
        ensures
            old(self).diagnostics@.is_prefix_of(final(self).diagnostics@),
            forall|j: int|
                old(self).diagnostics@.len() <= j < final(self).diagnostics@.len()
                    ==> resolution_finding(#[trigger] final(self).diagnostics@[j]),
            final(self).symbol_table.parent == old(self).symbol_table.parent,
            final(self).symbol_table.variables@ == old(self).symbol_table.variables@,
            final(self).symbol_table.scopes@.len() == old(self).symbol_table.scopes@.len(),
            old(self).scope_idx >= old(self).symbol_table.scopes@.len() ==> (final(self).scope_idx
                == old(self).scope_idx && final(self).symbol_table == old(self).symbol_table),
        decreases *stmt, 0int,
    {
        let ghost d0 = self.diagnostics@;
        match stmt {
            Stmt::Definition(def) => {
                self.visit_expr(&def.value);
                proof {
                    lemma_expr_diags_kinds(self.symbol_table, def.value);
                    lemma_diags_append_kinds(d0, expr_diags(self.symbol_table, def.value));
                }
            },
            Stmt::Assignment(def) => {
                self.visit_assignment(def);
                proof {
                    lemma_assignment_diags_kinds(self.symbol_table, *def);
                    lemma_diags_append_kinds(d0, assignment_diags(self.symbol_table, *def));
                }
            },
            Stmt::If(if_stmt) => {
                self.visit_if(if_stmt);
            },
            Stmt::While(while_stmt) => {
                self.visit_while(while_stmt);
            },
            Stmt::Call(call) => {
                let n = call.arguments.len();
                let mut i: usize = 0;
                while i < n
                    invariant
                        i <= n,
                        n == call.arguments@.len(),
                        d0 == old(self).diagnostics@,
                        d0.is_prefix_of(self.diagnostics@),
                        forall|j: int|
                            d0.len() <= j < self.diagnostics@.len() ==> resolution_finding(
                                #[trigger] self.diagnostics@[j],
                            ),
                        self.symbol_table == old(self).symbol_table,
                        self.symbol_table.variables@ == old(self).symbol_table.variables@,
                        self.scope_idx == old(self).scope_idx,
                    decreases n - i,
                {
                    let ghost dpre = self.diagnostics@;
                    self.visit_expr(&call.arguments[i]);
                    proof {
                        lemma_expr_diags_kinds(self.symbol_table, call.arguments@[i as int]);
                        lemma_diags_append_kinds(
                            dpre,
                            expr_diags(self.symbol_table, call.arguments@[i as int]),
                        );
                        lemma_kinds_compose(d0, dpre, self.diagnostics@);
                    }
                    i = i + 1;
                }
            },
            Stmt::Return(value) => {
                self.visit_expr(value);
                proof {
                    lemma_expr_diags_kinds(self.symbol_table, *value);
                    lemma_diags_append_kinds(d0, expr_diags(self.symbol_table, *value));
                }
            },
        }
    }

    /// Walk a block of statements; as `visit_stmt`, statement by
    /// statement.
    pub fn visit_block(&mut self, body: &Vec<Stmt>)
        ensures
            old(self).diagnostics@.is_prefix_of(final(self).diagnostics@),
            forall|j: int|
                old(self).diagnostics@.len() <= j < final(self).diagnostics@.len()
                    ==> resolution_finding(#[trigger] final(self).diagnostics@[j]),
            final(self).symbol_table.parent == old(self).symbol_table.parent,
            final(self).symbol_table.variables@ == old(self).symbol_table.variables@,
            final(self).symbol_table.scopes@.len() == old(self).symbol_table.scopes@.len(),
            old(self).scope_idx >= old(self).symbol_table.scopes@.len() ==> (final(self).scope_idx
                == old(self).scope_idx && final(self).symbol_table == old(self).symbol_table),
        decreases *body, 0int,
    {
        let ghost d0 = self.diagnostics@;
        let n = body.len();
        let mut i: usize = 0;
        while i < n
            invariant
                i <= n,
                n == body@.len(),
                d0 == old(self).diagnostics@,
                d0.is_prefix_of(self.diagnostics@),
                forall|j: int|
                    d0.len() <= j < self.diagnostics@.len() ==> resolution_finding(
                        #[trigger] self.diagnostics@[j],
                    ),
                self.symbol_table.parent == old(self).symbol_table.parent,
                self.symbol_table.variables@ == old(self).symbol_table.variables@,
                self.symbol_table.scopes@.len() == old(self).symbol_table.scopes@.len(),
                old(self).scope_idx >= old(self).symbol_table.scopes@.len() ==> (self.scope_idx
                    == old(self).scope_idx && self.symbol_table == old(self).symbol_table),
            decreases n - i,
        {
            let ghost dpre = self.diagnostics@;
            self.visit_stmt(&body[i]);
            proof {
                lemma_kinds_compose(d0, dpre, self.diagnostics@);
            }
            i = i + 1;
        }
    }

    /// Run the pass over a whole program, yielding the walked table and
    /// the findings: the given findings stay a prefix, and everything
    /// appended is a resolution finding.
    pub fn run(ast: &Program, symbol_table: SymbolTable, diagnostics: DiagnosticBag) -> (r: (
        SymbolTable,
        DiagnosticBag,
    ))
        ensures
            diagnostics@.is_prefix_of(r.1@),
            forall|j: int|
                diagnostics@.len() <= j < r.1@.len() ==> resolution_finding(#[trigger] r.1@[j]),
    {
        let ghost d0 = diagnostics@;
        let mut resolver = NameResolver::new(symbol_table, diagnostics);
        let n = ast.functions.len();
        let mut i: usize = 0;
        proof {
            assert(d0.is_prefix_of(resolver.diagnostics@)) by {
                assert(resolver.diagnostics@.take(d0.len() as int) =~= d0);
            }
        }
        while i < n
            invariant
                i <= n,
                n == ast.functions@.len(),
                d0.is_prefix_of(resolver.diagnostics@),
                forall|j: int|
                    d0.len() <= j < resolver.diagnostics@.len() ==> resolution_finding(
                        #[trigger] resolver.diagnostics@[j],
                    ),
            decreases n - i,
        {
            let ghost dpre = resolver.diagnostics@;
            resolver.visit_block(&ast.functions[i].body);
            proof {
                lemma_kinds_compose(d0, dpre, resolver.diagnostics@);
            }
            i = i + 1;
        }
        (resolver.symbol_table, resolver.diagnostics)
    }
}

/// The whole front end on one source text: lex and parse it, declare
/// every top-level `let`-bound name, resolve every use, and render the
/// syntax tree. The answer holds the rendering, every finding the
/// parse and the resolution reported — the parse's first, in order —
/// and succeeds exactly when there is no finding.
pub fn check_source(input: String) -> (r: (String, DiagnosticBag, Result<(), CompilerError>))
    ensures
        r.2 is Ok <==> r.1@.len() == 0,
        r.2 is Err ==> r.2 == Err::<(), CompilerError>(CompilerError::DiagnosticError),
{
    let mut lexer = Lexer::new(input);
    let mut parser = Parser::new(&mut lexer);
    let root = parser.parse();
    let mut table = SymbolTable::empty();
    declare_definitions(&root, &mut table);
    let (_table, diags) = NameResolver::run(&root, table, parser.diagnostics);
    let mut display = AstDisplay::new();
    let rendered = display.build(&root).clone();
    if diags.is_empty() {
        (rendered, diags, Ok(()))
    } else {
        (rendered, diags, Err(CompilerError::DiagnosticError))
    }
}

/// Whether a block's top-level statements define `name` with a `let`.
pub open spec fn body_defines(body: Seq<Stmt>, name: Seq<char>) -> bool
    decreases body.len(),
{
    if body.len() == 0 {
        false
    } else {
        (match body[0] {
            Stmt::Definition(def) => def.pattern.name@ == name,
            _ => false,
        }) || body_defines(body.skip(1), name)
    }
}

/// Whether any function's top-level statements define `name`.
pub open spec fn program_defines(functions: Seq<Function>, name: Seq<char>) -> bool
    decreases functions.len(),
{
    if functions.len() == 0 {
        false
    } else {
        body_defines(functions[0].body@, name) || program_defines(functions.skip(1), name)
    }
}

/// One more statement extends the defined names by its own `let`, if
/// it is one.
proof fn lemma_body_defines_snoc(body: Seq<Stmt>, i: int, name: Seq<char>)
    requires
        0 <= i < body.len(),
    ensures
        body_defines(body.take(i + 1), name) == (body_defines(body.take(i), name) || (
        match body[i] {
            Stmt::Definition(def) => def.pattern.name@ == name,
            _ => false,
        })),
    decreases i,
{
    if i == 0 {
        assert(body.take(1)[0] == body[0]);
        assert(body.take(1).skip(1) =~= Seq::<Stmt>::empty());
        assert(body.take(0) =~= Seq::<Stmt>::empty());
    } else {
        lemma_body_defines_snoc(body.skip(1), i - 1, name);
        assert(body.take(i + 1)[0] == body[0]);
        assert(body.take(i)[0] == body[0]);
        assert(body.take(i + 1).skip(1) =~= body.skip(1).take(i));
        assert(body.take(i).skip(1) =~= body.skip(1).take(i - 1));
        assert(body.skip(1)[i - 1] == body[i]);
    }
}

/// One more function extends the defined names by its own body's.
proof fn lemma_program_defines_snoc(functions: Seq<Function>, i: int, name: Seq<char>)
    requires
        0 <= i < functions.len(),
    ensures
        program_defines(functions.take(i + 1), name) == (program_defines(functions.take(i), name)
            || body_defines(functions[i].body@, name)),
    decreases i,
{
    if i == 0 {
        assert(functions.take(1)[0] == functions[0]);
        assert(functions.take(1).skip(1) =~= Seq::<Function>::empty());
        assert(functions.take(0) =~= Seq::<Function>::empty());
    } else {
        lemma_program_defines_snoc(functions.skip(1), i - 1, name);
        assert(functions.take(i + 1)[0] == functions[0]);
        assert(functions.take(i)[0] == functions[0]);
        assert(functions.take(i + 1).skip(1) =~= functions.skip(1).take(i));
        assert(functions.take(i).skip(1) =~= functions.skip(1).take(i - 1));
        assert(functions.skip(1)[i - 1] == functions[i]);
    }
}

/// Declare every name a block's top-level `let` statements bind.
fn declare_body(body: &Vec<Stmt>, table: &mut SymbolTable)
    ensures
        final(table).parent == old(table).parent,
        final(table).scope_idx == old(table).scope_idx,
        final(table).scopes@ == old(table).scopes@,
        forall|n: Seq<char>|
            (#[trigger] assoc_get(final(table).variables@, n)) is Some <==> (assoc_get(
                old(table).variables@,
                n,
            ) is Some || body_defines(body@, n)),
{
    let m = body.len();
    let mut j: usize = 0;
    proof {
        assert(body@.take(0) =~= Seq::<Stmt>::empty());
    }
    while j < m
        invariant
            j <= m,
            m == body@.len(),
            table.parent == old(table).parent,
            table.scope_idx == old(table).scope_idx,
            table.scopes@ == old(table).scopes@,
            forall|n: Seq<char>|
                (#[trigger] assoc_get(table.variables@, n)) is Some <==> (assoc_get(
                    old(table).variables@,
                    n,
                ) is Some || body_defines(body@.take(j as int), n)),
        decreases m - j,
    {
        match &body[j] {
            Stmt::Definition(def) => {
                table.insert_variable(
                    Pattern::new(def.pattern.name.clone(), def.pattern.span),
                    Variable { span: def.pattern.span },
                );
            },
            _ => (),
        }
        proof {
            assert forall|n: Seq<char>|
                (#[trigger] assoc_get(table.variables@, n)) is Some <==> (assoc_get(
                    old(table).variables@,
                    n,
                ) is Some || body_defines(body@.take(j + 1), n)) by {
                lemma_body_defines_snoc(body@, j as int, n);
            }
        }
        j = j + 1;
    }
    proof {
        assert(body@.take(m as int) =~= body@);
    }
}

/// Declare, in `table`, every name that a top-level `let` of any of
/// the program's functions binds: afterwards a name is declared there
/// exactly when it was before or some function's top-level statements
/// define it. Nested blocks are left to their own scopes.
pub fn declare_definitions(program: &Program, table: &mut SymbolTable)
    ensures
        final(table).parent == old(table).parent,
        final(table).scope_idx == old(table).scope_idx,
        final(table).scopes@ == old(table).scopes@,
        forall|n: Seq<char>|
            (#[trigger] assoc_get(final(table).variables@, n)) is Some <==> (assoc_get(
                old(table).variables@,
                n,
            ) is Some || program_defines(program.functions@, n)),
{
    let k = program.functions.len();
    let mut i: usize = 0;
    proof {
        assert(program.functions@.take(0) =~= Seq::<Function>::empty());
    }
    while i < k
        invariant
            i <= k,
            k == program.functions@.len(),
            table.parent == old(table).parent,
            table.scope_idx == old(table).scope_idx,
            table.scopes@ == old(table).scopes@,
            forall|n: Seq<char>|
                (#[trigger] assoc_get(table.variables@, n)) is Some <==> (assoc_get(
                    old(table).variables@,
                    n,
                ) is Some || program_defines(program.functions@.take(i as int), n)),
        decreases k - i,
    {
        declare_body(&program.functions[i].body, table);
        proof {
            assert forall|n: Seq<char>|
                (#[trigger] assoc_get(table.variables@, n)) is Some <==> (assoc_get(
                    old(table).variables@,
                    n,
                ) is Some || program_defines(program.functions@.take(i + 1), n)) by {
                lemma_program_defines_snoc(program.functions@, i as int, n);
            }
        }
        i = i + 1;
    }
    proof {
        assert(program.functions@.take(k as int) =~= program.functions@);
    }
}

} // verus!
