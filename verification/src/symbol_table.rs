//! The symbol table: names declared per scope, with child scopes in
//! declaration order.

use vstd::prelude::*;

use crate::assoc::assoc_find;
use crate::assoc::assoc_get;
use crate::assoc::lemma_assoc_get_push;
use crate::assoc::lemma_assoc_get_update;
use crate::ast::Pattern;
use crate::span::Span;

verus! {

/// What the table records about one declared name.
#[derive(Clone, Copy, Debug)]
pub struct Variable {
    pub span: Span,
}

impl Default for Variable {
    /// A variable with the empty span.
    fn default() -> (r: Variable)
        ensures
            r.span.start == 0 && r.span.end == 0,
    {
        Variable { span: Span::zero() }
    }
}

/// One scope's table: its names, its enclosing scope, and its child
/// scopes in declaration order. `scope_idx` counts the child scopes
/// handed out so far.
#[derive(Debug)]
pub struct SymbolTable {
    pub parent: Option<Box<SymbolTable>>,
    pub variables: Vec<(String, Variable)>,
    pub scope_idx: usize,
    pub scopes: Vec<SymbolTable>,
}

impl SymbolTable {
    /// The variable a name resolves to: the nearest enclosing scope
    /// that declares it wins.
    pub open spec fn spec_lookup(self, name: Seq<char>) -> Option<Variable>
        decreases self,
    {
        match assoc_get(self.variables@, name) {
            Some(v) => Some(v),
            None => match self.parent {
                Some(p) => p.spec_lookup(name),
                None => None,
            },
        }
    }

    /// A table with no names, no parent and no child scopes.
    pub fn empty() -> (r: SymbolTable)
        ensures
            r.parent is None,
            r.variables@.len() == 0,
            r.scope_idx == 0,
            r.scopes@.len() == 0,
    {
        SymbolTable { parent: None, variables: Vec::new(), scope_idx: 0, scopes: Vec::new() }
    }

    /// Whether this scope or an enclosing one declares the name — the
    /// name would be shadowed by declaring it here again.
    pub fn is_shadowing(&self, ident: &Pattern) -> (r: bool)
        ensures
            r == (self.spec_lookup(ident.name@) is Some),
        decreases *self,
    {
        if let Some(_i) = assoc_find(&self.variables, ident.name.as_str()) {
            true
        } else {
            match &self.parent {
                Some(p) => p.is_shadowing(ident),
                None => false,
            }
        }
    }

    /// Whether the name resolves here or in an enclosing scope.
    pub fn resolves(&self, name: &str) -> (r: bool)
        ensures
            r == (self.spec_lookup(name@) is Some),
        decreases *self,
    {
        if let Some(_i) = assoc_find(&self.variables, name) {
            true
        } else {
            match &self.parent {
                Some(p) => p.resolves(name),
                None => false,
            }
        }
    }

    /// The variable the name resolves to, walking outwards through the
    /// enclosing scopes.
    pub fn lookup_variable(&self, ident: &Pattern) -> (r: Option<&Variable>)
        ensures
            r matches Some(v) ==> self.spec_lookup(ident.name@) == Some(*v),
            r is None ==> self.spec_lookup(ident.name@) is None,
        decreases *self,
    {
        match assoc_find(&self.variables, ident.name.as_str()) {
            Some(i) => Some(&self.variables[i].1),
            None => match &self.parent {
                Some(p) => p.lookup_variable(ident),
                None => None,
            },
        }
    }

    /// The child scope at `idx`, if one exists.
    pub fn lookup_scope(&self, idx: usize) -> (r: Option<&SymbolTable>)
        ensures
            idx < self.scopes@.len() ==> (r matches Some(t) && *t == self.scopes@[idx as int]),
            idx >= self.scopes@.len() ==> r is None,
    {
        if idx < self.scopes.len() {
            Some(&self.scopes[idx])
        } else {
            None
        }
    }

    /// Add an empty child scope, handing out its index.
    pub fn insert_scope(&mut self) -> (r: usize)
        requires
            old(self).scope_idx < usize::MAX,
        ensures
            r == old(self).scope_idx,
            final(self).scope_idx == old(self).scope_idx + 1,
            final(self).parent == old(self).parent,
            final(self).variables@ == old(self).variables@,
            final(self).scopes@.len() == old(self).scopes@.len() + 1,
            final(self).scopes@.take(old(self).scopes@.len() as int) == old(self).scopes@,
            final(self).scopes@.last().parent is None,
            final(self).scopes@.last().variables@.len() == 0,
            final(self).scopes@.last().scopes@.len() == 0,
    {
        self.scopes.push(SymbolTable::empty());
        let idx = self.scope_idx;
        self.scope_idx = self.scope_idx + 1;
        proof {
            assert(self.scopes@.take(old(self).scopes@.len() as int) =~= old(self).scopes@);
        }
        idx
    }

    /// Declare, or redeclare, a name in this scope.
    pub fn insert_variable(&mut self, ident: Pattern, variable: Variable)
        ensures
            final(self).parent == old(self).parent,
            final(self).scope_idx == old(self).scope_idx,
            final(self).scopes@ == old(self).scopes@,
            assoc_get(final(self).variables@, ident.name@) == Some(variable),
            forall|n: Seq<char>|
                n != ident.name@ ==> #[trigger] assoc_get(final(self).variables@, n) == assoc_get(
                    old(self).variables@,
                    n,
                ),
    {
        let ghost pre = *self;
        match assoc_find(&self.variables, ident.name.as_str()) {
            Some(i) => {
                self.variables[i] = (ident.name, variable);
                proof {
                    assert(self.variables@ =~= pre.variables@.update(
                        i as int,
                        self.variables@[i as int],
                    ));
                    lemma_assoc_get_update(
                        pre.variables@,
                        ident.name@,
                        i as int,
                        self.variables@[i as int],
                    );
                }
            },
            None => {
                self.variables.push((ident.name, variable));
                proof {
                    assert(self.variables@ =~= pre.variables@.push(self.variables@.last()));
                    lemma_assoc_get_push(pre.variables@, ident.name@, self.variables@.last());
                    assert forall|n: Seq<char>|
                        n != ident.name@ implies #[trigger] assoc_get(self.variables@, n)
                        == assoc_get(pre.variables@, n) by {
                        lemma_assoc_get_push(pre.variables@, n, self.variables@.last());
                    }
                }
            },
        }
    }
}

} // verus!
