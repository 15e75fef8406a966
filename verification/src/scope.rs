//! A lexical scope: a name table with an optional enclosing scope.

use vstd::prelude::*;

use crate::assoc::assoc_find;
use crate::assoc::assoc_get;
use crate::assoc::lemma_assoc_get_push;
use crate::nameresolver::DefinitionId;

verus! {

/// One scope of the resolver: names defined here, and the scope this
/// one sits inside, if any.
#[derive(Debug)]
pub struct Scope {
    pub parent: Option<Box<Scope>>,
    pub variables: Vec<(String, DefinitionId)>,
}

impl Scope {
    /// The definition a name resolves to: the nearest scope that
    /// defines it wins.
    pub open spec fn spec_lookup(self, name: Seq<char>) -> Option<DefinitionId>
        decreases self,
    {
        match assoc_get(self.variables@, name) {
            Some(id) => Some(id),
            None => match self.parent {
                Some(p) => p.spec_lookup(name),
                None => None,
            },
        }
    }

    /// A scope with no names, inside `parent`.
    pub fn new(parent: Option<Box<Scope>>) -> (r: Scope)
        ensures
            r.parent == parent,
            r.variables@.len() == 0,
    {
        Scope { parent, variables: Vec::new() }
    }

    /// The definition `name` resolves to, walking outwards through the
    /// enclosing scopes.
    pub fn lookup_symbol(&self, name: &str) -> (r: Option<DefinitionId>)
        ensures
            r == self.spec_lookup(name@),
        decreases *self,
    {
        match assoc_find(&self.variables, name) {
            Some(i) => Some(self.variables[i].1),
            None => match &self.parent {
                Some(p) => p.lookup_symbol(name),
                None => None,
            },
        }
    }

    /// Define `name` here: `true`, and the local table gains the name,
    /// unless this scope already defines it, in which case nothing
    /// changes and the answer is `false`.
    pub fn define_symbol(&mut self, name: &str, id: DefinitionId) -> (r: bool)
        ensures
            r == (assoc_get(old(self).variables@, name@) is None),
            !r ==> *final(self) == *old(self),
            r ==> final(self).parent == old(self).parent && final(self).spec_lookup(name@)
                == Some(id) && (forall|n: Seq<char>|
                n != name@ ==> #[trigger] final(self).spec_lookup(n) == old(self).spec_lookup(n)),
    {
        match assoc_find(&self.variables, name) {
            Some(_) => false,
            None => {
                let ghost pre = *self;
                self.variables.push((name.to_owned(), id));
                proof {
                    lemma_assoc_get_push(pre.variables@, name@, self.variables@.last());
                    assert(self.variables@.last().0@ == name@);
                    assert(self.variables@ =~= pre.variables@.push(self.variables@.last()));
                    assert forall|n: Seq<char>|
                        n != name@ implies #[trigger] self.spec_lookup(n) == pre.spec_lookup(n) by {
                        lemma_assoc_get_push(pre.variables@, n, self.variables@.last());
                    }
                }
                true
            },
        }
    }
}

} // verus!
