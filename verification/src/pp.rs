//! The assembler preprocessor: a line-oriented pass over text.
//!
//! Tokens are separated by single ASCII spaces. For each line:
//! a line whose first token begins with `;` is returned unchanged;
//! one whose first token begins with `.` names a macro, which is given
//! the remaining tokens and whose output tokens are joined by single
//! spaces; in any other line every token beginning with `!` is replaced
//! by the value of the variable the rest of it names. Unknown macros
//! and unknown variables are errors.

use vstd::prelude::*;

use crate::assoc::assoc_find;
use crate::assoc::assoc_get;
use crate::assoc::lemma_assoc_get_none;
use crate::assoc::lemma_assoc_get_push;
use crate::assoc::lemma_assoc_get_update;
use crate::text::str_eq;

verus! {

/// A preprocessing failure.
#[derive(Debug)]
pub enum Error {
    /// A `!` token named a variable that is not defined.
    UnknownToken(String),
    /// A `.` token named a macro that is not registered.
    UnknownMacro(String),
    /// A macro was found but its expansion failed.
    MacroEval(String, Box<Error>),
    /// A macro was handed the wrong shape of input.
    BadMacroFormat,
    /// Any other failure a macro wants to surface.
    Unexpected(String),
}

/// The index of the first space in `s`, or `s.len()` if it has none.
pub open spec fn first_space(s: Seq<char>) -> int
    decreases s.len(),
{
    if s.len() == 0 {
        0
    } else if s[0] == ' ' {
        0
    } else {
        1 + first_space(s.skip(1))
    }
}

/// The tokens of a line: the pieces between single spaces, kept even
/// when empty, so that joining them with single spaces is the identity.
pub open spec fn split_sp(s: Seq<char>) -> Seq<Seq<char>>
    decreases s.len(),
{
    let i = first_space(s);
    if 0 <= i < s.len() {
        seq![s.take(i)] + split_sp(s.skip(i + 1))
    } else {
        seq![s]
    }
}

/// Tokens joined by single spaces.
pub open spec fn join_sp(parts: Seq<Seq<char>>) -> Seq<char>
    decreases parts.len(),
{
    if parts.len() == 0 {
        Seq::empty()
    } else if parts.len() == 1 {
        parts[0]
    } else {
        parts[0] + seq![' '] + join_sp(parts.skip(1))
    }
}

/// A space at `k`, with none before it, is the first space.
proof fn lemma_first_space_at(s: Seq<char>, k: int)
    requires
        0 <= k < s.len(),
        s[k] == ' ',
        forall|j: int| 0 <= j < k ==> s[j] != ' ',
    ensures
        first_space(s) == k,
    decreases k,
{
    if k > 0 {
        assert forall|j: int| 0 <= j < k - 1 implies s.skip(1)[j] != ' ' by {
            assert(s[j + 1] != ' ');
        }
        assert(s.skip(1)[k - 1] == ' ');
        lemma_first_space_at(s.skip(1), k - 1);
    }
}

/// A line without spaces is its own single token.
proof fn lemma_first_space_none(s: Seq<char>)
    requires
        forall|j: int| 0 <= j < s.len() ==> s[j] != ' ',
    ensures
        first_space(s) == s.len(),
        split_sp(s) == seq![s],
    decreases s.len(),
{
    if s.len() > 0 {
        assert forall|j: int| 0 <= j < s.len() - 1 implies s.skip(1)[j] != ' ' by {
            assert(s[j + 1] != ' ');
        }
        lemma_first_space_none(s.skip(1));
    }
}

/// Appending one more token to a join appends a space and the token.
proof fn lemma_join_snoc(p: Seq<Seq<char>>, i: int)
    requires
        1 <= i < p.len(),
    ensures
        join_sp(p.take(i + 1)) =~= join_sp(p.take(i)) + seq![' '] + p[i],
    decreases i,
{
    reveal_with_fuel(join_sp, 4);
    if i == 1 {
        assert(p.take(2).skip(1) =~= seq![p[1]]);
        assert(p.take(2).len() == 2);
        assert(p.take(2)[0] == p[0]);
        assert(join_sp(p.take(2)) =~= p[0] + seq![' '] + p[1]);
        assert(join_sp(p.take(1)) == p.take(1)[0]);
    } else {
        lemma_join_snoc(p.skip(1), i - 1);
        assert(p.skip(1).take(i) =~= p.take(i + 1).skip(1));
        assert(p.skip(1).take(i - 1) =~= p.take(i).skip(1));
        assert(p.skip(1)[i - 1] == p[i]);
        assert(join_sp(p.take(i + 1)) =~= p[0] + seq![' '] + join_sp(p.take(i + 1).skip(1)));
        assert(join_sp(p.take(i)) =~= p[0] + seq![' '] + join_sp(p.take(i).skip(1)));
    }
}

/// Split a line at its single spaces.
fn split_spaces(input: &str) -> (r: Vec<String>)
    ensures
        r.deep_view() == split_sp(input@),
        r@.len() >= 1,
{
    let n = input.unicode_len();
    let mut parts: Vec<String> = Vec::new();
    let mut start: usize = 0;
    let mut i: usize = 0;
    proof {
        assert(input@.skip(0) =~= input@);
        assert(parts.deep_view() =~= Seq::<Seq<char>>::empty());
        assert(Seq::<Seq<char>>::empty() + split_sp(input@) =~= split_sp(input@));
    }
    while i < n
        invariant
            0 <= start <= i <= n,
            n == input@.len(),
            forall|j: int| start <= j < i ==> input@[j] != ' ',
            split_sp(input@) =~= parts.deep_view() + split_sp(input@.skip(start as int)),
        decreases n - i,
    {
        if input.get_char(i) == ' ' {
            let tok = input.substring_char(start, i).to_owned();
            proof {
                let rest = input@.skip(start as int);
                assert forall|j: int| 0 <= j < i - start implies rest[j] != ' ' by {
                    assert(input@[start + j] != ' ');
                }
                assert(rest[i - start] == ' ');
                lemma_first_space_at(rest, i - start);
                assert(rest.take(i - start) =~= input@.subrange(start as int, i as int));
                assert(rest.skip(i - start + 1) =~= input@.skip(i + 1 as int));
                assert(split_sp(rest) =~= seq![rest.take(i - start)] + split_sp(
                    rest.skip(i - start + 1),
                ));
            }
            parts.push(tok);
            proof {
                assert(parts.deep_view() =~= parts.deep_view().take(parts@.len() - 1) + seq![
                    input@.subrange(start as int, i as int),
                ]);
            }
            start = i + 1;
        }
        i = i + 1;
    }
    let tok = input.substring_char(start, n).to_owned();
    proof {
        let rest = input@.skip(start as int);
        assert forall|j: int| 0 <= j < rest.len() implies rest[j] != ' ' by {
            assert(input@[start + j] != ' ');
        }
        lemma_first_space_none(rest);
        assert(rest =~= input@.subrange(start as int, n as int));
    }
    parts.push(tok);
    proof {
        assert(parts.deep_view() =~= parts.deep_view().take(parts@.len() - 1) + seq![
            input@.subrange(start as int, n as int),
        ]);
    }
    parts
}

/// Join tokens with single spaces.
fn join_spaces(parts: &Vec<String>) -> (r: String)
    requires
        parts@.len() >= 1,
    ensures
        r@ == join_sp(parts.deep_view()),
{
    let mut out: String = parts[0].clone();
    let mut i: usize = 1;
    proof {
        assert(parts.deep_view().take(1) =~= seq![parts.deep_view()[0]]);
    }
    while i < parts.len()
        invariant
            1 <= i <= parts@.len(),
            out@ == join_sp(parts.deep_view().take(i as int)),
        decreases parts@.len() - i,
    {
        out.append(" ");
        out.append(parts[i].as_str());
        proof {
            lemma_join_snoc(parts.deep_view(), i as int);
            reveal_strlit(" ");
            assert(" "@ =~= seq![' ']);
        }
        i = i + 1;
    }
    proof {
        assert(parts.deep_view().take(parts@.len() as int) =~= parts.deep_view());
    }
    out
}

/// The tokens after the first: what a macro invocation hands to the
/// macro.
fn tail_tokens(parts: &Vec<String>) -> (r: Vec<String>)
    requires
        parts@.len() >= 1,
    ensures
        r.deep_view() == parts.deep_view().skip(1),
{
    let mut args: Vec<String> = Vec::new();
    let mut i: usize = 1;
    proof {
        assert(args.deep_view() =~= parts.deep_view().subrange(1, 1));
    }
    while i < parts.len()
        invariant
            1 <= i <= parts@.len(),
            args.deep_view() =~= parts.deep_view().subrange(1, i as int),
        decreases parts@.len() - i,
    {
        let ghost prev = args.deep_view();
        let dup = parts[i].clone();
        proof {
            assert(dup@ == parts.deep_view()[i as int]);
        }
        args.push(dup);
        proof {
            assert forall|j: int| 0 <= j < args.deep_view().len() implies #[trigger] args.deep_view()[j]
                == parts.deep_view().subrange(1, i + 1)[j] by {
                if j < prev.len() {
                    assert(args.deep_view()[j] == prev[j]);
                } else {
                    assert(args.deep_view()[j] == dup@);
                }
            }
            assert(args.deep_view().len() == i);
            assert(parts.deep_view().subrange(1, i + 1).len() == i);
            assert(args.deep_view() =~= parts.deep_view().subrange(1, i + 1));
        }
        i = i + 1;
    }
    proof {
        assert(parts.deep_view().subrange(1, parts@.len() as int) =~= parts.deep_view().skip(1));
    }
    args
}

/// A macro registered with the preprocessor: a small copyable value
/// that receives the preprocessor's variable table — so it may define
/// variables — and the invocation's remaining tokens, and yields the
/// tokens it expands to.
pub trait MacroExpander: Sized + Copy {
    /// Whether this macro succeeds on this input, given this variable
    /// table.
    spec fn spec_ok(&self, vars: Variables, input: Seq<Seq<char>>) -> bool;

    /// The tokens this macro expands to when it succeeds.
    spec fn spec_output(&self, vars: Variables, input: Seq<Seq<char>>) -> Seq<Seq<char>>;

    /// Expand one invocation: succeed exactly on `spec_ok` inputs,
    /// yield exactly the `spec_output` tokens, and keep the variable
    /// table well formed.
    fn expand(&self, vars: &mut Variables, input: Vec<String>) -> (r: Result<Vec<String>, Error>)
        requires
            old(vars).wf(),
        ensures
            final(vars).wf(),
            r is Ok <==> self.spec_ok(*old(vars), input.deep_view()),
            r matches Ok(out) ==> out.deep_view() == self.spec_output(
                *old(vars),
                input.deep_view(),
            ),
    ;
}

/// A macro that records a variable: given exactly `name value` it
/// defines the variable and expands to nothing; any other shape is
/// `BadMacroFormat`.
#[derive(Clone, Copy, Debug)]
pub struct DefineMacro;

impl MacroExpander for DefineMacro {
    /// Exactly a name and a value succeed.
    open spec fn spec_ok(&self, vars: Variables, input: Seq<Seq<char>>) -> bool {
        input.len() == 2
    }

    /// The expansion is empty: the macro only records the variable.
    open spec fn spec_output(&self, vars: Variables, input: Seq<Seq<char>>) -> Seq<Seq<char>> {
        Seq::empty()
    }

    fn expand(&self, vars: &mut Variables, input: Vec<String>) -> (r: Result<Vec<String>, Error>) {
        if input.len() != 2 {
            Err(Error::BadMacroFormat)
        } else {
            vars.define_variable(input[0].as_str(), input[1].as_str());
            let out: Vec<String> = Vec::new();
            proof {
                assert(out.deep_view() =~= Seq::<Seq<char>>::empty());
            }
            Ok(out)
        }
    }
}

/// The preprocessor's variable table, keyed by name.
pub struct Variables {
    pub entries: Vec<(String, String)>,
}

/// The preprocessor: a table of text variables and a table of macros,
/// both keyed by name.
pub struct PreProcessor<M: MacroExpander> {
    pub variables: Variables,
    pub macros: Vec<(String, M)>,
}

impl Variables {
    /// Each name appears at most once.
    pub open spec fn wf(&self) -> bool {
        forall|i: int, j: int|
            0 <= i < j < self.entries@.len() ==> (#[trigger] self.entries@[i]).0@ != (
            #[trigger] self.entries@[j]).0@
    }

    /// A variable of this name is defined.
    pub open spec fn has_var(&self, name: Seq<char>) -> bool {
        exists|i: int| 0 <= i < self.entries@.len() && (#[trigger] self.entries@[i]).0@ == name
    }

    /// The value of the defined variable of this name.
    pub open spec fn var_value(&self, name: Seq<char>) -> Seq<char> {
        let i = choose|i: int|
            0 <= i < self.entries@.len() && (#[trigger] self.entries@[i]).0@ == name;
        self.entries@[i].1@
    }

    /// What one token resolves to: a `!` token becomes its variable's
    /// value, or nothing if the variable is unknown; any other token is
    /// itself.
    pub open spec fn subst_token(&self, t: Seq<char>) -> Option<Seq<char>> {
        if t.len() > 0 && t[0] == '!' {
            if self.has_var(t.skip(1)) {
                Some(self.var_value(t.skip(1)))
            } else {
                None
            }
        } else {
            Some(t)
        }
    }

    /// Every token of the line resolves.
    pub open spec fn tokens_ok(&self, parts: Seq<Seq<char>>) -> bool {
        forall|j: int| 0 <= j < parts.len() ==> (#[trigger] self.subst_token(parts[j])) is Some
    }

    /// The line's tokens, each resolved.
    pub open spec fn subst_parts(&self, parts: Seq<Seq<char>>) -> Seq<Seq<char>> {
        Seq::new(
            parts.len(),
            |j: int|
                match self.subst_token(parts[j]) {
                    Some(t) => t,
                    None => parts[j],
                },
        )
    }

    /// Only one table entry carries a defined name.
    proof fn lemma_var_unique(&self, i: int)
        requires
            self.wf(),
            0 <= i < self.entries@.len(),
        ensures
            self.has_var(self.entries@[i].0@),
            self.var_value(self.entries@[i].0@) == self.entries@[i].1@,
    {
        let name = self.entries@[i].0@;
        let j = choose|j: int|
            0 <= j < self.entries@.len() && (#[trigger] self.entries@[j]).0@ == name;
    }

    /// The value of the variable of this name, if one is defined.
    pub fn get_variable(&self, name: &str) -> (r: Option<String>)
        requires
            self.wf(),
        ensures
            r is Some <==> self.has_var(name@),
            r matches Some(v) ==> v@ == self.var_value(name@),
    {
        let n = self.entries.len();
        let mut i: usize = 0;
        while i < n
            invariant
                self.wf(),
                i <= n,
                n == self.entries@.len(),
                forall|j: int| 0 <= j < i ==> (#[trigger] self.entries@[j]).0@ != name@,
            decreases n - i,
        {
            if str_eq(self.entries[i].0.as_str(), name) {
                proof {
                    self.lemma_var_unique(i as int);
                }
                return Some(self.entries[i].1.clone());
            }
            i = i + 1;
        }
        None
    }

    /// Define, or redefine, the variable of this name.
    pub fn define_variable(&mut self, name: &str, value: &str)
        requires
            old(self).wf(),
        ensures
            final(self).wf(),
            forall|n: Seq<char>|
                #[trigger] final(self).has_var(n) == (old(self).has_var(n) || n == name@),
            final(self).var_value(name@) == value@,
            forall|n: Seq<char>|
                n != name@ && old(self).has_var(n) ==> #[trigger] final(self).var_value(n) == old(
                self).var_value(n),
    {
        let ghost pre = *self;
        let n = self.entries.len();
        let mut i: usize = 0;
        while i < n
            invariant
                self.wf(),
                i <= n,
                n == self.entries@.len(),
                *self == pre,
                pre == *old(self),
                forall|j: int| 0 <= j < i ==> (#[trigger] self.entries@[j]).0@ != name@,
            decreases n - i,
        {
            if str_eq(self.entries[i].0.as_str(), name) {
                self.entries[i] = (name.to_owned(), value.to_owned());
                proof {
                    assert(self.entries@ =~= pre.entries@.update(
                        i as int,
                        self.entries@[i as int],
                    ));
                    assert(self.entries@[i as int].0@ == name@);
                    assert forall|k: int, l: int|
                        0 <= k < l < self.entries@.len() implies (
                    #[trigger] self.entries@[k]).0@ != (#[trigger] self.entries@[l]).0@ by {
                        assert(pre.entries@[k].0@ != pre.entries@[l].0@);
                    }
                    assert forall|nm: Seq<char>|
                        #[trigger] self.has_var(nm) == (pre.has_var(nm) || nm == name@) by {
                        if self.has_var(nm) {
                            let k = choose|k: int|
                                0 <= k < self.entries@.len() && (
                                #[trigger] self.entries@[k]).0@ == nm;
                            if k != i as int {
                                assert(pre.entries@[k].0@ == nm);
                            } else {
                                assert(nm == name@);
                            }
                        }
                        if pre.has_var(nm) {
                            let k = choose|k: int|
                                0 <= k < pre.entries@.len() && (#[trigger] pre.entries@[k]).0@
                                    == nm;
                            if k != i as int {
                                assert(self.entries@[k].0@ == nm);
                            } else {
                                assert(self.entries@[k].0@ == name@ && nm == name@);
                            }
                        }
                        if nm == name@ {
                            assert(self.entries@[i as int].0@ == nm);
                        }
                    }
                    self.lemma_var_unique(i as int);
                    assert forall|nm: Seq<char>|
                        nm != name@ && pre.has_var(nm) implies #[trigger] self.var_value(nm)
                        == pre.var_value(nm) by {
                        let k = choose|k: int|
                            0 <= k < pre.entries@.len() && (#[trigger] pre.entries@[k]).0@
                                == nm;
                        assert(k != i as int);
                        assert(self.entries@[k].0@ == nm);
                        self.lemma_var_unique(k);
                        pre.lemma_var_unique(k);
                    }
                }
                return ;
            }
            i = i + 1;
        }
        self.entries.push((name.to_owned(), value.to_owned()));
        proof {
            let m = self.entries@.len() - 1;
            assert(self.entries@[m].0@ == name@);
            assert forall|k: int, l: int|
                0 <= k < l < self.entries@.len() implies (#[trigger] self.entries@[k]).0@ != (
            #[trigger] self.entries@[l]).0@ by {
                if l < m {
                    assert(pre.entries@[k].0@ != pre.entries@[l].0@);
                } else {
                    assert(pre.entries@[k].0@ != name@);
                }
            }
            assert forall|nm: Seq<char>|
                #[trigger] self.has_var(nm) == (pre.has_var(nm) || nm == name@) by {
                if self.has_var(nm) {
                    let k = choose|k: int|
                        0 <= k < self.entries@.len() && (#[trigger] self.entries@[k]).0@ == nm;
                    if k < m {
                        assert(pre.entries@[k].0@ == nm);
                    }
                }
                if pre.has_var(nm) {
                    let k = choose|k: int|
                        0 <= k < pre.entries@.len() && (#[trigger] pre.entries@[k]).0@ == nm;
                    assert(self.entries@[k].0@ == nm);
                }
                if nm == name@ {
                    assert(self.entries@[m].0@ == nm);
                }
            }
            self.lemma_var_unique(m);
            assert forall|nm: Seq<char>|
                nm != name@ && pre.has_var(nm) implies #[trigger] self.var_value(nm)
                == pre.var_value(nm) by {
                let k = choose|k: int|
                    0 <= k < pre.entries@.len() && (#[trigger] pre.entries@[k]).0@ == nm;
                assert(self.entries@[k].0@ == nm);
                self.lemma_var_unique(k);
                pre.lemma_var_unique(k);
            }
        }
    }

    /// An empty table.
    pub fn new() -> (r: Variables)
        ensures
            r.wf(),
            r.entries@.len() == 0,
    {
        Variables { entries: Vec::new() }
    }
}

impl<M: MacroExpander> PreProcessor<M> {
    /// The variable table is well formed and each macro name appears
    /// at most once.
    pub open spec fn wf(&self) -> bool {
        &&& self.variables.wf()
        &&& forall|i: int, j: int|
            0 <= i < j < self.macros@.len() ==> (#[trigger] self.macros@[i]).0@ != (
            #[trigger] self.macros@[j]).0@
    }

    /// A variable of this name is defined.
    pub open spec fn has_var(&self, name: Seq<char>) -> bool {
        self.variables.has_var(name)
    }

    /// The value of the defined variable of this name.
    pub open spec fn var_value(&self, name: Seq<char>) -> Seq<char> {
        self.variables.var_value(name)
    }

    /// A macro of this name is registered.
    pub open spec fn has_macro(&self, name: Seq<char>) -> bool {
        self.macro_for(name) is Some
    }

    /// The registered macro of this name, if any: the first table
    /// entry carrying it.
    pub open spec fn macro_for(&self, name: Seq<char>) -> Option<M> {
        assoc_get(self.macros@, name)
    }

    /// What one token resolves to, given the variable table.
    pub open spec fn subst_token(&self, t: Seq<char>) -> Option<Seq<char>> {
        self.variables.subst_token(t)
    }

    /// Every token of the line resolves.
    pub open spec fn tokens_ok(&self, parts: Seq<Seq<char>>) -> bool {
        self.variables.tokens_ok(parts)
    }

    /// The line's tokens, each resolved.
    pub open spec fn subst_parts(&self, parts: Seq<Seq<char>>) -> Seq<Seq<char>> {
        self.variables.subst_parts(parts)
    }

    /// An empty preprocessor: no variables, no macros.
    pub fn new() -> (r: PreProcessor<M>)
        ensures
            r.wf(),
            r.variables.entries@.len() == 0,
            r.macros@.len() == 0,
    {
        PreProcessor { variables: Variables::new(), macros: Vec::new() }
    }

    /// Define, or redefine, the variable of this name.
    pub fn define_variable(&mut self, name: &str, value: &str)
        requires
            old(self).wf(),
        ensures
            final(self).wf(),
            final(self).macros@ == old(self).macros@,
            forall|n: Seq<char>|
                #[trigger] final(self).has_var(n) == (old(self).has_var(n) || n == name@),
            final(self).var_value(name@) == value@,
            forall|n: Seq<char>|
                n != name@ && old(self).has_var(n) ==> #[trigger] final(self).var_value(n) == old(
                self).var_value(n),
    {
        self.variables.define_variable(name, value);
    }

    /// The registered macro of this name, if any.
    fn get_macro(&self, name: &str) -> (r: Option<M>)
        ensures
            r == self.macro_for(name@),
    {
        match assoc_find(&self.macros, name) {
            Some(i) => Some(self.macros[i].1),
            None => None,
        }
    }

    /// Register, or replace, the macro of this name: afterwards the
    /// table carries exactly the given macro under the name, every
    /// other name keeps its macro, and the variables are untouched.
    pub fn define_macro(&mut self, name: &str, value: M)
        requires
            old(self).wf(),
        ensures
            final(self).wf(),
            final(self).variables == old(self).variables,
            final(self).macro_for(name@) == Some(value),
            forall|n: Seq<char>|
                n != name@ ==> #[trigger] final(self).macro_for(n) == old(self).macro_for(n),
            forall|n: Seq<char>|
                #[trigger] final(self).has_macro(n) == (old(self).has_macro(n) || n == name@),
    {
        let ghost pre = *self;
        match assoc_find(&self.macros, name) {
            Some(i) => {
                self.macros[i] = (name.to_owned(), value);
                proof {
                    assert(self.macros@ =~= pre.macros@.update(i as int, self.macros@[i as int]));
                    lemma_assoc_get_update(
                        pre.macros@,
                        name@,
                        i as int,
                        self.macros@[i as int],
                    );
                    assert forall|k: int, l: int|
                        0 <= k < l < self.macros@.len() implies (#[trigger] self.macros@[k]).0@
                        != (#[trigger] self.macros@[l]).0@ by {
                        assert(pre.macros@[k].0@ != pre.macros@[l].0@);
                        assert(pre.macros@[i as int].0@ == name@);
                    }
                }
            },
            None => {
                self.macros.push((name.to_owned(), value));
                proof {
                    assert(self.macros@ =~= pre.macros@.push(self.macros@.last()));
                    lemma_assoc_get_push(pre.macros@, name@, self.macros@.last());
                    assert forall|n: Seq<char>|
                        n != name@ implies #[trigger] assoc_get(self.macros@, n) == assoc_get(
                        pre.macros@,
                        n,
                    ) by {
                        lemma_assoc_get_push(pre.macros@, n, self.macros@.last());
                    }
                    lemma_assoc_get_none(pre.macros@, name@);
                    let m = self.macros@.len() - 1;
                    assert forall|k: int, l: int|
                        0 <= k < l < self.macros@.len() implies (#[trigger] self.macros@[k]).0@
                        != (#[trigger] self.macros@[l]).0@ by {
                        if l < m {
                            assert(pre.macros@[k].0@ != pre.macros@[l].0@);
                        } else {
                            assert(pre.macros@[k].0@ != name@);
                        }
                    }
                }
            },
        }
    }

    /// Resolve one line.
    ///
    /// A line whose first token begins with `;` comes back unchanged,
    /// byte for byte. One whose first token begins with `.` is handed
    /// to the macro of that name — it receives exactly the remaining
    /// tokens and the variable table; unknown macros are
    /// `UnknownMacro`, a failing macro's error comes back wrapped in
    /// `MacroEval`, and a successful macro's output tokens — its
    /// `spec_output` — are joined by single spaces. Any other line has
    /// each `!` token replaced by its variable's value: that succeeds
    /// if and only if every such variable is defined, else the line is
    /// `UnknownToken`. The macro table survives every line.
    pub fn resolve(&mut self, input: &str) -> (r: Result<String, Error>)
        requires
            old(self).wf(),
        ensures
            final(self).wf(),
            final(self).macros@ == old(self).macros@,
            ({
                let parts = split_sp(input@);
                let head = parts[0];
                &&& (head.len() > 0 && head[0] == ';') ==> ((r matches Ok(s) && s@ == input@)
                    && *final(self) == *old(self))
                &&& (head.len() > 0 && head[0] == '.') ==> (!old(self).has_macro(head.skip(1))
                    ==> ((r matches Err(e) && e is UnknownMacro) && *final(self) == *old(self)))
                &&& (head.len() > 0 && head[0] == '.') ==> (old(self).macro_for(head.skip(1))
                    matches Some(m) ==> {
                    &&& r is Ok <==> m.spec_ok(old(self).variables, parts.skip(1))
                    &&& r matches Ok(s) ==> s@ == join_sp(
                        m.spec_output(old(self).variables, parts.skip(1)),
                    )
                    &&& r matches Err(e) ==> e is MacroEval
                })
                &&& !(head.len() > 0 && (head[0] == ';' || head[0] == '.')) ==> {
                    &&& *final(self) == *old(self)
                    &&& old(self).tokens_ok(parts) <==> r is Ok
                    &&& old(self).tokens_ok(parts) ==> (r matches Ok(s) && s@ == join_sp(
                        old(self).subst_parts(parts),
                    ))
                    &&& !old(self).tokens_ok(parts) ==> (r matches Err(e) && e is UnknownToken)
                }
            }),
    {
        let parts = split_spaces(input);
        let ghost gparts = split_sp(input@);
        proof {
            assert(parts.deep_view()[0] == parts@[0]@);
        }
        let head_len = parts[0].as_str().unicode_len();
        if head_len > 0 {
            let c0 = parts[0].as_str().get_char(0);
            if c0 == ';' {
                return Ok(input.to_owned());
            }
            if c0 == '.' {
                let macro_name = parts[0].as_str().substring_char(1, head_len);
                proof {
                    assert(macro_name@ =~= gparts[0].skip(1));
                }
                let func = match self.get_macro(macro_name) {
                    Some(f) => f,
                    None => {
                        return Err(
                            Error::UnknownMacro(String::from_str(macro_name)),
                        );
                    },
                };
                let args = tail_tokens(&parts);
                proof {
                    assert(args.deep_view() == gparts.skip(1));
                }
                let expanded = match func.expand(&mut self.variables, args) {
                    Ok(tokens) => tokens,
                    Err(e) => {
                        return Err(
                            Error::MacroEval(String::from_str(macro_name), Box::new(e)),
                        );
                    },
                };
                if expanded.len() == 0 {
                    proof {
                        assert(expanded.deep_view() =~= Seq::<Seq<char>>::empty());
                    }
                    return Ok(String::new());
                }
                return Ok(join_spaces(&expanded));
            }
        }
        let ghost gparts = split_sp(input@);
        let mut out: Vec<String> = Vec::new();
        let mut i: usize = 0;
        while i < parts.len()
            invariant
                self.wf(),
                *self == *old(self),
                i <= parts@.len(),
                parts.deep_view() == gparts,
                gparts == split_sp(input@),
                !(gparts[0].len() > 0 && (gparts[0][0] == ';' || gparts[0][0] == '.')),
                out@.len() == i,
                forall|j: int|
                    0 <= j < i ==> (#[trigger] self.variables.subst_token(gparts[j])) is Some,
                forall|j: int|
                    0 <= j < i ==> #[trigger] out.deep_view()[j] == self.variables.subst_parts(
                        gparts,
                    )[j],
            decreases parts@.len() - i,
        {
            let t = &parts[i];
            let ghost prev_dv = out.deep_view();
            proof {
                assert(parts.deep_view()[i as int] == parts@[i as int]@);
            }
            let t_len = t.as_str().unicode_len();
            if t_len > 0 && t.as_str().get_char(0) == '!' {
                let name = t.as_str().substring_char(1, t_len);
                proof {
                    assert(name@ =~= gparts[i as int].skip(1));
                }
                match self.variables.get_variable(name) {
                    Some(v) => {
                        out.push(v);
                        proof {
                            assert(out.deep_view()[i as int] == v@);
                        }
                    },
                    None => {
                        proof {
                            assert(self.variables.subst_token(gparts[i as int]) is None);
                            assert(!self.variables.tokens_ok(gparts));
                        }
                        return Err(Error::UnknownToken(String::from_str(name)));
                    },
                }
            } else {
                let dup = t.clone();
                proof {
                    assert(dup@ == gparts[i as int]);
                }
                out.push(dup);
                proof {
                    assert(out.deep_view()[i as int] == gparts[i as int]);
                }
            }
            proof {
                assert forall|j: int| 0 <= j < prev_dv.len() implies #[trigger] out.deep_view()[j]
                    == prev_dv[j] by {
                }
                assert(self.variables.subst_parts(gparts)[i as int] == out.deep_view()[i as int]);
            }
            i = i + 1;
        }
        proof {
            assert(out.deep_view() =~= self.variables.subst_parts(gparts));
        }
        Ok(join_spaces(&out))
    }
}

} // verus!
