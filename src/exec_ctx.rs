use vstd::prelude::*;

use crate::error::SandboxExecutionError;
use crate::value::{Val, Value, ValueKind};

verus! {

/// One scope in mathematical form: its bindings in the order they were made.
pub type ScopeView = Seq<(Seq<char>, Val)>;

/// The position of `name` in scope `s`, or -1 when `s` does not bind it.
pub open spec fn scope_index(s: ScopeView, name: Seq<char>) -> int
    decreases s.len(),
{
    if s.len() == 0 {
        -1
    } else if s.last().0 == name {
        s.len() - 1
    } else {
        scope_index(s.drop_last(), name)
    }
}

pub open spec fn scope_get(s: ScopeView, name: Seq<char>) -> Option<Val> {
    let k = scope_index(s, name);
    if k >= 0 {
        Some(s[k].1)
    } else {
        None
    }
}

/// Scope `s` with `name` bound to `v`: the binding is overwritten in place,
/// or added at the end.
pub open spec fn scope_set(s: ScopeView, name: Seq<char>, v: Val) -> ScopeView {
    let k = scope_index(s, name);
    if k >= 0 {
        s.update(k, (name, v))
    } else {
        s.push((name, v))
    }
}

/// No name is bound twice in one scope.
pub open spec fn names_unique(s: ScopeView) -> bool {
    forall|i: int, j: int| 0 <= i < s.len() && 0 <= j < s.len() && i != j ==> s[i].0 != s[j].0
}

/// The index of the innermost scope of chain `c` that binds `name`, or -1.
/// The innermost scope is the last one.
pub open spec fn chain_level(c: Seq<ScopeView>, name: Seq<char>) -> int
    decreases c.len(),
{
    if c.len() == 0 {
        -1
    } else if scope_index(c.last(), name) >= 0 {
        c.len() - 1
    } else {
        chain_level(c.drop_last(), name)
    }
}

/// Lookup: the binding of `name` in the innermost scope that has one.
pub open spec fn chain_get(c: Seq<ScopeView>, name: Seq<char>) -> Option<Val> {
    let k = chain_level(c, name);
    if k >= 0 {
        scope_get(c[k], name)
    } else {
        None
    }
}

/// Binding in the innermost scope, whatever the outer scopes hold.
pub open spec fn chain_bind(c: Seq<ScopeView>, name: Seq<char>, v: Val) -> Seq<ScopeView> {
    c.update(c.len() - 1, scope_set(c.last(), name, v))
}

/// Assignment: rewrites the binding where lookup finds it, else binds in the
/// innermost scope.
pub open spec fn chain_assign(c: Seq<ScopeView>, name: Seq<char>, v: Val) -> Seq<ScopeView> {
    let k = chain_level(c, name);
    if k >= 0 {
        c.update(k, scope_set(c[k], name, v))
    } else {
        chain_bind(c, name, v)
    }
}

pub open spec fn chain_wf(c: Seq<ScopeView>) -> bool {
    c.len() >= 1 && forall|i: int| 0 <= i < c.len() ==> names_unique(#[trigger] c[i])
}

/// The mathematical form of an execution context: the fuel left and the
/// scope chain, outermost first.
pub struct State {
    pub ttl: int,
    pub scopes: Seq<ScopeView>,
}

/// A variable binding: a name and the handle of its value in the arena.
pub struct Binding<'a> {
    pub name: String,
    pub value: Value<'a>,
}

/// One scope: bindings with distinct names, in the order they were made.
pub struct Mapping<'a> {
    pub mapping: Vec<Binding<'a>>,
}

impl<'a> View for Mapping<'a> {
    type V = ScopeView;

    open spec fn view(&self) -> ScopeView {
        self.mapping@.map_values(|b: Binding<'a>| (b.name@, b.value@))
    }
}

proof fn lemma_scope_index(s: ScopeView, name: Seq<char>)
    ensures
        -1 <= scope_index(s, name) < s.len(),
        scope_index(s, name) >= 0 ==> s[scope_index(s, name)].0 == name,
        scope_index(s, name) == -1 ==> forall|i: int| 0 <= i < s.len() ==> s[i].0 != name,
    decreases s.len(),
{
    if s.len() > 0 {
        lemma_scope_index(s.drop_last(), name);
        assert forall|i: int| 0 <= i < s.len() - 1 implies s[i] == s.drop_last()[i] by {}
    }
}

proof fn lemma_scope_set_unique(s: ScopeView, name: Seq<char>, v: Val)
    requires
        names_unique(s),
    ensures
        names_unique(scope_set(s, name, v)),
        scope_get(scope_set(s, name, v), name) == Some(v),
{
    lemma_scope_index(s, name);
    let t = scope_set(s, name, v);
    lemma_scope_index(t, name);
    let k = scope_index(s, name);
    if k < 0 {
        assert(t.last().0 == name);
    } else {
        assert(t[k].0 == name);
    }
}

proof fn lemma_chain_level(c: Seq<ScopeView>, name: Seq<char>)
    ensures
        -1 <= chain_level(c, name) < c.len(),
        chain_level(c, name) >= 0 ==> scope_index(c[chain_level(c, name)], name) >= 0,
        forall|i: int| chain_level(c, name) < i < c.len() ==> scope_index(#[trigger] c[i], name) < 0,
    decreases c.len(),
{
    if c.len() > 0 {
        lemma_chain_level(c.drop_last(), name);
        assert forall|i: int| 0 <= i < c.len() - 1 implies c[i] == c.drop_last()[i] by {}
    }
}

impl<'a> Mapping<'a> {
    pub fn new() -> (r: Mapping<'a>)
        ensures
            r@ == Seq::<(Seq<char>, Val)>::empty(),
    {
        let r = Mapping { mapping: Vec::new() };
        assert(r@ =~= Seq::<(Seq<char>, Val)>::empty());
        r
    }

    /// Where `name` is bound in this scope.
    pub fn position(&self, name: &String) -> (r: Option<usize>)
        ensures
            match r {
                Some(k) => scope_index(self@, name@) == k,
                None => scope_index(self@, name@) == -1,
            },
    {
        let mut k = self.mapping.len();
        assert(self@.subrange(0, k as int) =~= self@);
        while k > 0
            invariant
                k <= self.mapping@.len(),
                scope_index(self@, name@) == scope_index(self@.subrange(0, k as int), name@),
            decreases k,
        {
            let sub = Ghost(self@.subrange(0, k as int));
            if self.mapping[k - 1].name == *name {
                return Some(k - 1);
            }
            assert(sub@.drop_last() =~= self@.subrange(0, k - 1));
            k = k - 1;
        }
        None
    }

    /// The value bound to `name` in this scope.
    pub fn get(&self, name: &String) -> (r: Option<Value<'a>>)
        ensures
            match r {
                Some(v) => scope_get(self@, name@) == Some(v@),
                None => scope_get(self@, name@) is None,
            },
    {
        proof {
            lemma_scope_index(self@, name@);
        }
        match self.position(name) {
            Some(k) => Some(self.mapping[k].value),
            None => None,
        }
    }

    /// Binds `name` to `value` in this scope, overwriting an earlier binding.
    pub fn set(&mut self, name: String, value: Value<'a>)
        requires
            names_unique(old(self)@),
        ensures
            final(self)@ == scope_set(old(self)@, name@, value@),
            names_unique(final(self)@),
    {
        proof {
            lemma_scope_index(self@, name@);
            lemma_scope_set_unique(self@, name@, value@);
        }
        match self.position(&name) {
            Some(k) => {
                self.mapping.set(k, Binding { name, value });
            },
            None => {
                self.mapping.push(Binding { name, value });
            },
        }
        assert(self@ =~= scope_set(old(self)@, name@, value@));
    }
}

/// Conversion of guest state to plain host values.
pub trait Export<T> {
    fn export(&self) -> T;
}

impl<'a> Export<Vec<(String, ValueKind)>> for ExecutionContext<'a> {
    /// Copies of the global bindings.
    fn export(&self) -> Vec<(String, ValueKind)> {
        self.to_bindings()
    }
}

/// Everything one execution mutates: the arena its values live in, the fuel
/// left, and the scope chain (the innermost scope is the last).
pub struct ExecutionContext<'a> {
    pub arena: &'a bumpalo::Bump,
    pub ttl: i64,
    pub mapping: Vec<Mapping<'a>>,
}

impl<'a> View for ExecutionContext<'a> {
    type V = State;

    open spec fn view(&self) -> State {
        State { ttl: self.ttl as int, scopes: self.mapping@.map_values(|m: Mapping<'a>| m@) }
    }
}

impl<'a> ExecutionContext<'a> {
    pub open spec fn wf(&self) -> bool {
        chain_wf(self@.scopes)
    }

    /// A context over `arena` with `ttl` units of fuel and the scopes
    /// `mapping`, outermost first.
    pub fn new(arena: &'a bumpalo::Bump, ttl: i64, mapping: Vec<Mapping<'a>>) -> (r: ExecutionContext<'a>)
        ensures
            r.arena == arena,
            r@.ttl == ttl,
            r.mapping@ == mapping@,
    {
        ExecutionContext { arena, ttl, mapping }
    }

    /// Charges `amount` units of fuel; fails, changing nothing, when that is
    /// more than is left.
    pub fn consume(&mut self, amount: i64) -> (r: Result<(), SandboxExecutionError>)
        requires
            amount >= 0,
        ensures
            amount > old(self)@.ttl ==> r is Err && r->Err_0@ == crate::error::Fault::Timeout && *final(self) == *old(self),
            amount <= old(self)@.ttl ==> r is Ok && final(self)@.ttl == old(self)@.ttl - amount,
            final(self)@.scopes == old(self)@.scopes,
            final(self).arena == old(self).arena,
    {
        if amount > self.ttl {
            return Err(SandboxExecutionError::Timeout);
        }
        self.ttl = self.ttl - amount;
        Ok(())
    }

    /// Charges the unit of fuel that each evaluated node costs.
    pub fn consume_one(&mut self) -> (r: Result<(), SandboxExecutionError>)
        ensures
            old(self)@.ttl < 1 ==> r is Err && r->Err_0@ == crate::error::Fault::Timeout && *final(self) == *old(self),
            old(self)@.ttl >= 1 ==> r is Ok && final(self)@.ttl == old(self)@.ttl - 1,
            final(self)@.scopes == old(self)@.scopes,
            final(self).arena == old(self).arena,
    {
        self.consume(1)
    }

    /// Rebinds `name` in the scope at `level`.
    fn set_at(&mut self, level: usize, name: String, value: Value<'a>)
        requires
            old(self).wf(),
            level < old(self)@.scopes.len(),
        ensures
            final(self)@.scopes == old(self)@.scopes.update(
                level as int,
                scope_set(old(self)@.scopes[level as int], name@, value@),
            ),
            final(self)@.ttl == old(self)@.ttl,
            final(self).arena == old(self).arena,
            final(self).wf(),
    {
        let mut m = Mapping::new();
        self.mapping.set_and_swap(level, &mut m);
        assert(names_unique(old(self)@.scopes[level as int]));
        m.set(name, value);
        self.mapping.set_and_swap(level, &mut m);
        assert(self@.scopes =~= old(self)@.scopes.update(
            level as int,
            scope_set(old(self)@.scopes[level as int], name@, value@),
        ));
    }

    /// Lookup of `name`, innermost scope first.
    pub fn get(&self, name: &String) -> (r: Result<Value<'a>, SandboxExecutionError>)
        ensures
            match r {
                Ok(v) => chain_get(self@.scopes, name@) == Some(v@),
                Err(e) => chain_get(self@.scopes, name@) is None && e@
                    == crate::error::Fault::ReferenceNotExist(name@),
            },
    {
        proof {
            lemma_chain_level(self@.scopes, name@);
        }
        match self.level_of(name) {
            Some(k) => {
                match self.mapping[k].get(name) {
                    Some(v) => Ok(v),
                    None => Err(SandboxExecutionError::ReferenceNotExist(name.clone())),
                }
            },
            None => Err(SandboxExecutionError::ReferenceNotExist(name.clone())),
        }
    }

    /// The innermost scope that binds `name`.
    pub fn level_of(&self, name: &String) -> (r: Option<usize>)
        ensures
            match r {
                Some(k) => chain_level(self@.scopes, name@) == k,
                None => chain_level(self@.scopes, name@) == -1,
            },
    {
        let ghost c = self@.scopes;
        let mut k = self.mapping.len();
        assert(c.subrange(0, k as int) =~= c);
        while k > 0
            invariant
                k <= c.len(),
                c == self@.scopes,
                chain_level(c, name@) == chain_level(c.subrange(0, k as int), name@),
            decreases k,
        {
            let ghost sub = c.subrange(0, k as int);
            assert(sub.last() == self.mapping@[k - 1]@);
            if self.mapping[k - 1].position(name).is_some() {
                return Some(k - 1);
            }
            assert(sub.drop_last() =~= c.subrange(0, k - 1));
            k = k - 1;
        }
        None
    }

    /// Binds `name` to `value` in the innermost scope.
    pub fn bind(&mut self, name: String, value: Value<'a>)
        requires
            old(self).wf(),
        ensures
            final(self)@.scopes == chain_bind(old(self)@.scopes, name@, value@),
            final(self)@.scopes.len() == old(self)@.scopes.len(),
            final(self)@.ttl == old(self)@.ttl,
            final(self).arena == old(self).arena,
            final(self).wf(),
    {
        let last = self.mapping.len() - 1;
        self.set_at(last, name, value);
    }

    /// Assigns `value` to `name`: rewrites the binding where lookup finds it,
    /// or binds it in the innermost scope.
    pub fn assign(&mut self, name: String, value: Value<'a>)
        requires
            old(self).wf(),
        ensures
            final(self)@.scopes == chain_assign(old(self)@.scopes, name@, value@),
            final(self)@.scopes.len() == old(self)@.scopes.len(),
            final(self)@.ttl == old(self)@.ttl,
            final(self).arena == old(self).arena,
            final(self).wf(),
    {
        proof {
            lemma_chain_level(self@.scopes, name@);
        }
        match self.level_of(&name) {
            Some(k) => self.set_at(k, name, value),
            None => self.bind(name, value),
        }
    }

    /// Opens a new, empty innermost scope.
    pub fn push_scope(&mut self)
        requires
            old(self).wf(),
        ensures
            final(self)@.scopes == old(self)@.scopes.push(Seq::empty()),
            final(self)@.ttl == old(self)@.ttl,
            final(self).arena == old(self).arena,
            final(self).wf(),
    {
        self.mapping.push(Mapping::new());
        assert(self@.scopes =~= old(self)@.scopes.push(Seq::empty()));
    }

    /// Closes the innermost scope; the global scope is never closed.
    pub fn pop_scope(&mut self)
        requires
            old(self).wf(),
            old(self)@.scopes.len() > 1,
        ensures
            final(self)@.scopes == old(self)@.scopes.drop_last(),
            final(self)@.ttl == old(self)@.ttl,
            final(self).arena == old(self).arena,
            final(self).wf(),
    {
        let _ = self.mapping.pop();
        assert(self@.scopes =~= old(self)@.scopes.drop_last());
    }

    /// Copies of the bindings of the global scope, in the order they were made.
    pub fn to_bindings(&self) -> (r: Vec<(String, ValueKind)>)
        ensures
            self@.scopes.len() == 0 ==> r@.len() == 0,
            self@.scopes.len() > 0 ==> r@.len() == self@.scopes[0].len(),
            forall|i: int| 0 <= i < r@.len() ==> (#[trigger] r@[i]).0@ == self@.scopes[0][i].0 && r@[i].1@
                == self@.scopes[0][i].1,
    {
        if self.mapping.len() == 0 {
            return Vec::new();
        }
        let global = &self.mapping[0];
        let n = global.mapping.len();
        let mut out: Vec<(String, ValueKind)> = Vec::new();
        let mut i: usize = 0;
        while i < n
            invariant
                n == global@.len(),
                global@ == self@.scopes[0],
                0 <= i <= n,
                out@.len() == i,
                forall|j: int| 0 <= j < i ==> (#[trigger] out@[j]).0@ == global@[j].0 && out@[j].1@ == global@[j].1,
            decreases n - i,
        {
            let b = &global.mapping[i];
            out.push((b.name.clone(), b.value.duplicate()));
            i = i + 1;
        }
        out
    }
}

/// Law: scope shadowing. A binding made in a new inner scope is what lookup
/// finds while that scope is open, whatever the outer scopes bind; closing the
/// scope gives back the chain exactly as it was, so an outer binding of the
/// same name is found again unchanged.
pub proof fn lemma_scope_shadowing(c: Seq<ScopeView>, name: Seq<char>, v: Val)
    requires
        chain_wf(c),
    ensures
        chain_get(chain_bind(c.push(Seq::empty()), name, v), name) == Some(v),
        chain_bind(c.push(Seq::empty()), name, v).drop_last() == c,
        chain_get(chain_bind(c.push(Seq::empty()), name, v).drop_last(), name) == chain_get(c, name),
{
    let opened = c.push(Seq::<(Seq<char>, Val)>::empty());
    let inner = chain_bind(opened, name, v);
    assert(scope_index(Seq::<(Seq<char>, Val)>::empty(), name) == -1);
    let top = scope_set(Seq::<(Seq<char>, Val)>::empty(), name, v);
    assert(top =~= seq![(name, v)]);
    assert(top.drop_last() =~= Seq::<(Seq<char>, Val)>::empty());
    assert(scope_index(top, name) == 0);
    assert(inner.last() == top);
    assert(chain_level(inner, name) == inner.len() - 1);
    assert(inner.drop_last() =~= c);
}

} // verus!
