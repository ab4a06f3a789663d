//! The scoped symbol table: a stack of scopes, each a mapping from names to
//! symbols. The scope at the bottom is the program's own; it is there from
//! the start and is never popped. A name is looked up from the innermost
//! scope outwards, so that an inner definition shadows an outer one.

use vstd::prelude::*;
use vstd::string::*;
use crate::token::Type;

verus! {

/// What a name stands for.
#[derive(Clone, Copy, Debug, PartialEq, Eq, Structural)]
pub enum SymbolKind {
    Function,
    Variable,
}

/// What is known of a name: what it stands for, and the type of its value.
#[derive(Clone, Copy, Debug, PartialEq, Eq, Structural)]
pub struct Symbol {
    pub kind: SymbolKind,
    pub ty: Type,
}

/// A scope as a mathematical value.
pub type ScopeView = Map<Seq<char>, Symbol>;

/// One binding of a scope.
#[derive(Debug)]
struct Binding {
    name: String,
    symbol: Symbol,
}

/// One frame of bindings, in the order in which their names first came.
#[derive(Debug)]
pub struct Scope {
    bindings: Vec<Binding>,
}

/// Whether some binding of `bindings` is for `name`.
spec fn binds(bindings: Seq<Binding>, name: Seq<char>) -> bool {
    exists|i: int| 0 <= i < bindings.len() && #[trigger] bindings[i].name@ == name
}

/// A place in `bindings` where `name` is bound.
spec fn place_of(bindings: Seq<Binding>, name: Seq<char>) -> int {
    choose|i: int| 0 <= i < bindings.len() && #[trigger] bindings[i].name@ == name
}

/// No two bindings are for the same name.
spec fn distinct(bindings: Seq<Binding>) -> bool {
    forall|i: int, j: int|
        0 <= i < j < bindings.len() ==> #[trigger] bindings[i].name@ != #[trigger] bindings[j].name@
}

impl View for Scope {
    type V = ScopeView;

    closed spec fn view(&self) -> ScopeView {
        Map::new(
            |name: Seq<char>| binds(self.bindings@, name),
            |name: Seq<char>| self.bindings@[place_of(self.bindings@, name)].symbol,
        )
    }
}

impl Scope {
    /// Every name is bound once.
    pub closed spec fn wf(&self) -> bool {
        distinct(self.bindings@)
    }

    /// The binding at place `i` is what the scope maps its name to.
    proof fn lemma_bound(&self, i: int)
        requires
            self.wf(),
            0 <= i < self.bindings@.len(),
        ensures
            self@.dom().contains(self.bindings@[i].name@),
            self@[self.bindings@[i].name@] == self.bindings@[i].symbol,
            place_of(self.bindings@, self.bindings@[i].name@) == i,
    {
        let name = self.bindings@[i].name@;
        assert(binds(self.bindings@, name));
        let j = place_of(self.bindings@, name);
        assert(0 <= j < self.bindings@.len() && self.bindings@[j].name@ == name);
        if j < i {
            assert(self.bindings@[j].name@ != self.bindings@[i].name@);
        } else if i < j {
            assert(self.bindings@[i].name@ != self.bindings@[j].name@);
        }
    }

    /// A name that no binding is for is not in the scope.
    proof fn lemma_unbound(&self, name: Seq<char>)
        requires
            forall|i: int| 0 <= i < self.bindings@.len() ==> self.bindings@[i].name@ != name,
        ensures
            !self@.dom().contains(name),
    {
    }

    /// A name of the scope is bound at some place.
    proof fn lemma_place(&self, name: Seq<char>)
        requires
            self@.dom().contains(name),
        ensures
            0 <= place_of(self.bindings@, name) < self.bindings@.len(),
            self.bindings@[place_of(self.bindings@, name)].name@ == name,
    {
        assert(binds(self.bindings@, name));
    }

    /// A scope without bindings.
    pub fn new() -> (r: Self)
        ensures
            r.wf(),
            r@ == Map::<Seq<char>, Symbol>::empty(),
    {
        let r = Scope { bindings: Vec::new() };
        assert(r@ =~= Map::<Seq<char>, Symbol>::empty());
        r
    }

    /// Binds `name` to `symbol`. An earlier binding of the name in this
    /// scope is overwritten.
    pub fn insert(&mut self, name: String, symbol: Symbol)
        requires
            old(self).wf(),
        ensures
            final(self).wf(),
            final(self)@ == old(self)@.insert(name@, symbol),
    {
        let mut i: usize = 0;
        while i < self.bindings.len()
            invariant
                i <= self.bindings@.len(),
                old(self).wf(),
                self.bindings@ == old(self).bindings@,
                forall|j: int| 0 <= j < i ==> self.bindings@[j].name@ != name@,
            decreases self.bindings@.len() - i,
        {
            if self.bindings[i].name == name {
                let ghost key = name@;
                self.bindings.set(i, Binding { name, symbol });
                proof {
                    let before = *old(self);
                    let after = *self;
                    assert(after.bindings@.len() == before.bindings@.len());
                    assert forall|j: int| 0 <= j < after.bindings@.len() implies
                        after.bindings@[j].name@ == before.bindings@[j].name@ by {}
                    assert(distinct(after.bindings@)) by {
                        assert forall|a: int, b: int| 0 <= a < b < after.bindings@.len() implies
                            #[trigger] after.bindings@[a].name@ != #[trigger] after.bindings@[b].name@ by {
                            assert(before.bindings@[a].name@ != before.bindings@[b].name@);
                        }
                    }
                    assert forall|q: Seq<char>| after@.dom().contains(q) == before@.insert(
                        key,
                        symbol,
                    ).dom().contains(q) by {
                        if after@.dom().contains(q) {
                            after.lemma_place(q);
                            before.lemma_bound(place_of(after.bindings@, q));
                        }
                        if before@.dom().contains(q) {
                            before.lemma_place(q);
                            after.lemma_bound(place_of(before.bindings@, q));
                        }
                        if q == key {
                            after.lemma_bound(i as int);
                        }
                    }
                    assert forall|q: Seq<char>| after@.dom().contains(q) implies after@[q]
                        == before@.insert(key, symbol)[q] by {
                        after.lemma_place(q);
                        let p = place_of(after.bindings@, q);
                        after.lemma_bound(p);
                        before.lemma_bound(p);
                    }
                    assert(after@ =~= before@.insert(key, symbol));
                }
                return ;
            }
            i += 1;
        }
        let ghost key = name@;
        self.bindings.push(Binding { name, symbol });
        proof {
            let before = *old(self);
            let after = *self;
            let n = before.bindings@.len() as int;
            assert forall|j: int| 0 <= j < n implies after.bindings@[j] == before.bindings@[j] by {}
            assert(distinct(after.bindings@)) by {
                assert forall|a: int, b: int| 0 <= a < b < after.bindings@.len() implies
                    #[trigger] after.bindings@[a].name@ != #[trigger] after.bindings@[b].name@ by {
                    if b < n {
                        assert(before.bindings@[a].name@ != before.bindings@[b].name@);
                    }
                }
            }
            assert forall|q: Seq<char>| after@.dom().contains(q) == before@.insert(
                key,
                symbol,
            ).dom().contains(q) by {
                if after@.dom().contains(q) {
                    after.lemma_place(q);
                    let p = place_of(after.bindings@, q);
                    if p < n {
                        before.lemma_bound(p);
                    }
                }
                if before@.dom().contains(q) {
                    before.lemma_place(q);
                    after.lemma_bound(place_of(before.bindings@, q));
                }
                if q == key {
                    after.lemma_bound(n);
                }
            }
            assert forall|q: Seq<char>| after@.dom().contains(q) implies after@[q]
                == before@.insert(key, symbol)[q] by {
                after.lemma_place(q);
                let p = place_of(after.bindings@, q);
                after.lemma_bound(p);
                if p < n {
                    before.lemma_bound(p);
                }
            }
            assert(after@ =~= before@.insert(key, symbol));
        }
    }

    /// The symbol that `name` is bound to in this scope, if it is bound.
    pub fn get(&self, name: &String) -> (r: Option<Symbol>)
        requires
            self.wf(),
        ensures
            r == if self@.dom().contains(name@) {
                Some(self@[name@])
            } else {
                None
            },
    {
        let mut i: usize = 0;
        while i < self.bindings.len()
            invariant
                i <= self.bindings@.len(),
                self.wf(),
                forall|j: int| 0 <= j < i ==> self.bindings@[j].name@ != name@,
            decreases self.bindings@.len() - i,
        {
            if self.bindings[i].name == *name {
                proof {
                    self.lemma_bound(i as int);
                }
                return Some(self.bindings[i].symbol);
            }
            i += 1;
        }
        proof {
            self.lemma_unbound(name@);
        }
        None
    }

    /// Takes the binding of `name` out of this scope, if there is one.
    pub fn remove(&mut self, name: &String)
        requires
            old(self).wf(),
        ensures
            final(self).wf(),
            final(self)@ == old(self)@.remove(name@),
    {
        let mut i: usize = 0;
        while i < self.bindings.len()
            invariant
                i <= self.bindings@.len(),
                old(self).wf(),
                self.bindings@ == old(self).bindings@,
                forall|j: int| 0 <= j < i ==> self.bindings@[j].name@ != name@,
            decreases self.bindings@.len() - i,
        {
            if self.bindings[i].name == *name {
                self.bindings.remove(i);
                proof {
                    let before = *old(self);
                    let after = *self;
                    let key = name@;
                    assert forall|j: int| 0 <= j < after.bindings@.len() implies
                        after.bindings@[j] == before.bindings@[if j < i { j } else { j + 1 }] by {}
                    assert(distinct(after.bindings@)) by {
                        assert forall|a: int, b: int| 0 <= a < b < after.bindings@.len() implies
                            #[trigger] after.bindings@[a].name@ != #[trigger] after.bindings@[b].name@ by {
                            let a0 = if a < i { a } else { a + 1 };
                            let b0 = if b < i { b } else { b + 1 };
                            assert(before.bindings@[a0].name@ != before.bindings@[b0].name@);
                        }
                    }
                    before.lemma_bound(i as int);
                    assert forall|q: Seq<char>| after@.dom().contains(q) == before@.remove(
                        key,
                    ).dom().contains(q) by {
                        if after@.dom().contains(q) {
                            after.lemma_place(q);
                            let p = place_of(after.bindings@, q);
                            let earlier = if p < i { p } else { p + 1 };
                            before.lemma_bound(earlier);
                            before.lemma_bound(i as int);
                        }
                        if before@.dom().contains(q) && q != key {
                            before.lemma_place(q);
                            let earlier = place_of(before.bindings@, q);
                            let p = if earlier < i { earlier } else { earlier - 1 };
                            after.lemma_bound(p);
                        }
                    }
                    assert forall|q: Seq<char>| after@.dom().contains(q) implies after@[q]
                        == before@.remove(key)[q] by {
                        after.lemma_place(q);
                        let p = place_of(after.bindings@, q);
                        let earlier = if p < i { p } else { p + 1 };
                        after.lemma_bound(p);
                        before.lemma_bound(earlier);
                    }
                    assert(after@ =~= before@.remove(key));
                }
                return ;
            }
            i += 1;
        }
        proof {
            self.lemma_unbound(name@);
            assert(self@ =~= old(self)@.remove(name@));
        }
    }
}

/// The views of a stack of scopes, outermost first.
pub open spec fn scope_views(scopes: Seq<Scope>) -> Seq<ScopeView> {
    scopes.map_values(|s: Scope| s@)
}

/// What `name` stands for in a stack of scopes: its binding in the
/// innermost scope that has one, if any has.
pub open spec fn lookup(scopes: Seq<ScopeView>, name: Seq<char>) -> Option<Symbol>
    decreases scopes.len(),
{
    if scopes.len() == 0 {
        None
    } else if scopes.last().dom().contains(name) {
        Some(scopes.last()[name])
    } else {
        lookup(scopes.drop_last(), name)
    }
}

/// The stack of scopes after `name` is bound to `symbol` in the innermost.
pub open spec fn bind_innermost(scopes: Seq<ScopeView>, name: Seq<char>, symbol: Symbol) -> Seq<
    ScopeView,
> {
    scopes.update(scopes.len() - 1, scopes.last().insert(name, symbol))
}

/// The stack of scopes after `name` is taken out of the innermost.
pub open spec fn unbind_innermost(scopes: Seq<ScopeView>, name: Seq<char>) -> Seq<ScopeView> {
    scopes.update(scopes.len() - 1, scopes.last().remove(name))
}

/// A stack of scopes, the innermost on top.
#[derive(Debug)]
pub struct SymbolTable {
    stack: Vec<Scope>,
}

impl View for SymbolTable {
    type V = Seq<ScopeView>;

    closed spec fn view(&self) -> Seq<ScopeView> {
        scope_views(self.stack@)
    }
}

impl SymbolTable {
    /// Every scope binds each of its names once.
    pub closed spec fn scopes_wf(&self) -> bool {
        forall|i: int| 0 <= i < self.stack@.len() ==> (#[trigger] self.stack@[i]).wf()
    }

    /// The program's own scope is there, and every scope is well formed.
    pub open spec fn wf(&self) -> bool {
        self@.len() >= 1 && self.scopes_wf()
    }

    /// A table with the program's own scope, which is empty.
    pub fn new() -> (r: Self)
        ensures
            r.wf(),
            r@ == seq![Map::<Seq<char>, Symbol>::empty()],
    {
        let mut stack: Vec<Scope> = Vec::new();
        stack.push(Scope::new());
        let r = SymbolTable { stack };
        assert(r@ =~= seq![Map::<Seq<char>, Symbol>::empty()]);
        r
    }

    /// Pushes an empty scope, which becomes the innermost.
    pub fn enter_scope(&mut self)
        requires
            old(self).wf(),
        ensures
            final(self).wf(),
            final(self)@ == old(self)@.push(Map::<Seq<char>, Symbol>::empty()),
    {
        self.stack.push(Scope::new());
        assert(self@ =~= old(self)@.push(Map::<Seq<char>, Symbol>::empty()));
    }

    /// Pops the innermost scope. The program's own scope cannot be popped:
    /// every exit pairs with an earlier enter.
    pub fn exit_scope(&mut self)
        requires
            old(self).wf(),
            old(self)@.len() > 1,
        ensures
            final(self).wf(),
            final(self)@ == old(self)@.drop_last(),
    {
        self.stack.pop();
        assert(self@ =~= old(self)@.drop_last());
    }

    /// Binds `name` to `symbol` in the innermost scope, overwriting an
    /// earlier binding of the name there. Outer scopes are untouched.
    pub fn insert(&mut self, name: String, symbol: Symbol)
        requires
            old(self).wf(),
        ensures
            final(self).wf(),
            final(self)@ == bind_innermost(old(self)@, name@, symbol),
    {
        let n = self.stack.len();
        self.stack[n - 1].insert(name, symbol);
        assert(self@ =~= bind_innermost(old(self)@, name@, symbol));
    }

    /// Takes the binding of `name` out of the innermost scope, if it has
    /// one. Outer scopes are untouched.
    pub fn remove(&mut self, name: &str)
        requires
            old(self).wf(),
        ensures
            final(self).wf(),
            final(self)@ == unbind_innermost(old(self)@, name@),
    {
        let key = String::from_str(name);
        let n = self.stack.len();
        self.stack[n - 1].remove(&key);
        assert(self@ =~= unbind_innermost(old(self)@, name@));
    }

    /// Looks `name` up from the innermost scope outwards.
    pub fn get(&self, name: &str) -> (r: Option<Symbol>)
        requires
            self.wf(),
        ensures
            r == lookup(self@, name@),
    {
        let key = String::from_str(name);
        let mut i: usize = self.stack.len();
        assert(self@.take(i as int) =~= self@);
        while i > 0
            invariant
                i <= self.stack@.len(),
                self.wf(),
                key@ == name@,
                lookup(self@, name@) == lookup(self@.take(i as int), name@),
            decreases i,
        {
            i -= 1;
            let found = self.stack[i].get(&key);
            proof {
                assert(self@.take(i + 1).last() == self.stack@[i as int]@);
                assert(self@.take(i + 1).drop_last() =~= self@.take(i as int));
            }
            if found.is_some() {
                return found;
            }
        }
        proof {
            assert(self@.take(0).len() == 0);
        }
        None
    }
}

/// A name is found right after it has been bound.
pub proof fn law_lookup_finds_binding(scopes: Seq<ScopeView>, name: Seq<char>, symbol: Symbol)
    requires
        scopes.len() >= 1,
    ensures
        lookup(bind_innermost(scopes, name, symbol), name) == Some(symbol),
{
}

/// Binding one name changes what no other name stands for.
pub proof fn law_binding_keeps_other_names(
    scopes: Seq<ScopeView>,
    name: Seq<char>,
    symbol: Symbol,
    other: Seq<char>,
)
    requires
        scopes.len() >= 1,
        other != name,
    ensures
        lookup(bind_innermost(scopes, name, symbol), other) == lookup(scopes, other),
{
    assert(bind_innermost(scopes, name, symbol).drop_last() =~= scopes.drop_last());
}

/// A later binding of a name in the same scope overwrites the earlier one.
pub proof fn law_later_binding_overwrites(
    scopes: Seq<ScopeView>,
    name: Seq<char>,
    earlier: Symbol,
    later: Symbol,
)
    requires
        scopes.len() >= 1,
    ensures
        bind_innermost(bind_innermost(scopes, name, earlier), name, later) == bind_innermost(
            scopes,
            name,
            later,
        ),
{
    assert(scopes.last().insert(name, earlier).insert(name, later) =~= scopes.last().insert(
        name,
        later,
    ));
    assert(bind_innermost(bind_innermost(scopes, name, earlier), name, later)
        =~= bind_innermost(scopes, name, later));
}

/// A scope that has just been entered hides nothing.
pub proof fn law_fresh_scope_hides_nothing(scopes: Seq<ScopeView>, name: Seq<char>)
    ensures
        lookup(scopes.push(Map::empty()), name) == lookup(scopes, name),
{
    assert(scopes.push(Map::empty()).drop_last() =~= scopes);
}

/// A binding in an inner scope shadows the outer ones while the scope is
/// open, and is gone with it: after the scope is left, every name stands
/// for what it stood for before the scope was entered.
pub proof fn law_inner_binding_shadows(scopes: Seq<ScopeView>, name: Seq<char>, inner: Symbol)
    ensures
        lookup(bind_innermost(scopes.push(Map::empty()), name, inner), name) == Some(inner),
        bind_innermost(scopes.push(Map::empty()), name, inner).drop_last() == scopes,
{
    assert(bind_innermost(scopes.push(Map::empty()), name, inner).drop_last() =~= scopes);
}

} // verus!
