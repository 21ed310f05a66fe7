//! Scopes and the variables declared in them.
use vstd::prelude::*;

use crate::comp::source::{HasLocation, Location, StringId};
use crate::comp::types::TypeId;

verus! {

/// The index of a scope.
#[derive(Debug, Clone, Copy, PartialEq, Eq, Hash, Structural)]
pub struct ScopeId(pub usize);

impl ScopeId {
    pub fn as_raw(&self) -> (r: usize)
        ensures
            r == self.0,
    {
        self.0
    }
}

/// A variable's number and name.
#[derive(Debug, Clone, Copy, PartialEq, Eq, Hash, Structural)]
pub struct VariableId(pub usize, pub StringId);

impl VariableId {
    pub fn as_raw(&self) -> (r: usize)
        ensures
            r == self.0,
    {
        self.0
    }
}

/// A declared variable.
#[derive(Debug)]
pub struct VariableDeclaration {
    pub location: Location,
    pub id: VariableId,
    pub namespaces: Vec<StringId>,
    pub name: StringId,
    pub type_: TypeId,
    pub scope: ScopeId,
    pub can_be_overshadowed: bool,
}

impl HasLocation for VariableDeclaration {
    open spec fn spec_location(&self) -> Location {
        self.location
    }

    fn location(&self) -> (r: Location) {
        self.location
    }
}

/// A scope and its enclosing scopes, outermost first.
#[derive(Debug)]
pub struct Scope {
    pub id: ScopeId,
    pub parents: Vec<ScopeId>,
}

impl Scope {
    /// The outermost scope.
    pub fn global() -> (r: Scope)
        ensures
            r.id.0 == 0,
            r.parents@.len() == 0,
    {
        Scope { id: ScopeId(0), parents: Vec::new() }
    }
}

/// The scope that directly encloses scope `s`, if any.
pub open spec fn parent_of(scopes: Seq<Scope>, s: int) -> Option<int> {
    if 0 <= s < scopes.len() && scopes[s].parents@.len() > 0 {
        Some(scopes[s].parents@.last().0 as int)
    } else {
        None
    }
}

/// The index of the first declaration named `name`.
pub open spec fn first_named(vars: Seq<VariableDeclaration>, name: StringId, from: int) -> Option<int>
    decreases vars.len() - from,
{
    if from < 0 || from >= vars.len() {
        None
    } else if vars[from].name == name {
        Some(from)
    } else {
        first_named(vars, name, from + 1)
    }
}

/// Appending a declaration keeps the first declaration named `name` where
/// there was one; where there was none, the appended one is found if it
/// has that name.
pub proof fn lemma_first_named_push(
    vars: Seq<VariableDeclaration>,
    d: VariableDeclaration,
    name: StringId,
    from: int,
)
    requires
        0 <= from <= vars.len(),
    ensures
        first_named(vars.push(d), name, from) == match first_named(vars, name, from) {
            Some(k) => Some(k),
            None => if d.name == name {
                Some(vars.len() as int)
            } else {
                None
            },
        },
    decreases vars.len() - from,
{
    if from < vars.len() {
        assert(vars.push(d)[from] == vars[from]);
        lemma_first_named_push(vars, d, name, from + 1);
    } else {
        assert(vars.push(d)[from] == d);
        assert(first_named(vars.push(d), name, from + 1) is None);
    }
}

/// Whether some declaration of `vars` that cannot be shadowed has `name`
/// and `namespaces`.
pub open spec fn blocks(vars: Seq<VariableDeclaration>, name: StringId, namespaces: Seq<StringId>) -> bool {
    exists|i: int|
        0 <= i < vars.len() && !(#[trigger] vars[i]).can_be_overshadowed && vars[i].name == name
            && vars[i].namespaces@ == namespaces
}

/// The variables of every scope and which scope is active.
#[derive(Debug)]
pub struct Variables {
    pub variables: Vec<Vec<VariableDeclaration>>,
    pub all_scopes: Vec<Scope>,
    pub active_scope: ScopeId,
    pub next_variable_id: usize,
}

impl Variables {
    /// Each scope sits at its own index with one list of variables, its
    /// enclosing scope comes before it, and the active scope exists.
    pub open spec fn wf(&self) -> bool {
        &&& self.variables@.len() == self.all_scopes@.len()
        &&& self.all_scopes@.len() >= 1
        &&& self.active_scope.0 < self.all_scopes@.len()
        &&& forall|i: int|
            0 <= i < self.all_scopes@.len() ==> (#[trigger] self.all_scopes@[i]).id.0 == i
                && (self.all_scopes@[i].parents@.len() > 0 ==> self.all_scopes@[i].parents@.last().0 < i)
    }

    /// The variable named `name` seen from scope `s`: the first one in `s`,
    /// else the one seen from the enclosing scope.
    pub open spec fn visible(&self, s: int, name: StringId) -> Option<(int, int)>
        decreases s,
    {
        if 0 <= s < self.variables@.len() {
            match first_named(self.variables@[s]@, name, 0) {
                Some(k) => Some((s, k)),
                None => match parent_of(self.all_scopes@, s) {
                    Some(p) => if 0 <= p < s {
                        self.visible(p, name)
                    } else {
                        None
                    },
                    None => None,
                },
            }
        } else {
            None
        }
    }

    /// What scope `s` sees depends only on it and the scopes before it.
    pub proof fn lemma_visible_prefix(self, other: Variables, s: int, name: StringId)
        requires
            0 <= s < self.variables@.len(),
            self.variables@.len() <= other.variables@.len(),
            self.variables@.len() <= self.all_scopes@.len(),
            self.variables@.len() <= other.all_scopes@.len(),
            forall|i: int| 0 <= i < self.variables@.len() ==> #[trigger] other.variables@[i] == self.variables@[i],
            forall|i: int| 0 <= i < self.variables@.len() ==> #[trigger] other.all_scopes@[i] == self.all_scopes@[i],
        ensures
            other.visible(s, name) == self.visible(s, name),
        decreases s,
    {
        assert(other.variables@[s] == self.variables@[s]);
        assert(other.all_scopes@[s] == self.all_scopes@[s]);
        assert(parent_of(other.all_scopes@, s) == parent_of(self.all_scopes@, s));
        match parent_of(self.all_scopes@, s) {
            Some(p) => {
                if 0 <= p < s {
                    self.lemma_visible_prefix(other, p, name);
                }
            },
            None => {},
        }
    }

    pub fn new() -> (r: Variables)
        ensures
            r.wf(),
            r.active_scope.0 == 0,
            r.variables@.len() == 1,
            r.variables@[0]@.len() == 0,
            r.next_variable_id == 0,
    {
        let mut variables: Vec<Vec<VariableDeclaration>> = Vec::new();
        variables.push(Vec::new());
        let mut all_scopes: Vec<Scope> = Vec::new();
        all_scopes.push(Scope::global());
        Variables { variables, all_scopes, active_scope: ScopeId(0), next_variable_id: 0 }
    }

    fn same_namespaces(a: &Vec<StringId>, b: &[StringId]) -> (r: bool)
        ensures
            r == (a@ == b@),
    {
        if a.len() != b.len() {
            return false;
        }
        let mut i: usize = 0;
        while i < a.len()
            invariant
                a@.len() == b@.len(),
                i <= a@.len(),
                forall|k: int| 0 <= k < i ==> a@[k] == b@[k],
            decreases a@.len() - i,
        {
            if a[i] != b[i] {
                return false;
            }
            i = i + 1;
        }
        assert(a@ =~= b@);
        true
    }

    /// Declares a variable in the active scope; none when a declaration of
    /// that scope that cannot be shadowed has the same name and namespaces.
    pub fn register(
        &mut self,
        location: Location,
        namespaces: &[StringId],
        name: StringId,
        type_: TypeId,
        can_be_overshadowed: bool,
    ) -> (r: Option<VariableId>)
        requires
            old(self).wf(),
            old(self).next_variable_id < usize::MAX,
        ensures
            final(self).wf(),
            final(self).active_scope == old(self).active_scope,
            final(self).all_scopes@ == old(self).all_scopes@,
            blocks(old(self).variables@[old(self).active_scope.0 as int]@, name, namespaces@) ==> r
                is None && final(self).variables@ == old(self).variables@
                && final(self).next_variable_id == old(self).next_variable_id,
            !blocks(old(self).variables@[old(self).active_scope.0 as int]@, name, namespaces@) ==> {
                let s = old(self).active_scope.0 as int;
                &&& r == Some(VariableId(old(self).next_variable_id, name))
                &&& final(self).next_variable_id == old(self).next_variable_id + 1
                &&& final(self).variables@.len() == old(self).variables@.len()
                &&& forall|t: int| 0 <= t < old(self).variables@.len() && t != s ==> #[trigger] final(self).variables@[t] == old(self).variables@[t]
                &&& final(self).variables@[s]@.len() == old(self).variables@[s]@.len() + 1
                &&& forall|k: int| 0 <= k < old(self).variables@[s]@.len() ==> #[trigger] final(self).variables@[s]@[k] == old(self).variables@[s]@[k]
                &&& ({
                    let v = final(self).variables@[s]@.last();
                    &&& v.location == location
                    &&& v.id == VariableId(old(self).next_variable_id, name)
                    &&& v.namespaces@ == namespaces@
                    &&& v.name == name
                    &&& v.type_ == type_
                    &&& v.scope == old(self).active_scope
                    &&& v.can_be_overshadowed == can_be_overshadowed
                })
            },
            r is Some && first_named(
                old(self).variables@[old(self).active_scope.0 as int]@,
                name,
                0,
            ) is None ==> final(self).visible(old(self).active_scope.0 as int, name) == Some(
                (
                    old(self).active_scope.0 as int,
                    old(self).variables@[old(self).active_scope.0 as int]@.len() as int,
                ),
            ),
    {
        let current = self.active_scope.0;
        let mut i: usize = 0;
        while i < self.variables[current].len()
            invariant
                self.wf(),
                *self == *old(self),
                current == self.active_scope.0,
                current < self.variables@.len(),
                i <= self.variables@[current as int]@.len(),
                forall|k: int|
                    0 <= k < i ==> !(!(#[trigger] self.variables@[current as int]@[k]).can_be_overshadowed
                        && self.variables@[current as int]@[k].name == name
                        && self.variables@[current as int]@[k].namespaces@ == namespaces@),
            decreases self.variables@[current as int]@.len() - i,
        {
            let v = &self.variables[current][i];
            if !v.can_be_overshadowed && v.name == name && Self::same_namespaces(&v.namespaces, namespaces) {
                return None;
            }
            i = i + 1;
        }
        let id = VariableId(self.next_variable_id, name);
        self.next_variable_id = self.next_variable_id + 1;
        let mut owned: Vec<StringId> = Vec::new();
        let mut j: usize = 0;
        while j < namespaces.len()
            invariant
                j <= namespaces@.len(),
                owned@ == namespaces@.subrange(0, j as int),
            decreases namespaces@.len() - j,
        {
            owned.push(namespaces[j]);
            j = j + 1;
            assert(owned@ =~= namespaces@.subrange(0, j as int));
        }
        assert(owned@ =~= namespaces@);
        let declaration = VariableDeclaration {
            scope: self.active_scope,
            location,
            namespaces: owned,
            id,
            name,
            type_,
            can_be_overshadowed,
        };
        let mut list: Vec<VariableDeclaration> = Vec::new();
        std::mem::swap(&mut list, &mut self.variables[current]);
        list.push(declaration);
        std::mem::swap(&mut list, &mut self.variables[current]);
        proof {
            let s = current as int;
            let before = old(self).variables@[s]@;
            let after = self.variables@[s]@;
            assert(after =~= before.push(after.last()));
            lemma_first_named_push(before, after.last(), name, 0);
        }
        Some(id)
    }

    /// The variable named `name` in the active scope or an enclosing one.
    pub fn find_by_name(&self, name: StringId) -> (r: Option<&VariableDeclaration>)
        requires
            self.wf(),
        ensures
            match self.visible(self.active_scope.0 as int, name) {
                Some((s, k)) => r == Some(&self.variables@[s]@[k]),
                None => r is None,
            },
    {
        let mut current = self.active_scope.0;
        loop
            invariant
                self.wf(),
                current < self.all_scopes@.len(),
                self.visible(self.active_scope.0 as int, name) == self.visible(current as int, name),
            decreases current,
        {
            let vars = &self.variables[current];
            let mut k: usize = 0;
            while k < vars.len()
                invariant
                    self.wf(),
                    current < self.all_scopes@.len(),
                    self.visible(self.active_scope.0 as int, name) == self.visible(current as int, name),
                    *vars == self.variables@[current as int],
                    k <= vars@.len(),
                    first_named(vars@, name, 0) == first_named(vars@, name, k as int),
                decreases vars@.len() - k,
            {
                if vars[k].name == name {
                    assert(first_named(vars@, name, k as int) == Some(k as int));
                    assert(self.visible(current as int, name) == Some((current as int, k as int)));
                    return Some(&vars[k]);
                }
                k = k + 1;
            }
            assert(self.all_scopes@[current as int].id.0 == current);
            let parents = &self.all_scopes[current].parents;
            if parents.len() == 0 {
                return None;
            }
            current = parents[parents.len() - 1].0;
        }
    }

    /// Opens a scope inside the active one and makes it active.
    pub fn start_scope(&mut self)
        requires
            old(self).wf(),
            old(self).all_scopes@.len() < usize::MAX,
        ensures
            final(self).wf(),
            final(self).active_scope.0 == old(self).all_scopes@.len(),
            final(self).all_scopes@.len() == old(self).all_scopes@.len() + 1,
            final(self).variables@.len() == old(self).variables@.len() + 1,
            forall|i: int| 0 <= i < old(self).variables@.len() ==> #[trigger] final(self).variables@[i] == old(self).variables@[i],
            final(self).variables@.last()@.len() == 0,
            forall|i: int| 0 <= i < old(self).all_scopes@.len() ==> #[trigger] final(self).all_scopes@[i] == old(self).all_scopes@[i],
            final(self).all_scopes@.last().parents@ == old(self).all_scopes@[old(self).active_scope.0 as int].parents@.push(old(self).active_scope),
            final(self).next_variable_id == old(self).next_variable_id,
            parent_of(final(self).all_scopes@, final(self).active_scope.0 as int) == Some(
                old(self).active_scope.0 as int,
            ),
            forall|name: StringId| #[trigger] final(self).visible(final(self).active_scope.0 as int, name)
                == old(self).visible(old(self).active_scope.0 as int, name),
    {
        let active = self.active_scope.0;
        let mut parents: Vec<ScopeId> = Vec::new();
        let mut i: usize = 0;
        while i < self.all_scopes[active].parents.len()
            invariant
                active < self.all_scopes@.len(),
                i <= self.all_scopes@[active as int].parents@.len(),
                parents@ == self.all_scopes@[active as int].parents@.subrange(0, i as int),
            decreases self.all_scopes@[active as int].parents@.len() - i,
        {
            parents.push(self.all_scopes[active].parents[i]);
            i = i + 1;
            assert(parents@ =~= self.all_scopes@[active as int].parents@.subrange(0, i as int));
        }
        assert(parents@ =~= self.all_scopes@[active as int].parents@);
        parents.push(self.active_scope);
        let id = ScopeId(self.all_scopes.len());
        self.active_scope = id;
        self.variables.push(Vec::new());
        self.all_scopes.push(Scope { id, parents });
        proof {
            let a = old(self).active_scope.0 as int;
            assert forall|name: StringId| #[trigger] self.visible(self.active_scope.0 as int, name)
                == old(self).visible(a, name) by {
                old(self).lemma_visible_prefix(*self, a, name);
                assert(first_named(self.variables@[id.0 as int]@, name, 0) is None);
            }
        }
    }

    /// Makes the scope that encloses the active one active again; the
    /// active scope must not be the outermost.
    pub fn end_scope(&mut self)
        requires
            old(self).wf(),
            parent_of(old(self).all_scopes@, old(self).active_scope.0 as int) is Some,
        ensures
            final(self).wf(),
            final(self).active_scope.0 == parent_of(old(self).all_scopes@, old(self).active_scope.0 as int)->Some_0,
            final(self).variables@ == old(self).variables@,
            final(self).all_scopes@ == old(self).all_scopes@,
            final(self).next_variable_id == old(self).next_variable_id,
    {
        let parents = &self.all_scopes[self.active_scope.0].parents;
        let parent = parents[parents.len() - 1];
        self.active_scope = parent;
    }

    /// Closing a scope gives back the lookups from before it was opened:
    /// when `inner` is `before` with one more scope, opened inside the
    /// active scope of `before` and active, whose declarations may have
    /// been added to it alone, and `after` is `inner` with its enclosing
    /// scope made active again, then `after` is back in the scope of
    /// `before` and sees every name as `before` did, so the declarations of
    /// the closed scope are no longer visible.
    pub proof fn lemma_end_scope_restores_lookups(before: Variables, inner: Variables, after: Variables)
        requires
            before.wf(),
            inner.active_scope.0 == before.all_scopes@.len(),
            inner.all_scopes@.len() == before.all_scopes@.len() + 1,
            inner.variables@.len() == before.variables@.len() + 1,
            forall|i: int| 0 <= i < before.variables@.len() ==> #[trigger] inner.variables@[i] == before.variables@[i],
            forall|i: int| 0 <= i < before.all_scopes@.len() ==> #[trigger] inner.all_scopes@[i] == before.all_scopes@[i],
            parent_of(inner.all_scopes@, inner.active_scope.0 as int) == Some(before.active_scope.0 as int),
            after.active_scope.0 == parent_of(inner.all_scopes@, inner.active_scope.0 as int)->Some_0,
            after.variables@ == inner.variables@,
            after.all_scopes@ == inner.all_scopes@,
        ensures
            after.active_scope == before.active_scope,
            forall|name: StringId| #[trigger] after.visible(after.active_scope.0 as int, name)
                == before.visible(before.active_scope.0 as int, name),
    {
        assert forall|name: StringId| #[trigger] after.visible(after.active_scope.0 as int, name)
            == before.visible(before.active_scope.0 as int, name) by {
            before.lemma_visible_prefix(after, before.active_scope.0 as int, name);
        }
    }
}

} // verus!
