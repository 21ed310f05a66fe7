//! Traits, their functions, and which types implement which traits.
use vstd::prelude::*;

use crate::comp::source::StringId;
use crate::comp::types::{BoundId, TypeId};
use crate::comp::variables::VariableId;

verus! {

/// The index of a registered trait.
#[derive(Debug, Clone, Copy, PartialEq, Eq, Hash, Structural)]
pub struct TraitId(pub usize);

/// The entry of `key` in a list of keyed lists: the list, or an empty one.
pub open spec fn entry_of<K, V>(entries: Seq<(K, Vec<V>)>, key: K) -> Seq<V> {
    if exists|i: int| 0 <= i < entries.len() && #[trigger] entries[i].0 == key {
        entries[choose|i: int| 0 <= i < entries.len() && #[trigger] entries[i].0 == key].1@
    } else {
        Seq::empty()
    }
}

/// Whether no key occurs twice.
pub open spec fn keys_distinct<K, V>(entries: Seq<(K, Vec<V>)>) -> bool {
    forall|i: int, j: int|
        0 <= i < j < entries.len() ==> #[trigger] entries[i].0 != #[trigger] entries[j].0
}

/// In a list whose keys are distinct, the entry of a key is the list at
/// the index that holds it.
proof fn lemma_entry_at<K, V>(entries: Seq<(K, Vec<V>)>, i: int)
    requires
        keys_distinct(entries),
        0 <= i < entries.len(),
    ensures
        entry_of(entries, entries[i].0) == entries[i].1@,
{
    let key = entries[i].0;
    let c = choose|c: int| 0 <= c < entries.len() && #[trigger] entries[c].0 == key;
    if c < i {
        assert(entries[c].0 != entries[i].0);
    } else if i < c {
        assert(entries[i].0 != entries[c].0);
    }
}

/// Appends `value` to the list of `key` in `entries`, which has distinct
/// keys.
fn push_entry<V>(entries: &mut Vec<(usize, Vec<V>)>, key: usize, value: V)
    requires
        keys_distinct(old(entries)@),
    ensures
        keys_distinct(final(entries)@),
        forall|k: usize| #[trigger] entry_of(final(entries)@, k) == if k == key {
            entry_of(old(entries)@, k).push(value)
        } else {
            entry_of(old(entries)@, k)
        },
{
    let n = entries.len();
    let mut i: usize = 0;
    while i < n
        invariant
            n == entries@.len(),
            i <= n,
            *entries == *old(entries),
            keys_distinct(entries@),
            forall|j: int| 0 <= j < i ==> #[trigger] entries@[j].0 != key,
        decreases n - i,
    {
        if entries[i].0 == key {
            let ghost before = entries@;
            let mut list: Vec<V> = Vec::new();
            std::mem::swap(&mut list, &mut entries[i].1);
            list.push(value);
            std::mem::swap(&mut list, &mut entries[i].1);
            proof {
                assert(entries@.len() == before.len());
                assert(entries@[i as int].0 == key);
                assert(forall|j: int| 0 <= j < before.len() && j != i ==> entries@[j] == before[j]);
                assert forall|a: int, b: int| 0 <= a < b < entries@.len() implies #[trigger] entries@[a].0
                    != #[trigger] entries@[b].0 by {
                    assert(entries@[a].0 == before[a].0);
                    assert(entries@[b].0 == before[b].0);
                }
                assert forall|k: usize| #[trigger] entry_of(entries@, k) == if k == key {
                    entry_of(before, k).push(value)
                } else {
                    entry_of(before, k)
                } by {
                    if exists|j: int| 0 <= j < before.len() && #[trigger] before[j].0 == k {
                        let j = choose|j: int| 0 <= j < before.len() && #[trigger] before[j].0 == k;
                        lemma_entry_at(before, j);
                        assert(entries@[j].0 == k);
                        lemma_entry_at(entries@, j);
                        if j != i {
                            assert(entries@[j] == before[j]);
                        } else {
                            assert(entries@[j].1@ == before[j].1@.push(value));
                        }
                    } else {
                        assert forall|j: int| 0 <= j < entries@.len() implies #[trigger] entries@[j].0 != k by {
                            assert(entries@[j].0 == before[j].0);
                        }
                    }
                }
            }
            return;
        }
        i = i + 1;
    }
    let ghost before = entries@;
    let mut list: Vec<V> = Vec::new();
    list.push(value);
    entries.push((key, list));
    proof {
        let last = (entries@.len() - 1) as int;
        assert forall|a: int, b: int| 0 <= a < b < entries@.len() implies #[trigger] entries@[a].0
            != #[trigger] entries@[b].0 by {
            if b == last {
                assert(entries@[a] == before[a]);
            } else {
                assert(entries@[a] == before[a]);
                assert(entries@[b] == before[b]);
            }
        }
        assert forall|k: usize| #[trigger] entry_of(entries@, k) == if k == key {
            entry_of(before, k).push(value)
        } else {
            entry_of(before, k)
        } by {
            if k == key {
                lemma_entry_at(entries@, last);
                assert(entries@[last].1@ =~= Seq::empty().push(value));
                assert(!(exists|j: int| 0 <= j < before.len() && #[trigger] before[j].0 == k));
            } else if exists|j: int| 0 <= j < before.len() && #[trigger] before[j].0 == k {
                let j = choose|j: int| 0 <= j < before.len() && #[trigger] before[j].0 == k;
                lemma_entry_at(before, j);
                assert(entries@[j] == before[j]);
                lemma_entry_at(entries@, j);
            } else {
                assert forall|j: int| 0 <= j < entries@.len() implies #[trigger] entries@[j].0 != k by {
                    if j < last {
                        assert(entries@[j] == before[j]);
                    }
                }
            }
        }
    }
}

/// Which types implement which traits, both ways.
pub struct TraitImplementors {
    /// For each trait index, the types that implement the trait.
    pub trait_to_types: Vec<(usize, Vec<TypeId>)>,
    /// For each type index, the traits the type implements.
    pub type_to_trait: Vec<(usize, Vec<TraitId>)>,
}

impl TraitImplementors {
    /// Both tables have distinct keys.
    pub open spec fn wf(&self) -> bool {
        keys_distinct(self.trait_to_types@) && keys_distinct(self.type_to_trait@)
    }

    /// The traits registered for `t`, in the order of registration.
    pub open spec fn traits_of(&self, t: TypeId) -> Seq<TraitId> {
        entry_of(self.type_to_trait@, t.0)
    }

    /// The types registered for `t`, in the order of registration.
    pub open spec fn types_of(&self, t: TraitId) -> Seq<TypeId> {
        entry_of(self.trait_to_types@, t.0)
    }

    pub fn new() -> (r: TraitImplementors)
        ensures
            r.wf(),
            forall|t: TypeId| #[trigger] r.traits_of(t).len() == 0,
            forall|t: TraitId| #[trigger] r.types_of(t).len() == 0,
    {
        TraitImplementors { trait_to_types: Vec::new(), type_to_trait: Vec::new() }
    }

    /// The traits that `base_type` implements.
    pub fn find_traits(&self, base_type: TypeId) -> (r: &[TraitId])
        requires
            self.wf(),
        ensures
            r@ == self.traits_of(base_type),
    {
        let mut i: usize = 0;
        while i < self.type_to_trait.len()
            invariant
                i <= self.type_to_trait@.len(),
                self.wf(),
                forall|j: int| 0 <= j < i ==> #[trigger] self.type_to_trait@[j].0 != base_type.0,
            decreases self.type_to_trait@.len() - i,
        {
            if self.type_to_trait[i].0 == base_type.0 {
                proof {
                    lemma_entry_at(self.type_to_trait@, i as int);
                }
                return self.type_to_trait[i].1.as_slice();
            }
            i = i + 1;
        }
        &[]
    }

    /// Notes that `type_` implements `trait_`.
    pub fn register(&mut self, type_: TypeId, trait_: TraitId)
        requires
            old(self).wf(),
        ensures
            final(self).wf(),
            forall|t: TypeId| #[trigger] final(self).traits_of(t) == if t == type_ {
                old(self).traits_of(t).push(trait_)
            } else {
                old(self).traits_of(t)
            },
            forall|t: TraitId| #[trigger] final(self).types_of(t) == if t == trait_ {
                old(self).types_of(t).push(type_)
            } else {
                old(self).types_of(t)
            },
    {
        push_entry(&mut self.type_to_trait, type_.0, trait_);
        push_entry(&mut self.trait_to_types, trait_.0, type_);
    }
}

/// A function that a trait provides for a type.
#[derive(Debug, Clone, Copy, PartialEq, Eq, Structural)]
pub struct TraitFunction {
    pub type_: TypeId,
    pub name: VariableId,
    pub implementation: BoundId,
}

/// A trait: its name and its functions.
#[derive(Debug)]
pub struct Trait {
    pub name: VariableId,
    pub functions: Vec<TraitFunction>,
}

impl Trait {
    /// The first function whose name is `name`.
    pub fn find_function_by_name(&self, name: StringId) -> (r: Option<TraitFunction>)
        ensures
            match r {
                Some(f) => exists|k: int|
                    0 <= k < self.functions@.len() && self.functions@[k] == f && f.name.1 == name
                        && forall|j: int| 0 <= j < k ==> #[trigger] self.functions@[j].name.1 != name,
                None => forall|j: int| 0 <= j < self.functions@.len() ==> #[trigger] self.functions@[j].name.1 != name,
            },
    {
        let mut k: usize = 0;
        while k < self.functions.len()
            invariant
                k <= self.functions@.len(),
                forall|j: int| 0 <= j < k ==> #[trigger] self.functions@[j].name.1 != name,
            decreases self.functions@.len() - k,
        {
            if self.functions[k].name.1 == name {
                return Some(self.functions[k]);
            }
            k = k + 1;
        }
        None
    }
}

/// The registered traits, each named by its index; no two have the same
/// name.
pub struct Traits {
    pub traits: Vec<Trait>,
}

impl Traits {
    pub fn new() -> (r: Traits)
        ensures
            r.traits@.len() == 0,
    {
        Traits { traits: Vec::new() }
    }

    /// The index of the trait named like `trait_`, which is added when no
    /// trait has its name.
    pub fn register(&mut self, trait_: Trait) -> (r: TraitId)
        ensures
            (exists|k: int| 0 <= k < old(self).traits@.len() && #[trigger] old(self).traits@[k].name
                == trait_.name) ==> final(self).traits@ == old(self).traits@ && r.0 < old(self).traits@.len()
                && old(self).traits@[r.0 as int].name == trait_.name && forall|j: int|
                0 <= j < r.0 ==> #[trigger] old(self).traits@[j].name != trait_.name,
            !(exists|k: int| 0 <= k < old(self).traits@.len() && #[trigger] old(self).traits@[k].name
                == trait_.name) ==> final(self).traits@ == old(self).traits@.push(trait_) && r.0
                == old(self).traits@.len(),
    {
        let mut k: usize = 0;
        while k < self.traits.len()
            invariant
                k <= self.traits@.len(),
                *self == *old(self),
                forall|j: int| 0 <= j < k ==> #[trigger] self.traits@[j].name != trait_.name,
            decreases self.traits@.len() - k,
        {
            if self.traits[k].name == trait_.name {
                return TraitId(k);
            }
            k = k + 1;
        }
        let index = self.traits.len();
        self.traits.push(trait_);
        TraitId(index)
    }

    /// The trait named by `index`.
    pub fn get(&self, index: TraitId) -> (r: &Trait)
        requires
            index.0 < self.traits@.len(),
        ensures
            *r == self.traits@[index.0 as int],
    {
        &self.traits[index.0]
    }
}

} // verus!
