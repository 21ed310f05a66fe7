//! What plugins that watch the emulator ask of it, and the plugins
//! themselves.
use vstd::prelude::*;

use crate::memory::{Memory, MemoryView};
use crate::registers::{RegisterIndex, Registers};

pub mod debug_symbols;
pub mod debugger;
pub mod function_watcher;
pub mod timetravel;

verus! {

/// The value of the first change of `address` in `changes`.
pub open spec fn first_change(changes: Seq<(u32, u8)>, address: u32) -> Option<u8>
    decreases changes.len(),
{
    if changes.len() == 0 {
        None
    } else if changes[0].0 == address {
        Some(changes[0].1)
    } else {
        first_change(changes.drop_first(), address)
    }
}

/// Whether the addresses of `changes` strictly increase.
pub open spec fn strictly_sorted(changes: Seq<(u32, u8)>) -> bool {
    forall|i: int, j: int| 0 <= i < j < changes.len() ==> #[trigger] changes[i].0 < #[trigger] changes[j].0
}

/// The first change of an address is the one at the first index that
/// holds it; there is none when no index holds it.
pub proof fn lemma_first_change(changes: Seq<(u32, u8)>, address: u32)
    ensures
        first_change(changes, address) is None <==> forall|k: int|
            0 <= k < changes.len() ==> #[trigger] changes[k].0 != address,
        first_change(changes, address) is Some ==> exists|k: int|
            0 <= k < changes.len() && #[trigger] changes[k].0 == address && changes[k].1
                == first_change(changes, address)->Some_0 && forall|j: int|
                0 <= j < k ==> #[trigger] changes[j].0 != address,
    decreases changes.len(),
{
    if changes.len() > 0 {
        let rest = changes.drop_first();
        lemma_first_change(rest, address);
        if changes[0].0 != address {
            if first_change(rest, address) is Some {
                let k = choose|k: int|
                    0 <= k < rest.len() && #[trigger] rest[k].0 == address && rest[k].1
                        == first_change(rest, address)->Some_0 && forall|j: int|
                        0 <= j < k ==> #[trigger] rest[j].0 != address;
                assert(changes[k + 1] == rest[k]);
                assert forall|j: int| 0 <= j < k + 1 implies #[trigger] changes[j].0 != address by {
                    if j > 0 {
                        assert(changes[j] == rest[j - 1]);
                    }
                }
            } else {
                assert forall|k: int| 0 <= k < changes.len() implies #[trigger] changes[k].0
                    != address by {
                    if k > 0 {
                        assert(changes[k] == rest[k - 1]);
                    }
                }
            }
        }
    }
}

/// In a list whose addresses strictly increase, the change of an address
/// is the one at the index that holds it.
pub proof fn lemma_first_change_sorted(changes: Seq<(u32, u8)>, k: int)
    requires
        strictly_sorted(changes),
        0 <= k < changes.len(),
    ensures
        first_change(changes, changes[k].0) == Some(changes[k].1),
{
    lemma_first_change(changes, changes[k].0);
    if first_change(changes, changes[k].0) is Some {
        let i = choose|i: int|
            0 <= i < changes.len() && #[trigger] changes[i].0 == changes[k].0 && changes[i].1
                == first_change(changes, changes[k].0)->Some_0 && forall|j: int|
                0 <= j < i ==> #[trigger] changes[j].0 != changes[k].0;
        assert(i == k);
    }
}

/// The first change of an address in two lists one after the other is the
/// one of the first list, else the one of the second.
pub proof fn lemma_first_change_concat(a: Seq<(u32, u8)>, b: Seq<(u32, u8)>, address: u32)
    ensures
        first_change(a + b, address) == match first_change(a, address) {
            Some(v) => Some(v),
            None => first_change(b, address),
        },
    decreases a.len(),
{
    if a.len() == 0 {
        assert(a + b =~= b);
    } else {
        assert((a + b)[0] == a[0]);
        assert((a + b).drop_first() =~= a.drop_first() + b);
        lemma_first_change_concat(a.drop_first(), b, address);
    }
}

/// The register file after applying the first `n` entries of `changes`,
/// register number `i` taking the value of entry `i` where it holds one.
pub open spec fn registers_after_changes(
    registers: Registers,
    changes: Seq<Option<u32>>,
    n: nat,
) -> Registers
    decreases n,
{
    if n == 0 {
        registers
    } else {
        let before = registers_after_changes(registers, changes, (n - 1) as nat);
        match changes[n - 1] {
            Some(value) => before.spec_write(RegisterIndex::from_raw((n - 1) as nat).unwrap(), value),
            None => before,
        }
    }
}

/// Whether each of the first `n` register changes can be applied in turn:
/// the register it changes can be located at that point.
pub open spec fn can_apply_register_changes(
    registers: Registers,
    changes: Seq<Option<u32>>,
    n: nat,
) -> bool
    decreases n,
{
    n == 0 || (can_apply_register_changes(registers, changes, (n - 1) as nat) && (changes[n
        - 1] is Some ==> registers_after_changes(registers, changes, (n - 1) as nat).can_access(
        RegisterIndex::from_raw((n - 1) as nat).unwrap(),
    )))
}

/// The bus after writing the first `n` of `changes` one byte after the
/// other.
pub open spec fn memory_after_changes(memory: MemoryView, changes: Seq<(u32, u8)>, n: nat) -> MemoryView
    decreases n,
{
    if n == 0 {
        memory
    } else {
        let before = memory_after_changes(memory, changes, (n - 1) as nat);
        before.after_write(changes[n - 1].0, seq![changes[n - 1].1])
    }
}

/// Whether each of the first `n` byte writes of `changes` can be performed
/// in turn.
pub open spec fn can_apply_memory_changes(memory: MemoryView, changes: Seq<(u32, u8)>, n: nat) -> bool
    decreases n,
{
    n == 0 || ({
        let before = memory_after_changes(memory, changes, (n - 1) as nat);
        &&& can_apply_memory_changes(memory, changes, (n - 1) as nat)
        &&& changes[n - 1].0 < u32::MAX
        &&& (!MemoryView::is_read_only(changes[n - 1].0, 1) ==> before.can_write(
            changes[n - 1].0,
            seq![changes[n - 1].1],
        ))
    })
}

/// The first change of an address after appending a change is the old
/// one, else the appended one if it is of that address.
pub proof fn lemma_first_change_push(changes: Seq<(u32, u8)>, change: (u32, u8), address: u32)
    ensures
        first_change(changes.push(change), address) == match first_change(changes, address) {
            Some(v) => Some(v),
            None => if address == change.0 {
                Some(change.1)
            } else {
                None
            },
        },
{
    let single = seq![change];
    assert(changes.push(change) =~= changes + single);
    lemma_first_change_concat(changes, single, address);
    assert(single[0] == change);
    assert(single.drop_first() =~= Seq::<(u32, u8)>::empty());
    assert(first_change(single.drop_first(), address) is None);
    assert(first_change(single, address) == if change.0 == address {
        Some(change.1)
    } else {
        None::<u8>
    });
}

/// Register changes that can be applied can be applied in part.
pub proof fn lemma_can_apply_register_changes_prefix(
    registers: Registers,
    changes: Seq<Option<u32>>,
    n: nat,
    m: nat,
)
    requires
        m <= n,
        can_apply_register_changes(registers, changes, n),
    ensures
        can_apply_register_changes(registers, changes, m),
    decreases n,
{
    if m < n {
        lemma_can_apply_register_changes_prefix(registers, changes, (n - 1) as nat, m);
    }
}

/// Byte writes that can be performed can be performed in part.
pub proof fn lemma_can_apply_memory_changes_prefix(
    memory: MemoryView,
    changes: Seq<(u32, u8)>,
    n: nat,
    m: nat,
)
    requires
        m <= n,
        can_apply_memory_changes(memory, changes, n),
    ensures
        can_apply_memory_changes(memory, changes, m),
    decreases n,
{
    if m < n {
        lemma_can_apply_memory_changes_prefix(memory, changes, (n - 1) as nat, m);
    }
}

/// What a plugin asks of the emulator before an instruction runs: to pause
/// or to stop, and values for registers and bytes of memory.
#[derive(Debug, Clone, PartialEq, Eq)]
pub struct PluginWishes {
    pub pause_execution: bool,
    pub stop_execution: bool,
    pub register_changes: [Option<u32>; 18],
    pub memory_changes: Vec<(u32, u8)>,
}

impl Default for PluginWishes {
    /// No wishes.
    fn default() -> (r: PluginWishes)
        ensures
            !r.pause_execution,
            !r.stop_execution,
            forall|i: int| 0 <= i < 18 ==> #[trigger] r.register_changes@[i] is None,
            r.memory_changes@.len() == 0,
    {
        PluginWishes {
            pause_execution: false,
            stop_execution: false,
            register_changes: [None; 18],
            memory_changes: Vec::new(),
        }
    }
}

impl PluginWishes {
    /// Writes each wished register value, in the order of the register
    /// numbers, into the bank that holds the register at that point.
    pub fn apply_register_changes(&self, registers: &mut Registers)
        requires
            can_apply_register_changes(*old(registers), self.register_changes@, 18),
        ensures
            *final(registers) == registers_after_changes(
                *old(registers),
                self.register_changes@,
                18,
            ),
    {
        let ghost start = *registers;
        let mut i: u32 = 0;
        while i < 18
            invariant
                i <= 18,
                can_apply_register_changes(start, self.register_changes@, 18),
                *registers == registers_after_changes(start, self.register_changes@, i as nat),
            decreases 18 - i,
        {
            proof {
                lemma_can_apply_register_changes_prefix(start, self.register_changes@, 18, (i + 1) as nat);
            }
            if let Some(value) = self.register_changes[i as usize] {
                let register = match RegisterIndex::try_from_u32(i) {
                    Ok(r) => r,
                    Err(()) => RegisterIndex::R0,
                };
                registers.write(register, value);
            }
            i = i + 1;
        }
    }

    /// Writes each wished byte, in the order of the list.
    pub fn apply_memory_changes(&self, memory: &mut Memory)
        requires
            old(memory).wf(),
            can_apply_memory_changes(old(memory)@, self.memory_changes@, self.memory_changes@.len()),
        ensures
            final(memory).wf(),
            final(memory)@ == memory_after_changes(
                old(memory)@,
                self.memory_changes@,
                self.memory_changes@.len(),
            ),
    {
        let ghost start = memory@;
        let n = self.memory_changes.len();
        let mut i: usize = 0;
        while i < n
            invariant
                i <= n,
                n == self.memory_changes@.len(),
                memory.wf(),
                can_apply_memory_changes(start, self.memory_changes@, n as nat),
                memory@ == memory_after_changes(start, self.memory_changes@, i as nat),
            decreases n - i,
        {
            proof {
                lemma_can_apply_memory_changes_prefix(start, self.memory_changes@, n as nat, (i + 1) as nat);
            }
            let (address, byte) = self.memory_changes[i];
            memory.write_byte_to(address, byte);
            i = i + 1;
        }
    }

    /// Whether the plugin asks to pause.
    pub fn pause_execution(&self) -> (r: bool)
        ensures
            r == self.pause_execution,
    {
        self.pause_execution
    }

    /// Both wishes at once: pausing or stopping if either asks for it, each
    /// register value of `self` where it has one, else of `other`, and for
    /// each address the first of the changes of `self` and then `other`,
    /// ordered by address.
    pub fn combined_with(self, other: Self) -> (r: Self)
        ensures
            is_combination(r, self, other),
    {
        let mut memory_changes: Vec<(u32, u8)> = Vec::new();
        let n1 = self.memory_changes.len();
        let mut i: usize = 0;
        while i < n1
            invariant
                n1 == self.memory_changes@.len(),
                i <= n1,
                strictly_sorted(memory_changes@),
                forall|a: u32| #[trigger]
                    first_change(memory_changes@, a) == first_change(self.memory_changes@.take(i as int), a),
            decreases n1 - i,
        {
            let change = self.memory_changes[i];
            insert_first_change(&mut memory_changes, change);
            proof {
                assert(self.memory_changes@.take(i + 1) =~= self.memory_changes@.take(i as int).push(change));
                assert forall|a: u32| #[trigger]
                    first_change(memory_changes@, a) == first_change(self.memory_changes@.take(i + 1), a) by {
                    lemma_first_change_push(self.memory_changes@.take(i as int), change, a);
                }
            }
            i = i + 1;
        }
        assert(self.memory_changes@.take(n1 as int) =~= self.memory_changes@);
        let n2 = other.memory_changes.len();
        let mut j: usize = 0;
        while j < n2
            invariant
                n2 == other.memory_changes@.len(),
                j <= n2,
                strictly_sorted(memory_changes@),
                forall|a: u32| #[trigger]
                    first_change(memory_changes@, a) == first_change(
                        self.memory_changes@ + other.memory_changes@.take(j as int),
                        a,
                    ),
            decreases n2 - j,
        {
            let change = other.memory_changes[j];
            insert_first_change(&mut memory_changes, change);
            proof {
                let before = self.memory_changes@ + other.memory_changes@.take(j as int);
                assert(self.memory_changes@ + other.memory_changes@.take(j + 1) =~= before.push(change));
                assert forall|a: u32| #[trigger]
                    first_change(memory_changes@, a) == first_change(
                        self.memory_changes@ + other.memory_changes@.take(j + 1),
                        a,
                    ) by {
                    lemma_first_change_push(before, change, a);
                }
            }
            j = j + 1;
        }
        assert(other.memory_changes@.take(n2 as int) =~= other.memory_changes@);
        let mut register_changes: [Option<u32>; 18] = [None; 18];
        let mut k: usize = 0;
        while k < 18
            invariant
                k <= 18,
                forall|j: int|
                    0 <= j < k ==> #[trigger] register_changes@[j] == match self.register_changes@[j] {
                        Some(v) => Some(v),
                        None => other.register_changes@[j],
                    },
            decreases 18 - k,
        {
            register_changes[k] = match self.register_changes[k] {
                Some(v) => Some(v),
                None => other.register_changes[k],
            };
            k = k + 1;
        }
        PluginWishes {
            pause_execution: self.pause_execution || other.pause_execution,
            stop_execution: self.stop_execution || other.stop_execution,
            register_changes,
            memory_changes,
        }
    }
}

/// Whether `r` asks for what `a` and `b` ask for together: to pause or stop
/// if either does, the register values of `a` where it has them, else
/// those of `b`, and for each address the change of `a` where it has one,
/// else that of `b`, one change per address in the order of the addresses.
pub open spec fn is_combination(r: PluginWishes, a: PluginWishes, b: PluginWishes) -> bool {
    &&& r.pause_execution == (a.pause_execution || b.pause_execution)
    &&& r.stop_execution == (a.stop_execution || b.stop_execution)
    &&& forall|i: int|
        0 <= i < 18 ==> #[trigger] r.register_changes@[i] == match a.register_changes@[i] {
            Some(v) => Some(v),
            None => b.register_changes@[i],
        }
    &&& strictly_sorted(r.memory_changes@)
    &&& forall|x: u32| #[trigger]
        first_change(r.memory_changes@, x) == first_change(a.memory_changes@ + b.memory_changes@, x)
}

/// Two lists of changes ordered by address that change the same
/// addresses to the same values are the same list.
pub proof fn lemma_sorted_changes_unique(s: Seq<(u32, u8)>, t: Seq<(u32, u8)>)
    requires
        strictly_sorted(s),
        strictly_sorted(t),
        forall|x: u32| #[trigger] first_change(s, x) == first_change(t, x),
    ensures
        s == t,
    decreases s.len() + t.len(),
{
    if s.len() == 0 && t.len() == 0 {
        assert(s =~= t);
    } else if s.len() == 0 {
        lemma_first_change_sorted(t, 0);
        lemma_first_change(s, t[0].0);
    } else if t.len() == 0 {
        lemma_first_change_sorted(s, 0);
        lemma_first_change(t, s[0].0);
    } else {
        lemma_first_change_sorted(s, 0);
        lemma_first_change_sorted(t, 0);
        lemma_first_change(s, t[0].0);
        lemma_first_change(t, s[0].0);
        assert(s[0].0 == t[0].0) by {
            if s[0].0 < t[0].0 {
                let k = choose|k: int|
                    0 <= k < t.len() && #[trigger] t[k].0 == s[0].0 && t[k].1 == first_change(
                        t,
                        s[0].0,
                    )->Some_0 && forall|j: int| 0 <= j < k ==> #[trigger] t[j].0 != s[0].0;
                if k > 0 {
                    assert(t[0].0 < t[k].0);
                }
            } else if t[0].0 < s[0].0 {
                let k = choose|k: int|
                    0 <= k < s.len() && #[trigger] s[k].0 == t[0].0 && s[k].1 == first_change(
                        s,
                        t[0].0,
                    )->Some_0 && forall|j: int| 0 <= j < k ==> #[trigger] s[j].0 != t[0].0;
                if k > 0 {
                    assert(s[0].0 < s[k].0);
                }
            }
        }
        let s1 = s.drop_first();
        let t1 = t.drop_first();
        assert forall|x: u32| #[trigger] first_change(s1, x) == first_change(t1, x) by {
            if x == s[0].0 {
                lemma_first_change(s1, x);
                lemma_first_change(t1, x);
                assert forall|k: int| 0 <= k < s1.len() implies #[trigger] s1[k].0 != x by {
                    assert(s[0].0 < s[k + 1].0);
                }
                assert forall|k: int| 0 <= k < t1.len() implies #[trigger] t1[k].0 != x by {
                    assert(t[0].0 < t[k + 1].0);
                }
            } else {
                assert(first_change(s, x) == first_change(t, x));
                assert(first_change(s, x) == first_change(s1, x));
                assert(first_change(t, x) == first_change(t1, x));
            }
        }
        assert forall|i: int, j: int| 0 <= i < j < s1.len() implies #[trigger] s1[i].0
            < #[trigger] s1[j].0 by {
            assert(s[i + 1].0 < s[j + 1].0);
        }
        assert forall|i: int, j: int| 0 <= i < j < t1.len() implies #[trigger] t1[i].0
            < #[trigger] t1[j].0 by {
            assert(t[i + 1].0 < t[j + 1].0);
        }
        lemma_sorted_changes_unique(s1, t1);
        assert(s =~= seq![s[0]] + s1);
        assert(t =~= seq![t[0]] + t1);
    }
}

/// Combining wishes is associative: combining `a` and `b` and then `c`
/// asks for the same as combining `a` with the combination of `b` and `c`.
pub proof fn lemma_combination_associative(
    a: PluginWishes,
    b: PluginWishes,
    c: PluginWishes,
    ab: PluginWishes,
    ab_c: PluginWishes,
    bc: PluginWishes,
    a_bc: PluginWishes,
)
    requires
        is_combination(ab, a, b),
        is_combination(ab_c, ab, c),
        is_combination(bc, b, c),
        is_combination(a_bc, a, bc),
    ensures
        ab_c.pause_execution == a_bc.pause_execution,
        ab_c.stop_execution == a_bc.stop_execution,
        ab_c.register_changes@ == a_bc.register_changes@,
        ab_c.memory_changes@ == a_bc.memory_changes@,
{
    assert forall|x: u32| #[trigger] first_change(ab_c.memory_changes@, x) == first_change(
        a_bc.memory_changes@,
        x,
    ) by {
        lemma_first_change_concat(ab.memory_changes@, c.memory_changes@, x);
        lemma_first_change_concat(a.memory_changes@, b.memory_changes@, x);
        lemma_first_change_concat(a.memory_changes@, bc.memory_changes@, x);
        lemma_first_change_concat(b.memory_changes@, c.memory_changes@, x);
    }
    lemma_sorted_changes_unique(ab_c.memory_changes@, a_bc.memory_changes@);
    assert(ab_c.register_changes@ =~= a_bc.register_changes@);
}

/// Combining with no wishes, on either side, leaves wishes whose changes
/// are one per address in the order of the addresses as they are.
pub proof fn lemma_combination_with_nothing(a: PluginWishes, none: PluginWishes, r1: PluginWishes, r2: PluginWishes)
    requires
        strictly_sorted(a.memory_changes@),
        !none.pause_execution,
        !none.stop_execution,
        forall|i: int| 0 <= i < 18 ==> #[trigger] none.register_changes@[i] is None,
        none.memory_changes@.len() == 0,
        is_combination(r1, a, none),
        is_combination(r2, none, a),
    ensures
        r1.pause_execution == a.pause_execution && r2.pause_execution == a.pause_execution,
        r1.stop_execution == a.stop_execution && r2.stop_execution == a.stop_execution,
        r1.register_changes@ == a.register_changes@ && r2.register_changes@ == a.register_changes@,
        r1.memory_changes@ == a.memory_changes@ && r2.memory_changes@ == a.memory_changes@,
{
    assert(a.memory_changes@ + none.memory_changes@ =~= a.memory_changes@);
    assert(none.memory_changes@ + a.memory_changes@ =~= a.memory_changes@);
    lemma_sorted_changes_unique(r1.memory_changes@, a.memory_changes@);
    lemma_sorted_changes_unique(r2.memory_changes@, a.memory_changes@);
    assert(r1.register_changes@ =~= a.register_changes@);
    assert(r2.register_changes@ =~= a.register_changes@);
}

/// Adds `change` to the list of first changes `changes`, which is ordered
/// by address, unless its address already has a change.
fn insert_first_change(changes: &mut Vec<(u32, u8)>, change: (u32, u8))
    requires
        strictly_sorted(old(changes)@),
    ensures
        strictly_sorted(final(changes)@),
        forall|a: u32| #[trigger]
            first_change(final(changes)@, a) == match first_change(old(changes)@, a) {
                Some(v) => Some(v),
                None => if a == change.0 {
                    Some(change.1)
                } else {
                    None
                },
            },
{
    let n = changes.len();
    let mut p: usize = 0;
    while p < n && changes[p].0 < change.0
        invariant
            p <= n,
            n == changes@.len(),
            *changes == *old(changes),
            forall|j: int| 0 <= j < p ==> #[trigger] changes@[j].0 < change.0,
        decreases n - p,
    {
        p = p + 1;
    }
    if p < n && changes[p].0 == change.0 {
        proof {
            assert forall|a: u32| #[trigger] first_change(changes@, a) is None implies a != change.0 by {
                lemma_first_change(changes@, a);
            }
        }
        return;
    }
    let ghost before = changes@;
    proof {
        assert forall|j: int| p <= j < n implies #[trigger] before[j].0 > change.0 by {
            if j > p {
                assert(before[p as int].0 < before[j].0);
            }
        }
    }
    changes.insert(p, change);
    proof {
        let after = changes@;
        assert(after =~= before.subrange(0, p as int) + seq![change] + before.subrange(p as int, n as int));
        assert forall|j: int| 0 <= j < after.len() implies #[trigger] after[j] == if j < p {
            before[j]
        } else if j == p {
            change
        } else {
            before[j - 1]
        } by {}
        assert forall|x: int, y: int| 0 <= x < y < after.len() implies #[trigger] after[x].0
            < #[trigger] after[y].0 by {
            if y < p {
            } else if y == p {
            } else if x < p {
                assert(before[x].0 < change.0);
            } else if x == p {
            } else {
                assert(before[x - 1].0 < before[y - 1].0);
            }
        }
        assert forall|a: u32| #[trigger] first_change(after, a) == match first_change(before, a) {
            Some(v) => Some(v),
            None => if a == change.0 {
                Some(change.1)
            } else {
                None
            },
        } by {
            lemma_first_change(before, a);
            lemma_first_change(after, a);
            if first_change(before, a) is Some {
                let k = choose|k: int|
                    0 <= k < before.len() && #[trigger] before[k].0 == a && before[k].1
                        == first_change(before, a)->Some_0 && forall|j: int|
                        0 <= j < k ==> #[trigger] before[j].0 != a;
                let k2 = if k < p { k } else { k + 1 };
                assert(after[k2] == before[k]);
                lemma_first_change_sorted(after, k2);
            } else if a == change.0 {
                assert(after[p as int] == change);
                lemma_first_change_sorted(after, p as int);
            } else {
                assert forall|k: int| 0 <= k < after.len() implies #[trigger] after[k].0 != a by {
                    if k < p {
                        assert(after[k] == before[k]);
                    } else if k > p {
                        assert(after[k] == before[k - 1]);
                    }
                }
            }
        }
    }
}

} // verus!
