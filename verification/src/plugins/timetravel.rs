//! A bounded history of executed instructions that can be undone one at a
//! time.
use vstd::prelude::*;
use std::collections::VecDeque;

use crate::instructions::{can_compute_stored_range, stored_range, Instruction};
use crate::memory::{Memory, MemoryView};
use crate::plugins::{can_apply_register_changes, registers_after_changes};
use crate::registers::{load_bank, RegisterIndex, Registers};

verus! {

/// An instruction about to run, with the registers before it.
pub struct InstructionReversionBuilder {
    pub ip: u32,
    pub registers_before: Registers,
    pub instruction: Instruction,
}

/// What undoes one instruction: the registers before it, and the bytes it
/// overwrote with their old values.
pub struct InstructionReversion {
    pub ip: u32,
    pub registers: [u32; 18],
    pub address_range: Option<std::ops::Range<u32>>,
    pub memory: Vec<u8>,
}

/// The stored values of the registers as the current mode sees them.
pub open spec fn register_values(registers: Registers) -> Seq<u32> {
    Seq::new(18, |i: int| registers.spec_read_raw(RegisterIndex::from_raw(i as nat).unwrap()))
}

/// Whether a recorded range of addresses and its bytes fit each other.
pub open spec fn reversion_wf(r: InstructionReversion) -> bool {
    match r.address_range {
        Some(range) => range.start <= range.end && r.memory@.len() == range.end - range.start,
        None => r.memory@.len() == 0,
    }
}

/// Whether `r` records the instruction of `b` on the bus `memory`: it
/// holds the registers before the instruction, the addresses the
/// instruction stores to, and the bytes `memory` holds there.
pub open spec fn is_reversion_of(r: InstructionReversion, b: InstructionReversionBuilder, memory: MemoryView) -> bool {
    &&& r.ip == b.ip
    &&& r.registers@ == register_values(b.registers_before)
    &&& match stored_range(b.instruction, b.registers_before) {
        Some((start, end)) => r.address_range matches Some(range) && range.start == start
            && range.end == end && r.memory@ == Seq::new(
            (end - start) as nat,
            |k: int| memory.byte_of((start + k) as u32, 0),
        ),
        None => r.address_range is None && r.memory@.len() == 0,
    }
}

/// Whether the instruction of `b` can be recorded from `memory`: the
/// registers can be read, the stored range computed and each of its bytes
/// read.
pub open spec fn can_record(b: InstructionReversionBuilder, memory: MemoryView) -> bool {
    &&& b.registers_before.mode_is_valid()
    &&& can_compute_stored_range(b.instruction, b.registers_before)
    &&& match stored_range(b.instruction, b.registers_before) {
        Some((start, end)) => forall|a: int| start <= a < end ==> #[trigger] memory.can_read(a as u32, 1),
        None => true,
    }
}

/// The last instructions executed, oldest first, fewer than `capacity` of
/// them, and the instruction about to run.
pub struct History {
    pub capacity: usize,
    pub entries: VecDeque<InstructionReversion>,
    pub next_entry: Option<InstructionReversionBuilder>,
}

impl History {
    /// Every entry's bytes fit its range of addresses.
    pub open spec fn wf(&self) -> bool {
        forall|i: int| 0 <= i < self.entries@.len() ==> reversion_wf(#[trigger] self.entries@[i])
    }

    /// How many entries are kept when one more must fit.
    pub open spec fn kept_for_one_more(&self) -> int {
        if self.entries@.len() + 1 < self.capacity {
            self.entries@.len() as int
        } else {
            self.capacity - 2
        }
    }

    /// An empty history that holds fewer than `history_capacity` entries.
    pub fn new(history_capacity: usize) -> (r: History)
        ensures
            r.wf(),
            r.capacity == history_capacity,
            r.entries@.len() == 0,
            r.next_entry is None,
    {
        History { capacity: history_capacity, entries: VecDeque::new(), next_entry: None }
    }

    /// Notes the instruction about to run at `ip` and the registers before
    /// it.
    pub fn start_entry(
        &mut self,
        ip: u32,
        registers: Registers,
        instruction: Instruction,
        memory: &Memory,
    )
        requires
            old(self).wf(),
        ensures
            final(self).wf(),
            final(self).capacity == old(self).capacity,
            final(self).entries@ == old(self).entries@,
            final(self).next_entry matches Some(b) && b.ip == ip && b.registers_before == registers
                && b.instruction == instruction,
    {
        self.next_entry = Some(InstructionReversionBuilder { ip, registers_before: registers, instruction });
    }

    /// Records the instruction noted by `start_entry`, dropping the oldest
    /// entries to make room; when the capacity leaves no room, drops all
    /// and records nothing.
    pub fn finish_entry(&mut self, registers: Registers, memory: &mut Memory)
        requires
            old(self).wf(),
            old(memory).wf(),
            old(self).capacity > 1 ==> (old(self).next_entry matches Some(b) && can_record(
                b,
                old(memory)@,
            )),
        ensures
            final(self).wf(),
            *final(memory) == *old(memory),
            final(self).capacity == old(self).capacity,
            final(self).next_entry is None,
            old(self).capacity <= 1 ==> final(self).entries@.len() == 0,
            old(self).capacity > 1 ==> {
                let kept = old(self).kept_for_one_more();
                &&& final(self).entries@.len() == kept + 1
                &&& final(self).entries@.take(kept) == old(self).entries@.skip(
                    old(self).entries@.len() - kept,
                )
                &&& is_reversion_of(
                    final(self).entries@.last(),
                    old(self).next_entry->Some_0,
                    old(memory)@,
                )
            },
    {
        if !self.make_space(1) {
            self.next_entry = None;
            return;
        }
        let entry = match self.next_entry.take() {
            Some(e) => e,
            None => {
                proof {
                    assert(false);
                }
                return;
            },
        };
        let values = entry.registers_before.read_values_to_array();
        let address_range = entry.instruction.accessed_memory_addresses(entry.registers_before);
        let mut bytes: Vec<u8> = Vec::new();
        match &address_range {
            Some(range) => {
                let start = range.start;
                let end = range.end;
                let mut a: u32 = start;
                while a < end
                    invariant
                        start <= a <= end,
                        memory.wf(),
                        forall|x: int| start <= x < end ==> #[trigger] memory@.can_read(x as u32, 1),
                        bytes@ == Seq::new(
                            (a - start) as nat,
                            |k: int| memory@.byte_of((start + k) as u32, 0),
                        ),
                    decreases end - a,
                {
                    assert(memory@.can_read(a as u32, 1));
                    let b = memory.read_byte_at_silent(a);
                    bytes.push(b);
                    assert(bytes@ =~= Seq::new(
                        (a + 1 - start) as nat,
                        |k: int| memory@.byte_of((start + k) as u32, 0),
                    ));
                    a = a + 1;
                }
            },
            None => {},
        }
        assert(values@ =~= register_values(entry.registers_before));
        let reversion = InstructionReversion {
            ip: entry.ip,
            registers: values,
            address_range,
            memory: bytes,
        };
        let ghost before = self.entries@;
        self.entries.push_back(reversion);
        proof {
            assert(self.entries@.take(before.len() as int) =~= before);
        }
    }

    /// Drops the oldest entries until `space` more fit; false when even an
    /// empty history has no room.
    fn make_space(&mut self, space: usize) -> (r: bool)
        requires
            old(self).wf(),
        ensures
            final(self).wf(),
            final(self).capacity == old(self).capacity,
            final(self).next_entry == old(self).next_entry,
            r == (space < old(self).capacity),
            r ==> {
                let kept = if old(self).entries@.len() + space < old(self).capacity {
                    old(self).entries@.len() as int
                } else {
                    old(self).capacity - space - 1
                };
                final(self).entries@ == old(self).entries@.skip(old(self).entries@.len() - kept)
            },
            !r ==> final(self).entries@.len() == 0,
    {
        if space < self.capacity && self.entries.len() < self.capacity - space {
            assert(self.entries@.skip(0) =~= self.entries@);
            return true;
        }
        let ghost original = self.entries@;
        let ghost n = original.len();
        while self.entries.len() > 0
            invariant
                self.wf(),
                self.capacity == old(self).capacity,
                self.next_entry == old(self).next_entry,
                self.entries@.len() <= n,
                self.entries@ == original.skip(n - self.entries@.len()),
                original == old(self).entries@,
                n == original.len(),
                n + space >= self.capacity,
                self.entries@.len() + space >= self.capacity,
            decreases self.entries@.len(),
        {
            let ghost before = self.entries@;
            let _ = self.entries.pop_front();
            assert(self.entries@ =~= original.skip(n - self.entries@.len()));
            if space < self.capacity && self.entries.len() < self.capacity - space {
                return true;
            }
        }
        false
    }

    /// Takes back the last recorded instruction: `register_changes` gets
    /// the registers before it, and `memory_changes` the bytes it overwrote
    /// with their old values, in the order of their addresses.
    pub fn go_back(&mut self, register_changes: &mut [Option<u32>; 18], memory_changes: &mut Vec<(u32, u8)>)
        requires
            old(self).wf(),
        ensures
            final(self).wf(),
            final(self).capacity == old(self).capacity,
            final(self).next_entry == old(self).next_entry,
            old(self).entries@.len() == 0 ==> final(self).entries@ == old(self).entries@
                && *final(register_changes) == *old(register_changes) && final(memory_changes)@
                == old(memory_changes)@,
            old(self).entries@.len() > 0 ==> {
                let e = old(self).entries@.last();
                &&& final(self).entries@ == old(self).entries@.drop_last()
                &&& forall|i: int| 0 <= i < 18 ==> #[trigger] final(register_changes)@[i] == Some(e.registers@[i])
                &&& final(memory_changes)@ == old(memory_changes)@ + match e.address_range {
                    Some(range) => Seq::new(
                        e.memory@.len(),
                        |k: int| ((range.start + k) as u32, e.memory@[k]),
                    ),
                    None => Seq::empty(),
                }
            },
    {
        let entry = match self.entries.pop_back() {
            Some(e) => e,
            None => {
                return;
            },
        };
        assert(reversion_wf(entry)) by {
            assert(entry == old(self).entries@[old(self).entries@.len() - 1]);
        }
        assert forall|i: int| 0 <= i < self.entries@.len() implies reversion_wf(#[trigger] self.entries@[i]) by {
            assert(self.entries@[i] == old(self).entries@[i]);
        }
        let mut k: usize = 0;
        while k < 18
            invariant
                k <= 18,
                forall|i: int| 0 <= i < k ==> #[trigger] register_changes@[i] == Some(entry.registers@[i]),
            decreases 18 - k,
        {
            register_changes[k] = Some(entry.registers[k]);
            k = k + 1;
        }
        match &entry.address_range {
            Some(range) => {
                let start = range.start;
                let n = entry.memory.len();
                let ghost base = memory_changes@;
                let mut i: usize = 0;
                while i < n
                    invariant
                        n == entry.memory@.len(),
                        start + n <= u32::MAX + 1,
                        i <= n,
                        memory_changes@ == base + Seq::new(
                            i as nat,
                            |k: int| ((start + k) as u32, entry.memory@[k]),
                        ),
                    decreases n - i,
                {
                    memory_changes.push((start + i as u32, entry.memory[i]));
                    assert(memory_changes@ =~= base + Seq::new(
                        (i + 1) as nat,
                        |k: int| ((start + k) as u32, entry.memory@[k]),
                    ));
                    i = i + 1;
                }
            },
            None => {
                assert(old(memory_changes)@ + Seq::<(u32, u8)>::empty() =~= old(memory_changes)@);
            },
        }
    }
}

/// Applying the first `n` of the register values of `before` to `now`,
/// which is in the same mode, writes each into the slot that the mode uses
/// for it and leaves the mode as it is.
proof fn lemma_restoring_registers(now: Registers, before: Registers, changes: Seq<Option<u32>>, n: nat)
    requires
        n <= 18,
        now.mode_is_valid(),
        before.mode_is_valid(),
        now.current_mode() == before.current_mode(),
        changes.len() == 18,
        forall|i: int| 0 <= i < 18 ==> #[trigger] changes[i] == Some(register_values(before)[i]),
    ensures
        can_apply_register_changes(now, changes, n),
        registers_after_changes(now, changes, n).mode_is_valid(),
        registers_after_changes(now, changes, n).current_mode() == now.current_mode(),
        forall|b: nat, i: nat|
            b < 6 && i < 18 ==> #[trigger] registers_after_changes(now, changes, n).slot(b, i) == if i
                < n && b == load_bank(now.current_mode(), i) {
                register_values(before)[i as int]
            } else {
                now.slot(b, i)
            },
    decreases n,
{
    let m = now.current_mode();
    if n > 0 {
        let k = (n - 1) as nat;
        lemma_restoring_registers(now, before, changes, k);
        let x = registers_after_changes(now, changes, k);
        let r = RegisterIndex::from_raw(k).unwrap();
        assert(r.raw() == k);
        assert(x.bank_of(r) == load_bank(m, k));
        assert(changes[k as int] == Some(register_values(before)[k as int]));
        let v = register_values(before)[k as int];
        let y = registers_after_changes(now, changes, n);
        assert(y == x.set_slot(load_bank(m, k), k, v));
        assert forall|b: nat, i: nat| b < 6 && i < 18 implies #[trigger] y.slot(b, i) == if i < n
            && b == load_bank(m, i) {
            register_values(before)[i as int]
        } else {
            now.slot(b, i)
        } by {
            Registers::lemma_slot_of_set_slot(x, load_bank(m, k), k, v, b, i);
        }
        Registers::lemma_slot_of_set_slot(x, load_bank(m, k), k, v, 0, 16);
        if k == 16 {
            assert(v == before.cpsr_bits());
        }
    }
}

/// Going back undoes an instruction's effect on the registers: the
/// register values it hands out, applied to registers in the mode the
/// instruction started in, give back every register as that mode saw it
/// before the instruction; its memory changes are the stored-to addresses
/// with the bytes they held when the entry was recorded.
pub proof fn lemma_go_back_restores(
    b: InstructionReversionBuilder,
    memory: MemoryView,
    r: InstructionReversion,
    now: Registers,
    register_changes: Seq<Option<u32>>,
)
    requires
        is_reversion_of(r, b, memory),
        b.registers_before.mode_is_valid(),
        now.mode_is_valid(),
        now.current_mode() == b.registers_before.current_mode(),
        register_changes.len() == 18,
        forall|i: int| 0 <= i < 18 ==> #[trigger] register_changes[i] == Some(r.registers@[i]),
    ensures
        can_apply_register_changes(now, register_changes, 18),
        forall|reg: RegisterIndex| #[trigger] registers_after_changes(now, register_changes, 18).spec_read_raw(reg)
            == b.registers_before.spec_read_raw(reg),
        match stored_range(b.instruction, b.registers_before) {
            Some((start, end)) => r.address_range matches Some(range) && range.start == start
                && forall|k: int| 0 <= k < end - start ==> #[trigger] r.memory@[k] == memory.byte_of(
                (start + k) as u32,
                0,
            ),
            None => r.address_range is None,
        },
{
    let before = b.registers_before;
    lemma_restoring_registers(now, before, register_changes, 18);
    let f = registers_after_changes(now, register_changes, 18);
    assert forall|reg: RegisterIndex| #[trigger] f.spec_read_raw(reg) == before.spec_read_raw(reg) by {
        let i = reg.raw();
        assert(RegisterIndex::from_raw(i) == Some(reg));
        assert(f.bank_of(reg) == load_bank(now.current_mode(), i));
        assert(before.bank_of(reg) == load_bank(now.current_mode(), i));
        assert(register_values(before)[i as int] == before.spec_read_raw(reg));
    }
}

} // verus!
