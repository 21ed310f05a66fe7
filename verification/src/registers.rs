//! The banked register file of the ARM7TDMI core.
use vstd::prelude::*;
use vstd::array::*;

use crate::bits::{bit_of, count_ones, popcount};
use crate::instructions::InstructionFlags;

verus! {

broadcast use vstd::array::group_array_axioms;

/// The eighteen registers visible in every mode: R0..R12, SP, LR, the
/// instruction pointer and the two program status registers.
#[derive(Debug, Clone, Copy, PartialEq, Eq, Structural, PartialOrd, Ord, Hash)]
pub enum RegisterIndex {
    R0,
    R1,
    R2,
    R3,
    R4,
    R5,
    R6,
    R7,
    R8,
    R9,
    R10,
    R11,
    R12,
    Sp,
    Lr,
    Ip,
    Cpsr,
    Spsr,
}

impl RegisterIndex {
    /// The register's number (R0 is 0, SPSR is 17).
    pub open spec fn raw(self) -> nat {
        match self {
            RegisterIndex::R0 => 0,
            RegisterIndex::R1 => 1,
            RegisterIndex::R2 => 2,
            RegisterIndex::R3 => 3,
            RegisterIndex::R4 => 4,
            RegisterIndex::R5 => 5,
            RegisterIndex::R6 => 6,
            RegisterIndex::R7 => 7,
            RegisterIndex::R8 => 8,
            RegisterIndex::R9 => 9,
            RegisterIndex::R10 => 10,
            RegisterIndex::R11 => 11,
            RegisterIndex::R12 => 12,
            RegisterIndex::Sp => 13,
            RegisterIndex::Lr => 14,
            RegisterIndex::Ip => 15,
            RegisterIndex::Cpsr => 16,
            RegisterIndex::Spsr => 17,
        }
    }

    /// The register with the given number, if there is one.
    pub open spec fn from_raw(value: nat) -> Option<RegisterIndex> {
        if value == 0 {
            Some(RegisterIndex::R0)
        } else if value == 1 {
            Some(RegisterIndex::R1)
        } else if value == 2 {
            Some(RegisterIndex::R2)
        } else if value == 3 {
            Some(RegisterIndex::R3)
        } else if value == 4 {
            Some(RegisterIndex::R4)
        } else if value == 5 {
            Some(RegisterIndex::R5)
        } else if value == 6 {
            Some(RegisterIndex::R6)
        } else if value == 7 {
            Some(RegisterIndex::R7)
        } else if value == 8 {
            Some(RegisterIndex::R8)
        } else if value == 9 {
            Some(RegisterIndex::R9)
        } else if value == 10 {
            Some(RegisterIndex::R10)
        } else if value == 11 {
            Some(RegisterIndex::R11)
        } else if value == 12 {
            Some(RegisterIndex::R12)
        } else if value == 13 {
            Some(RegisterIndex::Sp)
        } else if value == 14 {
            Some(RegisterIndex::Lr)
        } else if value == 15 {
            Some(RegisterIndex::Ip)
        } else if value == 16 {
            Some(RegisterIndex::Cpsr)
        } else if value == 17 {
            Some(RegisterIndex::Spsr)
        } else {
            None
        }
    }

    /// The register's number.
    pub fn to_raw(&self) -> (r: u32)
        ensures
            r == self.raw(),
            r < 18,
    {
        match self {
            RegisterIndex::R0 => 0,
            RegisterIndex::R1 => 1,
            RegisterIndex::R2 => 2,
            RegisterIndex::R3 => 3,
            RegisterIndex::R4 => 4,
            RegisterIndex::R5 => 5,
            RegisterIndex::R6 => 6,
            RegisterIndex::R7 => 7,
            RegisterIndex::R8 => 8,
            RegisterIndex::R9 => 9,
            RegisterIndex::R10 => 10,
            RegisterIndex::R11 => 11,
            RegisterIndex::R12 => 12,
            RegisterIndex::Sp => 13,
            RegisterIndex::Lr => 14,
            RegisterIndex::Ip => 15,
            RegisterIndex::Cpsr => 16,
            RegisterIndex::Spsr => 17,
        }
    }

    /// The register with the number `value`; an error above 17.
    pub fn try_from_u32(value: u32) -> (r: Result<RegisterIndex, ()>)
        ensures
            r is Ok <==> value < 18,
            r matches Ok(i) ==> i.raw() == value && Some(i) == Self::from_raw(value as nat),
    {
        if value == 0 {
            Ok(RegisterIndex::R0)
        } else if value == 1 {
            Ok(RegisterIndex::R1)
        } else if value == 2 {
            Ok(RegisterIndex::R2)
        } else if value == 3 {
            Ok(RegisterIndex::R3)
        } else if value == 4 {
            Ok(RegisterIndex::R4)
        } else if value == 5 {
            Ok(RegisterIndex::R5)
        } else if value == 6 {
            Ok(RegisterIndex::R6)
        } else if value == 7 {
            Ok(RegisterIndex::R7)
        } else if value == 8 {
            Ok(RegisterIndex::R8)
        } else if value == 9 {
            Ok(RegisterIndex::R9)
        } else if value == 10 {
            Ok(RegisterIndex::R10)
        } else if value == 11 {
            Ok(RegisterIndex::R11)
        } else if value == 12 {
            Ok(RegisterIndex::R12)
        } else if value == 13 {
            Ok(RegisterIndex::Sp)
        } else if value == 14 {
            Ok(RegisterIndex::Lr)
        } else if value == 15 {
            Ok(RegisterIndex::Ip)
        } else if value == 16 {
            Ok(RegisterIndex::Cpsr)
        } else if value == 17 {
            Ok(RegisterIndex::Spsr)
        } else {
            Err(())
        }
    }

    /// The register's upper-case name, as the debugger prints and reads it.
    pub fn name(&self) -> (r: &'static str)
        ensures
            r@ == register_name(*self),
    {
        proof {
            reveal_strlit("R0");
            reveal_strlit("R1");
            reveal_strlit("R2");
            reveal_strlit("R3");
            reveal_strlit("R4");
            reveal_strlit("R5");
            reveal_strlit("R6");
            reveal_strlit("R7");
            reveal_strlit("R8");
            reveal_strlit("R9");
            reveal_strlit("R10");
            reveal_strlit("R11");
            reveal_strlit("R12");
            reveal_strlit("SP");
            reveal_strlit("LR");
            reveal_strlit("IP");
            reveal_strlit("CPSR");
            reveal_strlit("SPSR");
        }
        match self {
            RegisterIndex::R0 => "R0",
            RegisterIndex::R1 => "R1",
            RegisterIndex::R2 => "R2",
            RegisterIndex::R3 => "R3",
            RegisterIndex::R4 => "R4",
            RegisterIndex::R5 => "R5",
            RegisterIndex::R6 => "R6",
            RegisterIndex::R7 => "R7",
            RegisterIndex::R8 => "R8",
            RegisterIndex::R9 => "R9",
            RegisterIndex::R10 => "R10",
            RegisterIndex::R11 => "R11",
            RegisterIndex::R12 => "R12",
            RegisterIndex::Sp => "SP",
            RegisterIndex::Lr => "LR",
            RegisterIndex::Ip => "IP",
            RegisterIndex::Cpsr => "CPSR",
            RegisterIndex::Spsr => "SPSR",
        }
    }

    /// All registers, in the order of their numbers.
    pub fn all() -> (r: Vec<RegisterIndex>)
        ensures
            r@.len() == 18,
            forall|i: int| 0 <= i < 18 ==> (#[trigger] r@[i]).raw() == i,
    {
        let mut result: Vec<RegisterIndex> = Vec::new();
        let mut i: u32 = 0;
        while i < 18
            invariant
                i <= 18,
                result@.len() == i,
                forall|j: int| 0 <= j < i ==> (#[trigger] result@[j]).raw() == j,
            decreases 18 - i,
        {
            match RegisterIndex::try_from_u32(i) {
                Ok(r) => result.push(r),
                Err(()) => {},
            }
            i = i + 1;
        }
        result
    }
}

/// The upper-case name of a register.
pub open spec fn register_name(r: RegisterIndex) -> Seq<char> {
    match r {
        RegisterIndex::R0 => "R0"@,
        RegisterIndex::R1 => "R1"@,
        RegisterIndex::R2 => "R2"@,
        RegisterIndex::R3 => "R3"@,
        RegisterIndex::R4 => "R4"@,
        RegisterIndex::R5 => "R5"@,
        RegisterIndex::R6 => "R6"@,
        RegisterIndex::R7 => "R7"@,
        RegisterIndex::R8 => "R8"@,
        RegisterIndex::R9 => "R9"@,
        RegisterIndex::R10 => "R10"@,
        RegisterIndex::R11 => "R11"@,
        RegisterIndex::R12 => "R12"@,
        RegisterIndex::Sp => "SP"@,
        RegisterIndex::Lr => "LR"@,
        RegisterIndex::Ip => "IP"@,
        RegisterIndex::Cpsr => "CPSR"@,
        RegisterIndex::Spsr => "SPSR"@,
    }
}

/// The processor modes of the ARM7TDMI.
#[derive(Debug, Clone, Copy, PartialEq, Eq, Structural)]
pub enum Mode {
    User,
    Fiq,
    Irq,
    Supervisor,
    Abort,
    Undefined,
    System,
}

/// The mode that the low five bits of a program status word encode.
pub open spec fn mode_of_bits(psr: u32) -> Option<Mode> {
    let m = psr & 0x1f;
    if m == 0x10 {
        Some(Mode::User)
    } else if m == 0x11 {
        Some(Mode::Fiq)
    } else if m == 0x12 {
        Some(Mode::Irq)
    } else if m == 0x13 {
        Some(Mode::Supervisor)
    } else if m == 0x17 {
        Some(Mode::Abort)
    } else if m == 0x1b {
        Some(Mode::Undefined)
    } else if m == 0x1f {
        Some(Mode::System)
    } else {
        None
    }
}

/// Whether `r` is one of the registers that every privileged mode banks.
pub open spec fn is_commonly_banked(r: RegisterIndex) -> bool {
    r == RegisterIndex::Sp || r == RegisterIndex::Lr || r == RegisterIndex::Spsr
}

impl Mode {
    /// The five mode bits of the mode.
    pub open spec fn bits(self) -> u32 {
        match self {
            Mode::User => 0x10,
            Mode::Fiq => 0x11,
            Mode::Irq => 0x12,
            Mode::Supervisor => 0x13,
            Mode::Abort => 0x17,
            Mode::Undefined => 0x1b,
            Mode::System => 0x1f,
        }
    }

    /// The bank that holds `register` in this mode.
    pub open spec fn bank(self, register: RegisterIndex) -> nat {
        if register.raw() < 8 {
            0
        } else {
            match self {
                Mode::User | Mode::System => 0,
                Mode::Supervisor => if is_commonly_banked(register) { 1 } else { 0 },
                Mode::Abort => if is_commonly_banked(register) { 2 } else { 0 },
                Mode::Undefined => if is_commonly_banked(register) { 3 } else { 0 },
                Mode::Irq => if is_commonly_banked(register) { 4 } else { 0 },
                Mode::Fiq => 5,
            }
        }
    }

    pub fn is_privileged(&self) -> (r: bool)
        ensures
            r == (*self != Mode::User),
    {
        *self != Mode::User
    }

    pub fn has_spsr(&self) -> (r: bool)
        ensures
            r == (*self != Mode::User && *self != Mode::System),
    {
        *self != Mode::User && *self != Mode::System
    }

    /// The five mode bits of the mode.
    pub fn raw_mode(&self) -> (r: u32)
        ensures
            r == self.bits(),
            mode_of_bits(r) == Some(*self),
    {
        let r: u32 = match self {
            Mode::User => 0x10,
            Mode::Fiq => 0x11,
            Mode::Irq => 0x12,
            Mode::Supervisor => 0x13,
            Mode::Abort => 0x17,
            Mode::Undefined => 0x1b,
            Mode::System => 0x1f,
        };
        assert(r & 0x1f == r) by (bit_vector)
            requires
                r == 0x10 || r == 0x11 || r == 0x12 || r == 0x13 || r == 0x17 || r == 0x1b
                    || r == 0x1f,
        ;
        r
    }

    /// The bank that holds `register` in this mode.
    pub fn index(&self, register: RegisterIndex) -> (r: usize)
        ensures
            r == self.bank(register),
            r < 6,
    {
        let banked = register == RegisterIndex::Sp || register == RegisterIndex::Lr || register
            == RegisterIndex::Spsr;
        if register.to_raw() < 8 {
            return 0;
        }
        match self {
            Mode::User | Mode::System => 0,
            Mode::Supervisor => if banked { 1 } else { 0 },
            Mode::Abort => if banked { 2 } else { 0 },
            Mode::Undefined => if banked { 3 } else { 0 },
            Mode::Irq => if banked { 4 } else { 0 },
            Mode::Fiq => 5,
        }
    }
}

/// A copy of a program status register.
pub struct PsrRegister(u32);

impl PsrRegister {
    /// The status word.
    pub closed spec fn value(self) -> u32 {
        self.0
    }

    pub fn new(value: u32) -> (r: PsrRegister)
        ensures
            r.value() == value,
    {
        PsrRegister(value)
    }

    /// Whether the T bit (bit 5) is set.
    pub fn is_thumb(&self) -> (r: bool)
        ensures
            r == (self.value() & 0x20 != 0),
    {
        self.0 & 0x20 != 0
    }

    /// Whether the mode bits of the status word name a mode.
    pub fn has_valid_mode(&self) -> (r: bool)
        ensures
            r == (mode_of_bits(self.value()) is Some),
    {
        let raw_mode = self.0 & 0x1f;
        raw_mode == 0x10 || raw_mode == 0x11 || raw_mode == 0x12 || raw_mode == 0x13 || raw_mode
            == 0x17 || raw_mode == 0x1b || raw_mode == 0x1f
    }

    /// The mode of the status word; its mode bits must name a mode.
    pub fn mode(&self) -> (m: Mode)
        requires
            mode_of_bits(self.value()) is Some,
        ensures
            mode_of_bits(self.value()) == Some(m),
    {
        let raw_mode = self.0 & 0x1f;
        if raw_mode == 0x10 {
            Mode::User
        } else if raw_mode == 0x11 {
            Mode::Fiq
        } else if raw_mode == 0x12 {
            Mode::Irq
        } else if raw_mode == 0x13 {
            Mode::Supervisor
        } else if raw_mode == 0x17 {
            Mode::Abort
        } else if raw_mode == 0x1b {
            Mode::Undefined
        } else {
            Mode::System
        }
    }
}

/// The status word with its mode bits replaced by those of `mode`.
pub open spec fn psr_with_mode(psr: u32, mode: Mode) -> u32 {
    (mode.bits() & 0x1f) | (psr & !0x1fu32)
}

/// The status word with its T bit set or cleared.
pub open spec fn psr_with_thumb(psr: u32, is_thumb: bool) -> u32 {
    if is_thumb {
        psr | 0x20
    } else {
        psr & !0x20u32
    }
}

/// The status word with the bits of `mask` set or cleared.
pub open spec fn with_flag(psr: u32, mask: u32, is_set: bool) -> u32 {
    if is_set {
        psr | mask
    } else {
        psr & !mask
    }
}

/// A writable view of a program status register.
pub struct PsrRegisterMut<'a>(pub &'a mut u32);

impl<'a> PsrRegisterMut<'a> {
    pub fn set_is_thumb(&mut self, is_thumb: bool)
        ensures
            *final(self).0 == psr_with_thumb(*old(self).0, is_thumb),
    {
        if is_thumb {
            *self.0 = *self.0 | 0x20;
        } else {
            *self.0 = *self.0 & !0x20u32;
        }
    }

    pub fn set_mode(&mut self, mode: Mode)
        ensures
            *final(self).0 == psr_with_mode(*old(self).0, mode),
    {
        let raw_mode = mode.raw_mode();
        *self.0 = (raw_mode & 0x1f) | (*self.0 & !0x1fu32);
    }
}

/// The register file: six banks of eighteen words each.
#[derive(Clone, Copy)]
pub struct Registers {
    banks: [u32; 108],
}

/// The slot of register `index` in bank `bank`.
pub open spec fn slot_index(bank: nat, index: nat) -> int {
    (bank * 18 + index) as int
}

pub proof fn lemma_slot_index_injective(b1: nat, i1: nat, b2: nat, i2: nat)
    requires
        b1 < 6,
        b2 < 6,
        i1 < 18,
        i2 < 18,
    ensures
        0 <= slot_index(b1, i1) < 108,
        (slot_index(b1, i1) == slot_index(b2, i2)) == (b1 == b2 && i1 == i2),
{
    assert(0 <= b1 * 18 + i1 < 108) by (nonlinear_arith)
        requires
            b1 < 6,
            i1 < 18,
    ;
    assert((b1 * 18 + i1 == b2 * 18 + i2) ==> (b1 == b2 && i1 == i2)) by (nonlinear_arith)
        requires
            b1 < 6,
            b2 < 6,
            i1 < 18,
            i2 < 18,
    ;
}

impl Registers {
    /// The word held in `bank` for register number `index`.
    pub closed spec fn slot(self, bank: nat, index: nat) -> u32 {
        self.banks@[slot_index(bank, index)]
    }

    /// The register file with one slot replaced.
    pub closed spec fn set_slot(self, bank: nat, index: nat, value: u32) -> Registers {
        Registers { banks: spec_array_update(self.banks, slot_index(bank, index), value) }
    }

    /// Reading a slot after replacing a slot.
    pub broadcast proof fn lemma_slot_of_set_slot(
        self,
        bank: nat,
        index: nat,
        value: u32,
        b: nat,
        i: nat,
    )
        requires
            bank < 6,
            index < 18,
            b < 6,
            i < 18,
        ensures
            #[trigger] self.set_slot(bank, index, value).slot(b, i) == if bank == b && index
                == i {
                value
            } else {
                self.slot(b, i)
            },
    {
        lemma_slot_index_injective(bank, index, b, i);
    }

    /// Replacing the same slot twice keeps only the second value.
    pub proof fn lemma_set_slot_twice(self, bank: nat, index: nat, v1: u32, v2: u32)
        requires
            bank < 6,
            index < 18,
        ensures
            self.set_slot(bank, index, v1).set_slot(bank, index, v2) == self.set_slot(
                bank,
                index,
                v2,
            ),
    {
        lemma_slot_index_injective(bank, index, bank, index);
        assert(self.set_slot(bank, index, v1).set_slot(bank, index, v2).banks =~= self.set_slot(
            bank,
            index,
            v2,
        ).banks);
    }

    /// The current program status word.
    pub open spec fn cpsr_bits(self) -> u32 {
        self.slot(0, 16)
    }

    /// Whether the mode bits of the current status word name a mode.
    pub open spec fn mode_is_valid(self) -> bool {
        mode_of_bits(self.cpsr_bits()) is Some
    }

    /// The current mode (meaningful when the mode bits are valid).
    pub open spec fn current_mode(self) -> Mode {
        mode_of_bits(self.cpsr_bits()).unwrap()
    }

    /// Whether the T bit of the current status word is set.
    pub open spec fn is_thumb_state(self) -> bool {
        self.cpsr_bits() & 0x20 != 0
    }

    /// The bank that holds `r` now.
    pub open spec fn bank_of(self, r: RegisterIndex) -> nat {
        if r == RegisterIndex::Cpsr || r == RegisterIndex::Ip {
            0
        } else {
            match mode_of_bits(self.cpsr_bits()) {
                Some(m) => m.bank(r),
                None => 0,
            }
        }
    }

    /// Whether `r` can be located: the status word and the instruction
    /// pointer always can, the others need valid mode bits.
    pub open spec fn can_access(self, r: RegisterIndex) -> bool {
        r == RegisterIndex::Cpsr || r == RegisterIndex::Ip || self.mode_is_valid()
    }

    /// The stored value of `r`.
    pub open spec fn spec_read_raw(self, r: RegisterIndex) -> u32 {
        self.slot(self.bank_of(r), r.raw())
    }

    /// How far ahead of the executing instruction the pipeline makes the
    /// instruction pointer appear.
    pub open spec fn pc_offset(self, r: RegisterIndex) -> nat {
        if r == RegisterIndex::Ip {
            if self.is_thumb_state() {
                4
            } else {
                8
            }
        } else {
            0
        }
    }

    /// Whether `read(r)` is defined: `r` can be located and the pipeline
    /// offset does not overflow.
    pub open spec fn can_read(self, r: RegisterIndex) -> bool {
        self.can_access(r) && self.spec_read_raw(r) + self.pc_offset(r) <= u32::MAX
    }

    /// The value of `r` as instructions see it.
    pub open spec fn spec_read(self, r: RegisterIndex) -> u32 {
        (self.spec_read_raw(r) + self.pc_offset(r)) as u32
    }

    /// The register file after storing `value` into `r`.
    pub open spec fn spec_write(self, r: RegisterIndex, value: u32) -> Registers {
        self.set_slot(self.bank_of(r), r.raw(), value)
    }

    /// The condition flags of the current status word.
    pub open spec fn spec_flags(self) -> InstructionFlags {
        flags_of(self.cpsr_bits())
    }

    pub proof fn lemma_bank_bound(self, r: RegisterIndex)
        ensures
            self.bank_of(r) < 6,
            r.raw() < 18,
    {
    }

    /// Writing `r` and reading it back gives the written value; the other
    /// registers keep their values unless the status word was written.
    pub proof fn lemma_read_after_write(self, r: RegisterIndex, value: u32, other: RegisterIndex)
        requires
            self.can_access(r),
            r != RegisterIndex::Cpsr,
        ensures
            self.spec_write(r, value).cpsr_bits() == self.cpsr_bits(),
            self.spec_write(r, value).spec_read_raw(r) == value,
            other != r ==> self.spec_write(r, value).spec_read_raw(other) == self.spec_read_raw(
                other,
            ),
    {
        let b = self.bank_of(r);
        assert(b < 6);
        Self::lemma_slot_of_set_slot(self, b, r.raw(), value, 0, 16);
        Self::lemma_slot_of_set_slot(self, b, r.raw(), value, b, r.raw());
        let w = self.spec_write(r, value);
        assert(w.bank_of(other) == self.bank_of(other));
        Self::lemma_slot_of_set_slot(self, b, r.raw(), value, self.bank_of(other), other.raw());
    }

    /// Writing the status word sets it, and leaves every stored slot other
    /// than its own unchanged.
    pub proof fn lemma_write_cpsr(self, value: u32)
        ensures
            self.spec_write(RegisterIndex::Cpsr, value).cpsr_bits() == value,
            forall|b: nat, i: nat|
                b < 6 && i < 18 && !(b == 0 && i == 16) ==> #[trigger] self.spec_write(
                    RegisterIndex::Cpsr,
                    value,
                ).slot(b, i) == self.slot(b, i),
    {
        Self::lemma_slot_of_set_slot(self, 0, 16, value, 0, 16);
        assert forall|b: nat, i: nat| b < 6 && i < 18 && !(b == 0 && i == 16) implies #[trigger] self.spec_write(
            RegisterIndex::Cpsr,
            value,
        ).slot(b, i) == self.slot(b, i) by {
            Self::lemma_slot_of_set_slot(self, 0, 16, value, b, i);
        }
    }

    /// Writing the status word twice keeps only the second value.
    pub proof fn lemma_write_cpsr_twice(self, v1: u32, v2: u32)
        ensures
            self.spec_write(RegisterIndex::Cpsr, v1).spec_write(RegisterIndex::Cpsr, v2)
                == self.spec_write(RegisterIndex::Cpsr, v2),
    {
        self.lemma_set_slot_twice(0, 16, v1, v2);
    }

    /// A register file in supervisor mode, with interrupts masked, executing
    /// ARM code, and all other registers zero.
    pub fn new() -> (r: Registers)
        ensures
            forall|b: nat, i: nat|
                b < 6 && i < 18 ==> #[trigger] r.slot(b, i) == if b == 0 && i == 16 {
                    0xd3u32
                } else {
                    0u32
                },
            r.cpsr_bits() == 0xd3,
            r.current_mode() == Mode::Supervisor,
            !r.is_thumb_state(),
    {
        let mut banks: [u32; 108] = [0u32; 108];
        banks[16] = 0xd3;
        let r = Registers { banks };
        assert forall|b: nat, i: nat| b < 6 && i < 18 implies #[trigger] r.slot(b, i) == if b
            == 0 && i == 16 {
            0xd3u32
        } else {
            0u32
        } by {
            lemma_slot_index_injective(b, i, 0, 16);
        }
        assert(0xd3u32 & 0x1f == 0x13 && 0xd3u32 & 0x20 == 0) by (bit_vector);
        r
    }

    /// A register file in which every register is zero.
    pub fn zeroed() -> (r: Registers)
        ensures
            forall|b: nat, i: nat| b < 6 && i < 18 ==> #[trigger] r.slot(b, i) == 0u32,
    {
        let r = Registers { banks: [0u32; 108] };
        assert forall|b: nat, i: nat| b < 6 && i < 18 implies #[trigger] r.slot(b, i) == 0u32 by {
            lemma_slot_index_injective(b, i, 0, 0);
        }
        r
    }

}

impl Default for Registers {
    /// The register file in which every register is zero.
    fn default() -> (r: Registers)
        ensures
            forall|b: nat, i: nat| b < 6 && i < 18 ==> #[trigger] r.slot(b, i) == 0u32,
    {
        Registers::zeroed()
    }
}

impl Registers {
    /// The bank that holds `register` now.
    fn register_bank(&self, register: RegisterIndex) -> (r: usize)
        requires
            self.can_access(register),
        ensures
            r == self.bank_of(register),
            r < 6,
    {
        if register == RegisterIndex::Cpsr || register == RegisterIndex::Ip {
            0
        } else {
            proof {
                lemma_slot_index_injective(0, 16, 0, 16);
            }
            PsrRegister(self.banks[16]).mode().index(register)
        }
    }

    /// Whether `register` can be located in the current mode.
    pub fn can_access_register(&self, register: RegisterIndex) -> (r: bool)
        ensures
            r == self.can_access(register),
    {
        register == RegisterIndex::Cpsr || register == RegisterIndex::Ip
            || self.cpsr().has_valid_mode()
    }

    /// Whether `read(register)` is defined.
    pub fn can_read_register(&self, register: RegisterIndex) -> (r: bool)
        ensures
            r == self.can_read(register),
    {
        if !self.can_access_register(register) {
            return false;
        }
        let raw = self.read_raw(register) as u64;
        let offset: u64 = if register == RegisterIndex::Ip {
            if self.cpsr().is_thumb() {
                4
            } else {
                8
            }
        } else {
            0
        };
        raw + offset <= 0xffff_ffff
    }

    /// The stored value of `register`, without the pipeline offset.
    pub fn read_raw(&self, register: RegisterIndex) -> (r: u32)
        requires
            self.can_access(register),
        ensures
            r == self.spec_read_raw(register),
    {
        let index = self.register_bank(register);
        let reg = register.to_raw() as usize;
        proof {
            lemma_slot_index_injective(index as nat, reg as nat, 0, 0);
        }
        self.banks[index * 18 + reg]
    }

    /// The value of `register` as an instruction sees it: the instruction
    /// pointer reads 8 (ARM) or 4 (Thumb) bytes ahead.
    pub fn read(&self, register: RegisterIndex) -> (r: u32)
        requires
            self.can_read(register),
        ensures
            r == self.spec_read(register),
    {
        let raw = self.read_raw(register);
        if register == RegisterIndex::Ip {
            if self.cpsr().is_thumb() {
                raw + 4
            } else {
                raw + 8
            }
        } else {
            raw
        }
    }

    /// Stores `value` into `register` in the bank that holds it now.
    pub fn write(&mut self, register: RegisterIndex, value: u32)
        requires
            old(self).can_access(register),
        ensures
            *final(self) == old(self).spec_write(register, value),
    {
        let index = self.register_bank(register);
        let reg = register.to_raw() as usize;
        proof {
            lemma_slot_index_injective(index as nat, reg as nat, 0, 0);
        }
        self.banks[index * 18 + reg] = value;
        proof {
            let k = slot_index(index as nat, reg as nat);
            assert(self.banks =~= spec_array_update(old(self).banks, k, value));
        }
    }

    /// A mutable reference to the stored value of `register`.
    pub fn get_mut(&mut self, register: RegisterIndex) -> (r: &mut u32)
        requires
            old(self).can_access(register),
        ensures
            *r == old(self).spec_read_raw(register),
            *final(self) == old(self).spec_write(register, *final(r)),
    {
        let index = self.register_bank(register);
        let reg = register.to_raw() as usize;
        proof {
            lemma_slot_index_injective(index as nat, reg as nat, 0, 0);
        }
        let r = &mut self.banks[index * 18 + reg];
        proof {
            let k = slot_index(index as nat, reg as nat);
            assert(after_borrow(self.banks) =~= spec_array_update(old(self).banks, k, *final(r)));
        }
        r
    }

    /// The condition flags of the current status word.
    pub fn flags(&self) -> (r: InstructionFlags)
        ensures
            r == self.spec_flags(),
    {
        let cpsr = self.read(RegisterIndex::Cpsr);
        InstructionFlags {
            negative_flag: cpsr & 0x8000_0000 != 0,
            zero_flag: cpsr & 0x4000_0000 != 0,
            carry_flag: cpsr & 0x2000_0000 != 0,
            overflow_flag: cpsr & 0x1000_0000 != 0,
        }
    }

    /// A copy of the current program status register.
    pub fn cpsr(&self) -> (r: PsrRegister)
        ensures
            r.value() == self.cpsr_bits(),
    {
        PsrRegister(self.read_raw(RegisterIndex::Cpsr))
    }

    fn set_cpsr_flag(&mut self, mask: u32, is_set: bool)
        ensures
            *final(self) == old(self).spec_write(
                RegisterIndex::Cpsr,
                with_flag(old(self).cpsr_bits(), mask, is_set),
            ),
    {
        let cpsr = self.read_raw(RegisterIndex::Cpsr);
        if is_set {
            self.write(RegisterIndex::Cpsr, cpsr | mask);
        } else {
            self.write(RegisterIndex::Cpsr, cpsr & !mask);
        }
    }

    /// Sets or clears the N flag (bit 31).
    pub fn update_negative_flag(&mut self, is_set: bool)
        ensures
            *final(self) == old(self).spec_write(
                RegisterIndex::Cpsr,
                with_flag(old(self).cpsr_bits(), 0x8000_0000, is_set),
            ),
    {
        self.set_cpsr_flag(0x8000_0000, is_set);
    }

    /// Sets or clears the Z flag (bit 30).
    pub fn update_zero_flag(&mut self, is_set: bool)
        ensures
            *final(self) == old(self).spec_write(
                RegisterIndex::Cpsr,
                with_flag(old(self).cpsr_bits(), 0x4000_0000, is_set),
            ),
    {
        self.set_cpsr_flag(0x4000_0000, is_set);
    }

    /// Sets or clears the C flag (bit 29).
    pub fn update_carry_flag(&mut self, is_set: bool)
        ensures
            *final(self) == old(self).spec_write(
                RegisterIndex::Cpsr,
                with_flag(old(self).cpsr_bits(), 0x2000_0000, is_set),
            ),
    {
        self.set_cpsr_flag(0x2000_0000, is_set);
    }

    /// Sets or clears the V flag (bit 28).
    pub fn update_overflow_flag(&mut self, is_set: bool)
        ensures
            *final(self) == old(self).spec_write(
                RegisterIndex::Cpsr,
                with_flag(old(self).cpsr_bits(), 0x1000_0000, is_set),
            ),
    {
        self.set_cpsr_flag(0x1000_0000, is_set);
    }

    /// Sets N from bit 31 of `value` and Z from whether it is zero.
    pub fn update_nz_flags(&mut self, value: u32)
        ensures
            *final(self) == old(self).spec_write(
                RegisterIndex::Cpsr,
                nz_bits(old(self).cpsr_bits(), value),
            ),
    {
        let ghost s0 = *self;
        self.update_negative_flag(value & 0x8000_0000 != 0);
        self.update_zero_flag(value == 0);
        proof {
            s0.lemma_write_cpsr(with_flag(s0.cpsr_bits(), 0x8000_0000, value & 0x8000_0000 != 0));
            s0.lemma_write_cpsr_twice(
                with_flag(s0.cpsr_bits(), 0x8000_0000, value & 0x8000_0000 != 0),
                nz_bits(s0.cpsr_bits(), value),
            );
        }
    }

    /// Sets N and Z from a signed result and V from its overflow flag.
    pub fn update_nzv_flags(&mut self, result: (i32, bool))
        ensures
            *final(self) == old(self).spec_write(
                RegisterIndex::Cpsr,
                nzv_bits(old(self).cpsr_bits(), result.0, result.1),
            ),
    {
        let ghost s0 = *self;
        let (value, overflow) = result;
        self.update_negative_flag(value < 0);
        let ghost c1 = with_flag(s0.cpsr_bits(), 0x8000_0000, value < 0);
        self.update_zero_flag(value == 0);
        let ghost c2 = with_flag(c1, 0x4000_0000, value == 0);
        self.update_overflow_flag(overflow);
        proof {
            s0.lemma_write_cpsr(c1);
            s0.lemma_write_cpsr_twice(c1, c2);
            s0.lemma_write_cpsr(c2);
            s0.lemma_write_cpsr_twice(c2, nzv_bits(s0.cpsr_bits(), value, overflow));
        }
    }

    /// Switches the current status word to `mode`.
    pub fn set_mode(&mut self, mode: Mode)
        ensures
            *final(self) == old(self).spec_write(
                RegisterIndex::Cpsr,
                psr_with_mode(old(self).cpsr_bits(), mode),
            ),
    {
        let cpsr = self.read_raw(RegisterIndex::Cpsr);
        let raw_mode = mode.raw_mode();
        self.write(RegisterIndex::Cpsr, (raw_mode & 0x1f) | (cpsr & !0x1fu32));
    }

    /// Sets or clears the T bit of the current status word.
    pub fn set_is_thumb(&mut self, is_thumb: bool)
        ensures
            *final(self) == old(self).spec_write(
                RegisterIndex::Cpsr,
                psr_with_thumb(old(self).cpsr_bits(), is_thumb),
            ),
    {
        let cpsr = self.read_raw(RegisterIndex::Cpsr);
        if is_thumb {
            self.write(RegisterIndex::Cpsr, cpsr | 0x20);
        } else {
            self.write(RegisterIndex::Cpsr, cpsr & !0x20u32);
        }
    }

    /// The registers whose values differ between `self` and `registers`, in
    /// the order of their numbers.
    pub fn diff(&self, registers: Registers) -> (r: Vec<RegisterIndex>)
        requires
            forall|i: RegisterIndex| self.can_read(i) && registers.can_read(i),
        ensures
            forall|i: int| 0 <= i < r@.len() ==> self.spec_read(#[trigger] r@[i]) != registers.spec_read(r@[i]),
            forall|x: RegisterIndex|
                self.spec_read(x) != registers.spec_read(x) ==> r@.contains(x),
    {
        let all = RegisterIndex::all();
        let mut result: Vec<RegisterIndex> = Vec::new();
        let mut i: usize = 0;
        while i < all.len()
            invariant
                all@.len() == 18,
                forall|j: int| 0 <= j < 18 ==> (#[trigger] all@[j]).raw() == j,
                i <= 18,
                forall|x: RegisterIndex| self.can_read(x) && registers.can_read(x),
                forall|j: int| 0 <= j < result@.len() ==> self.spec_read(#[trigger] result@[j]) != registers.spec_read(result@[j]),
                forall|x: RegisterIndex|
                    x.raw() < i && self.spec_read(x) != registers.spec_read(x) ==> result@.contains(x),
            decreases 18 - i,
        {
            let r = all[i];
            let ghost prev = result@;
            if self.read(r) != registers.read(r) {
                result.push(r);
            }
            proof {
                assert forall|x: RegisterIndex|
                    x.raw() < i + 1 && self.spec_read(x) != registers.spec_read(x) implies result@.contains(x) by {
                    if x.raw() == i {
                        assert(x == r);
                        assert(result@[result@.len() - 1] == r);
                    } else {
                        assert(prev.contains(x));
                        let k = choose|k: int| 0 <= k < prev.len() && prev[k] == x;
                        assert(result@[k] == x);
                    }
                }
            }
            i = i + 1;
        }
        result
    }
}

impl Registers {
    /// The stored values of the eighteen registers as the current mode sees
    /// them, in the order of their numbers.
    pub fn read_values_to_array(&self) -> (r: [u32; 18])
        requires
            self.mode_is_valid(),
        ensures
            forall|i: int|
                0 <= i < 18 ==> #[trigger] r@[i] == self.spec_read_raw(
                    RegisterIndex::from_raw(i as nat).unwrap(),
                ),
    {
        let mut values: [u32; 18] = [0u32; 18];
        let mut i: u32 = 0;
        while i < 18
            invariant
                i <= 18,
                self.mode_is_valid(),
                forall|j: int|
                    0 <= j < i ==> #[trigger] values@[j] == self.spec_read_raw(
                        RegisterIndex::from_raw(j as nat).unwrap(),
                    ),
            decreases 18 - i,
        {
            let register = match RegisterIndex::try_from_u32(i) {
                Ok(r) => r,
                Err(()) => RegisterIndex::R0,
            };
            values[i as usize] = self.read_raw(register);
            i = i + 1;
        }
        values
    }
}

/// The bank into which the register numbered `index` is loaded when a
/// register file is assembled for `mode`: the status word and the
/// instruction pointer always go to the first bank.
pub open spec fn load_bank(mode: Mode, index: nat) -> nat {
    match RegisterIndex::from_raw(index) {
        Some(r) => if r == RegisterIndex::Cpsr || r == RegisterIndex::Ip {
            0
        } else {
            mode.bank(r)
        },
        None => 0,
    }
}

impl Registers {
    /// Whether this register file is the one assembled for `mode` from
    /// `values`: register number `i` holds `values[i]` in the bank that `mode`
    /// uses for it, and every other slot is zero.
    pub open spec fn is_assembled_from(self, mode: Mode, values: Seq<u32>) -> bool {
        &&& values.len() == 18
        &&& forall|b: nat, i: nat|
            b < 6 && i < 18 ==> #[trigger] self.slot(b, i) == if b == load_bank(mode, i) {
                values[i as int]
            } else {
                0u32
            }
    }

    /// The register file assembled for `mode` from the eighteen register
    /// values `values`, in the order of the register numbers.
    pub fn from_parts(mode: Mode, values: [u32; 18]) -> (r: Registers)
        ensures
            r.is_assembled_from(mode, values@),
    {
        let mut result = Registers::zeroed();
        let mut i: u32 = 0;
        while i < 18
            invariant
                i <= 18,
                forall|b: nat, j: nat|
                    b < 6 && j < 18 ==> #[trigger] result.slot(b, j) == if j < i && b
                        == load_bank(mode, j) {
                        values@[j as int]
                    } else {
                        0u32
                    },
            decreases 18 - i,
        {
            let register = match RegisterIndex::try_from_u32(i) {
                Ok(r) => r,
                Err(()) => RegisterIndex::R0,
            };
            let bank: usize = if register == RegisterIndex::Cpsr || register == RegisterIndex::Ip {
                0
            } else {
                mode.index(register)
            };
            assert(bank == load_bank(mode, i as nat));
            let k: usize = bank * 18 + i as usize;
            proof {
                lemma_slot_index_injective(bank as nat, i as nat, 0, 0);
            }
            let ghost before = result;
            result.banks[k] = values[i as usize];
            proof {
                assert(result.banks =~= spec_array_update(before.banks, k as int, values[i as int]));
                assert(result == before.set_slot(bank as nat, i as nat, values[i as int]));
                assert forall|b: nat, j: nat| b < 6 && j < 18 implies #[trigger] result.slot(b, j)
                    == if j < i + 1 && b == load_bank(mode, j) {
                    values@[j as int]
                } else {
                    0u32
                } by {
                    Self::lemma_slot_of_set_slot(before, bank as nat, i as nat, values[i as int], b, j);
                }
            }
            i = i + 1;
        }
        result
    }

    /// Whether this register file is the one that the status word `status`
    /// and the eighteen register values `values` describe: the mode bits of
    /// the status word name a mode, and the values are stored in the banks
    /// that this mode uses.
    pub open spec fn is_decoded_from(self, status: u32, values: Seq<u32>) -> bool {
        mode_of_bits(status) matches Some(m) && self.is_assembled_from(m, values)
    }

    /// The register file of a processor whose status word is `status` and
    /// whose eighteen registers, read in the mode that the status word
    /// names, are `values`; none when the mode bits name no mode.
    pub fn from_status_and_values(status: u32, values: [u32; 18]) -> (r: Option<Registers>)
        ensures
            match mode_of_bits(status) {
                Some(m) => r matches Some(x) && x.is_assembled_from(m, values@),
                None => r is None,
            },
    {
        let psr = PsrRegister::new(status);
        if !psr.has_valid_mode() {
            return None;
        }
        let mode = psr.mode();
        Some(Registers::from_parts(mode, values))
    }

    /// The register file of an `armv4t_emu` processor: its status word is
    /// read, and each of the eighteen registers is read in the mode that the
    /// status word names and stored in the bank that this mode uses for it;
    /// none when the status word names no mode.
    pub fn from_extern(cpu: &armv4t_emu::Cpu) -> (r: Option<Registers>)
        ensures
            r is None <==> mode_of_bits(processor_status(*cpu)) is None,
            r matches Some(x) ==> x.is_decoded_from(
                processor_status(*cpu),
                processor_values(*cpu, mode_of_bits(processor_status(*cpu))->Some_0),
            ),
    {
        let status = cpu_register(cpu, Mode::User, 16);
        let psr = PsrRegister::new(status);
        if !psr.has_valid_mode() {
            return None;
        }
        let mode = psr.mode();
        let mut values: [u32; 18] = [0u32; 18];
        let mut i: u8 = 0;
        while i < 18
            invariant
                i <= 18,
                forall|k: int| 0 <= k < i ==> values@[k] == cpu_reg(*cpu, mode, k as u8),
            decreases 18 - i,
        {
            values[i as usize] = cpu_register(cpu, mode, i);
            i = i + 1;
        }
        assert(values@ =~= processor_values(*cpu, mode));
        Registers::from_status_and_values(status, values)
    }
}

/// The processor of the `armv4t_emu` crate.
#[verifier::external_type_specification]
#[verifier::external_body]
pub struct ExCpu(armv4t_emu::Cpu);

/// The value that `armv4t_emu::Cpu::reg_get` gives for register number
/// `register` as `mode` sees it: a function of the processor's state, the
/// mode and the number alone.
pub uninterp spec fn cpu_reg(cpu: armv4t_emu::Cpu, mode: Mode, register: u8) -> u32;

/// The status word of a processor, read through the user bank, where
/// register 16 is the status word in every mode.
pub open spec fn processor_status(cpu: armv4t_emu::Cpu) -> u32 {
    cpu_reg(cpu, Mode::User, 16)
}

/// The eighteen registers of a processor as `mode` sees them.
pub open spec fn processor_values(cpu: armv4t_emu::Cpu, mode: Mode) -> Seq<u32> {
    Seq::new(18, |i: int| cpu_reg(cpu, mode, i as u8))
}

/// `armv4t_emu::Cpu::reg_get`: the value of register number `register` as
/// `mode` sees it, which is `cpu_reg` of the processor, the mode and the
/// number. The crate indexes an eighteen-entry table with the number, so it
/// must be below 18.
#[verifier::external_body]
fn cpu_register(cpu: &armv4t_emu::Cpu, mode: Mode, register: u8) -> (value: u32)
    requires
        register < 18,
    ensures
        value == cpu_reg(*cpu, mode, register),
{
    let mode = match mode {
        Mode::User => armv4t_emu::Mode::User,
        Mode::Fiq => armv4t_emu::Mode::Fiq,
        Mode::Irq => armv4t_emu::Mode::Irq,
        Mode::Supervisor => armv4t_emu::Mode::Supervisor,
        Mode::Abort => armv4t_emu::Mode::Abort,
        Mode::Undefined => armv4t_emu::Mode::Undefined,
        Mode::System => armv4t_emu::Mode::System,
    };
    cpu.reg_get(mode, register)
}

/// The condition flags that a status word holds.
pub open spec fn flags_of(psr: u32) -> InstructionFlags {
    InstructionFlags {
        negative_flag: psr & 0x8000_0000 != 0,
        zero_flag: psr & 0x4000_0000 != 0,
        carry_flag: psr & 0x2000_0000 != 0,
        overflow_flag: psr & 0x1000_0000 != 0,
    }
}

/// The status word after setting N and Z from `value`.
pub open spec fn nz_bits(psr: u32, value: u32) -> u32 {
    with_flag(with_flag(psr, 0x8000_0000, value & 0x8000_0000 != 0), 0x4000_0000, value == 0)
}

/// The status word after setting N and Z from a signed result and V from
/// `overflow`.
pub open spec fn nzv_bits(psr: u32, value: i32, overflow: bool) -> u32 {
    with_flag(
        with_flag(with_flag(psr, 0x8000_0000, value < 0), 0x4000_0000, value == 0),
        0x1000_0000,
        overflow,
    )
}

/// A set of registers, one bit per register number.
#[derive(Debug, Clone, Copy, PartialEq, Eq, Structural)]
pub struct RegisterList(pub u32);

/// The bits of a sequence of registers, one bit per register named.
pub open spec fn bits_of_registers(s: Seq<RegisterIndex>) -> u32
    decreases s.len(),
{
    if s.len() == 0 {
        0
    } else {
        bits_of_registers(s.drop_last()) | (1u32 << (s.last().raw() as u32))
    }
}

/// The numbers of the registers of `list` from `p` on, in ascending order.
pub open spec fn members_from(list: RegisterList, p: nat) -> Seq<nat>
    decreases 18 - p,
{
    if p >= 18 {
        Seq::empty()
    } else if list.has(p) {
        seq![p] + members_from(list, p + 1)
    } else {
        members_from(list, p + 1)
    }
}

/// Setting bit `k` of `x` sets bit `k` and keeps the others.
proof fn lemma_bit_of_or_shift(x: u32, k: u32, j: u32)
    requires
        k < 32,
        j < 32,
    ensures
        bit_of(x | (1u32 << k), j) == (bit_of(x, j) || j == k),
        !bit_of(0, j),
{
    assert(((x | (1u32 << k)) & (1u32 << j) != 0 <==> (x & (1u32 << j) != 0 || j == k)) && (0u32 & (1u32
        << j)) == 0) by (bit_vector)
        requires
            k < 32,
            j < 32,
    ;
}

/// Two registers with the same number are the same register.
proof fn lemma_raw_injective(a: RegisterIndex, b: RegisterIndex)
    ensures
        a.raw() == b.raw() ==> a == b,
{
}

/// A number is among the members from `p` on exactly when it is a member
/// at or after `p`, and the members come in strictly ascending order.
proof fn lemma_members_from(list: RegisterList, p: nat)
    ensures
        forall|k: nat| #[trigger] members_from(list, p).contains(k) <==> (p <= k < 18 && list.has(k)),
        forall|i: int, j: int|
            0 <= i < j < members_from(list, p).len() ==> #[trigger] members_from(list, p)[i]
                < #[trigger] members_from(list, p)[j],
        forall|i: int| 0 <= i < members_from(list, p).len() ==> p <= #[trigger] members_from(list, p)[i],
    decreases 18 - p,
{
    if p < 18 {
        lemma_members_from(list, p + 1);
        let rest = members_from(list, p + 1);
        if list.has(p) {
            let all = seq![p] + rest;
            assert(members_from(list, p) == all);
            assert forall|k: nat| #[trigger] all.contains(k) <==> (p <= k < 18 && list.has(k)) by {
                if all.contains(k) {
                    let i = choose|i: int| 0 <= i < all.len() && all[i] == k;
                    if i > 0 {
                        assert(rest[i - 1] == k);
                        assert(rest.contains(k));
                    }
                }
                if p <= k < 18 && list.has(k) {
                    if k == p {
                        assert(all[0] == k);
                    } else {
                        assert(rest.contains(k));
                        let i = choose|i: int| 0 <= i < rest.len() && rest[i] == k;
                        assert(all[i + 1] == k);
                    }
                }
            }
            assert forall|i: int, j: int| 0 <= i < j < all.len() implies #[trigger] all[i] < #[trigger] all[j] by {
                if i > 0 {
                    assert(all[i] == rest[i - 1] && all[j] == rest[j - 1]);
                } else {
                    assert(all[j] == rest[j - 1]);
                }
            }
            assert forall|i: int| 0 <= i < all.len() implies p <= #[trigger] all[i] by {
                if i > 0 {
                    assert(all[i] == rest[i - 1]);
                }
            }
        } else {
            assert forall|k: nat| #[trigger] rest.contains(k) <==> (p <= k < 18 && list.has(k)) by {
                if k == p {
                    assert(!rest.contains(k));
                }
            }
        }
    }
}

/// Members from `p` are those from `q` when none lies between them.
proof fn lemma_members_skip(list: RegisterList, p: nat, q: nat)
    requires
        p <= q <= 18,
        forall|k: nat| p <= k < q ==> !list.has(k),
    ensures
        members_from(list, p) == members_from(list, q),
    decreases q - p,
{
    if p < q {
        lemma_members_skip(list, p + 1, q);
    }
}

/// The registers that a sequence names are those of the set built from it:
/// a register is in `RegisterList::from_registers` of a sequence exactly
/// when the sequence names it, and walking that set with `into_iter` and
/// `next` gives each register it names once, in ascending order of number.
pub proof fn lemma_register_list_of_registers(rs: Seq<RegisterIndex>)
    ensures
        forall|r: RegisterIndex|
            #[trigger] RegisterList(bits_of_registers(rs)).has(r.raw()) <==> rs.contains(r),
        forall|r: RegisterIndex|
            #[trigger] members_from(RegisterList(bits_of_registers(rs)), 0).contains(r.raw())
                <==> rs.contains(r),
        forall|k: nat|
            #[trigger] members_from(RegisterList(bits_of_registers(rs)), 0).contains(k) ==> exists|
                r: RegisterIndex,
            | r.raw() == k,
        forall|i: int, j: int|
            0 <= i < j < members_from(RegisterList(bits_of_registers(rs)), 0).len() ==> #[trigger] members_from(
                RegisterList(bits_of_registers(rs)),
                0,
            )[i] < #[trigger] members_from(RegisterList(bits_of_registers(rs)), 0)[j],
{
    let list = RegisterList(bits_of_registers(rs));
    lemma_members_from(list, 0);
    lemma_bits_of_registers(rs);
    assert forall|r: RegisterIndex| #[trigger] list.has(r.raw()) <==> rs.contains(r) by {
        if rs.contains(r) {
            let i = choose|i: int| 0 <= i < rs.len() && rs[i] == r;
            assert(list.has(rs[i].raw()));
        }
        if list.has(r.raw()) {
            let i = choose|i: int| 0 <= i < rs.len() && rs[i].raw() == r.raw();
            lemma_raw_injective(rs[i], r);
        }
    }
    assert forall|k: nat| #[trigger] members_from(list, 0).contains(k) implies exists|r: RegisterIndex| r.raw() == k by {
        let i = choose|i: int| 0 <= i < rs.len() && rs[i].raw() == k;
        assert(rs[i].raw() == k);
    }
}

/// The bits of a sequence of registers are set exactly at the numbers of
/// the registers it names.
proof fn lemma_bits_of_registers(rs: Seq<RegisterIndex>)
    ensures
        forall|k: nat|
            #[trigger] RegisterList(bits_of_registers(rs)).has(k) <==> exists|i: int|
                0 <= i < rs.len() && rs[i].raw() == k,
    decreases rs.len(),
{
    if rs.len() == 0 {
        assert forall|k: nat| !#[trigger] RegisterList(bits_of_registers(rs)).has(k) by {
            if k < 32 {
                lemma_bit_of_or_shift(0, 0, k as u32);
            }
        }
    } else {
        let prev = rs.drop_last();
        lemma_bits_of_registers(prev);
        assert forall|k: nat| #[trigger] RegisterList(bits_of_registers(rs)).has(k) <==> exists|i: int|
            0 <= i < rs.len() && rs[i].raw() == k by {
            let last = rs.last();
            assert(bits_of_registers(rs) == bits_of_registers(prev) | (1u32 << (last.raw() as u32)));
            let was = RegisterList(bits_of_registers(prev)).has(k);
            if exists|i: int| 0 <= i < rs.len() && rs[i].raw() == k {
                let i = choose|i: int| 0 <= i < rs.len() && rs[i].raw() == k;
                assert(rs[i].raw() < 18);
                if i < rs.len() - 1 {
                    assert(prev[i].raw() == k);
                    assert(was);
                }
            }
            if exists|i: int| 0 <= i < prev.len() && prev[i].raw() == k {
                let i = choose|i: int| 0 <= i < prev.len() && prev[i].raw() == k;
                assert(rs[i].raw() == k);
            }
            if k < 32 {
                assert(last.raw() < 18);
                lemma_bit_of_or_shift(bits_of_registers(prev), last.raw() as u32, k as u32);
                assert(RegisterList(bits_of_registers(rs)).has(k) == (was || k == last.raw()));
                if k == last.raw() {
                    assert(rs[rs.len() - 1].raw() == k);
                }
            }
        }
    }
}

impl RegisterList {
    /// The bits of the set.
    pub open spec fn bits(self) -> u32 {
        self.0
    }

    /// The set whose bits are `value`.
    pub open spec fn spec_new(value: u32) -> RegisterList {
        RegisterList(value)
    }

    /// Whether register number `i` is in the set.
    pub open spec fn has(self, i: nat) -> bool {
        i < 32 && bit_of(self.bits(), i as u32)
    }

    /// The empty set.
    pub fn empty() -> (r: RegisterList)
        ensures
            r.bits() == 0,
    {
        RegisterList(0)
    }

    /// The set whose bits are `value`; an error when a bit above 15 is set.
    pub fn try_from_u32(value: u32) -> (r: Result<RegisterList, ()>)
        ensures
            r is Ok <==> value <= 0xffff,
            r matches Ok(l) ==> l.bits() == value && l == Self::spec_new(value),
    {
        if value > 0xffff {
            Err(())
        } else {
            Ok(RegisterList(value))
        }
    }

    /// The number of registers in the set.
    pub fn len(&self) -> (r: u32)
        ensures
            r == popcount(self.bits()),
            r <= 32,
    {
        count_ones(self.0)
    }

    /// The set with `register` added.
    pub fn with(self, register: RegisterIndex) -> (r: RegisterList)
        ensures
            r.bits() == self.bits() | (1u32 << register.raw()),
    {
        RegisterList(self.0 | (1u32 << register.to_raw()))
    }

    /// The set of the given registers.
    pub fn from_registers(registers: &Vec<RegisterIndex>) -> (r: RegisterList)
        ensures
            r.bits() == bits_of_registers(registers@),
    {
        let mut raw: u32 = 0;
        let mut i: usize = 0;
        while i < registers.len()
            invariant
                i <= registers@.len(),
                raw == bits_of_registers(registers@.take(i as int)),
            decreases registers@.len() - i,
        {
            proof {
                assert(registers@.take(i + 1).drop_last() =~= registers@.take(i as int));
            }
            raw = raw | (1u32 << registers[i].to_raw());
            i = i + 1;
        }
        proof {
            assert(registers@.take(registers@.len() as int) =~= registers@);
        }
        RegisterList(raw)
    }

    /// The number of bytes that storing the set takes: four per register.
    pub fn byte_len(&self) -> (r: u32)
        ensures
            r == 4 * popcount(self.bits()),
    {
        self.len() * 4
    }

    /// Whether `register` is in the set.
    pub fn contains(&self, register: RegisterIndex) -> (r: bool)
        ensures
            r == self.has(register.raw()),
    {
        let mut it = self.into_iter();
        loop
            invariant
                it.list() == *self,
                it.position() <= 18,
                register.raw() < it.position() ==> !self.has(register.raw()),
            decreases 19 - it.position(),
        {
            match it.next() {
                Some(r) => {
                    if r == register {
                        return true;
                    }
                },
                None => {
                    return false;
                },
            }
        }
    }

    /// An iterator over the registers of the set in ascending order.
    pub fn into_iter(self) -> (r: RegisterListIterator)
        ensures
            r.list() == self,
            r.position() == 0,
    {
        RegisterListIterator(self, 0)
    }
}

/// Walks the registers of a set in ascending order.
pub struct RegisterListIterator(RegisterList, u32);

impl RegisterListIterator {
    /// The set being walked.
    pub closed spec fn list(self) -> RegisterList {
        self.0
    }

    /// The next register number to look at.
    pub closed spec fn position(self) -> nat {
        self.1 as nat
    }

    /// The next register of the set at or after the current position.
    pub fn next(&mut self) -> (r: Option<RegisterIndex>)
        requires
            old(self).position() <= 18,
        ensures
            final(self).list() == old(self).list(),
            match r {
                Some(reg) => {
                    &&& old(self).position() <= reg.raw() < 18
                    &&& old(self).list().has(reg.raw())
                    &&& forall|k: nat|
                        old(self).position() <= k < reg.raw() ==> !old(self).list().has(k)
                    &&& final(self).position() == reg.raw() + 1
                    &&& members_from(old(self).list(), old(self).position()) == seq![reg.raw()]
                        + members_from(old(self).list(), final(self).position())
                },
                None => {
                    &&& forall|k: nat| old(self).position() <= k < 18 ==> !old(self).list().has(k)
                    &&& final(self).position() == 18
                    &&& members_from(old(self).list(), old(self).position()) == Seq::<nat>::empty()
                },
            },
    {
        let mut result: Option<RegisterIndex> = None;
        while result.is_none() && self.1 <= 17
            invariant
                old(self).position() <= self.1 <= 18,
                self.0 == old(self).0,
                forall|k: nat| old(self).position() <= k < self.1 ==> !self.0.has(k),
                match result {
                    Some(reg) => reg.raw() == self.1 && self.1 < 18 && self.0.has(self.1 as nat),
                    None => true,
                },
            decreases 18 - self.1 + if result is None { 1int } else { 0int },
        {
            if (self.0).0 & (1u32 << self.1) != 0 {
                match RegisterIndex::try_from_u32(self.1) {
                    Ok(r) => {
                        result = Some(r);
                    },
                    Err(()) => {},
                }
            }
            if result.is_none() {
                self.1 = self.1 + 1;
            }
        }
        if result.is_some() {
            self.1 = self.1 + 1;
        }
        proof {
            match result {
                Some(reg) => {
                    lemma_members_skip(self.0, old(self).position(), reg.raw());
                },
                None => {
                    lemma_members_skip(self.0, old(self).position(), 18);
                },
            }
        }
        result
    }
}

} // verus!
