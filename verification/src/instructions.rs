//! ARM and Thumb instructions: their representation, decoding and meaning.
use vstd::prelude::*;

use crate::bits::popcount;
use crate::registers::{RegisterIndex, RegisterList, Registers};
use crate::shifter_operand::{shift_of, ShiftOperator, ShifterOperand, ShifterOperandInstructionOp};

verus! {

/// The four condition flags of a program status word.
#[derive(Debug, Clone, Copy, PartialEq, Eq, Structural)]
pub struct InstructionFlags {
    pub zero_flag: bool,
    pub carry_flag: bool,
    pub negative_flag: bool,
    pub overflow_flag: bool,
}

impl InstructionFlags {
    /// All flags cleared.
    pub fn cleared() -> (r: InstructionFlags)
        ensures
            !r.zero_flag && !r.carry_flag && !r.negative_flag && !r.overflow_flag,
    {
        InstructionFlags {
            zero_flag: false,
            carry_flag: false,
            negative_flag: false,
            overflow_flag: false,
        }
    }
}

impl Default for InstructionFlags {
    /// All flags cleared.
    fn default() -> (r: InstructionFlags)
        ensures
            !r.zero_flag && !r.carry_flag && !r.negative_flag && !r.overflow_flag,
    {
        InstructionFlags::cleared()
    }
}

/// The condition field of an ARM instruction.
#[derive(Debug, Clone, Copy, PartialEq, Eq, Structural)]
pub enum Condition {
    Equal,
    NotEqual,
    CarrySet,
    CarryClear,
    Negative,
    Positive,
    OverflowSet,
    OverflowClear,
    UnsignedHigher,
    UnsignedLowerOrSame,
    GreaterThanEquals,
    LessThan,
    GreaterThan,
    LessThanEquals,
    Always,
}

/// Why a condition field could not be decoded.
#[derive(Debug, Clone, Copy, PartialEq, Eq, Structural)]
pub enum ConditionError {
    OutOfRange(u8),
    InvalidValue,
}

/// Whether an instruction with condition `c` executes under `flags`.
pub open spec fn condition_holds(c: Condition, flags: InstructionFlags) -> bool {
    match c {
        Condition::Equal => flags.zero_flag,
        Condition::NotEqual => !flags.zero_flag,
        Condition::CarrySet => flags.carry_flag,
        Condition::CarryClear => !flags.carry_flag,
        Condition::Negative => flags.negative_flag,
        Condition::Positive => !flags.negative_flag,
        Condition::OverflowSet => flags.overflow_flag,
        Condition::OverflowClear => !flags.overflow_flag,
        Condition::UnsignedHigher => flags.carry_flag && !flags.zero_flag,
        Condition::UnsignedLowerOrSame => !flags.carry_flag || flags.zero_flag,
        Condition::GreaterThanEquals => flags.negative_flag == flags.overflow_flag,
        Condition::LessThan => flags.negative_flag != flags.overflow_flag,
        Condition::GreaterThan => !flags.zero_flag && flags.negative_flag == flags.overflow_flag,
        Condition::LessThanEquals => flags.zero_flag || flags.negative_flag != flags.overflow_flag,
        Condition::Always => true,
    }
}

/// The condition that a four-bit condition field encodes.
pub open spec fn condition_of(value: u8) -> Result<Condition, ConditionError> {
    if value == 0 {
        Ok(Condition::Equal)
    } else if value == 1 {
        Ok(Condition::NotEqual)
    } else if value == 2 {
        Ok(Condition::CarrySet)
    } else if value == 3 {
        Ok(Condition::CarryClear)
    } else if value == 4 {
        Ok(Condition::Negative)
    } else if value == 5 {
        Ok(Condition::Positive)
    } else if value == 6 {
        Ok(Condition::OverflowSet)
    } else if value == 7 {
        Ok(Condition::OverflowClear)
    } else if value == 8 {
        Ok(Condition::UnsignedHigher)
    } else if value == 9 {
        Ok(Condition::UnsignedLowerOrSame)
    } else if value == 10 {
        Ok(Condition::GreaterThanEquals)
    } else if value == 11 {
        Ok(Condition::LessThan)
    } else if value == 12 {
        Ok(Condition::GreaterThan)
    } else if value == 13 {
        Ok(Condition::LessThanEquals)
    } else if value == 14 {
        Ok(Condition::Always)
    } else if value == 15 {
        Err(ConditionError::InvalidValue)
    } else {
        Err(ConditionError::OutOfRange(value))
    }
}

impl Condition {
    /// Whether an instruction with this condition executes under `flags`.
    pub fn can_execute(&self, flags: InstructionFlags) -> (r: bool)
        ensures
            r == condition_holds(*self, flags),
    {
        match self {
            Condition::Equal => flags.zero_flag,
            Condition::NotEqual => !flags.zero_flag,
            Condition::CarrySet => flags.carry_flag,
            Condition::CarryClear => !flags.carry_flag,
            Condition::Negative => flags.negative_flag,
            Condition::Positive => !flags.negative_flag,
            Condition::OverflowSet => flags.overflow_flag,
            Condition::OverflowClear => !flags.overflow_flag,
            Condition::UnsignedHigher => flags.carry_flag && !flags.zero_flag,
            Condition::UnsignedLowerOrSame => !flags.carry_flag || flags.zero_flag,
            Condition::GreaterThanEquals => flags.negative_flag == flags.overflow_flag,
            Condition::LessThan => flags.negative_flag != flags.overflow_flag,
            Condition::GreaterThan => {
                !flags.zero_flag && flags.negative_flag == flags.overflow_flag
            },
            Condition::LessThanEquals => {
                flags.zero_flag || flags.negative_flag != flags.overflow_flag
            },
            Condition::Always => true,
        }
    }

    /// The condition of a four-bit condition field: 15 is reserved and any
    /// larger value is out of range.
    pub fn try_from_u8(value: u8) -> (r: Result<Condition, ConditionError>)
        ensures
            r == condition_of(value),
    {
        if value == 0 {
            Ok(Condition::Equal)
        } else if value == 1 {
            Ok(Condition::NotEqual)
        } else if value == 2 {
            Ok(Condition::CarrySet)
        } else if value == 3 {
            Ok(Condition::CarryClear)
        } else if value == 4 {
            Ok(Condition::Negative)
        } else if value == 5 {
            Ok(Condition::Positive)
        } else if value == 6 {
            Ok(Condition::OverflowSet)
        } else if value == 7 {
            Ok(Condition::OverflowClear)
        } else if value == 8 {
            Ok(Condition::UnsignedHigher)
        } else if value == 9 {
            Ok(Condition::UnsignedLowerOrSame)
        } else if value == 10 {
            Ok(Condition::GreaterThanEquals)
        } else if value == 11 {
            Ok(Condition::LessThan)
        } else if value == 12 {
            Ok(Condition::GreaterThan)
        } else if value == 13 {
            Ok(Condition::LessThanEquals)
        } else if value == 14 {
            Ok(Condition::Always)
        } else if value == 15 {
            Err(ConditionError::InvalidValue)
        } else {
            Err(ConditionError::OutOfRange(value))
        }
    }
}

/// Where a branch goes: relative to the instruction pointer, or to a
/// register's value plus an offset.
#[derive(Debug, Clone, Copy, PartialEq, Eq, Structural)]
pub enum BranchTarget {
    Offset(i32),
    RegisterWithOffset(RegisterIndex, i32),
}

impl BranchTarget {
    /// The register that the target depends on, if any.
    pub fn register(&self) -> (r: Option<RegisterIndex>)
        ensures
            r == match *self {
                BranchTarget::Offset(_) => None,
                BranchTarget::RegisterWithOffset(reg, _) => Some(reg),
            },
    {
        match self {
            BranchTarget::Offset(_) => None,
            BranchTarget::RegisterWithOffset(register_index, _) => Some(*register_index),
        }
    }
}

/// How many bytes a single load or store moves, and whether a load sign
/// extends them.
#[derive(Debug, Clone, Copy, PartialEq, Eq, Structural)]
pub enum StoreLoadMemorySize {
    Byte,
    SignedByte,
    Halfword,
    SignedHalfword,
    Word,
}

impl StoreLoadMemorySize {
    /// The number of bytes moved.
    pub open spec fn spec_bytes(self) -> u32 {
        match self {
            StoreLoadMemorySize::Byte | StoreLoadMemorySize::SignedByte => 1,
            StoreLoadMemorySize::Halfword | StoreLoadMemorySize::SignedHalfword => 2,
            StoreLoadMemorySize::Word => 4,
        }
    }

    /// The number of bytes moved.
    pub fn bytes(&self) -> (r: u32)
        ensures
            r == self.spec_bytes(),
    {
        match self {
            StoreLoadMemorySize::Byte | StoreLoadMemorySize::SignedByte => 1,
            StoreLoadMemorySize::Halfword | StoreLoadMemorySize::SignedHalfword => 2,
            StoreLoadMemorySize::Word => 4,
        }
    }
}

/// The order in which a block load or store walks memory.
#[derive(Debug, Clone, Copy, PartialEq, Eq, Structural)]
pub enum StoreLoadManyAddressingMode {
    IncrementBefore,
    IncrementAfter,
    DecrementBefore,
    DecrementAfter,
}

impl StoreLoadManyAddressingMode {
    /// The mode that the P and U bits select, as this decoder reads them.
    pub open spec fn spec_from_flags(p_flag: bool, u_flag: bool) -> StoreLoadManyAddressingMode {
        if p_flag && u_flag {
            StoreLoadManyAddressingMode::DecrementAfter
        } else if p_flag {
            StoreLoadManyAddressingMode::IncrementAfter
        } else if u_flag {
            StoreLoadManyAddressingMode::DecrementBefore
        } else {
            StoreLoadManyAddressingMode::IncrementBefore
        }
    }

    pub fn from_flags(p_flag: bool, u_flag: bool) -> (r: StoreLoadManyAddressingMode)
        ensures
            r == Self::spec_from_flags(p_flag, u_flag),
    {
        match (p_flag, u_flag) {
            (true, true) => StoreLoadManyAddressingMode::DecrementAfter,
            (true, false) => StoreLoadManyAddressingMode::IncrementAfter,
            (false, true) => StoreLoadManyAddressingMode::DecrementBefore,
            (false, false) => StoreLoadManyAddressingMode::IncrementBefore,
        }
    }

    /// The address of the first word moved, for a base address and a list
    /// of `len` bytes.
    pub open spec fn spec_start_address(self, base: u32, len: u32) -> u32 {
        match self {
            StoreLoadManyAddressingMode::IncrementBefore => add_wrapping(base, 4),
            StoreLoadManyAddressingMode::IncrementAfter => base,
            StoreLoadManyAddressingMode::DecrementBefore => sub_wrapping(base, len),
            StoreLoadManyAddressingMode::DecrementAfter => add_wrapping(sub_wrapping(base, len), 4),
        }
    }

    /// The address of the last word moved.
    pub open spec fn spec_end_address(self, base: u32, len: u32) -> u32 {
        match self {
            StoreLoadManyAddressingMode::IncrementBefore => add_wrapping(base, len),
            StoreLoadManyAddressingMode::IncrementAfter => sub_wrapping(add_wrapping(base, len), 4),
            StoreLoadManyAddressingMode::DecrementBefore => sub_wrapping(base, 4),
            StoreLoadManyAddressingMode::DecrementAfter => base,
        }
    }

    /// The base register's value after a write back.
    pub open spec fn spec_write_back(self, base: u32, len: u32) -> u32 {
        if self.spec_is_decreasing() {
            sub_wrapping(base, len)
        } else {
            add_wrapping(base, len)
        }
    }

    pub open spec fn spec_is_decreasing(self) -> bool {
        self == StoreLoadManyAddressingMode::DecrementAfter || self
            == StoreLoadManyAddressingMode::DecrementBefore
    }

    pub open spec fn spec_does_change_before(self) -> bool {
        self == StoreLoadManyAddressingMode::IncrementBefore || self
            == StoreLoadManyAddressingMode::DecrementBefore
    }

    pub fn start_address(&self, base: u32, register_list: RegisterList) -> (r: u32)
        ensures
            r == self.spec_start_address(base, (4 * popcount(register_list.bits())) as u32),
    {
        let len = register_list.byte_len();
        match self {
            StoreLoadManyAddressingMode::IncrementBefore => base.wrapping_add(4),
            StoreLoadManyAddressingMode::IncrementAfter => base,
            StoreLoadManyAddressingMode::DecrementBefore => base.wrapping_sub(len),
            StoreLoadManyAddressingMode::DecrementAfter => base.wrapping_sub(len).wrapping_add(4),
        }
    }

    pub fn end_address(&self, base: u32, register_list: RegisterList) -> (r: u32)
        ensures
            r == self.spec_end_address(base, (4 * popcount(register_list.bits())) as u32),
    {
        let len = register_list.byte_len();
        match self {
            StoreLoadManyAddressingMode::IncrementBefore => base.wrapping_add(len),
            StoreLoadManyAddressingMode::IncrementAfter => base.wrapping_add(len).wrapping_sub(4),
            StoreLoadManyAddressingMode::DecrementBefore => base.wrapping_sub(4),
            StoreLoadManyAddressingMode::DecrementAfter => base,
        }
    }

    pub fn write_back(&self, base: u32, register_list: RegisterList) -> (r: u32)
        ensures
            r == self.spec_write_back(base, (4 * popcount(register_list.bits())) as u32),
    {
        let len = register_list.byte_len();
        match self {
            StoreLoadManyAddressingMode::IncrementAfter
            | StoreLoadManyAddressingMode::IncrementBefore => base.wrapping_add(len),
            StoreLoadManyAddressingMode::DecrementBefore
            | StoreLoadManyAddressingMode::DecrementAfter => base.wrapping_sub(len),
        }
    }

    /// The offset added to the address before a word is moved.
    pub fn offset_before(&self) -> (r: i32)
        ensures
            r == match *self {
                StoreLoadManyAddressingMode::IncrementBefore => 4i32,
                StoreLoadManyAddressingMode::DecrementBefore => -4i32,
                _ => 0i32,
            },
    {
        match self {
            StoreLoadManyAddressingMode::IncrementBefore => 4,
            StoreLoadManyAddressingMode::IncrementAfter => 0,
            StoreLoadManyAddressingMode::DecrementBefore => -4,
            StoreLoadManyAddressingMode::DecrementAfter => 0,
        }
    }

    /// The offset added to the address after a word is moved.
    pub fn offset_after(&self) -> (r: i32)
        ensures
            r == match *self {
                StoreLoadManyAddressingMode::IncrementAfter => 4i32,
                StoreLoadManyAddressingMode::DecrementAfter => -4i32,
                _ => 0i32,
            },
    {
        match self {
            StoreLoadManyAddressingMode::IncrementBefore => 0,
            StoreLoadManyAddressingMode::IncrementAfter => 4,
            StoreLoadManyAddressingMode::DecrementBefore => 0,
            StoreLoadManyAddressingMode::DecrementAfter => -4,
        }
    }

    pub fn is_decreasing(&self) -> (r: bool)
        ensures
            r == self.spec_is_decreasing(),
    {
        match self {
            StoreLoadManyAddressingMode::DecrementAfter
            | StoreLoadManyAddressingMode::DecrementBefore => true,
            _ => false,
        }
    }

    pub fn does_change_before(&self) -> (r: bool)
        ensures
            r == self.spec_does_change_before(),
    {
        match self {
            StoreLoadManyAddressingMode::IncrementBefore
            | StoreLoadManyAddressingMode::DecrementBefore => true,
            _ => false,
        }
    }
}

/// `a + b` modulo 2^32.
pub open spec fn add_wrapping(a: u32, b: u32) -> u32 {
    ((a + b) % 0x1_0000_0000) as u32
}

/// `a - b` modulo 2^32.
pub open spec fn sub_wrapping(a: u32, b: u32) -> u32 {
    ((a - b + 0x1_0000_0000) % 0x1_0000_0000) as u32
}

/// Which bytes of a status register an MSR instruction may change.
#[derive(Debug, Clone, Copy, PartialEq, Eq, Structural)]
pub struct MsrFieldMask {
    pub control: bool,
    pub extension: bool,
    pub status: bool,
    pub flags: bool,
}

/// The byte mask of a field mask.
pub open spec fn field_mask_bits(m: MsrFieldMask) -> u32 {
    (if m.control { 0x0000_00FFu32 } else { 0u32 }) | (if m.extension {
        0x0000_FF00u32
    } else {
        0u32
    }) | (if m.status { 0x00FF_0000u32 } else { 0u32 }) | (if m.flags {
        0xFF00_0000u32
    } else {
        0u32
    })
}

impl MsrFieldMask {
    /// The bytes of the status register that the mask selects.
    pub fn to_mask(self) -> (r: u32)
        ensures
            r == field_mask_bits(self),
    {
        let control: u32 = if self.control { 0x0000_00FF } else { 0 };
        let extension: u32 = if self.extension { 0x0000_FF00 } else { 0 };
        let status: u32 = if self.status { 0x00FF_0000 } else { 0 };
        let flags: u32 = if self.flags { 0xFF00_0000 } else { 0 };
        let result = control | extension | status | flags;
        result
    }

    /// The mask of the four low bits of `value`; an error above 15.
    pub fn try_from_u8(value: u8) -> (r: Result<MsrFieldMask, ()>)
        ensures
            r is Ok <==> value <= 0xf,
            r matches Ok(m) ==> m == (MsrFieldMask {
                control: value & 1 != 0,
                extension: value & 2 != 0,
                status: value & 4 != 0,
                flags: value & 8 != 0,
            }),
    {
        if value > 0xf {
            return Err(());
        }
        Ok(MsrFieldMask {
            control: (value & 0x1) != 0,
            extension: (value & 0x2) != 0,
            status: (value & 0x4) != 0,
            flags: (value & 0x8) != 0,
        })
    }
}

/// Why a word could not be decoded as an instruction.
#[derive(Debug, Clone, Copy, PartialEq, Eq, Structural)]
pub enum InstructionDecodeError {
    UnknownArm(u32),
    UnknownThumb(u16),
    UnknownThumbWide(u16, u16),
    UnknownOpCode1(u32, u32),
    InvalidRegisterIndex(u32),
    InvalidCondition(ConditionError),
    InvalidRegisterList,
    InvalidStoreLoadMemoryAddress(u32),
}

/// The address of a single load or store: a base register, an offset, and
/// how the two combine.
#[derive(Debug, Clone, Copy, PartialEq, Eq, Structural)]
pub struct StoreLoadMemoryAddress {
    pub ignore_bit_1_of_pc: bool,
    pub register_base: RegisterIndex,
    pub write_back: bool,
    pub negate_offset: bool,
    pub offset: ShifterOperand,
    pub is_post_indexing: bool,
}

/// `base` moved by `offset`, down when `negate` holds, modulo 2^32.
pub open spec fn apply_offset(base: u32, offset: u32, negate: bool) -> u32 {
    if negate {
        sub_wrapping(base, offset)
    } else {
        add_wrapping(base, offset)
    }
}

fn apply_offset_exec(base: u32, offset: u32, negate: bool) -> (r: u32)
    ensures
        r == apply_offset(base, offset, negate),
{
    if negate {
        base.wrapping_sub(offset)
    } else {
        base.wrapping_add(offset)
    }
}

impl StoreLoadMemoryAddress {
    /// The base register's value, with bit 1 of the instruction pointer
    /// cleared when the address asks for it.
    pub open spec fn base_value(self, regs: Registers) -> u32 {
        let base = regs.spec_read(self.register_base);
        if self.register_base == RegisterIndex::Ip && self.ignore_bit_1_of_pc {
            base & !2u32
        } else {
            base
        }
    }

    /// The address that the instruction accesses, seen from `regs` without
    /// any side effect.
    pub open spec fn address_in(self, regs: Registers) -> u32 {
        if !self.is_post_indexing {
            apply_offset(self.base_value(regs), self.offset.value_in(regs), self.negate_offset)
        } else {
            self.base_value(regs)
        }
    }

    /// The register file after a pre-indexed offset was evaluated.
    pub open spec fn regs_after_pre(self, regs: Registers, update_flags: bool) -> Registers {
        if !self.is_post_indexing {
            self.offset.registers_after(regs, update_flags)
        } else {
            regs
        }
    }

    /// The register file after the optional write back of the address.
    pub open spec fn regs_after_write_back(self, regs: Registers, update_flags: bool) -> Registers {
        let r1 = self.regs_after_pre(regs, update_flags);
        if self.write_back {
            r1.spec_write(self.register_base, self.address_in(regs))
        } else {
            r1
        }
    }

    /// The register file after resolving the address with its side effects.
    pub open spec fn regs_after_resolve(self, regs: Registers, update_flags: bool) -> Registers {
        let r2 = self.regs_after_write_back(regs, update_flags);
        if self.is_post_indexing {
            let r3 = self.offset.registers_after(r2, update_flags);
            r3.spec_write(
                self.register_base,
                apply_offset(self.address_in(regs), self.offset.value_in(r2), self.negate_offset),
            )
        } else {
            r2
        }
    }

    /// Whether resolving the address with its side effects is defined in
    /// `regs`.
    pub open spec fn can_resolve_mut(self, regs: Registers, update_flags: bool) -> bool {
        &&& regs.can_read(self.register_base)
        &&& self.offset.can_resolve(regs)
        &&& self.regs_after_pre(regs, update_flags).can_access(self.register_base)
        &&& (self.is_post_indexing ==> {
            let r2 = self.regs_after_write_back(regs, update_flags);
            &&& self.offset.can_resolve(r2)
            &&& self.offset.registers_after(r2, update_flags).can_access(self.register_base)
        })
    }

    /// Whether the address can be computed in `regs` without side effects.
    pub open spec fn can_resolve(self, regs: Registers) -> bool {
        regs.can_read(self.register_base) && (!self.is_post_indexing ==> self.offset.can_resolve(
            regs,
        ))
    }

    /// The address accessed, computed without side effects.
    pub fn resolve_from_registers(&self, registers: Registers) -> (r: u32)
        requires
            self.can_resolve(registers),
        ensures
            r == self.address_in(registers),
    {
        let base = registers.read(self.register_base);
        let base = if self.register_base == RegisterIndex::Ip && self.ignore_bit_1_of_pc {
            base & !2u32
        } else {
            base
        };
        if !self.is_post_indexing {
            let offset = self.offset.resolve(&registers);
            apply_offset_exec(base, offset, self.negate_offset)
        } else {
            base
        }
    }

    /// The address accessed; evaluates the offset (with `update_flags`
    /// storing its carry) and performs the write back of the base register.
    pub fn resolve_mut(&self, registers: &mut Registers, update_flags: bool) -> (r: u32)
        requires
            self.can_resolve_mut(*old(registers), update_flags),
        ensures
            r == self.address_in(*old(registers)),
            *final(registers) == self.regs_after_resolve(*old(registers), update_flags),
    {
        let ghost regs0 = *registers;
        let base = registers.read(self.register_base);
        let base = if self.register_base == RegisterIndex::Ip && self.ignore_bit_1_of_pc {
            base & !2u32
        } else {
            base
        };
        let address = if !self.is_post_indexing {
            let offset = self.offset.resolve_mut(registers, update_flags);
            apply_offset_exec(base, offset, self.negate_offset)
        } else {
            base
        };
        if self.write_back {
            registers.write(self.register_base, address);
        }
        if self.is_post_indexing {
            let offset = self.offset.resolve_mut(registers, update_flags);
            let address = apply_offset_exec(address, offset, self.negate_offset);
            registers.write(self.register_base, address);
        }
        address
    }

    /// The address of an ARM single data transfer (addressing mode 2).
    pub open spec fn spec_decode(value: u32) -> StoreLoadMemoryAddress {
        StoreLoadMemoryAddress {
            register_base: RegisterIndex::from_raw(((value & 0xF_0000) >> 16u32) as nat).unwrap(),
            offset: if value & 0x0200_0000 == 0 {
                ShifterOperand::Immediate(value & 0xfff, None)
            } else {
                ShifterOperand::RegisterImmediate(
                    RegisterIndex::from_raw((value & 0xf) as nat).unwrap(),
                    shift_of((value & 0x60) >> 5u32),
                    ((value & 0xf80) >> 7u32) as u8,
                )
            },
            negate_offset: value & 0x0080_0000 == 0,
            write_back: value & 0x0020_0000 != 0,
            ignore_bit_1_of_pc: false,
            is_post_indexing: value & 0x0100_0000 == 0,
        }
    }

    /// Decodes the address of an ARM single data transfer.
    pub fn try_from_u32(value: u32) -> (r: Result<StoreLoadMemoryAddress, InstructionDecodeError>)
        ensures
            r == Ok::<StoreLoadMemoryAddress, InstructionDecodeError>(Self::spec_decode(value)),
    {
        let is_post_indexing = (value & 0x0100_0000) == 0;
        let negate_offset = (value & 0x0080_0000) == 0;
        let is_immediate = (value & 0x0200_0000) == 0;
        let write_back = (value & 0x0020_0000) != 0;
        let rn = (value & 0xF_0000) >> 16;
        assert(rn < 16) by (bit_vector)
            requires
                rn == (value & 0xF_0000) >> 16u32,
        ;
        let rn = match RegisterIndex::try_from_u32(rn) {
            Ok(r) => r,
            Err(()) => {
                return Err(InstructionDecodeError::InvalidRegisterIndex(rn));
            },
        };
        if is_immediate {
            let offset = value & 0x0000_0fff;
            Ok(
                StoreLoadMemoryAddress {
                    register_base: rn,
                    offset: ShifterOperand::Immediate(offset, None),
                    negate_offset,
                    write_back,
                    ignore_bit_1_of_pc: false,
                    is_post_indexing,
                },
            )
        } else {
            let rm = value & 0x0000_000f;
            let shift = (value & 0x0000_0060) >> 5;
            let shift_imm = (value & 0x0000_0f80) >> 7;
            assert(rm < 16 && shift < 4 && shift_imm < 32) by (bit_vector)
                requires
                    rm == value & 0xf,
                    shift == (value & 0x60) >> 5u32,
                    shift_imm == (value & 0xf80) >> 7u32,
            ;
            let rm = match RegisterIndex::try_from_u32(rm) {
                Ok(r) => r,
                Err(()) => {
                    return Err(InstructionDecodeError::InvalidRegisterIndex(rm));
                },
            };
            let shift_op = ShiftOperator::decode(shift);
            let op = ShifterOperand::RegisterImmediate(rm, shift_op, shift_imm as u8);
            Ok(
                StoreLoadMemoryAddress {
                    register_base: rn,
                    offset: op,
                    negate_offset,
                    write_back,
                    ignore_bit_1_of_pc: false,
                    is_post_indexing,
                },
            )
        }
    }

    /// The address of an ARM halfword or signed transfer (addressing mode 3).
    pub open spec fn spec_decode_mode_3(word: u32) -> StoreLoadMemoryAddress {
        StoreLoadMemoryAddress {
            ignore_bit_1_of_pc: false,
            register_base: RegisterIndex::from_raw(((word & 0xF_0000) >> 16u32) as nat).unwrap(),
            write_back: word & 0x0020_0000 != 0,
            negate_offset: word & 0x0080_0000 == 0,
            offset: if word & 0x0040_0000 != 0 {
                ShifterOperand::Immediate(((word & 0xf00) >> 4u32) | (word & 0xf), None)
            } else {
                ShifterOperand::Register(RegisterIndex::from_raw((word & 0xf) as nat).unwrap())
            },
            is_post_indexing: word & 0x0100_0000 == 0,
        }
    }

    /// Decodes the address of an ARM halfword or signed transfer.
    pub fn from_addressing_mode_3(word: u32) -> (r: Result<StoreLoadMemoryAddress, InstructionDecodeError>)
        ensures
            r == Ok::<StoreLoadMemoryAddress, InstructionDecodeError>(Self::spec_decode_mode_3(word)),
    {
        let is_immediate = (word & 0x0040_0000) != 0;
        let is_post_indexing = (word & 0x0100_0000) == 0;
        let write_back = (word & 0x0020_0000) != 0;
        let negate_offset = (word & 0x0080_0000) == 0;
        let rn = (word & 0x000f_0000) >> 16;
        let rm = word & 0xf;
        assert(rn < 16 && rm < 16) by (bit_vector)
            requires
                rn == (word & 0xF_0000) >> 16u32,
                rm == word & 0xf,
        ;
        let rn = match RegisterIndex::try_from_u32(rn) {
            Ok(r) => r,
            Err(()) => {
                return Err(InstructionDecodeError::InvalidRegisterIndex(rn));
            },
        };
        let offset = if is_immediate {
            let immediate = ((word & 0xf00) >> 4) | (word & 0xf);
            ShifterOperand::Immediate(immediate, None)
        } else {
            let rm = match RegisterIndex::try_from_u32(rm) {
                Ok(r) => r,
                Err(()) => {
                    return Err(InstructionDecodeError::InvalidRegisterIndex(rm));
                },
            };
            ShifterOperand::Register(rm)
        };
        Ok(
            StoreLoadMemoryAddress {
                ignore_bit_1_of_pc: false,
                register_base: rn,
                write_back,
                negate_offset,
                offset,
                is_post_indexing,
            },
        )
    }
}

/// What an instruction does, apart from its condition.
#[derive(Debug, Clone, Copy, PartialEq, Eq, Structural)]
pub enum InstructionOp {
    Branch {
        store_return_address_in_link_register: bool,
        return_address_is_thumb: bool,
        does_switch_mode: bool,
        target: BranchTarget,
        instruction_size: usize,
    },
    StoreOrLoadRegister {
        is_load: bool,
        address: StoreLoadMemoryAddress,
        register_destination: RegisterIndex,
        read_size: StoreLoadMemorySize,
    },
    StoreOrLoadRegisters {
        is_load: bool,
        register_base: RegisterIndex,
        register_base_write_back: bool,
        register_list: RegisterList,
        addressing_mode: StoreLoadManyAddressingMode,
    },
    Mrs { use_spsr: bool, register_base: RegisterIndex },
    Msr { use_spsr: bool, field_mask: MsrFieldMask, operand: ShifterOperand },
    ShifterOperandInstruction {
        op: ShifterOperandInstructionOp,
        update_flags: bool,
        base: RegisterIndex,
        destination: RegisterIndex,
        value: ShifterOperand,
    },
}

/// A decoded instruction: a condition and an operation.
#[derive(Debug, Clone, Copy, PartialEq, Eq, Structural)]
pub struct Instruction {
    pub condition: Condition,
    pub op: InstructionOp,
}

/// The number of cycles an operation takes, before its condition is
/// checked.
pub open spec fn op_ticks(op: InstructionOp) -> int {
    match op {
        InstructionOp::Branch { store_return_address_in_link_register, instruction_size, .. } => {
            if store_return_address_in_link_register && instruction_size == 2 {
                4
            } else {
                3
            }
        },
        InstructionOp::StoreOrLoadRegister { is_load, address, .. } => {
            if is_load {
                3 + if address.register_base == RegisterIndex::Ip {
                    2int
                } else {
                    0int
                }
            } else {
                2
            }
        },
        InstructionOp::StoreOrLoadRegisters { is_load, register_list, .. } => {
            if is_load {
                popcount(register_list.bits()) + 2 + if register_list.has(15) {
                    2int
                } else {
                    0int
                }
            } else {
                popcount(register_list.bits()) - 1 + 2
            }
        },
        InstructionOp::Mrs { .. } => 1,
        InstructionOp::Msr { .. } => 1,
        InstructionOp::ShifterOperandInstruction { .. } => 1,
    }
}

impl InstructionOp {
    /// Whether the tick count of the operation is defined: a block store
    /// needs at least one register.
    pub open spec fn has_tick_duration(self) -> bool {
        match self {
            InstructionOp::StoreOrLoadRegisters { is_load, register_list, .. } => is_load
                || popcount(register_list.bits()) >= 1,
            _ => true,
        }
    }

    /// The number of cycles the operation takes.
    pub fn tick_duration(&self) -> (r: usize)
        requires
            self.has_tick_duration(),
        ensures
            r == op_ticks(*self),
    {
        match self {
            InstructionOp::Branch {
                store_return_address_in_link_register,
                instruction_size,
                ..
            } => {
                if *store_return_address_in_link_register && *instruction_size == 2 {
                    4
                } else {
                    3
                }
            },
            InstructionOp::StoreOrLoadRegister { is_load, address, .. } => {
                if *is_load {
                    3 + if address.register_base == RegisterIndex::Ip {
                        2
                    } else {
                        0
                    }
                } else {
                    2
                }
            },
            InstructionOp::StoreOrLoadRegisters { is_load, register_list, .. } => {
                let len = register_list.len() as usize;
                if *is_load {
                    len * 1 + 2 + if register_list.contains(RegisterIndex::Ip) {
                        2
                    } else {
                        0
                    }
                } else {
                    (len - 1) * 1 + 2
                }
            },
            InstructionOp::Mrs { .. } => 1,
            InstructionOp::Msr { .. } => 1,
            InstructionOp::ShifterOperandInstruction { op, .. } => match op {
                ShifterOperandInstructionOp::Move => 1,
                ShifterOperandInstructionOp::Compare => 1,
                ShifterOperandInstructionOp::CompareNegative => 1,
                ShifterOperandInstructionOp::And => 1,
                ShifterOperandInstructionOp::InclusiveOr => 1,
                ShifterOperandInstructionOp::ExclusiveOr => 1,
                ShifterOperandInstructionOp::Add => 1,
                ShifterOperandInstructionOp::AddWithCarry => 1,
                ShifterOperandInstructionOp::Subtract => 1,
                ShifterOperandInstructionOp::Multiplicate => 1,
                ShifterOperandInstructionOp::ReverseSubtract => 1,
                ShifterOperandInstructionOp::TestEquals => 1,
                ShifterOperandInstructionOp::Test => 1,
                ShifterOperandInstructionOp::MoveNegate => 1,
                ShifterOperandInstructionOp::BitClear => 1,
            },
        }
    }
}

/// Whether executing `op` under a passing condition writes the instruction
/// pointer itself, so that the caller must not advance it.
pub open spec fn op_sets_ip(op: InstructionOp) -> bool {
    match op {
        InstructionOp::StoreOrLoadRegister { is_load, register_destination, read_size, .. } => is_load
            && register_destination == RegisterIndex::Ip && read_size == StoreLoadMemorySize::Word,
        InstructionOp::ShifterOperandInstruction { op, destination, .. } => (op
            == ShifterOperandInstructionOp::Move || op == ShifterOperandInstructionOp::Subtract
            || op == ShifterOperandInstructionOp::Add) && destination == RegisterIndex::Ip,
        InstructionOp::Branch { .. } => true,
        InstructionOp::StoreOrLoadRegisters { is_load, register_list, .. } => is_load
            && register_list.has(15),
        _ => false,
    }
}

impl Instruction {
    /// The number of cycles the instruction takes: one more when its
    /// condition fails.
    pub fn tick_duration(&self, flags: InstructionFlags) -> (r: usize)
        requires
            self.op.has_tick_duration(),
        ensures
            r == op_ticks(self.op) + if condition_holds(self.condition, flags) {
                0int
            } else {
                1int
            },
    {
        let ticks = self.op.tick_duration();
        assert(ticks <= 36) by {
            crate::bits::lemma_ones_below_bound(
                match self.op {
                    InstructionOp::StoreOrLoadRegisters { register_list, .. } => register_list.bits(),
                    _ => 0u32,
                },
                32,
            );
        }
        ticks + if self.condition.can_execute(flags) {
            0
        } else {
            1
        }
    }

    /// Whether executing the instruction sets the instruction pointer itself.
    pub fn increments_instruction_pointer(&self, registers: &Registers) -> (r: bool)
        ensures
            r == (condition_holds(self.condition, registers.spec_flags()) && op_sets_ip(self.op)),
    {
        if !self.condition.can_execute(registers.flags()) {
            return false;
        }
        match self.op {
            InstructionOp::StoreOrLoadRegister {
                is_load,
                register_destination,
                read_size,
                ..
            } => is_load && register_destination == RegisterIndex::Ip && read_size
                == StoreLoadMemorySize::Word,
            InstructionOp::ShifterOperandInstruction { op, destination, .. } => (op
                == ShifterOperandInstructionOp::Move || op == ShifterOperandInstructionOp::Subtract
                || op == ShifterOperandInstructionOp::Add) && destination == RegisterIndex::Ip,
            InstructionOp::Branch { .. } => true,
            InstructionOp::StoreOrLoadRegisters { is_load, register_list, .. } => is_load
                && register_list.contains(RegisterIndex::Ip),
            _ => false,
        }
    }
}

/// The bytes that `instruction` stores to when it runs in `registers`, as
/// the half-open range of their addresses; none for instructions that do
/// not execute or do not store.
pub open spec fn stored_range(instruction: Instruction, registers: Registers) -> Option<(int, int)> {
    if !condition_holds(instruction.condition, registers.spec_flags()) {
        None
    } else {
        match instruction.op {
            InstructionOp::StoreOrLoadRegister { is_load, address, read_size, .. } => {
                if is_load {
                    None
                } else {
                    let a = address.address_in(registers) as int;
                    Some((a, a + read_size.spec_bytes()))
                }
            },
            InstructionOp::StoreOrLoadRegisters {
                is_load,
                register_base,
                register_list,
                addressing_mode,
                ..
            } => {
                if is_load {
                    None
                } else {
                    let size = 4 * popcount(register_list.bits());
                    let base = registers.spec_read(register_base) as int;
                    let a = if !addressing_mode.spec_does_change_before() {
                        base
                    } else if addressing_mode.spec_is_decreasing() {
                        base - 4
                    } else {
                        base + 4
                    };
                    if addressing_mode.spec_is_decreasing() {
                        Some((a - size, a))
                    } else {
                        Some((a, a + size))
                    }
                }
            },
            _ => None,
        }
    }
}

/// Whether the stored range of `instruction` can be computed in
/// `registers`: its registers can be read and its bounds are 32-bit
/// addresses.
pub open spec fn can_compute_stored_range(instruction: Instruction, registers: Registers) -> bool {
    condition_holds(instruction.condition, registers.spec_flags()) ==> match instruction.op {
        InstructionOp::StoreOrLoadRegister { is_load, address, .. } => !is_load ==> {
            &&& address.can_resolve(registers)
            &&& stored_range(instruction, registers)->Some_0.1 <= u32::MAX
        },
        InstructionOp::StoreOrLoadRegisters { is_load, register_base, .. } => !is_load ==> {
            &&& registers.can_read(register_base)
            &&& 0 <= stored_range(instruction, registers)->Some_0.0
            &&& stored_range(instruction, registers)->Some_0.1 <= u32::MAX
        },
        _ => true,
    }
}

impl Instruction {
    /// The addresses that the instruction stores to when it runs in
    /// `registers`.
    pub fn accessed_memory_addresses(&self, registers: Registers) -> (r: Option<
        std::ops::Range<u32>,
    >)
        requires
            can_compute_stored_range(*self, registers),
        ensures
            match stored_range(*self, registers) {
                Some((start, end)) => r matches Some(range) && range.start == start && range.end
                    == end,
                None => r is None,
            },
    {
        if !self.condition.can_execute(registers.flags()) {
            return None;
        }
        match self.op {
            InstructionOp::StoreOrLoadRegister { is_load, address, read_size, .. } => {
                if is_load {
                    return None;
                }
                let size = read_size.bytes();
                let address = address.resolve_from_registers(registers);
                Some(std::ops::Range { start: address, end: address + size })
            },
            InstructionOp::StoreOrLoadRegisters {
                is_load,
                register_base,
                register_list,
                addressing_mode,
                ..
            } => {
                if is_load {
                    return None;
                }
                let count = register_list.len();
                let size = count * 4;
                let mut address = registers.read(register_base);
                if addressing_mode.does_change_before() {
                    address = if addressing_mode.is_decreasing() {
                        address - 4
                    } else {
                        address + 4
                    };
                }
                Some(
                    if addressing_mode.is_decreasing() {
                        std::ops::Range { start: address - size, end: address }
                    } else {
                        std::ops::Range { start: address, end: address + size }
                    },
                )
            },
            _ => None,
        }
    }
}


/// The value of a word read as a two's complement signed number.
pub open spec fn signed_value(x: u32) -> int {
    if x < 0x8000_0000 {
        x as int
    } else {
        x - 0x1_0000_0000
    }
}

/// The flags that comparing `a` with `b` (subtracting `b` from `a`) sets:
/// N is the sign of the 32-bit difference, Z whether the two are equal, C
/// whether no borrow occurs (`a` is at least `b` unsigned), and V whether
/// the signed difference does not fit in 32 bits.
pub open spec fn comparison_flags(a: u32, b: u32) -> InstructionFlags {
    let difference: int = if a >= b {
        a - b
    } else {
        a - b + 0x1_0000_0000
    };
    let signed_difference = signed_value(a) - signed_value(b);
    InstructionFlags {
        negative_flag: difference >= 0x8000_0000,
        zero_flag: difference == 0,
        carry_flag: a >= b,
        overflow_flag: !(-0x8000_0000 <= signed_difference < 0x8000_0000),
    }
}

/// The condition codes over the flags: each condition and its opposite
/// (EQ and NE, CS and CC, MI and PL, VS and VC, HI and LS, GE and LT, GT
/// and LE) disagree on every set of flags; EQ, CS, MI and VS read the Z, C,
/// N and V flags; GE holds exactly when N equals V; HI exactly when C is
/// set and Z clear; GT exactly when GE holds and Z is clear; and AL always.
pub proof fn lemma_conditions_over_flags(flags: InstructionFlags)
    ensures
        condition_holds(Condition::NotEqual, flags) == !condition_holds(Condition::Equal, flags),
        condition_holds(Condition::CarryClear, flags) == !condition_holds(Condition::CarrySet, flags),
        condition_holds(Condition::Positive, flags) == !condition_holds(Condition::Negative, flags),
        condition_holds(Condition::OverflowClear, flags) == !condition_holds(Condition::OverflowSet, flags),
        condition_holds(Condition::UnsignedLowerOrSame, flags) == !condition_holds(
            Condition::UnsignedHigher,
            flags,
        ),
        condition_holds(Condition::LessThan, flags) == !condition_holds(Condition::GreaterThanEquals, flags),
        condition_holds(Condition::LessThanEquals, flags) == !condition_holds(Condition::GreaterThan, flags),
        condition_holds(Condition::Equal, flags) == flags.zero_flag,
        condition_holds(Condition::CarrySet, flags) == flags.carry_flag,
        condition_holds(Condition::Negative, flags) == flags.negative_flag,
        condition_holds(Condition::OverflowSet, flags) == flags.overflow_flag,
        condition_holds(Condition::GreaterThanEquals, flags) == (flags.negative_flag == flags.overflow_flag),
        condition_holds(Condition::LessThan, flags) == (flags.negative_flag != flags.overflow_flag),
        condition_holds(Condition::UnsignedHigher, flags) == (flags.carry_flag && !flags.zero_flag),
        condition_holds(Condition::GreaterThan, flags) == (!flags.zero_flag && condition_holds(
            Condition::GreaterThanEquals,
            flags,
        )),
        condition_holds(Condition::Always, flags),
{
}

/// After a comparison of `a` with `b`, each condition code answers the
/// question it is named after: EQ whether `a == b`, CS (HS) whether
/// `a >= b` unsigned, HI whether `a > b` unsigned, LS whether `a <= b`
/// unsigned, GE, LT, GT and LE the same questions on the signed values.
pub proof fn lemma_conditions_after_comparison(a: u32, b: u32)
    ensures
        condition_holds(Condition::Equal, comparison_flags(a, b)) == (a == b),
        condition_holds(Condition::NotEqual, comparison_flags(a, b)) == (a != b),
        condition_holds(Condition::CarrySet, comparison_flags(a, b)) == (a >= b),
        condition_holds(Condition::CarryClear, comparison_flags(a, b)) == (a < b),
        condition_holds(Condition::UnsignedHigher, comparison_flags(a, b)) == (a > b),
        condition_holds(Condition::UnsignedLowerOrSame, comparison_flags(a, b)) == (a <= b),
        condition_holds(Condition::GreaterThanEquals, comparison_flags(a, b)) == (signed_value(a)
            >= signed_value(b)),
        condition_holds(Condition::LessThan, comparison_flags(a, b)) == (signed_value(a) < signed_value(
            b,
        )),
        condition_holds(Condition::GreaterThan, comparison_flags(a, b)) == (signed_value(a)
            > signed_value(b)),
        condition_holds(Condition::LessThanEquals, comparison_flags(a, b)) == (signed_value(a)
            <= signed_value(b)),
{
}


/// The ARM condition field table: the four-bit field of an instruction
/// (bits 31-28 in ARM code) decides from the flags whether it runs: 0 Z,
/// 1 not Z, 2 C, 3 not C, 4 N, 5 not N, 6 V, 7 not V, 8 C and not Z,
/// 9 not C or Z, 10 N equal to V, 11 N different from V, 12 not Z and N
/// equal to V, 13 Z or N different from V, 14 always; 15 is no condition.
pub proof fn lemma_condition_field_table(flags: InstructionFlags)
    ensures
        ({
            let holds = |v: u8| condition_holds(condition_of(v)->Ok_0, flags);
            let (n, z, c, v) = (flags.negative_flag, flags.zero_flag, flags.carry_flag, flags.overflow_flag);
            &&& holds(0) == z
            &&& holds(1) == !z
            &&& holds(2) == c
            &&& holds(3) == !c
            &&& holds(4) == n
            &&& holds(5) == !n
            &&& holds(6) == v
            &&& holds(7) == !v
            &&& holds(8) == (c && !z)
            &&& holds(9) == (!c || z)
            &&& holds(10) == (n == v)
            &&& holds(11) == (n != v)
            &&& holds(12) == (!z && n == v)
            &&& holds(13) == (z || n != v)
            &&& holds(14)
            &&& forall|k: u8| k < 15 ==> #[trigger] condition_of(k) is Ok
            &&& condition_of(15) == Err::<Condition, ConditionError>(ConditionError::InvalidValue)
        }),
{
}

} // verus!
