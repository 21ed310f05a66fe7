//! The second operand of data-processing instructions and the barrel shifter
//! that produces it.
use vstd::prelude::*;

use crate::registers::{flags_of, mode_of_bits, nz_bits, nzv_bits, with_flag, RegisterIndex, Registers};

verus! {

/// The operation of a data-processing instruction.
#[derive(Debug, Clone, Copy, PartialEq, Eq, Structural)]
pub enum ShifterOperandInstructionOp {
    Move,
    Compare,
    CompareNegative,
    And,
    InclusiveOr,
    ExclusiveOr,
    Add,
    AddWithCarry,
    Subtract,
    Multiplicate,
    ReverseSubtract,
    TestEquals,
    Test,
    MoveNegate,
    BitClear,
}

impl ShifterOperandInstructionOp {
    /// Whether the operation writes its destination register.
    pub fn uses_destination(&self) -> (r: bool)
        ensures
            r == !(*self == ShifterOperandInstructionOp::Compare || *self
                == ShifterOperandInstructionOp::Test || *self
                == ShifterOperandInstructionOp::TestEquals),
    {
        match self {
            ShifterOperandInstructionOp::Compare
            | ShifterOperandInstructionOp::Test
            | ShifterOperandInstructionOp::TestEquals => false,
            _ => true,
        }
    }

    /// Whether the operation reads its base register.
    pub fn uses_base(&self) -> (r: bool)
        ensures
            r == !(*self == ShifterOperandInstructionOp::Move || *self
                == ShifterOperandInstructionOp::MoveNegate),
    {
        match self {
            ShifterOperandInstructionOp::Move | ShifterOperandInstructionOp::MoveNegate => false,
            _ => true,
        }
    }
}

/// The four shifts of the barrel shifter.
#[derive(Debug, Clone, Copy, PartialEq, Eq, Structural)]
pub enum ShiftOperator {
    LeftShift,
    RightShift,
    RotateRight,
    ArithmeticRightShift,
}

/// `v` rotated right by `n` bits, for `n` below 32.
pub open spec fn rotate_right(v: u32, n: u32) -> u32 {
    if n == 0 {
        v
    } else {
        (v >> n) | (v << ((32 - n) as u32))
    }
}

/// The value that a shift produces, for a shift amount below 32.
pub open spec fn shift_value(op: ShiftOperator, lhs: u32, rhs: u32, carry_flag: bool) -> u32 {
    match op {
        ShiftOperator::LeftShift => lhs << rhs,
        ShiftOperator::RightShift => if rhs == 0 {
            32
        } else {
            lhs >> rhs
        },
        ShiftOperator::RotateRight => if rhs == 0 {
            (if carry_flag { 0x8000_0000u32 } else { 0u32 }) | (lhs >> 1u32)
        } else {
            rotate_right(lhs, rhs)
        },
        ShiftOperator::ArithmeticRightShift => if rhs == 0 {
            if (lhs as i32) < 0 {
                u32::MAX
            } else {
                0
            }
        } else {
            (lhs as i32).wrapping_shr(rhs) as u32
        },
    }
}

/// The carry that a shift produces, for a shift amount below 32.
pub open spec fn shift_carry(op: ShiftOperator, lhs: u32, rhs: u32, carry_flag: bool) -> bool {
    match op {
        ShiftOperator::LeftShift => if rhs == 0 {
            carry_flag
        } else {
            lhs & (1u32 << ((32 - rhs) as u32)) != 0
        },
        ShiftOperator::RightShift | ShiftOperator::ArithmeticRightShift => if rhs == 0 {
            (lhs as i32) < 0
        } else {
            lhs & (1u32 << ((rhs - 1) as u32)) != 0
        },
        ShiftOperator::RotateRight => if rhs == 0 {
            lhs & 1 != 0
        } else {
            lhs & (1u32 << ((rhs - 1) as u32)) != 0
        },
    }
}

/// The shift that a two-bit shift field selects.
pub open spec fn shift_of(shift: u32) -> ShiftOperator {
    if shift == 0 {
        ShiftOperator::LeftShift
    } else if shift == 1 {
        ShiftOperator::RightShift
    } else if shift == 2 {
        ShiftOperator::ArithmeticRightShift
    } else {
        ShiftOperator::RotateRight
    }
}

impl ShiftOperator {
    /// Shifts `lhs` by `rhs` bits and returns the result with the carry out.
    pub fn execute(&self, lhs: u32, rhs: u32, carry_flag: bool) -> (r: (u32, bool))
        requires
            rhs < 32,
        ensures
            r == (shift_value(*self, lhs, rhs, carry_flag), shift_carry(*self, lhs, rhs, carry_flag)),
    {
        let value = match self {
            ShiftOperator::LeftShift => lhs.wrapping_shl(rhs),
            ShiftOperator::RightShift => {
                if rhs == 0 {
                    32
                } else {
                    lhs.wrapping_shr(rhs)
                }
            },
            ShiftOperator::RotateRight => {
                if rhs == 0 {
                    (if carry_flag { 0x8000_0000u32 } else { 0u32 }) | (lhs >> 1u32)
                } else {
                    (lhs >> rhs) | (lhs << (32 - rhs))
                }
            },
            ShiftOperator::ArithmeticRightShift => {
                if rhs == 0 {
                    if (lhs as i32) < 0 {
                        u32::MAX
                    } else {
                        0
                    }
                } else {
                    (lhs as i32).wrapping_shr(rhs) as u32
                }
            },
        };
        let carry = match self {
            ShiftOperator::LeftShift => {
                if rhs == 0 {
                    carry_flag
                } else {
                    (lhs & (1u32 << (32 - rhs))) != 0
                }
            },
            ShiftOperator::RightShift | ShiftOperator::ArithmeticRightShift => {
                if rhs == 0 {
                    (lhs as i32) < 0
                } else {
                    (lhs & (1u32 << (rhs - 1))) != 0
                }
            },
            ShiftOperator::RotateRight => {
                if rhs == 0 {
                    (lhs & 1) != 0
                } else {
                    (lhs & (1u32 << (rhs - 1))) != 0
                }
            },
        };
        proof {
            assert(lhs.wrapping_shl(rhs) == lhs << rhs) by (bit_vector)
                requires
                    rhs < 32,
            ;
            assert(lhs.wrapping_shr(rhs) == lhs >> rhs) by (bit_vector)
                requires
                    rhs < 32,
            ;
        }
        (value, carry)
    }

    /// The shift of a two-bit shift field.
    pub fn decode(shift: u32) -> (r: ShiftOperator)
        requires
            shift < 4,
        ensures
            r == shift_of(shift),
    {
        if shift == 0 {
            ShiftOperator::LeftShift
        } else if shift == 1 {
            ShiftOperator::RightShift
        } else if shift == 2 {
            ShiftOperator::ArithmeticRightShift
        } else {
            ShiftOperator::RotateRight
        }
    }
}

/// The second operand of a data-processing instruction.
#[derive(Debug, Clone, Copy, PartialEq, Eq, Structural)]
pub enum ShifterOperand {
    Immediate(u32, Option<bool>),
    Register(RegisterIndex),
    RegisterImmediate(RegisterIndex, ShiftOperator, u8),
    RegisterRegister(RegisterIndex, ShiftOperator, RegisterIndex),
}

impl ShifterOperand {
    /// Whether the operand can be evaluated in `regs`: its registers can be
    /// read and a shift amount is below 32.
    pub open spec fn can_resolve(self, regs: Registers) -> bool {
        match self {
            ShifterOperand::Immediate(_, _) => true,
            ShifterOperand::Register(r) => regs.can_read(r),
            ShifterOperand::RegisterImmediate(r, _, imm) => regs.can_read(r) && imm < 32,
            ShifterOperand::RegisterRegister(r, _, r2) => regs.can_read(r) && regs.can_read(r2)
                && regs.spec_read(r2) < 32,
        }
    }

    /// The operand's value in `regs`.
    pub open spec fn value_in(self, regs: Registers) -> u32 {
        match self {
            ShifterOperand::Immediate(v, _) => v,
            ShifterOperand::Register(r) => regs.spec_read(r),
            ShifterOperand::RegisterImmediate(r, op, imm) => shift_value(
                op,
                regs.spec_read(r),
                imm as u32,
                regs.spec_flags().carry_flag,
            ),
            ShifterOperand::RegisterRegister(r, op, r2) => shift_value(
                op,
                regs.spec_read(r),
                regs.spec_read(r2),
                regs.spec_flags().carry_flag,
            ),
        }
    }

    /// The carry that evaluating the operand produces in `regs`; a plain
    /// register operand leaves the carry alone.
    pub open spec fn carry_in(self, regs: Registers) -> Option<bool> {
        match self {
            ShifterOperand::Immediate(_, c) => Some(
                match c {
                    Some(c) => c,
                    None => regs.spec_flags().carry_flag,
                },
            ),
            ShifterOperand::Register(_) => None,
            ShifterOperand::RegisterImmediate(r, op, imm) => Some(
                shift_carry(op, regs.spec_read(r), imm as u32, regs.spec_flags().carry_flag),
            ),
            ShifterOperand::RegisterRegister(r, op, r2) => Some(
                shift_carry(op, regs.spec_read(r), regs.spec_read(r2), regs.spec_flags().carry_flag),
            ),
        }
    }

    /// The registers after evaluating the operand: with `update_flags` its
    /// carry, if it has one, replaces the C flag.
    pub open spec fn registers_after(self, regs: Registers, update_flags: bool) -> Registers {
        match self.carry_in(regs) {
            Some(c) => if update_flags {
                regs.spec_write(
                    RegisterIndex::Cpsr,
                    with_flag(regs.cpsr_bits(), 0x2000_0000, c),
                )
            } else {
                regs
            },
            None => regs,
        }
    }

    /// The operand's value in `registers`, with no effect on the flags.
    pub fn resolve(&self, registers: &Registers) -> (r: u32)
        requires
            self.can_resolve(*registers),
        ensures
            r == self.value_in(*registers),
    {
        match *self {
            ShifterOperand::Immediate(value, _) => value,
            ShifterOperand::Register(register) => registers.read(register),
            ShifterOperand::RegisterImmediate(register, shift_op, immediate) => {
                let value = registers.read(register);
                let (value, _carry_flag) = shift_op.execute(
                    value,
                    immediate as u32,
                    registers.flags().carry_flag,
                );
                value
            },
            ShifterOperand::RegisterRegister(register, shift_op, register2) => {
                let value = registers.read(register);
                let value2 = registers.read(register2);
                let (value, _carry_flag) = shift_op.execute(
                    value,
                    value2,
                    registers.flags().carry_flag,
                );
                value
            },
        }
    }

    /// The operand's value; with `update_flags`, the carry it produces is
    /// stored in the C flag.
    pub fn resolve_mut(&self, registers: &mut Registers, update_flags: bool) -> (r: u32)
        requires
            self.can_resolve(*old(registers)),
        ensures
            r == self.value_in(*old(registers)),
            *final(registers) == self.registers_after(*old(registers), update_flags),
    {
        match *self {
            ShifterOperand::Immediate(value, carry_flag) => {
                if update_flags {
                    let carry = match carry_flag {
                        Some(c) => c,
                        None => registers.flags().carry_flag,
                    };
                    registers.update_carry_flag(carry);
                }
                value
            },
            ShifterOperand::Register(register) => registers.read(register),
            ShifterOperand::RegisterImmediate(register, shift_op, immediate) => {
                let value = registers.read(register);
                let (value, carry_flag) = shift_op.execute(
                    value,
                    immediate as u32,
                    registers.flags().carry_flag,
                );
                if update_flags {
                    registers.update_carry_flag(carry_flag);
                }
                value
            },
            ShifterOperand::RegisterRegister(register, shift_op, register2) => {
                let value = registers.read(register);
                let value2 = registers.read(register2);
                let (value, carry_flag) = shift_op.execute(
                    value,
                    value2,
                    registers.flags().carry_flag,
                );
                if update_flags {
                    registers.update_carry_flag(carry_flag);
                }
                value
            },
        }
    }

    /// The shifter operand that bits 0-11 and 25 of a data-processing word
    /// encode; words that encode none are left out.
    pub open spec fn spec_decode(value: u32) -> ShifterOperand {
        if value & 0x0200_0000 != 0 {
            let rotate = (value & 0xf00) >> 8u32;
            let immediate = rotate_right(value & 0xff, (rotate * 2) as u32);
            ShifterOperand::Immediate(
                immediate,
                if rotate != 0 {
                    Some(immediate & 0x8000_0000 != 0)
                } else {
                    None
                },
            )
        } else if value & 0x10 == 0 {
            ShifterOperand::RegisterImmediate(
                RegisterIndex::from_raw((value & 0xf) as nat).unwrap(),
                shift_of((value & 0x60) >> 5u32),
                ((value & 0xf80) >> 7u32) as u8,
            )
        } else {
            ShifterOperand::RegisterRegister(
                RegisterIndex::from_raw((value & 0xf) as nat).unwrap(),
                shift_of((value & 0x60) >> 5u32),
                RegisterIndex::from_raw(((value & 0xf00) >> 8u32) as nat).unwrap(),
            )
        }
    }

    /// Whether bits 0-11 and 25 of `value` encode a shifter operand.
    pub open spec fn is_encoded(value: u32) -> bool {
        value & 0x0200_0000 != 0 || value & 0x10 == 0 || value & 0x80 == 0
    }

    /// Decodes the shifter operand of a data-processing word.
    pub fn try_from_u32(value: u32) -> (r: Result<ShifterOperand, crate::instructions::InstructionDecodeError>)
        requires
            Self::is_encoded(value),
        ensures
            r == Ok::<ShifterOperand, crate::instructions::InstructionDecodeError>(Self::spec_decode(value)),
    {
        let is_immediate = (value & 0x0200_0000) != 0;
        let is_immediate_shifts = (value & 0x0200_0000) == 0 && (value & 0x10) == 0;
        if is_immediate {
            let immediate = value & 0x0ff;
            let rotate_immediate = (value & 0xf00) >> 8;
            assert(rotate_immediate < 16) by (bit_vector)
                requires
                    rotate_immediate == (value & 0xf00) >> 8u32,
            ;
            let amount = rotate_immediate * 2;
            let immediate = if amount == 0 {
                immediate
            } else {
                (immediate >> amount) | (immediate << (32 - amount))
            };
            Ok(
                ShifterOperand::Immediate(
                    immediate,
                    if rotate_immediate != 0 {
                        Some((immediate & 0x8000_0000) != 0)
                    } else {
                        None
                    },
                ),
            )
        } else if is_immediate_shifts {
            let rm = value & 0x0000_000F;
            let immediate = ((value & 0x0000_0F80) >> 7) as u8;
            let shift = (value & 0x0000_0060) >> 5;
            assert(rm < 16 && shift < 4 && (value & 0xf80) >> 7u32 < 32) by (bit_vector)
                requires
                    rm == value & 0xf,
                    shift == (value & 0x60) >> 5u32,
            ;
            let rm = match RegisterIndex::try_from_u32(rm) {
                Ok(r) => r,
                Err(()) => {
                    return Err(crate::instructions::InstructionDecodeError::InvalidRegisterIndex(rm));
                },
            };
            let shift_op = ShiftOperator::decode(shift);
            Ok(ShifterOperand::RegisterImmediate(rm, shift_op, immediate))
        } else {
            let rm = value & 0x0000_000F;
            let shift = (value & 0x0000_0060) >> 5;
            let rs = (value & 0x0000_0F00) >> 8;
            assert(rm < 16 && shift < 4 && rs < 16) by (bit_vector)
                requires
                    rm == value & 0xf,
                    shift == (value & 0x60) >> 5u32,
                    rs == (value & 0xf00) >> 8u32,
            ;
            let rm = match RegisterIndex::try_from_u32(rm) {
                Ok(r) => r,
                Err(()) => {
                    return Err(crate::instructions::InstructionDecodeError::InvalidRegisterIndex(rm));
                },
            };
            let rs = match RegisterIndex::try_from_u32(rs) {
                Ok(r) => r,
                Err(()) => {
                    return Err(crate::instructions::InstructionDecodeError::InvalidRegisterIndex(rs));
                },
            };
            let shift_op = ShiftOperator::decode(shift);
            Ok(ShifterOperand::RegisterRegister(rm, shift_op, rs))
        }
    }
}

/// Whether `v` lies outside the range of `i32`.
pub open spec fn overflows_i32(v: int) -> bool {
    v < i32::MIN || v > i32::MAX
}

/// The wrapped sum and whether the signed addition overflowed.
pub fn overflowing_add_i32(a: i32, b: i32) -> (r: (i32, bool))
    ensures
        r == (a.wrapping_add(b), overflows_i32(a + b)),
{
    let wide = a as i64 + b as i64;
    (a.wrapping_add(b), wide < -0x8000_0000i64 || wide > 0x7fff_ffffi64)
}

/// The wrapped difference and whether the signed subtraction overflowed.
pub fn overflowing_sub_i32(a: i32, b: i32) -> (r: (i32, bool))
    ensures
        r == (a.wrapping_sub(b), overflows_i32(a - b)),
{
    let wide = a as i64 - b as i64;
    (a.wrapping_sub(b), wide < -0x8000_0000i64 || wide > 0x7fff_ffffi64)
}

/// The wrapped product and whether the signed multiplication overflowed.
pub fn overflowing_mul_i32(a: i32, b: i32) -> (r: (i32, bool))
    ensures
        r == (a.wrapping_mul(b), overflows_i32(a * b)),
{
    assert(-0x4000_0000_0000_0000 <= a * b <= 0x4000_0000_0000_0000) by (nonlinear_arith)
        requires
            -0x8000_0000 <= a <= 0x7fff_ffff,
            -0x8000_0000 <= b <= 0x7fff_ffff,
    ;
    let wide = (a as i64) * (b as i64);
    (a.wrapping_mul(b), wide < -0x8000_0000i64 || wide > 0x7fff_ffffi64)
}

/// The registers after copying the saved status word into the current
/// one, as data-processing instructions that write the instruction
/// pointer do.
pub open spec fn restore_cpsr(regs: Registers) -> Registers {
    regs.spec_write(RegisterIndex::Cpsr, regs.spec_read(RegisterIndex::Spsr))
}

/// The registers after storing an arithmetic `result` in `destination`:
/// writing the instruction pointer restores the saved status word; else,
/// with `update_flags`, N, Z and V follow the result and C, if given,
/// becomes `carry`.
pub open spec fn arithmetic_result(
    regs: Registers,
    destination: RegisterIndex,
    result: (i32, bool),
    update_flags: bool,
    carry: Option<bool>,
) -> Registers {
    let r1 = regs.spec_write(destination, result.0 as u32);
    if destination == RegisterIndex::Ip {
        restore_cpsr(r1)
    } else if update_flags {
        let r2 = r1.spec_write(RegisterIndex::Cpsr, nzv_bits(r1.cpsr_bits(), result.0, result.1));
        match carry {
            Some(c) => r2.spec_write(RegisterIndex::Cpsr, with_flag(r2.cpsr_bits(), 0x2000_0000, c)),
            None => r2,
        }
    } else {
        r1
    }
}

/// Whether `arithmetic_result` can be computed: the destination can be
/// located and, where the saved status word is restored, it can be read.
pub open spec fn can_store_arithmetic(regs: Registers, destination: RegisterIndex, value: u32) -> bool {
    &&& regs.can_access(destination)
    &&& destination == RegisterIndex::Ip ==> regs.spec_write(destination, value).can_read(
        RegisterIndex::Spsr,
    )
}

/// The registers after storing a logical `result` in `destination`; with
/// `update_flags`, N and Z follow it.
pub open spec fn logical_result(regs: Registers, destination: RegisterIndex, result: u32, update_flags: bool) -> Registers {
    let r1 = regs.spec_write(destination, result);
    if update_flags {
        r1.spec_write(RegisterIndex::Cpsr, nz_bits(r1.cpsr_bits(), result))
    } else {
        r1
    }
}

/// The registers after only updating the flags from a test's result.
pub open spec fn tested(regs: Registers, result: u32) -> Registers {
    regs.spec_write(RegisterIndex::Cpsr, nz_bits(regs.cpsr_bits(), result))
}

impl ShifterOperandInstructionOp {
    /// Whether the operation can run: the operand and the base can be read,
    /// the destination can be located, the saved status word can be read
    /// where it is restored, and the comparisons and tests set the flags.
    pub open spec fn can_execute(
        self,
        regs0: Registers,
        update_flags: bool,
        base: RegisterIndex,
        destination: RegisterIndex,
        value: ShifterOperand,
    ) -> bool {
        let v = value.value_in(regs0);
        let regs = value.registers_after(regs0, update_flags);
        &&& value.can_resolve(regs0)
        &&& self.uses_base_spec() ==> regs.can_read(base)
        &&& match self {
            ShifterOperandInstructionOp::Compare
            | ShifterOperandInstructionOp::CompareNegative
            | ShifterOperandInstructionOp::TestEquals
            | ShifterOperandInstructionOp::Test => update_flags,
            ShifterOperandInstructionOp::And
            | ShifterOperandInstructionOp::InclusiveOr
            | ShifterOperandInstructionOp::ExclusiveOr
            | ShifterOperandInstructionOp::BitClear => regs.can_access(destination),
            ShifterOperandInstructionOp::Move => {
                &&& regs.can_access(destination)
                &&& update_flags && destination == RegisterIndex::Ip ==> regs.spec_write(
                    destination,
                    v,
                ).can_read(RegisterIndex::Spsr)
            },
            ShifterOperandInstructionOp::MoveNegate => can_store_arithmetic(regs, destination, !v),
            ShifterOperandInstructionOp::Add => can_store_arithmetic(
                regs,
                destination,
                self.spec_arithmetic(regs, base, v).0 as u32,
            ),
            ShifterOperandInstructionOp::AddWithCarry
            | ShifterOperandInstructionOp::Subtract
            | ShifterOperandInstructionOp::ReverseSubtract
            | ShifterOperandInstructionOp::Multiplicate => can_store_arithmetic(
                regs,
                destination,
                self.spec_arithmetic(regs, base, v).0 as u32,
            ),
        }
    }

    pub open spec fn uses_base_spec(self) -> bool {
        !(self == ShifterOperandInstructionOp::Move || self == ShifterOperandInstructionOp::MoveNegate)
    }

    /// The result and signed-overflow flag of an arithmetic operation on the
    /// base register and the operand value `v`.
    pub open spec fn spec_arithmetic(self, regs: Registers, base: RegisterIndex, v: u32) -> (i32, bool) {
        let lhs = regs.spec_read(base) as i32;
        match self {
            ShifterOperandInstructionOp::Add => {
                let l = if base == RegisterIndex::Ip {
                    lhs & !3i32
                } else {
                    lhs
                };
                (l.wrapping_add(v as i32), overflows_i32(l + (v as i32)))
            },
            ShifterOperandInstructionOp::AddWithCarry => {
                let c: i32 = if regs.spec_flags().carry_flag {
                    1
                } else {
                    0
                };
                let first = lhs.wrapping_add(c);
                (
                    first.wrapping_add(v as i32),
                    overflows_i32(first + (v as i32)) || overflows_i32(lhs + c),
                )
            },
            ShifterOperandInstructionOp::Subtract => (
                lhs.wrapping_sub(v as i32),
                overflows_i32(lhs - (v as i32)),
            ),
            ShifterOperandInstructionOp::ReverseSubtract => (
                (v as i32).wrapping_sub(lhs),
                overflows_i32((v as i32) - lhs),
            ),
            ShifterOperandInstructionOp::Multiplicate => (
                lhs.wrapping_mul(v as i32),
                overflows_i32(lhs * (v as i32)),
            ),
            ShifterOperandInstructionOp::Compare => (
                lhs.wrapping_sub(v as i32),
                overflows_i32(lhs - (v as i32)),
            ),
            _ => (lhs.wrapping_add(v as i32), overflows_i32(lhs + (v as i32))),
        }
    }

    /// The registers after the operation.
    pub open spec fn spec_execute(
        self,
        regs0: Registers,
        update_flags: bool,
        base: RegisterIndex,
        destination: RegisterIndex,
        value: ShifterOperand,
    ) -> Registers {
        let v = value.value_in(regs0);
        let regs = value.registers_after(regs0, update_flags);
        let b = regs.spec_read(base);
        match self {
            ShifterOperandInstructionOp::Move => {
                let r1 = regs.spec_write(destination, v);
                if update_flags {
                    if destination == RegisterIndex::Ip {
                        restore_cpsr(r1)
                    } else {
                        tested(r1, v)
                    }
                } else {
                    r1
                }
            },
            ShifterOperandInstructionOp::MoveNegate => {
                let r1 = regs.spec_write(destination, !v);
                if destination == RegisterIndex::Ip {
                    restore_cpsr(r1)
                } else if update_flags {
                    tested(r1, !v)
                } else {
                    r1
                }
            },
            ShifterOperandInstructionOp::Compare => {
                let lhs = b as i32;
                let r = self.spec_arithmetic(regs, base, v);
                let r1 = regs.spec_write(RegisterIndex::Cpsr, nzv_bits(regs.cpsr_bits(), r.0, r.1));
                r1.spec_write(
                    RegisterIndex::Cpsr,
                    with_flag(r1.cpsr_bits(), 0x2000_0000, lhs >= (v as i32)),
                )
            },
            ShifterOperandInstructionOp::CompareNegative => {
                let lhs = b as i32;
                let r = (lhs.wrapping_add(v as i32), overflows_i32(lhs + (v as i32)));
                let r1 = regs.spec_write(RegisterIndex::Cpsr, nzv_bits(regs.cpsr_bits(), r.0, r.1));
                r1.spec_write(
                    RegisterIndex::Cpsr,
                    with_flag(r1.cpsr_bits(), 0x2000_0000, lhs < (v as i32)),
                )
            },
            ShifterOperandInstructionOp::Add => {
                let lhs = if base == RegisterIndex::Ip {
                    (b as i32) & !3i32
                } else {
                    b as i32
                };
                arithmetic_result(
                    regs,
                    destination,
                    self.spec_arithmetic(regs, base, v),
                    update_flags,
                    Some((lhs as u32) + v > u32::MAX),
                )
            },
            ShifterOperandInstructionOp::AddWithCarry | ShifterOperandInstructionOp::Multiplicate => arithmetic_result(
                regs,
                destination,
                self.spec_arithmetic(regs, base, v),
                update_flags,
                None,
            ),
            ShifterOperandInstructionOp::Subtract => arithmetic_result(
                regs,
                destination,
                self.spec_arithmetic(regs, base, v),
                update_flags,
                Some((b as i32) >= (v as i32)),
            ),
            ShifterOperandInstructionOp::ReverseSubtract => arithmetic_result(
                regs,
                destination,
                self.spec_arithmetic(regs, base, v),
                update_flags,
                Some((v as i32) >= (b as i32)),
            ),
            ShifterOperandInstructionOp::And => logical_result(regs, destination, b & v, update_flags),
            ShifterOperandInstructionOp::InclusiveOr => logical_result(
                regs,
                destination,
                b | v,
                update_flags,
            ),
            ShifterOperandInstructionOp::ExclusiveOr => logical_result(
                regs,
                destination,
                b ^ v,
                update_flags,
            ),
            ShifterOperandInstructionOp::BitClear => logical_result(
                regs,
                destination,
                b & !v,
                update_flags,
            ),
            ShifterOperandInstructionOp::TestEquals => tested(regs, b ^ v),
            ShifterOperandInstructionOp::Test => tested(regs, b & v),
        }
    }

    fn store_arithmetic(
        registers: &mut Registers,
        destination: RegisterIndex,
        result: (i32, bool),
        update_flags: bool,
        carry: Option<bool>,
    )
        requires
            can_store_arithmetic(*old(registers), destination, result.0 as u32),
        ensures
            *final(registers) == arithmetic_result(
                *old(registers),
                destination,
                result,
                update_flags,
                carry,
            ),
    {
        registers.write(destination, result.0 as u32);
        if destination == RegisterIndex::Ip {
            let spsr = registers.read(RegisterIndex::Spsr);
            registers.write(RegisterIndex::Cpsr, spsr);
        } else if update_flags {
            registers.update_nzv_flags(result);
            match carry {
                Some(c) => registers.update_carry_flag(c),
                None => {},
            }
        }
    }

    /// Runs the operation on the base register and the operand, storing the
    /// result and the flags as the ARM data-processing instructions do.
    pub fn execute(
        &self,
        registers: &mut Registers,
        update_flags: bool,
        base: RegisterIndex,
        destination: RegisterIndex,
        value: ShifterOperand,
    )
        requires
            self.can_execute(*old(registers), update_flags, base, destination, value),
        ensures
            *final(registers) == self.spec_execute(
                *old(registers),
                update_flags,
                base,
                destination,
                value,
            ),
    {
        let value = value.resolve_mut(registers, update_flags);
        match self {
            ShifterOperandInstructionOp::Move => {
                registers.write(destination, value);
                if update_flags {
                    if destination == RegisterIndex::Ip {
                        let spsr = registers.read(RegisterIndex::Spsr);
                        registers.write(RegisterIndex::Cpsr, spsr);
                    } else {
                        registers.update_nz_flags(value);
                    }
                }
            },
            ShifterOperandInstructionOp::MoveNegate => {
                let value = !value;
                registers.write(destination, value);
                if destination == RegisterIndex::Ip {
                    let spsr = registers.read(RegisterIndex::Spsr);
                    registers.write(RegisterIndex::Cpsr, spsr);
                } else if update_flags {
                    registers.update_nz_flags(value);
                }
            },
            ShifterOperandInstructionOp::Compare => {
                let lhs = registers.read(base) as i32;
                registers.update_nzv_flags(overflowing_sub_i32(lhs, value as i32));
                registers.update_carry_flag(lhs >= value as i32);
            },
            ShifterOperandInstructionOp::CompareNegative => {
                let lhs = registers.read(base) as i32;
                registers.update_nzv_flags(overflowing_add_i32(lhs, value as i32));
                registers.update_carry_flag(lhs < value as i32);
            },
            ShifterOperandInstructionOp::Add => {
                let lhs = registers.read(base) as i32;
                let lhs = if base == RegisterIndex::Ip {
                    lhs & !3i32
                } else {
                    lhs
                };
                let result = overflowing_add_i32(lhs, value as i32);
                let carry = (lhs as u32).checked_add(value).is_none();
                Self::store_arithmetic(registers, destination, result, update_flags, Some(carry));
            },
            ShifterOperandInstructionOp::AddWithCarry => {
                let lhs = registers.read(base) as i32;
                let carry: i32 = if registers.flags().carry_flag {
                    1
                } else {
                    0
                };
                let with_carry = overflowing_add_i32(lhs, carry);
                let result = overflowing_add_i32(with_carry.0, value as i32);
                let result = (result.0, result.1 || with_carry.1);
                Self::store_arithmetic(registers, destination, result, update_flags, None);
            },
            ShifterOperandInstructionOp::Subtract => {
                let lhs = registers.read(base) as i32;
                let result = overflowing_sub_i32(lhs, value as i32);
                Self::store_arithmetic(
                    registers,
                    destination,
                    result,
                    update_flags,
                    Some(lhs >= value as i32),
                );
            },
            ShifterOperandInstructionOp::ReverseSubtract => {
                let rhs = registers.read(base) as i32;
                let result = overflowing_sub_i32(value as i32, rhs);
                Self::store_arithmetic(
                    registers,
                    destination,
                    result,
                    update_flags,
                    Some(value as i32 >= rhs),
                );
            },
            ShifterOperandInstructionOp::Multiplicate => {
                let lhs = registers.read(base) as i32;
                let result = overflowing_mul_i32(lhs, value as i32);
                Self::store_arithmetic(registers, destination, result, update_flags, None);
            },
            ShifterOperandInstructionOp::And => {
                let result = registers.read(base) & value;
                registers.write(destination, result);
                if update_flags {
                    registers.update_nz_flags(result);
                }
            },
            ShifterOperandInstructionOp::InclusiveOr => {
                let result = registers.read(base) | value;
                registers.write(destination, result);
                if update_flags {
                    registers.update_nz_flags(result);
                }
            },
            ShifterOperandInstructionOp::ExclusiveOr => {
                let result = registers.read(base) ^ value;
                registers.write(destination, result);
                if update_flags {
                    registers.update_nz_flags(result);
                }
            },
            ShifterOperandInstructionOp::TestEquals => {
                let result = registers.read(base) ^ value;
                registers.update_nz_flags(result);
            },
            ShifterOperandInstructionOp::Test => {
                let result = registers.read(base) & value;
                registers.update_nz_flags(result);
            },
            ShifterOperandInstructionOp::BitClear => {
                let result = registers.read(base) & !value;
                registers.write(destination, result);
                if update_flags {
                    registers.update_nz_flags(result);
                }
            },
        }
    }
}


/// Bit `i` of `v`.
pub open spec fn bit(v: u32, i: u32) -> u32 {
    (v >> i) & 1
}

/// What each of the four shifts does to the bits of a value, for a shift
/// amount `n` from 1 to 31.
proof fn lemma_shift_bits(lhs: u32, n: u32, i: u32)
    by (bit_vector)
    requires
        0 < n < 32,
        i < 32,
    ensures
        ((lhs << n) >> i) & 1 == if i >= n { (lhs >> ((i - n) as u32)) & 1 } else { 0 },
        ((lhs >> n) >> i) & 1 == if i + n < 32 { (lhs >> ((i + n) as u32)) & 1 } else { 0 },
        (((lhs >> n) | (lhs << ((32 - n) as u32))) >> i) & 1 == if i + n < 32 {
            (lhs >> ((i + n) as u32)) & 1
        } else {
            (lhs >> ((i + n - 32) as u32)) & 1
        },
        ((((lhs as i32) >> n) as u32) >> i) & 1 == if i + n < 32 {
            (lhs >> ((i + n) as u32)) & 1
        } else {
            (lhs >> 31u32) & 1
        },
        (lhs & (1u32 << ((n - 1) as u32)) != 0) == ((lhs >> ((n - 1) as u32)) & 1 == 1),
        (lhs & (1u32 << ((32 - n) as u32)) != 0) == ((lhs >> ((32 - n) as u32)) & 1 == 1),
{
}

/// The barrel shifter moves bits: for a shift amount `n` from 1 to 31,
/// bit `i` of the result of a left shift is bit `i - n` of the value (zero
/// below `n`); of a logical right shift bit `i + n` (zero from `32 - n` on);
/// of a rotation bit `i + n` taken round the word; and of an arithmetic
/// right shift bit `i + n`, with the sign bit copied into the top `n` bits,
/// so that a negative value stays negative. The carry is the last bit
/// shifted out: bit `32 - n` for a left shift, bit `n - 1` for the others.
pub proof fn lemma_shift_moves_bits(lhs: u32, n: u32, carry_flag: bool, i: u32)
    requires
        0 < n < 32,
        i < 32,
    ensures
        bit(shift_value(ShiftOperator::LeftShift, lhs, n, carry_flag), i) == if i >= n {
            bit(lhs, (i - n) as u32)
        } else {
            0
        },
        bit(shift_value(ShiftOperator::RightShift, lhs, n, carry_flag), i) == if i + n < 32 {
            bit(lhs, (i + n) as u32)
        } else {
            0
        },
        bit(shift_value(ShiftOperator::RotateRight, lhs, n, carry_flag), i) == bit(
            lhs,
            ((i + n) % 32) as u32,
        ),
        bit(shift_value(ShiftOperator::ArithmeticRightShift, lhs, n, carry_flag), i) == if i + n < 32 {
            bit(lhs, (i + n) as u32)
        } else {
            bit(lhs, 31)
        },
        shift_carry(ShiftOperator::LeftShift, lhs, n, carry_flag) == (bit(lhs, (32 - n) as u32) == 1),
        shift_carry(ShiftOperator::RightShift, lhs, n, carry_flag) == (bit(lhs, (n - 1) as u32) == 1),
        shift_carry(ShiftOperator::ArithmeticRightShift, lhs, n, carry_flag) == (bit(lhs, (n - 1) as u32)
            == 1),
        shift_carry(ShiftOperator::RotateRight, lhs, n, carry_flag) == (bit(lhs, (n - 1) as u32) == 1),
{
    lemma_shift_bits(lhs, n, i);
}


/// Setting N and Z from a result keeps the mode bits, and the flags then
/// read the result's sign and whether it is zero.
proof fn lemma_nz_bits(psr: u32, result: u32)
    by (bit_vector)
    ensures
        nz_bits(psr, result) & 0x1f == psr & 0x1f,
        (nz_bits(psr, result) & 0x4000_0000 != 0) == (result == 0),
        (nz_bits(psr, result) & 0x8000_0000 != 0) == (result >= 0x8000_0000),
        (nz_bits(psr, result) & 0x2000_0000) == (psr & 0x2000_0000),
        (nz_bits(psr, result) & 0x1000_0000) == (psr & 0x1000_0000),
{
}

/// Setting N and Z after storing a result in a register other than the
/// status word keeps the stored result, and the flags tell the result's
/// sign and whether it is zero; C and V stay.
proof fn lemma_store_then_nz(regs: Registers, destination: RegisterIndex, result: u32, flags_from: u32)
    requires
        regs.can_access(destination),
        destination != RegisterIndex::Cpsr,
    ensures
        regs.spec_write(destination, result).spec_read_raw(destination) == result,
        ({
            let r1 = regs.spec_write(destination, result);
            let r2 = r1.spec_write(RegisterIndex::Cpsr, nz_bits(r1.cpsr_bits(), flags_from));
            &&& r2.spec_read_raw(destination) == result
            &&& r2.spec_flags().zero_flag == (flags_from == 0)
            &&& r2.spec_flags().negative_flag == (flags_from >= 0x8000_0000)
            &&& r2.spec_flags().carry_flag == regs.spec_flags().carry_flag
            &&& r2.spec_flags().overflow_flag == regs.spec_flags().overflow_flag
        }),
{
    regs.lemma_read_after_write(destination, result, destination);
    let r1 = regs.spec_write(destination, result);
    let nz = nz_bits(r1.cpsr_bits(), flags_from);
    lemma_nz_bits(r1.cpsr_bits(), flags_from);
    r1.lemma_write_cpsr(nz);
    let r2 = r1.spec_write(RegisterIndex::Cpsr, nz);
    r1.lemma_bank_bound(destination);
    assert(mode_of_bits(r2.cpsr_bits()) == mode_of_bits(r1.cpsr_bits()));
    assert(r2.bank_of(destination) == r1.bank_of(destination));
    assert(r2.slot(r1.bank_of(destination), destination.raw()) == r1.slot(
        r1.bank_of(destination),
        destination.raw(),
    ));
}

/// Setting N and Z from a result changes only the status word, and the
/// flags then tell the result's sign and whether it is zero.
proof fn lemma_test_flags(regs: Registers, result: u32)
    ensures
        ({
            let r2 = regs.spec_write(RegisterIndex::Cpsr, nz_bits(regs.cpsr_bits(), result));
            &&& r2.spec_flags().zero_flag == (result == 0)
            &&& r2.spec_flags().negative_flag == (result >= 0x8000_0000)
            &&& r2.spec_flags().carry_flag == regs.spec_flags().carry_flag
            &&& r2.spec_flags().overflow_flag == regs.spec_flags().overflow_flag
        }),
{
    lemma_nz_bits(regs.cpsr_bits(), result);
    regs.lemma_write_cpsr(nz_bits(regs.cpsr_bits(), result));
}

/// The logical data-processing operations compute what they are named
/// after, from the base register `b` (read after the operand's shift) and
/// the operand value `v`: AND gives `b & v`, ORR `b | v`, EOR `b ^ v`, BIC
/// `b & !v`, MOV `v` and MVN `!v`, stored in the destination; with
/// `update_flags`, Z tells whether that result is zero and N whether its
/// top bit is set. TST and TEQ store nothing and set Z and N from `b & v`
/// and `b ^ v`.
pub proof fn lemma_logical_operations(
    op: ShifterOperandInstructionOp,
    regs0: Registers,
    update_flags: bool,
    base: RegisterIndex,
    destination: RegisterIndex,
    value: ShifterOperand,
)
    requires
        op.can_execute(regs0, update_flags, base, destination, value),
        destination != RegisterIndex::Cpsr,
    ensures
        ({
            let regs = value.registers_after(regs0, update_flags);
            let b = regs.spec_read(base);
            let v = value.value_in(regs0);
            let after = op.spec_execute(regs0, update_flags, base, destination, value);
            let result: u32 = match op {
                ShifterOperandInstructionOp::And => b & v,
                ShifterOperandInstructionOp::InclusiveOr => b | v,
                ShifterOperandInstructionOp::ExclusiveOr => b ^ v,
                ShifterOperandInstructionOp::BitClear => b & !v,
                ShifterOperandInstructionOp::Move => v,
                ShifterOperandInstructionOp::MoveNegate => !v,
                ShifterOperandInstructionOp::Test => b & v,
                ShifterOperandInstructionOp::TestEquals => b ^ v,
                _ => 0,
            };
            let stores = op == ShifterOperandInstructionOp::And || op
                == ShifterOperandInstructionOp::InclusiveOr || op == ShifterOperandInstructionOp::ExclusiveOr
                || op == ShifterOperandInstructionOp::BitClear || (op == ShifterOperandInstructionOp::Move
                && !(update_flags && destination == RegisterIndex::Ip)) || (op
                == ShifterOperandInstructionOp::MoveNegate && destination != RegisterIndex::Ip);
            let tests = op == ShifterOperandInstructionOp::Test || op == ShifterOperandInstructionOp::TestEquals;
            &&& stores ==> after.spec_read_raw(destination) == result
            &&& (stores && update_flags) || tests ==> {
                &&& after.spec_flags().zero_flag == (result == 0)
                &&& after.spec_flags().negative_flag == (result >= 0x8000_0000)
                &&& after.spec_flags().carry_flag == regs.spec_flags().carry_flag
                &&& after.spec_flags().overflow_flag == regs.spec_flags().overflow_flag
            }
        }),
{
    let regs = value.registers_after(regs0, update_flags);
    let b = regs.spec_read(base);
    let v = value.value_in(regs0);
    match op {
        ShifterOperandInstructionOp::And => lemma_store_then_nz(regs, destination, b & v, b & v),
        ShifterOperandInstructionOp::InclusiveOr => lemma_store_then_nz(regs, destination, b | v, b | v),
        ShifterOperandInstructionOp::ExclusiveOr => lemma_store_then_nz(regs, destination, b ^ v, b ^ v),
        ShifterOperandInstructionOp::BitClear => lemma_store_then_nz(regs, destination, b & !v, b & !v),
        ShifterOperandInstructionOp::Move => lemma_store_then_nz(regs, destination, v, v),
        ShifterOperandInstructionOp::MoveNegate => lemma_store_then_nz(regs, destination, !v, !v),
        ShifterOperandInstructionOp::Test => lemma_test_flags(regs, b & v),
        ShifterOperandInstructionOp::TestEquals => lemma_test_flags(regs, b ^ v),
        _ => {},
    }
}


/// The casts between the signed and the unsigned word keep the bit
/// pattern.
proof fn lemma_word_casts(k: i32, a: u32)
    by (bit_vector)
    ensures
        k < 0 ==> (k as u32) == (k + 0x1_0000_0000) as u32,
        k >= 0 ==> (k as u32) == k as u32,
        a < 0x8000_0000 ==> (a as i32) == a as i32,
        a >= 0x8000_0000 ==> (a as i32) == (a - 0x1_0000_0000) as i32,
        ((k as u32) as i32) == k,
{
}

/// Wrapping signed addition and subtraction are addition and subtraction
/// of the bit patterns modulo 2^32.
proof fn lemma_wrapping_i32(a: u32, b: u32)
    ensures
        ((a as i32).wrapping_add(b as i32) as u32) as int == (a + b) % 0x1_0000_0000,
        ((a as i32).wrapping_sub(b as i32) as u32) as int == (a + 0x1_0000_0000 - b) % 0x1_0000_0000,
{
    lemma_word_casts(0, a);
    lemma_word_casts(0, b);
    let s = (a as i32).wrapping_add(b as i32);
    let d = (a as i32).wrapping_sub(b as i32);
    lemma_word_casts(s, a);
    lemma_word_casts(d, a);
}

/// The arithmetic data-processing operations compute what they are named
/// after, modulo 2^32, from the base register `b` (read after the operand's
/// shift) and the operand value `v`: ADD stores `b + v`, ADC `b + v` plus
/// the carry flag, SUB `b - v` and RSB `v - b`. Stated without updating the
/// flags, for a destination other than the status word and the
/// instruction pointer, and, for ADD, a base other than the instruction
/// pointer (whose low bits ADD clears).
pub proof fn lemma_arithmetic_operations(
    op: ShifterOperandInstructionOp,
    regs0: Registers,
    base: RegisterIndex,
    destination: RegisterIndex,
    value: ShifterOperand,
)
    requires
        op.can_execute(regs0, false, base, destination, value),
        destination != RegisterIndex::Cpsr,
        destination != RegisterIndex::Ip,
    ensures
        ({
            let regs = value.registers_after(regs0, false);
            let b = regs.spec_read(base);
            let v = value.value_in(regs0);
            let c: int = if regs.spec_flags().carry_flag {
                1
            } else {
                0
            };
            let stored = op.spec_execute(regs0, false, base, destination, value).spec_read_raw(destination)
                as int;
            &&& op == ShifterOperandInstructionOp::Add && base != RegisterIndex::Ip ==> stored == (b + v)
                % 0x1_0000_0000
            &&& op == ShifterOperandInstructionOp::AddWithCarry ==> stored == (b + v + c) % 0x1_0000_0000
            &&& op == ShifterOperandInstructionOp::Subtract ==> stored == (b + 0x1_0000_0000 - v)
                % 0x1_0000_0000
            &&& op == ShifterOperandInstructionOp::ReverseSubtract ==> stored == (v + 0x1_0000_0000 - b)
                % 0x1_0000_0000
        }),
{
    let regs = value.registers_after(regs0, false);
    let b = regs.spec_read(base);
    let v = value.value_in(regs0);
    match op {
        ShifterOperandInstructionOp::Add
        | ShifterOperandInstructionOp::Subtract
        | ShifterOperandInstructionOp::ReverseSubtract
        | ShifterOperandInstructionOp::AddWithCarry => {
            let r = op.spec_arithmetic(regs, base, v);
            regs.lemma_read_after_write(destination, r.0 as u32, destination);
            lemma_wrapping_i32(b, v);
            lemma_wrapping_i32(v, b);
            let c: u32 = if regs.spec_flags().carry_flag {
                1
            } else {
                0
            };
            lemma_wrapping_i32(b, c);
            let first = (b as i32).wrapping_add(c as i32);
            lemma_word_casts(first, b);
            lemma_wrapping_i32(first as u32, v);
            lemma_word_casts(0, c);
        },
        _ => {},
    }
}


/// The ARM shift type field (bits 6-5 of a register operand): 00 is a left
/// shift, 01 a logical right shift, 10 an arithmetic right shift and 11 a
/// rotation.
pub proof fn lemma_shift_field_table()
    ensures
        shift_of(0) == ShiftOperator::LeftShift,
        shift_of(1) == ShiftOperator::RightShift,
        shift_of(2) == ShiftOperator::ArithmeticRightShift,
        shift_of(3) == ShiftOperator::RotateRight,
{
}


/// How the status word's flag bits follow an arithmetic result, and what
/// the shifts by zero do to the bits of a value.
proof fn lemma_flag_and_zero_shift_bits(psr: u32, value: i32, overflow: bool, c: bool, lhs: u32, carry: bool, i: u32)
    by (bit_vector)
    requires
        i < 32,
    ensures
        nzv_bits(psr, value, overflow) & 0x1f == psr & 0x1f,
        (nzv_bits(psr, value, overflow) & 0x8000_0000 != 0) == (value < 0),
        (nzv_bits(psr, value, overflow) & 0x4000_0000 != 0) == (value == 0),
        (nzv_bits(psr, value, overflow) & 0x1000_0000 != 0) == overflow,
        (nzv_bits(psr, value, overflow) & 0x2000_0000) == (psr & 0x2000_0000),
        with_flag(psr, 0x2000_0000, c) & 0x1f == psr & 0x1f,
        (with_flag(psr, 0x2000_0000, c) & 0x2000_0000 != 0) == c,
        (with_flag(psr, 0x2000_0000, c) & 0x8000_0000) == (psr & 0x8000_0000),
        (with_flag(psr, 0x2000_0000, c) & 0x4000_0000) == (psr & 0x4000_0000),
        (with_flag(psr, 0x2000_0000, c) & 0x1000_0000) == (psr & 0x1000_0000),
        lhs << 0u32 == lhs,
        (((if (lhs as i32) < 0 { 0xffff_ffffu32 } else { 0u32 }) >> i) & 1) == ((lhs >> 31u32) & 1),
        ((((if carry { 0x8000_0000u32 } else { 0u32 }) | (lhs >> 1u32)) >> i) & 1) == (if i == 31 {
            if carry {
                1u32
            } else {
                0u32
            }
        } else {
            (lhs >> ((i + 1) as u32)) & 1
        }),
        ((lhs as i32) < 0) == ((lhs >> 31u32) & 1 == 1),
        ((lhs & 1) != 0) == ((lhs >> 0u32) & 1 == 1),
{
}

/// The shifts by zero, which the encodings use for special cases: a left
/// shift by zero keeps the value and the carry; a logical right shift by
/// zero gives 32 (as this core has it) and a carry from bit 31; an
/// arithmetic right shift by zero (meaning by 32) fills every bit with the
/// sign bit, which is also the carry; a rotation by zero (RRX) shifts the
/// value right by one, bringing the carry flag into bit 31, with bit 0 as
/// the carry.
pub proof fn lemma_shift_by_zero(lhs: u32, carry_flag: bool, i: u32)
    requires
        i < 32,
    ensures
        shift_value(ShiftOperator::LeftShift, lhs, 0, carry_flag) == lhs,
        shift_carry(ShiftOperator::LeftShift, lhs, 0, carry_flag) == carry_flag,
        shift_value(ShiftOperator::RightShift, lhs, 0, carry_flag) == 32,
        shift_carry(ShiftOperator::RightShift, lhs, 0, carry_flag) == (bit(lhs, 31) == 1),
        bit(shift_value(ShiftOperator::ArithmeticRightShift, lhs, 0, carry_flag), i) == bit(lhs, 31),
        shift_carry(ShiftOperator::ArithmeticRightShift, lhs, 0, carry_flag) == (bit(lhs, 31) == 1),
        bit(shift_value(ShiftOperator::RotateRight, lhs, 0, carry_flag), i) == if i == 31 {
            if carry_flag {
                1u32
            } else {
                0u32
            }
        } else {
            bit(lhs, (i + 1) as u32)
        },
        shift_carry(ShiftOperator::RotateRight, lhs, 0, carry_flag) == (bit(lhs, 0) == 1),
{
    lemma_flag_and_zero_shift_bits(0, 0, false, false, lhs, carry_flag, i);
}


/// Storing an arithmetic result with the flags updated keeps the stored
/// result; N tells whether it is negative, Z whether it is zero, V is the
/// overflow, and C is the given carry (or stays).
proof fn lemma_arithmetic_store(regs: Registers, destination: RegisterIndex, r: (i32, bool), carry: Option<bool>)
    requires
        regs.can_access(destination),
        destination != RegisterIndex::Cpsr,
        destination != RegisterIndex::Ip,
    ensures
        ({
            let after = arithmetic_result(regs, destination, r, true, carry);
            &&& after.spec_read_raw(destination) == r.0 as u32
            &&& after.spec_flags().negative_flag == (r.0 < 0)
            &&& after.spec_flags().zero_flag == (r.0 == 0)
            &&& after.spec_flags().overflow_flag == r.1
            &&& after.spec_flags().carry_flag == match carry {
                Some(c) => c,
                None => regs.spec_flags().carry_flag,
            }
        }),
{
    regs.lemma_read_after_write(destination, r.0 as u32, destination);
    let r1 = regs.spec_write(destination, r.0 as u32);
    let nzv = nzv_bits(r1.cpsr_bits(), r.0, r.1);
    lemma_flag_and_zero_shift_bits(r1.cpsr_bits(), r.0, r.1, false, 0, false, 0);
    r1.lemma_write_cpsr(nzv);
    let r2 = r1.spec_write(RegisterIndex::Cpsr, nzv);
    r1.lemma_bank_bound(destination);
    assert(mode_of_bits(r2.cpsr_bits()) == mode_of_bits(r1.cpsr_bits()));
    assert(r2.bank_of(destination) == r1.bank_of(destination));
    assert(r2.slot(r1.bank_of(destination), destination.raw()) == r1.slot(
        r1.bank_of(destination),
        destination.raw(),
    ));
    match carry {
        Some(c) => {
            let w = with_flag(r2.cpsr_bits(), 0x2000_0000, c);
            lemma_flag_and_zero_shift_bits(r2.cpsr_bits(), 0, false, c, 0, false, 0);
            r2.lemma_write_cpsr(w);
            let r3 = r2.spec_write(RegisterIndex::Cpsr, w);
            assert(mode_of_bits(r3.cpsr_bits()) == mode_of_bits(r2.cpsr_bits()));
            assert(r3.bank_of(destination) == r2.bank_of(destination));
            assert(r3.slot(r1.bank_of(destination), destination.raw()) == r2.slot(
                r1.bank_of(destination),
                destination.raw(),
            ));
        },
        None => {},
    }
}

/// Setting N, Z and V from a result and then C: the flags read them.
proof fn lemma_compare_store(regs: Registers, r: (i32, bool), c: bool)
    ensures
        ({
            let r1 = regs.spec_write(RegisterIndex::Cpsr, nzv_bits(regs.cpsr_bits(), r.0, r.1));
            let after = r1.spec_write(RegisterIndex::Cpsr, with_flag(r1.cpsr_bits(), 0x2000_0000, c));
            &&& after.spec_flags().negative_flag == (r.0 < 0)
            &&& after.spec_flags().zero_flag == (r.0 == 0)
            &&& after.spec_flags().overflow_flag == r.1
            &&& after.spec_flags().carry_flag == c
        }),
{
    let nzv = nzv_bits(regs.cpsr_bits(), r.0, r.1);
    lemma_flag_and_zero_shift_bits(regs.cpsr_bits(), r.0, r.1, false, 0, false, 0);
    regs.lemma_write_cpsr(nzv);
    let r1 = regs.spec_write(RegisterIndex::Cpsr, nzv);
    lemma_flag_and_zero_shift_bits(r1.cpsr_bits(), 0, false, c, 0, false, 0);
    r1.lemma_write_cpsr(with_flag(r1.cpsr_bits(), 0x2000_0000, c));
}

/// The flags that the arithmetic operations set, with the base register
/// `b` (read after the operand's shift) and the operand value `v` as
/// unsigned words and `sb`, `sv` as the same words read as signed numbers.
/// ADD, SUB and RSB store `b + v`, `b - v` and `v - b` modulo 2^32; N tells
/// whether the stored word has its top bit set, Z whether it is zero, and
/// V whether the signed sum or difference `sb + sv`, `sb - sv`, `sv - sb`
/// falls outside the 32-bit signed range. C is the unsigned carry out of
/// ADD; for SUB and RSB this core (like the code it follows) sets C from a
/// signed comparison, `sb >= sv` and `sv >= sb`. CMP sets N, Z and V as SUB
/// would and C from `sb >= sv`; CMN sets them as ADD would and C from
/// `sb < sv`; neither stores anything.
pub proof fn lemma_arithmetic_flags(
    op: ShifterOperandInstructionOp,
    regs0: Registers,
    base: RegisterIndex,
    destination: RegisterIndex,
    value: ShifterOperand,
)
    requires
        op.can_execute(regs0, true, base, destination, value),
        destination != RegisterIndex::Cpsr,
        destination != RegisterIndex::Ip,
        base != RegisterIndex::Ip,
    ensures
        ({
            let regs = value.registers_after(regs0, true);
            let b = regs.spec_read(base);
            let v = value.value_in(regs0);
            let sb = crate::instructions::signed_value(b);
            let sv = crate::instructions::signed_value(v);
            let after = op.spec_execute(regs0, true, base, destination, value);
            let flags = after.spec_flags();
            let stored = after.spec_read_raw(destination) as int;
            &&& op == ShifterOperandInstructionOp::Add ==> {
                &&& stored == (b + v) % 0x1_0000_0000
                &&& flags.negative_flag == (stored >= 0x8000_0000)
                &&& flags.zero_flag == (stored == 0)
                &&& flags.overflow_flag == !(-0x8000_0000 <= sb + sv < 0x8000_0000)
                &&& flags.carry_flag == (b + v > u32::MAX)
            }
            &&& op == ShifterOperandInstructionOp::Subtract ==> {
                &&& stored == (b + 0x1_0000_0000 - v) % 0x1_0000_0000
                &&& flags.negative_flag == (stored >= 0x8000_0000)
                &&& flags.zero_flag == (stored == 0)
                &&& flags.overflow_flag == !(-0x8000_0000 <= sb - sv < 0x8000_0000)
                &&& flags.carry_flag == (sb >= sv)
            }
            &&& op == ShifterOperandInstructionOp::ReverseSubtract ==> {
                &&& stored == (v + 0x1_0000_0000 - b) % 0x1_0000_0000
                &&& flags.negative_flag == (stored >= 0x8000_0000)
                &&& flags.zero_flag == (stored == 0)
                &&& flags.overflow_flag == !(-0x8000_0000 <= sv - sb < 0x8000_0000)
                &&& flags.carry_flag == (sv >= sb)
            }
            &&& op == ShifterOperandInstructionOp::Compare ==> {
                &&& flags.negative_flag == ((b + 0x1_0000_0000 - v) % 0x1_0000_0000 >= 0x8000_0000)
                &&& flags.zero_flag == (b == v)
                &&& flags.overflow_flag == !(-0x8000_0000 <= sb - sv < 0x8000_0000)
                &&& flags.carry_flag == (sb >= sv)
            }
            &&& op == ShifterOperandInstructionOp::CompareNegative ==> {
                &&& flags.negative_flag == ((b + v) % 0x1_0000_0000 >= 0x8000_0000)
                &&& flags.zero_flag == ((b + v) % 0x1_0000_0000 == 0)
                &&& flags.overflow_flag == !(-0x8000_0000 <= sb + sv < 0x8000_0000)
                &&& flags.carry_flag == (sb < sv)
            }
        }),
{
    let regs = value.registers_after(regs0, true);
    let b = regs.spec_read(base);
    let v = value.value_in(regs0);
    lemma_wrapping_i32(b, v);
    lemma_wrapping_i32(v, b);
    lemma_word_casts(0, b);
    lemma_word_casts(0, v);
    match op {
        ShifterOperandInstructionOp::Add => {
            let r = op.spec_arithmetic(regs, base, v);
            lemma_arithmetic_store(regs, destination, r, Some((b as i32) as u32 + v > u32::MAX));
            lemma_word_casts(r.0, b);
            lemma_word_casts(b as i32, b);
        },
        ShifterOperandInstructionOp::Subtract => {
            let r = op.spec_arithmetic(regs, base, v);
            lemma_arithmetic_store(regs, destination, r, Some((b as i32) >= (v as i32)));
            lemma_word_casts(r.0, b);
        },
        ShifterOperandInstructionOp::ReverseSubtract => {
            let r = op.spec_arithmetic(regs, base, v);
            lemma_arithmetic_store(regs, destination, r, Some((v as i32) >= (b as i32)));
            lemma_word_casts(r.0, b);
        },
        ShifterOperandInstructionOp::Compare => {
            let r = op.spec_arithmetic(regs, base, v);
            lemma_compare_store(regs, r, (b as i32) >= (v as i32));
            lemma_word_casts(r.0, b);
        },
        ShifterOperandInstructionOp::CompareNegative => {
            let r = ((b as i32).wrapping_add(v as i32), overflows_i32((b as i32) + (v as i32)));
            lemma_compare_store(regs, r, (b as i32) < (v as i32));
            lemma_word_casts(r.0, b);
        },
        _ => {},
    }
}


} // verus!
