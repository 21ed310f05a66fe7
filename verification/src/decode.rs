//! Decoding of ARM (32-bit) and Thumb (16-bit) instruction words.
use vstd::prelude::*;

use crate::instructions::{
    condition_of, BranchTarget, Condition, ConditionError, Instruction, InstructionDecodeError, InstructionOp,
    MsrFieldMask, StoreLoadManyAddressingMode, StoreLoadMemoryAddress, StoreLoadMemorySize,
};
use crate::registers::{RegisterIndex, RegisterList};
use crate::shifter_operand::{ShiftOperator, ShifterOperand, ShifterOperandInstructionOp};

verus! {

/// The bits of `word` from `shift` upwards, under `mask`.
pub open spec fn field(word: u32, shift: u32, mask: u32) -> u32 {
    (word >> shift) & mask
}

/// Whether bit `n` of `word` is set.
pub open spec fn flag(word: u32, n: u32) -> bool {
    (word >> n) & 1 == 1
}

/// The register that a field below 16 names.
pub open spec fn reg(v: u32) -> RegisterIndex {
    RegisterIndex::from_raw(v as nat).unwrap()
}

/// The 16-bit counterparts of `field` and `flag`.
pub open spec fn field16(half_word: u16, shift: u16, mask: u16) -> u16 {
    (half_word >> shift) & mask
}

pub open spec fn flag16(half_word: u16, n: u16) -> bool {
    (half_word >> n) & 1 == 1
}

fn bits_of(word: u32, shift: u32, mask: u32) -> (r: u32)
    requires
        shift < 32,
    ensures
        r == field(word, shift, mask),
        r <= mask,
{
    let r = (word >> shift) & mask;
    assert(r <= mask) by (bit_vector)
        requires
            r == (word >> shift) & mask,
    ;
    r
}

fn bit_of(word: u32, n: u32) -> (r: bool)
    requires
        n < 32,
    ensures
        r == flag(word, n),
{
    (word >> n) & 1 == 1
}

fn bits16(half_word: u16, shift: u16, mask: u16) -> (r: u16)
    requires
        shift < 16,
    ensures
        r == field16(half_word, shift, mask),
        r <= mask,
{
    let r = (half_word >> shift) & mask;
    assert(r <= mask) by (bit_vector)
        requires
            r == (half_word >> shift) & mask,
    ;
    r
}

fn bit16(half_word: u16, n: u16) -> (r: bool)
    requires
        n < 16,
    ensures
        r == flag16(half_word, n),
{
    (half_word >> n) & 1 == 1
}

/// The register of a field below 16.
fn reg_of(v: u32) -> (r: RegisterIndex)
    requires
        v < 16,
    ensures
        r == reg(v),
{
    match RegisterIndex::try_from_u32(v) {
        Ok(r) => r,
        Err(()) => RegisterIndex::R0,
    }
}

/// The offset of an ARM branch: 24 bits, sign extended and scaled by four.
pub open spec fn arm_branch_offset(word: u32) -> i32 {
    let offset = word & 0x00FF_FFFF;
    let offset = if offset & 0x0080_0000 != 0 {
        offset | 0xFF00_0000
    } else {
        offset
    };
    (offset << 2u32) as i32
}

/// The data-processing operation of an ARM opcode field, if it is one that
/// this core implements.
pub open spec fn arm_alu_op(op_code_2: u32) -> Option<ShifterOperandInstructionOp> {
    if op_code_2 == 0x0 {
        Some(ShifterOperandInstructionOp::And)
    } else if op_code_2 == 0x1 {
        Some(ShifterOperandInstructionOp::ExclusiveOr)
    } else if op_code_2 == 0x2 {
        Some(ShifterOperandInstructionOp::Subtract)
    } else if op_code_2 == 0x3 {
        Some(ShifterOperandInstructionOp::ReverseSubtract)
    } else if op_code_2 == 0x4 {
        Some(ShifterOperandInstructionOp::Add)
    } else if op_code_2 == 0x5 {
        Some(ShifterOperandInstructionOp::AddWithCarry)
    } else if op_code_2 == 0x8 {
        Some(ShifterOperandInstructionOp::Test)
    } else if op_code_2 == 0x9 {
        Some(ShifterOperandInstructionOp::TestEquals)
    } else if op_code_2 == 0xA {
        Some(ShifterOperandInstructionOp::Compare)
    } else if op_code_2 == 0xC {
        Some(ShifterOperandInstructionOp::InclusiveOr)
    } else if op_code_2 == 0xD {
        Some(ShifterOperandInstructionOp::Move)
    } else if op_code_2 == 0xE {
        Some(ShifterOperandInstructionOp::BitClear)
    } else {
        None
    }
}

/// Whether `word` has the extra-load/store or multiply pattern.
pub open spec fn is_extra_pattern(word: u32) -> bool {
    word & 0x0200_0090 == 0x90
}

pub open spec fn is_mrs_pattern(word: u32) -> bool {
    word & 0x0FB0_0000 == 0x0100_0000
}

pub open spec fn is_bx_pattern(word: u32) -> bool {
    word & 0x0FF0_00F0 == 0x0120_0010
}

pub open spec fn is_msr_pattern(word: u32) -> bool {
    word & 0x0DB0_0000 == 0x0120_0000
}

/// Whether decoding `word` as an ARM instruction is defined: words whose
/// should-be-one or should-be-zero fields, S bit or flags bit this decoder
/// insists on are left out.
pub open spec fn arm_decodable(word: u32) -> bool {
    let op_code_1 = field(word, 25, 7);
    let update_flags = flag(word, 20);
    field(word, 28, 0xf) != 15 ==> {
        &&& (op_code_1 == 0 || op_code_1 == 1) && !is_extra_pattern(word) ==> {
            if is_mrs_pattern(word) {
                field(word, 16, 0xf) == 0xf && word & 0xfff == 0
            } else if is_bx_pattern(word) {
                field(word, 8, 0xfff) == 0xfff
            } else if is_msr_pattern(word) {
                field(word, 12, 0xf) == 0xf && (flag(word, 25) || field(word, 4, 0xff) == 0)
            } else {
                let op_code_2 = field(word, 21, 0xf);
                &&& (op_code_2 == 9 || op_code_2 == 0xA) ==> update_flags
                &&& op_code_2 == 0xD ==> field(word, 16, 0xf) == 0
            }
        }
        &&& op_code_1 == 4 ==> !flag(word, 22)
    }
}

/// Whether decoding `word` as an ARM instruction is defined.
pub fn is_arm_decodable(word: u32) -> (r: bool)
    ensures
        r == arm_decodable(word),
{
    if bits_of(word, 28, 0xf) == 15 {
        return true;
    }
    let op_code_1 = bits_of(word, 25, 7);
    let update_flags = bit_of(word, 20);
    let data_ok = if (op_code_1 == 0 || op_code_1 == 1) && !(word & 0x0200_0090 == 0x90) {
        if word & 0x0FB0_0000 == 0x0100_0000 {
            bits_of(word, 16, 0xf) == 0xf && word & 0xfff == 0
        } else if word & 0x0FF0_00F0 == 0x0120_0010 {
            bits_of(word, 8, 0xfff) == 0xfff
        } else if word & 0x0DB0_0000 == 0x0120_0000 {
            bits_of(word, 12, 0xf) == 0xf && (bit_of(word, 25) || bits_of(word, 4, 0xff) == 0)
        } else {
            let op_code_2 = bits_of(word, 21, 0xf);
            (!(op_code_2 == 9 || op_code_2 == 0xA) || update_flags) && (op_code_2 != 0xD || bits_of(
                word,
                16,
                0xf,
            ) == 0)
        }
    } else {
        true
    };
    data_ok && (op_code_1 != 4 || !bit_of(word, 22))
}

/// The instruction that an ARM word encodes, or why it encodes none.
pub open spec fn spec_decode_arm(word: u32) -> Result<Instruction, InstructionDecodeError> {
    match condition_of(field(word, 28, 0xf) as u8) {
        Err(e) => Err(InstructionDecodeError::InvalidCondition(e)),
        Ok(condition) => {
            let op_code_1 = field(word, 25, 7);
            let rn = reg(field(word, 16, 0xf));
            let rd = reg(field(word, 12, 0xf));
            let update_flags = flag(word, 20);
            if op_code_1 == 5 {
                Ok(
                    Instruction {
                        condition,
                        op: InstructionOp::Branch {
                            target: BranchTarget::Offset(arm_branch_offset(word)),
                            store_return_address_in_link_register: flag(word, 24),
                            does_switch_mode: false,
                            return_address_is_thumb: false,
                            instruction_size: 4,
                        },
                    },
                )
            } else if op_code_1 == 2 || op_code_1 == 3 {
                Ok(
                    Instruction {
                        condition,
                        op: InstructionOp::StoreOrLoadRegister {
                            is_load: update_flags,
                            address: StoreLoadMemoryAddress::spec_decode(word),
                            register_destination: rd,
                            read_size: if flag(word, 22) {
                                StoreLoadMemorySize::Byte
                            } else {
                                StoreLoadMemorySize::Word
                            },
                        },
                    },
                )
            } else if op_code_1 == 0 || op_code_1 == 1 {
                if is_extra_pattern(word) {
                    let op_code_3 = field(word, 4, 0xf);
                    let address = StoreLoadMemoryAddress::spec_decode_mode_3(word);
                    if op_code_3 == 0xB {
                        Ok(
                            Instruction {
                                condition,
                                op: InstructionOp::StoreOrLoadRegister {
                                    is_load: update_flags,
                                    address,
                                    register_destination: rd,
                                    read_size: StoreLoadMemorySize::Halfword,
                                },
                            },
                        )
                    } else if op_code_3 == 0xF {
                        Ok(
                            Instruction {
                                condition,
                                op: InstructionOp::StoreOrLoadRegister {
                                    is_load: update_flags,
                                    address,
                                    register_destination: rd,
                                    read_size: StoreLoadMemorySize::SignedHalfword,
                                },
                            },
                        )
                    } else if op_code_3 == 0x9 {
                        Ok(
                            Instruction {
                                condition,
                                op: InstructionOp::ShifterOperandInstruction {
                                    op: ShifterOperandInstructionOp::Multiplicate,
                                    update_flags,
                                    base: reg(field(word, 0, 0xf)),
                                    destination: reg(field(word, 16, 0xf)),
                                    value: ShifterOperand::Register(reg(field(word, 8, 0xf))),
                                },
                            },
                        )
                    } else {
                        Err(InstructionDecodeError::UnknownArm(word))
                    }
                } else if is_mrs_pattern(word) {
                    Ok(
                        Instruction {
                            condition,
                            op: InstructionOp::Mrs { use_spsr: flag(word, 22), register_base: rd },
                        },
                    )
                } else if is_bx_pattern(word) {
                    Ok(
                        Instruction {
                            condition,
                            op: InstructionOp::Branch {
                                store_return_address_in_link_register: false,
                                return_address_is_thumb: false,
                                does_switch_mode: true,
                                target: BranchTarget::RegisterWithOffset(
                                    reg(field(word, 0, 0xf)),
                                    0,
                                ),
                                instruction_size: 4,
                            },
                        },
                    )
                } else if is_msr_pattern(word) {
                    let mask = field(word, 16, 0xf);
                    Ok(
                        Instruction {
                            condition,
                            op: InstructionOp::Msr {
                                use_spsr: flag(word, 22),
                                field_mask: MsrFieldMask {
                                    control: mask & 1 != 0,
                                    extension: mask & 2 != 0,
                                    status: mask & 4 != 0,
                                    flags: mask & 8 != 0,
                                },
                                operand: if flag(word, 25) {
                                    ShifterOperand::spec_decode(word)
                                } else {
                                    ShifterOperand::Register(reg(field(word, 0, 0xf)))
                                },
                            },
                        },
                    )
                } else {
                    match arm_alu_op(field(word, 21, 0xf)) {
                        None => Err(InstructionDecodeError::UnknownArm(word)),
                        Some(op) => Ok(
                            Instruction {
                                condition,
                                op: InstructionOp::ShifterOperandInstruction {
                                    op,
                                    update_flags,
                                    base: rn,
                                    destination: rd,
                                    value: ShifterOperand::spec_decode(word),
                                },
                            },
                        ),
                    }
                }
            } else if op_code_1 == 4 {
                Ok(
                    Instruction {
                        condition,
                        op: InstructionOp::StoreOrLoadRegisters {
                            is_load: update_flags,
                            register_list: RegisterList::spec_new(word & 0xffff),
                            register_base: rn,
                            register_base_write_back: flag(word, 21),
                            addressing_mode: StoreLoadManyAddressingMode::spec_from_flags(
                                !flag(word, 24),
                                !flag(word, 23),
                            ),
                        },
                    },
                )
            } else {
                Err(InstructionDecodeError::UnknownOpCode1(op_code_1, word))
            }
        },
    }
}

impl Instruction {
    /// Decodes a 32-bit ARM instruction word.
    pub fn decode_arm(word: u32) -> (r: Result<Instruction, InstructionDecodeError>)
        requires
            arm_decodable(word),
        ensures
            r == spec_decode_arm(word),
    {
        let condition = match Condition::try_from_u8(bits_of(word, 28, 0xf) as u8) {
            Ok(c) => c,
            Err(e) => {
                return Err(InstructionDecodeError::InvalidCondition(e));
            },
        };
        let op_code_1 = bits_of(word, 25, 7);
        let rn = reg_of(bits_of(word, 16, 0xf));
        let rd = reg_of(bits_of(word, 12, 0xf));
        let update_flags = bit_of(word, 20);
        if op_code_1 == 5 {
            let store_return_address_in_link_register = bit_of(word, 24);
            let mut offset = word & 0x00FF_FFFF;
            if offset & 0x0080_0000 != 0 {
                offset = offset | 0xFF00_0000;
            }
            let offset = offset << 2u32;
            let offset = #[verifier::truncate] (offset as i32);
            Ok(
                Instruction {
                    condition,
                    op: InstructionOp::Branch {
                        target: BranchTarget::Offset(offset),
                        store_return_address_in_link_register,
                        does_switch_mode: false,
                        return_address_is_thumb: false,
                        instruction_size: 4,
                    },
                },
            )
        } else if op_code_1 == 2 || op_code_1 == 3 {
            let read_byte_instead_of_word = bit_of(word, 22);
            let is_load = update_flags;
            let address = StoreLoadMemoryAddress::try_from_u32(word)?;
            Ok(
                Instruction {
                    condition,
                    op: InstructionOp::StoreOrLoadRegister {
                        is_load,
                        address,
                        register_destination: rd,
                        read_size: if read_byte_instead_of_word {
                            StoreLoadMemorySize::Byte
                        } else {
                            StoreLoadMemorySize::Word
                        },
                    },
                },
            )
        } else if op_code_1 == 0 || op_code_1 == 1 {
            if word & 0x0200_0090 == 0x90 {
                let op_code_3 = bits_of(word, 4, 0xf);
                let address = StoreLoadMemoryAddress::from_addressing_mode_3(word)?;
                let is_load = update_flags;
                if op_code_3 == 0xB {
                    Ok(
                        Instruction {
                            condition,
                            op: InstructionOp::StoreOrLoadRegister {
                                is_load,
                                address,
                                register_destination: rd,
                                read_size: StoreLoadMemorySize::Halfword,
                            },
                        },
                    )
                } else if op_code_3 == 0xF {
                    Ok(
                        Instruction {
                            condition,
                            op: InstructionOp::StoreOrLoadRegister {
                                is_load,
                                address,
                                register_destination: rd,
                                read_size: StoreLoadMemorySize::SignedHalfword,
                            },
                        },
                    )
                } else if op_code_3 == 0x9 {
                    let rm = reg_of(bits_of(word, 8, 0xf));
                    let rn = reg_of(bits_of(word, 0, 0xf));
                    let rd = reg_of(bits_of(word, 16, 0xf));
                    Ok(
                        Instruction {
                            condition,
                            op: InstructionOp::ShifterOperandInstruction {
                                op: ShifterOperandInstructionOp::Multiplicate,
                                update_flags,
                                base: rn,
                                destination: rd,
                                value: ShifterOperand::Register(rm),
                            },
                        },
                    )
                } else {
                    Err(InstructionDecodeError::UnknownArm(word))
                }
            } else if word & 0x0FB0_0000 == 0x0100_0000 {
                let use_spsr = bit_of(word, 22);
                Ok(
                    Instruction {
                        condition,
                        op: InstructionOp::Mrs { use_spsr, register_base: rd },
                    },
                )
            } else if word & 0x0FF0_00F0 == 0x0120_0010 {
                let rm = reg_of(bits_of(word, 0, 0xf));
                Ok(
                    Instruction {
                        condition,
                        op: InstructionOp::Branch {
                            store_return_address_in_link_register: false,
                            return_address_is_thumb: false,
                            does_switch_mode: true,
                            target: BranchTarget::RegisterWithOffset(rm, 0),
                            instruction_size: 4,
                        },
                    },
                )
            } else if word & 0x0DB0_0000 == 0x0120_0000 {
                let use_spsr = bit_of(word, 22);
                let is_immediate = bit_of(word, 25);
                let operand = if is_immediate {
                    proof {
                        assert(flag(word, 25) ==> word & 0x0200_0000 != 0) by (bit_vector);
                    }
                    ShifterOperand::try_from_u32(word)?
                } else {
                    ShifterOperand::Register(reg_of(bits_of(word, 0, 0xf)))
                };
                let mask = bits_of(word, 16, 0xf);
                let field_mask = match MsrFieldMask::try_from_u8(mask as u8) {
                    Ok(m) => m,
                    Err(()) => {
                        return Err(InstructionDecodeError::UnknownArm(word));
                    },
                };
                proof {
                    assert((mask as u8) & 1 != 0 <==> mask & 1 != 0) by (bit_vector)
                        requires
                            mask <= 0xf,
                    ;
                    assert((mask as u8) & 2 != 0 <==> mask & 2 != 0) by (bit_vector)
                        requires
                            mask <= 0xf,
                    ;
                    assert((mask as u8) & 4 != 0 <==> mask & 4 != 0) by (bit_vector)
                        requires
                            mask <= 0xf,
                    ;
                    assert((mask as u8) & 8 != 0 <==> mask & 8 != 0) by (bit_vector)
                        requires
                            mask <= 0xf,
                    ;
                }
                Ok(
                    Instruction {
                        condition,
                        op: InstructionOp::Msr { use_spsr, field_mask, operand },
                    },
                )
            } else {
                let op_code_2 = bits_of(word, 21, 0xf);
                let op = if op_code_2 == 0x0 {
                    ShifterOperandInstructionOp::And
                } else if op_code_2 == 0x1 {
                    ShifterOperandInstructionOp::ExclusiveOr
                } else if op_code_2 == 0x2 {
                    ShifterOperandInstructionOp::Subtract
                } else if op_code_2 == 0x3 {
                    ShifterOperandInstructionOp::ReverseSubtract
                } else if op_code_2 == 0x4 {
                    ShifterOperandInstructionOp::Add
                } else if op_code_2 == 0x5 {
                    ShifterOperandInstructionOp::AddWithCarry
                } else if op_code_2 == 0x8 {
                    ShifterOperandInstructionOp::Test
                } else if op_code_2 == 0x9 {
                    ShifterOperandInstructionOp::TestEquals
                } else if op_code_2 == 0xA {
                    ShifterOperandInstructionOp::Compare
                } else if op_code_2 == 0xC {
                    ShifterOperandInstructionOp::InclusiveOr
                } else if op_code_2 == 0xD {
                    ShifterOperandInstructionOp::Move
                } else if op_code_2 == 0xE {
                    ShifterOperandInstructionOp::BitClear
                } else {
                    return Err(InstructionDecodeError::UnknownArm(word));
                };
                proof {
                    assert(!(word & 0x0200_0090 == 0x90) ==> (word & 0x0200_0000 != 0 || word
                        & 0x10 == 0 || word & 0x80 == 0)) by (bit_vector);
                }
                let value = ShifterOperand::try_from_u32(word)?;
                Ok(
                    Instruction {
                        condition,
                        op: InstructionOp::ShifterOperandInstruction {
                            op,
                            update_flags,
                            base: rn,
                            destination: rd,
                            value,
                        },
                    },
                )
            }
        } else if op_code_1 == 4 {
            let is_post_indexing = !bit_of(word, 24);
            let negate_offset = !bit_of(word, 23);
            let register_base_write_back = bit_of(word, 21);
            let is_load = update_flags;
            proof {
                assert(word & 0xffff <= 0xffff) by (bit_vector);
            }
            let register_list = match RegisterList::try_from_u32(word & 0xFFFF) {
                Ok(l) => l,
                Err(()) => {
                    return Err(InstructionDecodeError::InvalidRegisterList);
                },
            };
            Ok(
                Instruction {
                    condition,
                    op: InstructionOp::StoreOrLoadRegisters {
                        is_load,
                        register_list,
                        register_base: rn,
                        register_base_write_back,
                        addressing_mode: StoreLoadManyAddressingMode::from_flags(
                            is_post_indexing,
                            negate_offset,
                        ),
                    },
                },
            )
        } else {
            Err(InstructionDecodeError::UnknownOpCode1(op_code_1, word))
        }
    }
}

/// The register of a 16-bit field below 16.
fn reg16(v: u16) -> (r: RegisterIndex)
    requires
        v < 16,
    ensures
        r == reg(v as u32),
{
    reg_of(v as u32)
}

/// A Thumb data-processing instruction that always runs and sets the flags
/// as `update_flags` says.
pub open spec fn thumb_alu(
    op: ShifterOperandInstructionOp,
    update_flags: bool,
    base: RegisterIndex,
    destination: RegisterIndex,
    value: ShifterOperand,
) -> Instruction {
    Instruction {
        condition: Condition::Always,
        op: InstructionOp::ShifterOperandInstruction { op, update_flags, base, destination, value },
    }
}

/// A Thumb single load or store without write back.
pub open spec fn thumb_transfer(
    is_load: bool,
    base: RegisterIndex,
    offset: ShifterOperand,
    ignore_bit_1_of_pc: bool,
    destination: RegisterIndex,
    read_size: StoreLoadMemorySize,
) -> Instruction {
    Instruction {
        condition: Condition::Always,
        op: InstructionOp::StoreOrLoadRegister {
            is_load,
            address: StoreLoadMemoryAddress {
                register_base: base,
                offset,
                ignore_bit_1_of_pc,
                write_back: false,
                negate_offset: false,
                is_post_indexing: false,
            },
            register_destination: destination,
            read_size,
        },
    }
}

/// A Thumb branch that always runs.
pub open spec fn thumb_branch(
    link: bool,
    switch: bool,
    target: BranchTarget,
    instruction_size: usize,
) -> Instruction {
    Instruction {
        condition: Condition::Always,
        op: InstructionOp::Branch {
            store_return_address_in_link_register: link,
            return_address_is_thumb: true,
            does_switch_mode: switch,
            target,
            instruction_size,
        },
    }
}

/// Shifts by immediate, and additions and subtractions of three registers
/// or a three-bit immediate (format 1 and 2).
pub open spec fn spec_thumb_000(hw: u16) -> Result<Instruction, InstructionDecodeError> {
    let immediate = field16(hw, 6, 0x1f);
    let rn = reg(field16(hw, 3, 7) as u32);
    let rd = reg(field16(hw, 0, 7) as u32);
    if !flag16(hw, 12) {
        Ok(
            thumb_alu(
                ShifterOperandInstructionOp::Move,
                true,
                RegisterIndex::R0,
                rd,
                ShifterOperand::RegisterImmediate(
                    rn,
                    if flag16(hw, 11) {
                        ShiftOperator::RightShift
                    } else {
                        ShiftOperator::LeftShift
                    },
                    immediate as u8,
                ),
            ),
        )
    } else if field16(hw, 10, 7) == 7 {
        Ok(
            thumb_alu(
                if !flag16(hw, 9) {
                    ShifterOperandInstructionOp::Add
                } else {
                    ShifterOperandInstructionOp::Subtract
                },
                true,
                rn,
                rd,
                ShifterOperand::Immediate(field16(hw, 6, 7) as u32, None),
            ),
        )
    } else if field16(hw, 10, 7) == 6 {
        Ok(
            thumb_alu(
                if !flag16(hw, 9) {
                    ShifterOperandInstructionOp::Add
                } else {
                    ShifterOperandInstructionOp::Subtract
                },
                true,
                rn,
                rd,
                ShifterOperand::Register(reg(field16(hw, 6, 7) as u32)),
            ),
        )
    } else if !flag16(hw, 11) {
        Ok(
            thumb_alu(
                ShifterOperandInstructionOp::Move,
                true,
                rn,
                rd,
                ShifterOperand::RegisterImmediate(
                    reg(field16(hw, 6, 7) as u32),
                    ShiftOperator::ArithmeticRightShift,
                    immediate as u8,
                ),
            ),
        )
    } else {
        Err(InstructionDecodeError::UnknownThumb(hw))
    }
}

fn thumb_op_code_000(half_word: u16) -> (r: Result<Instruction, InstructionDecodeError>)
    ensures
        r == spec_thumb_000(half_word),
{
    let immediate = bits16(half_word, 6, 0x1f);
    let rn = reg16(bits16(half_word, 3, 7));
    let rd = reg16(bits16(half_word, 0, 7));
    if !bit16(half_word, 12) {
        let shift_op = if bit16(half_word, 11) {
            ShiftOperator::RightShift
        } else {
            ShiftOperator::LeftShift
        };
        Ok(
            Instruction {
                condition: Condition::Always,
                op: InstructionOp::ShifterOperandInstruction {
                    op: ShifterOperandInstructionOp::Move,
                    update_flags: true,
                    base: RegisterIndex::R0,
                    destination: rd,
                    value: ShifterOperand::RegisterImmediate(rn, shift_op, immediate as u8),
                },
            },
        )
    } else if bits16(half_word, 10, 7) == 7 {
        let immediate = bits16(half_word, 6, 7);
        let op = if !bit16(half_word, 9) {
            ShifterOperandInstructionOp::Add
        } else {
            ShifterOperandInstructionOp::Subtract
        };
        Ok(
            Instruction {
                condition: Condition::Always,
                op: InstructionOp::ShifterOperandInstruction {
                    op,
                    update_flags: true,
                    base: rn,
                    destination: rd,
                    value: ShifterOperand::Immediate(immediate as u32, None),
                },
            },
        )
    } else if bits16(half_word, 10, 7) == 6 {
        let rm = reg16(bits16(half_word, 6, 7));
        let op = if !bit16(half_word, 9) {
            ShifterOperandInstructionOp::Add
        } else {
            ShifterOperandInstructionOp::Subtract
        };
        Ok(
            Instruction {
                condition: Condition::Always,
                op: InstructionOp::ShifterOperandInstruction {
                    op,
                    update_flags: true,
                    base: rn,
                    destination: rd,
                    value: ShifterOperand::Register(rm),
                },
            },
        )
    } else if !bit16(half_word, 11) {
        let rm = reg16(bits16(half_word, 6, 7));
        Ok(
            Instruction {
                condition: Condition::Always,
                op: InstructionOp::ShifterOperandInstruction {
                    op: ShifterOperandInstructionOp::Move,
                    update_flags: true,
                    base: rn,
                    destination: rd,
                    value: ShifterOperand::RegisterImmediate(
                        rm,
                        ShiftOperator::ArithmeticRightShift,
                        immediate as u8,
                    ),
                },
            },
        )
    } else {
        Err(InstructionDecodeError::UnknownThumb(half_word))
    }
}

/// Moves, compares, additions and subtractions with an eight-bit immediate
/// (format 3).
pub open spec fn spec_thumb_001(hw: u16) -> Result<Instruction, InstructionDecodeError> {
    let op_code_2 = field16(hw, 11, 3);
    let op = if op_code_2 == 0 {
        ShifterOperandInstructionOp::Move
    } else if op_code_2 == 1 {
        ShifterOperandInstructionOp::Compare
    } else if op_code_2 == 2 {
        ShifterOperandInstructionOp::Add
    } else {
        ShifterOperandInstructionOp::Subtract
    };
    let rd = reg(field16(hw, 8, 7) as u32);
    Ok(thumb_alu(op, true, rd, rd, ShifterOperand::Immediate((hw & 0xff) as u32, None)))
}

fn thumb_op_code_001(half_word: u16) -> (r: Result<Instruction, InstructionDecodeError>)
    ensures
        r == spec_thumb_001(half_word),
{
    let op_code_2 = bits16(half_word, 11, 3);
    let op = if op_code_2 == 0 {
        ShifterOperandInstructionOp::Move
    } else if op_code_2 == 1 {
        ShifterOperandInstructionOp::Compare
    } else if op_code_2 == 2 {
        ShifterOperandInstructionOp::Add
    } else {
        ShifterOperandInstructionOp::Subtract
    };
    let rd = reg16(bits16(half_word, 8, 7));
    let immediate = half_word & 0x00ff;
    Ok(
        Instruction {
            condition: Condition::Always,
            op: InstructionOp::ShifterOperandInstruction {
                op,
                update_flags: true,
                base: rd,
                destination: rd,
                value: ShifterOperand::Immediate(immediate as u32, None),
            },
        },
    )
}

/// The register operation, operand and base of a Thumb ALU operation code
/// (format 4), if this core implements it.
pub open spec fn thumb_alu_op(alu_op_code: u16, rm: RegisterIndex, rd: RegisterIndex) -> Option<
    (ShifterOperandInstructionOp, ShifterOperand, RegisterIndex),
> {
    if alu_op_code == 0 {
        Some((ShifterOperandInstructionOp::And, ShifterOperand::Register(rm), rd))
    } else if alu_op_code == 1 {
        Some((ShifterOperandInstructionOp::ExclusiveOr, ShifterOperand::Register(rm), rd))
    } else if alu_op_code == 7 {
        Some(
            (
                ShifterOperandInstructionOp::Move,
                ShifterOperand::RegisterRegister(rd, ShiftOperator::RotateRight, rm),
                rd,
            ),
        )
    } else if alu_op_code == 8 {
        Some((ShifterOperandInstructionOp::Test, ShifterOperand::Register(rm), rd))
    } else if alu_op_code == 9 {
        Some(
            (ShifterOperandInstructionOp::ReverseSubtract, ShifterOperand::Immediate(0, None), rm),
        )
    } else if alu_op_code == 10 {
        Some((ShifterOperandInstructionOp::Compare, ShifterOperand::Register(rm), rd))
    } else if alu_op_code == 11 {
        Some((ShifterOperandInstructionOp::CompareNegative, ShifterOperand::Register(rm), rd))
    } else if alu_op_code == 12 {
        Some((ShifterOperandInstructionOp::InclusiveOr, ShifterOperand::Register(rm), rd))
    } else if alu_op_code == 14 {
        Some((ShifterOperandInstructionOp::BitClear, ShifterOperand::Register(rm), rd))
    } else if alu_op_code == 13 {
        Some((ShifterOperandInstructionOp::Multiplicate, ShifterOperand::Register(rm), rd))
    } else if alu_op_code == 15 {
        Some((ShifterOperandInstructionOp::MoveNegate, ShifterOperand::Register(rm), rd))
    } else {
        None
    }
}

/// The high register (bits 0-2 with H1) and the second register (bits 3-5
/// with H2) of a Thumb high-register operation.
pub open spec fn high_rd(hw: u16) -> RegisterIndex {
    reg((field16(hw, 0, 7) | if flag16(hw, 7) { 8u16 } else { 0u16 }) as u32)
}

pub open spec fn high_rm(hw: u16) -> RegisterIndex {
    reg((field16(hw, 3, 7) | if flag16(hw, 6) { 8u16 } else { 0u16 }) as u32)
}

/// ALU operations, high-register operations, branch exchanges,
/// PC-relative loads and register-offset transfers (formats 4 to 8).
pub open spec fn spec_thumb_010(hw: u16) -> Result<Instruction, InstructionDecodeError> {
    let op_code_2 = field16(hw, 10, 7);
    let rm3 = reg(field16(hw, 3, 7) as u32);
    let rd3 = reg(field16(hw, 0, 7) as u32);
    if op_code_2 == 0 {
        match thumb_alu_op(field16(hw, 6, 0xf), rm3, rd3) {
            None => Err(InstructionDecodeError::UnknownThumb(hw)),
            Some((op, value, base)) => Ok(thumb_alu(op, true, base, rd3, value)),
        }
    } else if op_code_2 == 1 {
        let op_code_3 = field16(hw, 7, 7);
        if op_code_3 == 2 || op_code_3 == 3 {
            Ok(
                thumb_alu(
                    ShifterOperandInstructionOp::Compare,
                    true,
                    high_rd(hw),
                    RegisterIndex::R0,
                    ShifterOperand::Register(high_rm(hw)),
                ),
            )
        } else if op_code_3 == 6 {
            Ok(
                thumb_branch(
                    false,
                    true,
                    BranchTarget::RegisterWithOffset(reg(field16(hw, 3, 0xf) as u32), 0),
                    2,
                ),
            )
        } else if op_code_3 == 4 || op_code_3 == 5 {
            Ok(
                thumb_alu(
                    ShifterOperandInstructionOp::Move,
                    false,
                    RegisterIndex::R0,
                    high_rd(hw),
                    ShifterOperand::Register(high_rm(hw)),
                ),
            )
        } else if op_code_3 == 7 {
            Ok(
                thumb_branch(
                    true,
                    false,
                    BranchTarget::RegisterWithOffset(reg(field16(hw, 3, 0xf) as u32), 0),
                    2,
                ),
            )
        } else {
            Err(InstructionDecodeError::UnknownThumb(hw))
        }
    } else if op_code_2 == 2 || op_code_2 == 3 {
        Ok(
            thumb_transfer(
                true,
                RegisterIndex::Ip,
                ShifterOperand::Immediate(((hw & 0xff) << 2u16) as u32, None),
                true,
                reg(field16(hw, 8, 7) as u32),
                StoreLoadMemorySize::Word,
            ),
        )
    } else {
        let rm = reg(field16(hw, 6, 7) as u32);
        let rn = reg(field16(hw, 3, 7) as u32);
        if op_code_2 == 4 && !flag16(hw, 9) {
            Ok(
                thumb_transfer(
                    false,
                    rn,
                    ShifterOperand::Register(rm),
                    false,
                    rd3,
                    StoreLoadMemorySize::Word,
                ),
            )
        } else {
            let is_halfword = flag16(hw, 9);
            let is_word = flag16(hw, 10);
            let read_size = if !is_word && is_halfword {
                StoreLoadMemorySize::Halfword
            } else if is_word && is_halfword {
                StoreLoadMemorySize::Byte
            } else {
                StoreLoadMemorySize::Word
            };
            Ok(
                thumb_transfer(
                    flag16(hw, 11),
                    rn,
                    ShifterOperand::Register(rm),
                    false,
                    rd3,
                    read_size,
                ),
            )
        }
    }
}

fn thumb_op_code_010(half_word: u16) -> (r: Result<Instruction, InstructionDecodeError>)
    requires
        field16(half_word, 10, 7) == 1 && (field16(half_word, 7, 7) == 6 || field16(half_word, 7, 7)
            == 7) ==> half_word & 7 == 0,
    ensures
        r == spec_thumb_010(half_word),
{
    let op_code_2 = bits16(half_word, 10, 7);
    let rm3 = reg16(bits16(half_word, 3, 7));
    let rd3 = reg16(bits16(half_word, 0, 7));
    if op_code_2 == 0 {
        let alu_op_code = bits16(half_word, 6, 0xf);
        let (op, value, base) = if alu_op_code == 0 {
            (ShifterOperandInstructionOp::And, ShifterOperand::Register(rm3), rd3)
        } else if alu_op_code == 1 {
            (ShifterOperandInstructionOp::ExclusiveOr, ShifterOperand::Register(rm3), rd3)
        } else if alu_op_code == 7 {
            (
                ShifterOperandInstructionOp::Move,
                ShifterOperand::RegisterRegister(rd3, ShiftOperator::RotateRight, rm3),
                rd3,
            )
        } else if alu_op_code == 8 {
            (ShifterOperandInstructionOp::Test, ShifterOperand::Register(rm3), rd3)
        } else if alu_op_code == 9 {
            (ShifterOperandInstructionOp::ReverseSubtract, ShifterOperand::Immediate(0, None), rm3)
        } else if alu_op_code == 10 {
            (ShifterOperandInstructionOp::Compare, ShifterOperand::Register(rm3), rd3)
        } else if alu_op_code == 11 {
            (ShifterOperandInstructionOp::CompareNegative, ShifterOperand::Register(rm3), rd3)
        } else if alu_op_code == 12 {
            (ShifterOperandInstructionOp::InclusiveOr, ShifterOperand::Register(rm3), rd3)
        } else if alu_op_code == 14 {
            (ShifterOperandInstructionOp::BitClear, ShifterOperand::Register(rm3), rd3)
        } else if alu_op_code == 13 {
            (ShifterOperandInstructionOp::Multiplicate, ShifterOperand::Register(rm3), rd3)
        } else if alu_op_code == 15 {
            (ShifterOperandInstructionOp::MoveNegate, ShifterOperand::Register(rm3), rd3)
        } else {
            return Err(InstructionDecodeError::UnknownThumb(half_word));
        };
        Ok(
            Instruction {
                condition: Condition::Always,
                op: InstructionOp::ShifterOperandInstruction {
                    op,
                    update_flags: true,
                    base,
                    destination: rd3,
                    value,
                },
            },
        )
    } else if op_code_2 == 1 {
        let op_code_3 = bits16(half_word, 7, 7);
        let h1 = bit16(half_word, 7);
        let h2 = bit16(half_word, 6);
        let low_rd = bits16(half_word, 0, 7);
        let low_rm = bits16(half_word, 3, 7);
        let rd_raw = low_rd | if h1 { 8u16 } else { 0u16 };
        let rm_raw = low_rm | if h2 { 8u16 } else { 0u16 };
        assert(rd_raw < 16 && rm_raw < 16) by (bit_vector)
            requires
                low_rd <= 7,
                low_rm <= 7,
                rd_raw == low_rd | if h1 { 8u16 } else { 0u16 },
                rm_raw == low_rm | if h2 { 8u16 } else { 0u16 },
        ;
        if op_code_3 == 2 || op_code_3 == 3 {
            let rd = reg16(rd_raw);
            let rm = reg16(rm_raw);
            Ok(
                Instruction {
                    condition: Condition::Always,
                    op: InstructionOp::ShifterOperandInstruction {
                        op: ShifterOperandInstructionOp::Compare,
                        update_flags: true,
                        base: rd,
                        destination: RegisterIndex::R0,
                        value: ShifterOperand::Register(rm),
                    },
                },
            )
        } else if op_code_3 == 6 {
            let rm = reg16(bits16(half_word, 3, 0xf));
            Ok(
                Instruction {
                    condition: Condition::Always,
                    op: InstructionOp::Branch {
                        store_return_address_in_link_register: false,
                        return_address_is_thumb: true,
                        does_switch_mode: true,
                        target: BranchTarget::RegisterWithOffset(rm, 0),
                        instruction_size: 2,
                    },
                },
            )
        } else if op_code_3 == 4 || op_code_3 == 5 {
            let rd = reg16(rd_raw);
            let rm = reg16(rm_raw);
            Ok(
                Instruction {
                    condition: Condition::Always,
                    op: InstructionOp::ShifterOperandInstruction {
                        op: ShifterOperandInstructionOp::Move,
                        update_flags: false,
                        base: RegisterIndex::R0,
                        destination: rd,
                        value: ShifterOperand::Register(rm),
                    },
                },
            )
        } else if op_code_3 == 7 {
            let rm = reg16(bits16(half_word, 3, 0xf));
            Ok(
                Instruction {
                    condition: Condition::Always,
                    op: InstructionOp::Branch {
                        store_return_address_in_link_register: true,
                        return_address_is_thumb: true,
                        does_switch_mode: false,
                        target: BranchTarget::RegisterWithOffset(rm, 0),
                        instruction_size: 2,
                    },
                },
            )
        } else {
            Err(InstructionDecodeError::UnknownThumb(half_word))
        }
    } else if op_code_2 == 2 || op_code_2 == 3 {
        let low = half_word & 0x00ff;
        assert(low << 2u16 <= 0x3fc) by (bit_vector)
            requires
                low == half_word & 0xff,
        ;
        let immediate = (low << 2u16) as u32;
        let rd = reg16(bits16(half_word, 8, 7));
        Ok(
            Instruction {
                condition: Condition::Always,
                op: InstructionOp::StoreOrLoadRegister {
                    is_load: true,
                    address: StoreLoadMemoryAddress {
                        register_base: RegisterIndex::Ip,
                        offset: ShifterOperand::Immediate(immediate, None),
                        negate_offset: false,
                        write_back: false,
                        ignore_bit_1_of_pc: true,
                        is_post_indexing: false,
                    },
                    register_destination: rd,
                    read_size: StoreLoadMemorySize::Word,
                },
            },
        )
    } else {
        let rm = reg16(bits16(half_word, 6, 7));
        let rn = reg16(bits16(half_word, 3, 7));
        if op_code_2 == 4 && !bit16(half_word, 9) {
            Ok(
                Instruction {
                    condition: Condition::Always,
                    op: InstructionOp::StoreOrLoadRegister {
                        is_load: false,
                        address: StoreLoadMemoryAddress {
                            register_base: rn,
                            offset: ShifterOperand::Register(rm),
                            negate_offset: false,
                            write_back: false,
                            ignore_bit_1_of_pc: false,
                            is_post_indexing: false,
                        },
                        register_destination: rd3,
                        read_size: StoreLoadMemorySize::Word,
                    },
                },
            )
        } else {
            let is_halfword_instead_of_byte = bit16(half_word, 9);
            let is_load = bit16(half_word, 11);
            let is_word = bit16(half_word, 10);
            let read_size = match (is_word, is_halfword_instead_of_byte) {
                (false, true) => StoreLoadMemorySize::Halfword,
                (false, false) => StoreLoadMemorySize::Word,
                (true, false) => StoreLoadMemorySize::Word,
                (true, true) => StoreLoadMemorySize::Byte,
            };
            Ok(
                Instruction {
                    condition: Condition::Always,
                    op: InstructionOp::StoreOrLoadRegister {
                        is_load,
                        address: StoreLoadMemoryAddress {
                            ignore_bit_1_of_pc: false,
                            register_base: rn,
                            write_back: false,
                            negate_offset: false,
                            offset: ShifterOperand::Register(rm),
                            is_post_indexing: false,
                        },
                        register_destination: rd3,
                        read_size,
                    },
                },
            )
        }
    }
}

/// Loads and stores with a five-bit immediate offset (format 9).
pub open spec fn spec_thumb_011(hw: u16) -> Result<Instruction, InstructionDecodeError> {
    let immediate = field16(hw, 6, 0x1f) as u32;
    let is_byte = flag16(hw, 12);
    Ok(
        thumb_transfer(
            flag16(hw, 11),
            reg(field16(hw, 3, 7) as u32),
            ShifterOperand::Immediate(
                if is_byte {
                    immediate
                } else {
                    immediate << 2u32
                },
                None,
            ),
            false,
            reg(field16(hw, 0, 7) as u32),
            if is_byte {
                StoreLoadMemorySize::Byte
            } else {
                StoreLoadMemorySize::Word
            },
        ),
    )
}

fn thumb_op_code_011(half_word: u16) -> (r: Result<Instruction, InstructionDecodeError>)
    ensures
        r == spec_thumb_011(half_word),
{
    let rd = reg16(bits16(half_word, 0, 7));
    let rm = reg16(bits16(half_word, 3, 7));
    let immediate = bits16(half_word, 6, 0x1f) as u32;
    let is_byte = bit16(half_word, 12);
    let immediate = if is_byte {
        immediate
    } else {
        immediate << 2u32
    };
    let is_load = bit16(half_word, 11);
    Ok(
        Instruction {
            condition: Condition::Always,
            op: InstructionOp::StoreOrLoadRegister {
                is_load,
                address: StoreLoadMemoryAddress {
                    register_base: rm,
                    offset: ShifterOperand::Immediate(immediate, None),
                    ignore_bit_1_of_pc: false,
                    write_back: false,
                    negate_offset: false,
                    is_post_indexing: false,
                },
                register_destination: rd,
                read_size: if is_byte {
                    StoreLoadMemorySize::Byte
                } else {
                    StoreLoadMemorySize::Word
                },
            },
        },
    )
}

/// Halfword transfers with an immediate offset and SP-relative word
/// transfers (formats 10 and 11).
pub open spec fn spec_thumb_100(hw: u16) -> Result<Instruction, InstructionDecodeError> {
    let use_second_register = !flag16(hw, 12);
    Ok(
        thumb_transfer(
            flag16(hw, 11),
            if use_second_register {
                reg(field16(hw, 3, 7) as u32)
            } else {
                RegisterIndex::Sp
            },
            ShifterOperand::Immediate(
                if use_second_register {
                    ((hw & 0x07C0) >> 5u16) as u32
                } else {
                    ((hw & 0xff) << 2u16) as u32
                },
                None,
            ),
            false,
            if use_second_register {
                reg(field16(hw, 0, 7) as u32)
            } else {
                reg(field16(hw, 8, 7) as u32)
            },
            if use_second_register {
                StoreLoadMemorySize::Halfword
            } else {
                StoreLoadMemorySize::Word
            },
        ),
    )
}

fn thumb_op_code_100(half_word: u16) -> (r: Result<Instruction, InstructionDecodeError>)
    ensures
        r == spec_thumb_100(half_word),
{
    let is_load = bit16(half_word, 11);
    let use_second_register = !bit16(half_word, 12);
    let rd = if use_second_register {
        reg16(bits16(half_word, 0, 7))
    } else {
        reg16(bits16(half_word, 8, 7))
    };
    let rn = if use_second_register {
        reg16(bits16(half_word, 3, 7))
    } else {
        RegisterIndex::Sp
    };
    let read_size = if use_second_register {
        StoreLoadMemorySize::Halfword
    } else {
        StoreLoadMemorySize::Word
    };
    let low = half_word & 0xff;
    assert(low << 2u16 <= 0x3fc) by (bit_vector)
        requires
            low == half_word & 0xff,
    ;
    let immediate = if use_second_register {
        ((half_word & 0x07C0) >> 5u16) as u32
    } else {
        (low << 2u16) as u32
    };
    Ok(
        Instruction {
            condition: Condition::Always,
            op: InstructionOp::StoreOrLoadRegister {
                is_load,
                address: StoreLoadMemoryAddress {
                    register_base: rn,
                    offset: ShifterOperand::Immediate(immediate, None),
                    ignore_bit_1_of_pc: false,
                    write_back: false,
                    negate_offset: false,
                    is_post_indexing: false,
                },
                register_destination: rd,
                read_size,
            },
        },
    )
}

/// Address computations, stack pointer adjustment, and push and pop
/// (formats 12 to 14).
pub open spec fn spec_thumb_101(hw: u16) -> Result<Instruction, InstructionDecodeError> {
    let op_code = field16(hw, 8, 0x1f);
    if op_code < 16 {
        Ok(
            thumb_alu(
                ShifterOperandInstructionOp::Add,
                false,
                if flag16(hw, 11) {
                    RegisterIndex::Sp
                } else {
                    RegisterIndex::Ip
                },
                reg(field16(hw, 8, 7) as u32),
                ShifterOperand::Immediate(((hw & 0xff) as u32) << 2u32, None),
            ),
        )
    } else if op_code == 16 {
        Ok(
            thumb_alu(
                if flag16(hw, 7) {
                    ShifterOperandInstructionOp::Subtract
                } else {
                    ShifterOperandInstructionOp::Add
                },
                false,
                RegisterIndex::Sp,
                RegisterIndex::Sp,
                ShifterOperand::Immediate(((hw & 0x7f) << 2u16) as u32, None),
            ),
        )
    } else if op_code == 20 || op_code == 21 {
        Ok(
            Instruction {
                condition: Condition::Always,
                op: InstructionOp::StoreOrLoadRegisters {
                    is_load: false,
                    register_base: RegisterIndex::Sp,
                    register_list: RegisterList::spec_new(
                        (if flag16(hw, 8) { 0x4000u32 } else { 0u32 }) | (hw as u32 & 0xff),
                    ),
                    register_base_write_back: true,
                    addressing_mode: StoreLoadManyAddressingMode::DecrementBefore,
                },
            },
        )
    } else if op_code == 28 || op_code == 29 {
        Ok(
            Instruction {
                condition: Condition::Always,
                op: InstructionOp::StoreOrLoadRegisters {
                    is_load: true,
                    register_base: RegisterIndex::Sp,
                    register_base_write_back: true,
                    register_list: RegisterList::spec_new(
                        ((hw & 0xff) | if flag16(hw, 8) { 0x8000u16 } else { 0u16 }) as u32,
                    ),
                    addressing_mode: StoreLoadManyAddressingMode::IncrementAfter,
                },
            },
        )
    } else {
        Err(InstructionDecodeError::UnknownThumb(hw))
    }
}

fn thumb_op_code_101(half_word: u16) -> (r: Result<Instruction, InstructionDecodeError>)
    ensures
        r == spec_thumb_101(half_word),
{
    let op_code = bits16(half_word, 8, 0x1f);
    if op_code < 16 {
        let is_sp = bit16(half_word, 11);
        let base = if is_sp {
            RegisterIndex::Sp
        } else {
            RegisterIndex::Ip
        };
        let immediate = (half_word & 0x00ff) as u32;
        let rd = reg16(bits16(half_word, 8, 7));
        assert(immediate << 2u32 <= 0x3fc) by (bit_vector)
            requires
                immediate == (half_word & 0xff) as u32,
        ;
        Ok(
            Instruction {
                condition: Condition::Always,
                op: InstructionOp::ShifterOperandInstruction {
                    op: ShifterOperandInstructionOp::Add,
                    update_flags: false,
                    base,
                    destination: rd,
                    value: ShifterOperand::Immediate(immediate << 2u32, None),
                },
            },
        )
    } else if op_code == 16 {
        let is_sub = bit16(half_word, 7);
        let op = if is_sub {
            ShifterOperandInstructionOp::Subtract
        } else {
            ShifterOperandInstructionOp::Add
        };
        let low = half_word & 0x007f;
        assert(low << 2u16 <= 0x1fc) by (bit_vector)
            requires
                low == half_word & 0x7f,
        ;
        let immediate = (low << 2u16) as u32;
        Ok(
            Instruction {
                condition: Condition::Always,
                op: InstructionOp::ShifterOperandInstruction {
                    op,
                    update_flags: false,
                    base: RegisterIndex::Sp,
                    destination: RegisterIndex::Sp,
                    value: ShifterOperand::Immediate(immediate, None),
                },
            },
        )
    } else if op_code == 20 || op_code == 21 {
        let has_lr = bit16(half_word, 8);
        let value = (if has_lr { 0x4000u32 } else { 0u32 }) | (half_word as u32 & 0x00ff);
        assert(value <= 0xffff) by (bit_vector)
            requires
                value == (if has_lr { 0x4000u32 } else { 0u32 }) | (half_word as u32 & 0x00ff),
        ;
        let register_list = match RegisterList::try_from_u32(value) {
            Ok(l) => l,
            Err(()) => {
                return Err(InstructionDecodeError::InvalidRegisterList);
            },
        };
        Ok(
            Instruction {
                condition: Condition::Always,
                op: InstructionOp::StoreOrLoadRegisters {
                    is_load: false,
                    register_base: RegisterIndex::Sp,
                    register_list,
                    register_base_write_back: true,
                    addressing_mode: StoreLoadManyAddressingMode::DecrementBefore,
                },
            },
        )
    } else if op_code == 28 || op_code == 29 {
        let includes_ip = bit16(half_word, 8);
        let raw = (half_word & 0xff) | if includes_ip {
            0x8000u16
        } else {
            0u16
        };
        let register_list = match RegisterList::try_from_u32(raw as u32) {
            Ok(l) => l,
            Err(()) => {
                return Err(InstructionDecodeError::InvalidRegisterList);
            },
        };
        Ok(
            Instruction {
                condition: Condition::Always,
                op: InstructionOp::StoreOrLoadRegisters {
                    is_load: true,
                    register_base: RegisterIndex::Sp,
                    register_base_write_back: true,
                    register_list,
                    addressing_mode: StoreLoadManyAddressingMode::IncrementAfter,
                },
            },
        )
    } else {
        Err(InstructionDecodeError::UnknownThumb(half_word))
    }
}

/// Conditional branches and block transfers (formats 15 and 16).
pub open spec fn spec_thumb_110(hw: u16) -> Result<Instruction, InstructionDecodeError> {
    if flag16(hw, 12) {
        match condition_of(field16(hw, 8, 0xf) as u8) {
            Err(e) => Err(InstructionDecodeError::InvalidCondition(e)),
            Ok(condition) => Ok(
                Instruction {
                    condition,
                    op: InstructionOp::Branch {
                        store_return_address_in_link_register: false,
                        return_address_is_thumb: true,
                        does_switch_mode: false,
                        target: BranchTarget::Offset((((hw & 0xff) as i8 as i32) * 2) as i32),
                        instruction_size: 2,
                    },
                },
            ),
        }
    } else {
        Ok(
            Instruction {
                condition: Condition::Always,
                op: InstructionOp::StoreOrLoadRegisters {
                    is_load: flag16(hw, 11),
                    register_base: reg(field16(hw, 8, 7) as u32),
                    register_list: RegisterList::spec_new((hw & 0xff) as u32),
                    register_base_write_back: true,
                    addressing_mode: StoreLoadManyAddressingMode::IncrementAfter,
                },
            },
        )
    }
}

fn thumb_op_code_110(half_word: u16) -> (r: Result<Instruction, InstructionDecodeError>)
    ensures
        r == spec_thumb_110(half_word),
{
    if bit16(half_word, 12) {
        let condition = match Condition::try_from_u8(bits16(half_word, 8, 0xf) as u8) {
            Ok(c) => c,
            Err(e) => {
                return Err(InstructionDecodeError::InvalidCondition(e));
            },
        };
        let offset = #[verifier::truncate] ((half_word & 0xff) as i8);
        let offset = (offset as i32) * 2;
        Ok(
            Instruction {
                condition,
                op: InstructionOp::Branch {
                    store_return_address_in_link_register: false,
                    return_address_is_thumb: true,
                    does_switch_mode: false,
                    target: BranchTarget::Offset(offset),
                    instruction_size: 2,
                },
            },
        )
    } else {
        let is_load = bit16(half_word, 11);
        let rn = reg16(bits16(half_word, 8, 7));
        let raw = (half_word & 0x00ff) as u32;
        assert(raw <= 0xff) by (bit_vector)
            requires
                raw == (half_word & 0xff) as u32,
        ;
        let register_list = match RegisterList::try_from_u32(raw) {
            Ok(l) => l,
            Err(()) => {
                return Err(InstructionDecodeError::InvalidRegisterList);
            },
        };
        Ok(
            Instruction {
                condition: Condition::Always,
                op: InstructionOp::StoreOrLoadRegisters {
                    is_load,
                    register_base: rn,
                    register_list,
                    register_base_write_back: true,
                    addressing_mode: StoreLoadManyAddressingMode::IncrementAfter,
                },
            },
        )
    }
}

/// The offset of a long branch with link: the high part from the first half
/// word, sign extended, and the low part from the second.
pub open spec fn long_branch_offset(hw: u16, next: u16) -> i32 {
    let first = (hw & 0x07FF) as u32;
    let first = if first & 0x0400 != 0 {
        first | 0xFFFF_F800
    } else {
        first
    };
    let first = first << 12u32;
    let second = ((next & 0x07FF) as u32) << 1u32;
    let switch = next & 0x1000 == 0;
    (first | if switch {
        second & !2u32
    } else {
        second
    }) as i32
}

/// Unconditional branches and long branches with link (formats 18 and 19).
pub open spec fn spec_thumb_111(hw: u16, next: u16) -> Result<Instruction, InstructionDecodeError> {
    let kind = field16(hw, 11, 3);
    if kind == 2 {
        Ok(
            thumb_branch(
                true,
                next & 0x1000 == 0,
                BranchTarget::Offset(long_branch_offset(hw, next)),
                4,
            ),
        )
    } else if kind == 0 {
        let offset = (hw & 0x07FF) << 1u16;
        let offset = if offset & 0x0800 != 0 {
            offset | 0xF000
        } else {
            offset
        };
        Ok(thumb_branch(false, false, BranchTarget::Offset(offset as i16 as i32), 4))
    } else if kind == 3 {
        Ok(
            thumb_branch(
                true,
                !flag16(hw, 12),
                BranchTarget::Offset((((hw & 0x07FF) as u32) << 1u32) as i32),
                2,
            ),
        )
    } else {
        Err(InstructionDecodeError::UnknownThumb(hw))
    }
}

fn thumb_op_code_111(half_word: u16, next_half_word: u16) -> (r: Result<Instruction, InstructionDecodeError>)
    requires
        field16(half_word, 11, 3) == 2 ==> flag16(next_half_word, 11),
    ensures
        r == spec_thumb_111(half_word, next_half_word),
{
    let kind = bits16(half_word, 11, 3);
    if kind == 2 {
        let mut first_offset = (half_word & 0x07FF) as u32;
        if (first_offset & 0x0400) != 0 {
            first_offset = first_offset | 0xFFFF_F800;
        }
        let first_offset = first_offset << 12u32;
        let does_switch_mode = (next_half_word & 0x1000) == 0;
        let second_offset = (next_half_word & 0x07FF) as u32;
        let second_offset = second_offset << 1u32;
        let offset = #[verifier::truncate] ((first_offset | if does_switch_mode {
            second_offset & !2u32
        } else {
            second_offset
        }) as i32);
        Ok(
            Instruction {
                condition: Condition::Always,
                op: InstructionOp::Branch {
                    store_return_address_in_link_register: true,
                    return_address_is_thumb: true,
                    does_switch_mode,
                    target: BranchTarget::Offset(offset),
                    instruction_size: 4,
                },
            },
        )
    } else if kind == 0 {
        let mut offset = (half_word & 0x07FF) << 1u16;
        if (offset & 0x0800) != 0 {
            offset = offset | 0xF000;
        }
        let offset = #[verifier::truncate] (offset as i16);
        let offset = offset as i32;
        Ok(
            Instruction {
                condition: Condition::Always,
                op: InstructionOp::Branch {
                    store_return_address_in_link_register: false,
                    return_address_is_thumb: true,
                    does_switch_mode: false,
                    target: BranchTarget::Offset(offset),
                    instruction_size: 4,
                },
            },
        )
    } else if kind == 3 {
        let does_switch_mode = !bit16(half_word, 12);
        let offset = (half_word & 0x07FF) as u32;
        let offset = offset << 1u32;
        let offset = #[verifier::truncate] (offset as i32);
        Ok(
            Instruction {
                condition: Condition::Always,
                op: InstructionOp::Branch {
                    store_return_address_in_link_register: true,
                    return_address_is_thumb: true,
                    does_switch_mode,
                    target: BranchTarget::Offset(offset),
                    instruction_size: 2,
                },
            },
        )
    } else {
        Err(InstructionDecodeError::UnknownThumb(half_word))
    }
}

/// Whether decoding a Thumb half word is defined: branch exchanges must
/// have their should-be-zero bits clear and the first half of a long branch
/// must be followed by a second half with its H bit set.
pub open spec fn thumb_decodable(half_word: u16, next_half_word: u16) -> bool {
    let op_code_1 = field16(half_word, 13, 7);
    &&& op_code_1 == 2 && field16(half_word, 10, 7) == 1 && (field16(half_word, 7, 7) == 6
        || field16(half_word, 7, 7) == 7) ==> half_word & 7 == 0
    &&& op_code_1 == 7 && field16(half_word, 11, 3) == 2 ==> flag16(next_half_word, 11)
}

/// Whether decoding a Thumb half word (and the one after it) is defined.
pub fn is_thumb_decodable(half_word: u16, next_half_word: u16) -> (r: bool)
    ensures
        r == thumb_decodable(half_word, next_half_word),
{
    let op_code_1 = bits16(half_word, 13, 7);
    let register_form = bits16(half_word, 7, 7);
    let first = !(op_code_1 == 2 && bits16(half_word, 10, 7) == 1 && (register_form == 6 || register_form
        == 7)) || half_word & 7 == 0;
    let second = !(op_code_1 == 7 && bits16(half_word, 11, 3) == 2) || bit16(next_half_word, 11);
    first && second
}

/// The instruction that a Thumb half word (and, for a long branch, the half
/// word after it) encodes, or why it encodes none.
pub open spec fn spec_decode_thumb(half_word: u16, next_half_word: u16) -> Result<
    Instruction,
    InstructionDecodeError,
> {
    let op_code_1 = field16(half_word, 13, 7);
    if op_code_1 == 0 {
        spec_thumb_000(half_word)
    } else if op_code_1 == 1 {
        spec_thumb_001(half_word)
    } else if op_code_1 == 2 {
        spec_thumb_010(half_word)
    } else if op_code_1 == 3 {
        spec_thumb_011(half_word)
    } else if op_code_1 == 4 {
        spec_thumb_100(half_word)
    } else if op_code_1 == 5 {
        spec_thumb_101(half_word)
    } else if op_code_1 == 6 {
        spec_thumb_110(half_word)
    } else {
        spec_thumb_111(half_word, next_half_word)
    }
}

impl Instruction {
    /// Decodes a Thumb instruction; `next_half_word` is only read by the
    /// first half of a long branch with link.
    pub fn decode_thumb(half_word: u16, next_half_word: u16) -> (r: Result<Instruction, InstructionDecodeError>)
        requires
            thumb_decodable(half_word, next_half_word),
        ensures
            r == spec_decode_thumb(half_word, next_half_word),
    {
        let op_code_1 = bits16(half_word, 13, 7);
        if op_code_1 == 0 {
            thumb_op_code_000(half_word)
        } else if op_code_1 == 1 {
            thumb_op_code_001(half_word)
        } else if op_code_1 == 2 {
            thumb_op_code_010(half_word)
        } else if op_code_1 == 3 {
            thumb_op_code_011(half_word)
        } else if op_code_1 == 4 {
            thumb_op_code_100(half_word)
        } else if op_code_1 == 5 {
            thumb_op_code_101(half_word)
        } else if op_code_1 == 6 {
            thumb_op_code_110(half_word)
        } else {
            thumb_op_code_111(half_word, next_half_word)
        }
    }
}


/// Whether an ARM word decodes to the data-processing operation `op` with
/// the flag bit (20) as `update_flags`, the base register from bits 19-16,
/// the destination from bits 15-12 and the condition from bits 31-28.
pub open spec fn decodes_to_alu(word: u32, op: ShifterOperandInstructionOp) -> bool {
    spec_decode_arm(word) matches Ok(i) && i.op matches InstructionOp::ShifterOperandInstruction {
        op: o,
        update_flags,
        base,
        destination,
        ..
    } && o == op && update_flags == ((word >> 20) & 1 == 1) && base == reg((word >> 16) & 0xf)
        && destination == reg((word >> 12) & 0xf) && Ok::<Condition, ConditionError>(i.condition)
        == condition_of(((word >> 28) & 0xf) as u8)
}

/// The ARM data-processing opcode table: a word with a condition below
/// 1111, bits 27-26 clear and none of the multiply, extra load/store, MRS,
/// MSR or BX patterns is a data-processing instruction whose opcode field
/// (bits 24-21) selects the operation: 0 AND, 1 EOR, 2 SUB, 3 RSB, 4 ADD,
/// 5 ADC, 8 TST, 9 TEQ, A CMP, C ORR, D MOV, E BIC; the opcodes this core
/// does not implement (6 SBC, 7 RSC, B CMN, F MVN) are refused.
pub proof fn lemma_arm_data_processing_opcodes(word: u32)
    requires
        (word >> 28) & 0xf < 15,
        (word >> 25) & 7 <= 1,
        word & 0x0200_0090 != 0x90,
        word & 0x0FB0_0000 != 0x0100_0000,
        word & 0x0FF0_00F0 != 0x0120_0010,
        word & 0x0DB0_0000 != 0x0120_0000,
    ensures
        (word >> 21) & 0xf == 0x0 ==> decodes_to_alu(word, ShifterOperandInstructionOp::And),
        (word >> 21) & 0xf == 0x1 ==> decodes_to_alu(word, ShifterOperandInstructionOp::ExclusiveOr),
        (word >> 21) & 0xf == 0x2 ==> decodes_to_alu(word, ShifterOperandInstructionOp::Subtract),
        (word >> 21) & 0xf == 0x3 ==> decodes_to_alu(word, ShifterOperandInstructionOp::ReverseSubtract),
        (word >> 21) & 0xf == 0x4 ==> decodes_to_alu(word, ShifterOperandInstructionOp::Add),
        (word >> 21) & 0xf == 0x5 ==> decodes_to_alu(word, ShifterOperandInstructionOp::AddWithCarry),
        (word >> 21) & 0xf == 0x8 ==> decodes_to_alu(word, ShifterOperandInstructionOp::Test),
        (word >> 21) & 0xf == 0x9 ==> decodes_to_alu(word, ShifterOperandInstructionOp::TestEquals),
        (word >> 21) & 0xf == 0xA ==> decodes_to_alu(word, ShifterOperandInstructionOp::Compare),
        (word >> 21) & 0xf == 0xC ==> decodes_to_alu(word, ShifterOperandInstructionOp::InclusiveOr),
        (word >> 21) & 0xf == 0xD ==> decodes_to_alu(word, ShifterOperandInstructionOp::Move),
        (word >> 21) & 0xf == 0xE ==> decodes_to_alu(word, ShifterOperandInstructionOp::BitClear),
        (word >> 21) & 0xf == 0x6 || (word >> 21) & 0xf == 0x7 || (word >> 21) & 0xf == 0xB || (word
            >> 21) & 0xf == 0xF ==> spec_decode_arm(word) == Err::<Instruction, InstructionDecodeError>(
            InstructionDecodeError::UnknownArm(word),
        ),
{
}

/// Whether a Thumb half word decodes to the flag-setting operation `op` on
/// the operand `value` with base `base` and destination `destination`.
pub open spec fn thumb_decodes_to_alu(
    half_word: u16,
    op: ShifterOperandInstructionOp,
    base: RegisterIndex,
    destination: RegisterIndex,
    value: ShifterOperand,
) -> bool {
    spec_decode_thumb(half_word, 0) == Ok::<Instruction, InstructionDecodeError>(
        Instruction {
            condition: Condition::Always,
            op: InstructionOp::ShifterOperandInstruction { op, update_flags: true, base, destination, value },
        },
    )
}

/// The Thumb ALU table (format 4, bits 15-10 = 010000): with Rd in bits 2-0
/// and Rm in bits 5-3, the operation field (bits 9-6) selects 0 AND, 1 EOR,
/// 7 ROR (Rd rotated right by Rm, moved to Rd), 8 TST, 9 NEG (0 - Rm), A
/// CMP, B CMN, C ORR, D MUL, E BIC and F MVN, each setting the flags and
/// acting on Rd and Rm; the fields this core does not implement (2 LSL,
/// 3 LSR, 4 ASR, 5 ADC, 6 SBC) are refused.
pub proof fn lemma_thumb_alu_operations(half_word: u16)
    requires
        (half_word >> 13u16) & 7 == 2,
        (half_word >> 10u16) & 7 == 0,
    ensures
        ({
            let field = (half_word >> 6u16) & 0xf;
            let rd = reg(((half_word >> 0u16) & 7) as u32);
            let rm = reg(((half_word >> 3u16) & 7) as u32);
            let register = ShifterOperand::Register(rm);
            &&& field == 0 ==> thumb_decodes_to_alu(half_word, ShifterOperandInstructionOp::And, rd, rd, register)
            &&& field == 1 ==> thumb_decodes_to_alu(half_word, ShifterOperandInstructionOp::ExclusiveOr, rd, rd, register)
            &&& field == 7 ==> thumb_decodes_to_alu(
                half_word,
                ShifterOperandInstructionOp::Move,
                rd,
                rd,
                ShifterOperand::RegisterRegister(rd, ShiftOperator::RotateRight, rm),
            )
            &&& field == 8 ==> thumb_decodes_to_alu(half_word, ShifterOperandInstructionOp::Test, rd, rd, register)
            &&& field == 9 ==> thumb_decodes_to_alu(
                half_word,
                ShifterOperandInstructionOp::ReverseSubtract,
                rm,
                rd,
                ShifterOperand::Immediate(0, None),
            )
            &&& field == 10 ==> thumb_decodes_to_alu(half_word, ShifterOperandInstructionOp::Compare, rd, rd, register)
            &&& field == 11 ==> thumb_decodes_to_alu(
                half_word,
                ShifterOperandInstructionOp::CompareNegative,
                rd,
                rd,
                register,
            )
            &&& field == 12 ==> thumb_decodes_to_alu(
                half_word,
                ShifterOperandInstructionOp::InclusiveOr,
                rd,
                rd,
                register,
            )
            &&& field == 13 ==> thumb_decodes_to_alu(
                half_word,
                ShifterOperandInstructionOp::Multiplicate,
                rd,
                rd,
                register,
            )
            &&& field == 14 ==> thumb_decodes_to_alu(half_word, ShifterOperandInstructionOp::BitClear, rd, rd, register)
            &&& field == 15 ==> thumb_decodes_to_alu(
                half_word,
                ShifterOperandInstructionOp::MoveNegate,
                rd,
                rd,
                register,
            )
            &&& 2 <= field <= 6 ==> spec_decode_thumb(half_word, 0) == Err::<Instruction, InstructionDecodeError>(
                InstructionDecodeError::UnknownThumb(half_word),
            )
        }),
{
}


/// The Thumb immediate table (format 3, bits 15-13 = 001): with Rd in bits
/// 10-8 and an 8-bit immediate in bits 7-0, the operation field (bits
/// 12-11) selects 0 MOV, 1 CMP, 2 ADD and 3 SUB, each setting the flags and
/// acting on Rd and the immediate.
pub proof fn lemma_thumb_immediate_operations(half_word: u16)
    requires
        (half_word >> 13u16) & 7 == 1,
    ensures
        ({
            let field = (half_word >> 11u16) & 3;
            let rd = reg(((half_word >> 8u16) & 7) as u32);
            let immediate = ShifterOperand::Immediate((half_word & 0xff) as u32, None);
            &&& field == 0 ==> thumb_decodes_to_alu(half_word, ShifterOperandInstructionOp::Move, rd, rd, immediate)
            &&& field == 1 ==> thumb_decodes_to_alu(half_word, ShifterOperandInstructionOp::Compare, rd, rd, immediate)
            &&& field == 2 ==> thumb_decodes_to_alu(half_word, ShifterOperandInstructionOp::Add, rd, rd, immediate)
            &&& field == 3 ==> thumb_decodes_to_alu(half_word, ShifterOperandInstructionOp::Subtract, rd, rd, immediate)
        }),
{
}

} // verus!
