//! The machine: registers and memory, and what each instruction does to
//! them.
use vstd::prelude::*;

use crate::instructions::{
    condition_holds,
    BranchTarget,
    Instruction,
    InstructionOp,
    MsrFieldMask,
    StoreLoadManyAddressingMode,
    StoreLoadMemoryAddress,
    StoreLoadMemorySize,
};
use crate::bits::popcount;
use crate::decode::{arm_decodable, spec_decode_arm, spec_decode_thumb, thumb_decodable};
use crate::instructions::{op_sets_ip, op_ticks, InstructionDecodeError};
use crate::interrupts::Interrupt;
use crate::io_registers::GbaIo;
use crate::io_registers::lcd::{tile_bytes, tile_pixels, Lcd, PixelFormat};
use crate::memory::{half_bytes, word_bytes, Cartridge, Memory, MemoryPlugin, MemoryView, RAW_SIZE};
use crate::registers::{mode_of_bits, psr_with_mode, psr_with_thumb, Mode, RegisterIndex, RegisterList, Registers};
use crate::shifter_operand::ShifterOperand;

verus! {

/// Options of a run.
#[derive(Debug, Clone, Copy, PartialEq, Eq, Structural)]
pub struct GbaArgs {
    pub trace_functions: bool,
    pub watch_stack: bool,
    pub watch_registers: RegisterList,
}

impl GbaArgs {
    pub fn new() -> (r: GbaArgs)
        ensures
            !r.trace_functions && !r.watch_stack && r.watch_registers.bits() == 0,
    {
        GbaArgs { trace_functions: false, watch_stack: false, watch_registers: RegisterList::empty() }
    }
}

/// The status bits that no mode may set.
pub const UNALLOC_MASK: u32 = 0x06F0_FC00;

/// The status bits that every mode may write.
pub const USER_MASK: u32 = 0xF80F_0200;

/// The status bits that privileged modes may write.
pub const PRIV_MASK: u32 = 0x0000_01DF;

/// The execution state bits (T and J).
pub const STATE_MASK: u32 = 0x0100_0020;

/// The value loaded into `r`: a loaded instruction pointer is aligned to
/// the current instruction size.
pub open spec fn loaded_value(regs: Registers, r: RegisterIndex, v: u32) -> u32 {
    if r == RegisterIndex::Ip {
        v & if regs.is_thumb_state() {
            0xffff_fffeu32
        } else {
            0xffff_fffcu32
        }
    } else {
        v
    }
}

/// The number of bytes a single transfer moves.
pub open spec fn transfer_len(size: StoreLoadMemorySize) -> int {
    match size {
        StoreLoadMemorySize::Byte | StoreLoadMemorySize::SignedByte => 1,
        StoreLoadMemorySize::Halfword | StoreLoadMemorySize::SignedHalfword => 2,
        StoreLoadMemorySize::Word => 4,
    }
}

/// Whether the address suits the size: half words are even, words aligned.
pub open spec fn is_aligned(a: u32, size: StoreLoadMemorySize) -> bool {
    match size {
        StoreLoadMemorySize::Halfword | StoreLoadMemorySize::SignedHalfword => a % 2 == 0,
        StoreLoadMemorySize::Word => a % 4 == 0,
        _ => true,
    }
}

/// The value a load of `size` at `a` gives, sign-extended for the signed
/// sizes.
pub open spec fn load_value(mem: MemoryView, a: u32, size: StoreLoadMemorySize) -> u32 {
    match size {
        StoreLoadMemorySize::Byte => mem.byte_of(a, 0) as u32,
        StoreLoadMemorySize::Halfword => mem.half_word(a) as u32,
        StoreLoadMemorySize::Word => mem.word(a),
        StoreLoadMemorySize::SignedByte => ((mem.byte_of(a, 0) as i8) as i32) as u32,
        StoreLoadMemorySize::SignedHalfword => ((mem.half_word(a) as i16) as i32) as u32,
    }
}

/// The bytes a store of `size` writes for `v`.
pub open spec fn store_bytes(size: StoreLoadMemorySize, v: u32) -> Seq<u8> {
    match size {
        StoreLoadMemorySize::Halfword => half_bytes(v as u16),
        StoreLoadMemorySize::Word => word_bytes(v),
        _ => seq![v as u8],
    }
}

/// Whether a store of `size` at `a` is defined: signed sizes only load, the
/// address leaves room for the bytes, and unless the BIOS drops it the
/// store is aligned and the bytes can be written.
pub open spec fn can_store(mem: MemoryView, a: u32, size: StoreLoadMemorySize, v: u32) -> bool {
    &&& size != StoreLoadMemorySize::SignedByte && size != StoreLoadMemorySize::SignedHalfword
    &&& a + transfer_len(size) <= u32::MAX
    &&& !MemoryView::is_read_only(a, transfer_len(size) as u32) ==> is_aligned(a, size)
        && mem.can_write(a, store_bytes(size, v))
}

/// The register number `k` as a register.
pub open spec fn register_number(k: nat) -> RegisterIndex {
    RegisterIndex::from_raw(k).unwrap()
}

/// The registers and memory after moving the registers of `list` from
/// number `k` on, starting at `address` and going up four bytes each.
pub open spec fn block_transfer(
    is_load: bool,
    list: RegisterList,
    k: nat,
    regs: Registers,
    mem: MemoryView,
    address: u32,
) -> (Registers, MemoryView)
    decreases 18 - k,
{
    if k >= 18 {
        (regs, mem)
    } else if list.has(k) {
        let r = register_number(k);
        let next = (address + 4) as u32;
        if is_load {
            block_transfer(
                is_load,
                list,
                k + 1,
                regs.spec_write(r, loaded_value(regs, r, mem.word(address))),
                mem.logged_reads(address, 4),
                next,
            )
        } else {
            block_transfer(
                is_load,
                list,
                k + 1,
                regs,
                mem.after_write(address, word_bytes(regs.spec_read(r))),
                next,
            )
        }
    } else {
        block_transfer(is_load, list, k + 1, regs, mem, address)
    }
}

/// The address after moving the registers of `list` from number `k` on.
pub open spec fn block_end(list: RegisterList, k: nat, address: int) -> int
    decreases 18 - k,
{
    if k >= 18 {
        address
    } else if list.has(k) {
        block_end(list, k + 1, address + 4)
    } else {
        block_end(list, k + 1, address)
    }
}

/// Whether `block_transfer` is defined: no address passes the top of the
/// address space, every word can be read or written, and every register
/// can be located (and, for stores, read).
pub open spec fn can_block_transfer(
    is_load: bool,
    list: RegisterList,
    k: nat,
    regs: Registers,
    mem: MemoryView,
    address: u32,
) -> bool
    decreases 18 - k,
{
    if k >= 18 {
        true
    } else if list.has(k) {
        let r = register_number(k);
        let next = (address + 4) as u32;
        &&& address + 4 <= u32::MAX
        &&& if is_load {
            &&& address % 4 == 0
            &&& mem.can_read(address, 4)
            &&& regs.can_access(r)
            &&& can_block_transfer(
                is_load,
                list,
                k + 1,
                regs.spec_write(r, loaded_value(regs, r, mem.word(address))),
                mem.logged_reads(address, 4),
                next,
            )
        } else {
            &&& regs.can_read(r)
            &&& (!MemoryView::is_read_only(address, 4) ==> address % 4 == 0 && mem.can_write(
                address,
                word_bytes(regs.spec_read(r)),
            ))
            &&& can_block_transfer(
                is_load,
                list,
                k + 1,
                regs,
                mem.after_write(address, word_bytes(regs.spec_read(r))),
                next,
            )
        }
    } else {
        can_block_transfer(is_load, list, k + 1, regs, mem, address)
    }
}

/// Where a branch goes.
pub open spec fn branch_target(regs: Registers, target: BranchTarget) -> u32 {
    match target {
        BranchTarget::Offset(offset) => regs.spec_read(RegisterIndex::Ip).wrapping_add_signed(offset),
        BranchTarget::RegisterWithOffset(r, offset) => regs.spec_read(r).wrapping_add_signed(offset),
    }
}

/// The register a branch target reads.
pub open spec fn target_register(target: BranchTarget) -> RegisterIndex {
    match target {
        BranchTarget::Offset(_) => RegisterIndex::Ip,
        BranchTarget::RegisterWithOffset(r, _) => r,
    }
}

/// The registers after a branch's mode switch, if it switches.
pub open spec fn branch_switched(regs: Registers, target: BranchTarget, does_switch_mode: bool) -> Registers {
    if does_switch_mode {
        regs.spec_write(
            RegisterIndex::Cpsr,
            psr_with_thumb(regs.cpsr_bits(), branch_target(regs, target) & 1 != 0),
        )
    } else {
        regs
    }
}

/// The return address stored by a branch with link.
pub open spec fn return_address(regs: Registers, instruction_size: usize, is_thumb: bool) -> u32 {
    ((regs.spec_read_raw(RegisterIndex::Ip) + instruction_size) as u32) | if is_thumb {
        1u32
    } else {
        0u32
    }
}

/// The status register that an MSR writes and the bits it may write.
pub open spec fn msr_mask(regs: Registers, use_spsr: bool, field_mask: MsrFieldMask) -> u32 {
    if use_spsr {
        crate::instructions::field_mask_bits(field_mask) & (USER_MASK | PRIV_MASK | STATE_MASK)
    } else if regs.current_mode() != crate::registers::Mode::User {
        crate::instructions::field_mask_bits(field_mask) & (USER_MASK | PRIV_MASK)
    } else {
        crate::instructions::field_mask_bits(field_mask) & USER_MASK
    }
}

/// Whether the operation can run on the registers and memory: every
/// register it reads or writes can be located, every byte it moves can be
/// read or written, and it is not one of the unpredictable cases.
pub open spec fn can_run(op: InstructionOp, regs: Registers, mem: MemoryView) -> bool {
    match op {
        InstructionOp::Branch {
            store_return_address_in_link_register,
            return_address_is_thumb,
            does_switch_mode,
            target,
            instruction_size,
        } => {
            let r1 = branch_switched(regs, target, does_switch_mode);
            &&& regs.can_read(target_register(target))
            &&& store_return_address_in_link_register ==> {
                &&& r1.can_access(RegisterIndex::Lr)
                &&& r1.spec_read_raw(RegisterIndex::Ip) + instruction_size <= u32::MAX
            }
        },
        InstructionOp::StoreOrLoadRegister { is_load, address, register_destination, read_size } => {
            let a = address.address_in(regs);
            let r1 = address.regs_after_resolve(regs, false);
            &&& address.can_resolve_mut(regs, false)
            &&& if is_load {
                &&& is_aligned(a, read_size)
                &&& mem.can_read(a, transfer_len(read_size))
                &&& r1.can_access(register_destination)
            } else {
                &&& r1.can_read(register_destination)
                &&& can_store(mem, a, read_size, r1.spec_read(register_destination))
            }
        },
        InstructionOp::StoreOrLoadRegisters {
            is_load,
            register_base,
            register_base_write_back,
            register_list,
            addressing_mode,
        } => {
            let base = regs.spec_read(register_base);
            let len = (4 * popcount(register_list.bits())) as u32;
            let start = addressing_mode.spec_start_address(base, len);
            let (r1, _) = block_transfer(is_load, register_list, 0, regs, mem, start);
            let end = block_end(register_list, 0, start as int);
            &&& regs.can_read(register_base)
            &&& can_block_transfer(is_load, register_list, 0, regs, mem, start)
            &&& end - 4 == addressing_mode.spec_end_address(base, len)
            &&& register_base_write_back ==> r1.can_access(register_base)
        },
        InstructionOp::Mrs { use_spsr, register_base } => {
            &&& regs.can_read(if use_spsr { RegisterIndex::Spsr } else { RegisterIndex::Cpsr })
            &&& regs.can_access(register_base)
        },
        InstructionOp::Msr { use_spsr, field_mask, operand } => {
            let value = operand.value_in(regs);
            &&& operand.can_resolve(regs)
            &&& value & UNALLOC_MASK == 0
            &&& regs.mode_is_valid()
            &&& use_spsr ==> regs.current_mode() != crate::registers::Mode::User
                && regs.current_mode() != crate::registers::Mode::System
            &&& !use_spsr && regs.current_mode() != crate::registers::Mode::User ==> value
                & STATE_MASK == 0
        },
        InstructionOp::ShifterOperandInstruction { op, update_flags, base, destination, value } => {
            op.can_execute(regs, update_flags, base, destination, value)
        },
    }
}

/// The registers and memory after the operation.
pub open spec fn run(op: InstructionOp, regs: Registers, mem: MemoryView) -> (Registers, MemoryView) {
    match op {
        InstructionOp::Branch {
            store_return_address_in_link_register,
            return_address_is_thumb,
            does_switch_mode,
            target,
            instruction_size,
        } => {
            let t = branch_target(regs, target);
            let r1 = branch_switched(regs, target, does_switch_mode);
            let t2 = if does_switch_mode {
                t & 0xffff_fffe
            } else {
                t
            };
            let r2 = if store_return_address_in_link_register {
                r1.spec_write(
                    RegisterIndex::Lr,
                    return_address(r1, instruction_size, return_address_is_thumb),
                )
            } else {
                r1
            };
            (r2.spec_write(RegisterIndex::Ip, t2), mem)
        },
        InstructionOp::StoreOrLoadRegister { is_load, address, register_destination, read_size } => {
            let a = address.address_in(regs);
            let r1 = address.regs_after_resolve(regs, false);
            if is_load {
                (
                    r1.spec_write(
                        register_destination,
                        loaded_value(r1, register_destination, load_value(mem, a, read_size)),
                    ),
                    mem.logged_reads(a, transfer_len(read_size) as nat),
                )
            } else {
                (
                    r1,
                    mem.after_write(a, store_bytes(read_size, r1.spec_read(register_destination))),
                )
            }
        },
        InstructionOp::StoreOrLoadRegisters {
            is_load,
            register_base,
            register_base_write_back,
            register_list,
            addressing_mode,
        } => {
            let base = regs.spec_read(register_base);
            let len = (4 * popcount(register_list.bits())) as u32;
            let start = addressing_mode.spec_start_address(base, len);
            let (r1, m1) = block_transfer(is_load, register_list, 0, regs, mem, start);
            if register_base_write_back {
                (r1.spec_write(register_base, addressing_mode.spec_write_back(base, len)), m1)
            } else {
                (r1, m1)
            }
        },
        InstructionOp::Mrs { use_spsr, register_base } => {
            let source = if use_spsr {
                RegisterIndex::Spsr
            } else {
                RegisterIndex::Cpsr
            };
            (regs.spec_write(register_base, regs.spec_read(source)), mem)
        },
        InstructionOp::Msr { use_spsr, field_mask, operand } => {
            let value = operand.value_in(regs);
            let target = if use_spsr {
                RegisterIndex::Spsr
            } else {
                RegisterIndex::Cpsr
            };
            let mask = msr_mask(regs, use_spsr, field_mask);
            (
                regs.spec_write(target, (regs.spec_read(target) & !mask) | (value & mask)),
                mem,
            )
        },
        InstructionOp::ShifterOperandInstruction { op, update_flags, base, destination, value } => (
            op.spec_execute(regs, update_flags, base, destination, value),
            mem,
        ),
    }
}

/// The emulated console: its memory, its registers and its clock.
pub struct Gba {
    pub memory: Memory,
    pub registers: Registers,
    pub args: GbaArgs,
    pub ticks: usize,
    pub wait_ticks: usize,
    pub disable_interrupts_since_nothing_is_being_executed: bool,
}

impl Gba {
    pub open spec fn wf(&self) -> bool {
        self.memory.wf()
    }

    /// Whether the options and the clock are those of `other`.
    pub open spec fn same_clock(&self, other: &Gba) -> bool {
        &&& self.args == other.args
        &&& self.ticks == other.ticks
        &&& self.wait_ticks == other.wait_ticks
        &&& self.disable_interrupts_since_nothing_is_being_executed
            == other.disable_interrupts_since_nothing_is_being_executed
    }

    fn execute_branch(
        &mut self,
        store_return_address_in_link_register: bool,
        return_address_is_thumb: bool,
        does_switch_mode: bool,
        target: BranchTarget,
        instruction_size: usize,
    )
        requires
            old(self).wf(),
            can_run(
                InstructionOp::Branch {
                    store_return_address_in_link_register,
                    return_address_is_thumb,
                    does_switch_mode,
                    target,
                    instruction_size,
                },
                old(self).registers,
                old(self).memory@,
            ),
        ensures
            final(self).wf(),
            final(self).same_clock(old(self)),
            (final(self).registers, final(self).memory@) == run(
                InstructionOp::Branch {
                    store_return_address_in_link_register,
                    return_address_is_thumb,
                    does_switch_mode,
                    target,
                    instruction_size,
                },
                old(self).registers,
                old(self).memory@,
            ),
            final(self).memory == old(self).memory,
    {
        let target = match target {
            BranchTarget::Offset(offset) => self.registers.read(RegisterIndex::Ip).wrapping_add_signed(
                offset,
            ),
            BranchTarget::RegisterWithOffset(register, offset) => self.registers.read(
                register,
            ).wrapping_add_signed(offset),
        };
        let target = if does_switch_mode {
            let is_thumb = (target & 0x1) > 0;
            self.registers.set_is_thumb(is_thumb);
            target & 0xffff_fffe
        } else {
            target
        };
        if store_return_address_in_link_register {
            let ip = self.registers.read_raw(RegisterIndex::Ip);
            let return_address = (ip + instruction_size as u32) | if return_address_is_thumb {
                1u32
            } else {
                0u32
            };
            self.registers.write(RegisterIndex::Lr, return_address);
        }
        self.registers.write(RegisterIndex::Ip, target);
    }

    fn execute_single_transfer(
        &mut self,
        is_load: bool,
        address: StoreLoadMemoryAddress,
        register_destination: RegisterIndex,
        read_size: StoreLoadMemorySize,
    )
        requires
            old(self).wf(),
            can_run(
                InstructionOp::StoreOrLoadRegister {
                    is_load,
                    address,
                    register_destination,
                    read_size,
                },
                old(self).registers,
                old(self).memory@,
            ),
        ensures
            final(self).wf(),
            final(self).same_clock(old(self)),
            (final(self).registers, final(self).memory@) == run(
                InstructionOp::StoreOrLoadRegister {
                    is_load,
                    address,
                    register_destination,
                    read_size,
                },
                old(self).registers,
                old(self).memory@,
            ),
    {
        let address_raw = address.resolve_mut(&mut self.registers, false);
        if is_load {
            let value = match read_size {
                StoreLoadMemorySize::Byte => self.memory.read_byte_at(address_raw) as u32,
                StoreLoadMemorySize::Halfword => self.memory.read_half_word_at(address_raw) as u32,
                StoreLoadMemorySize::Word => self.memory.read_word(address_raw),
                StoreLoadMemorySize::SignedByte => self.memory.read_byte_at(
                    address_raw,
                ) as i8 as i32 as u32,
                StoreLoadMemorySize::SignedHalfword => self.memory.read_half_word_at(
                    address_raw,
                ) as i16 as i32 as u32,
            };
            let value = if register_destination == RegisterIndex::Ip {
                value & if self.registers.cpsr().is_thumb() {
                    0xffff_fffeu32
                } else {
                    0xffff_fffcu32
                }
            } else {
                value
            };
            self.registers.write(register_destination, value);
        } else {
            let value = self.registers.read(register_destination);
            match read_size {
                StoreLoadMemorySize::Byte => {
                    self.memory.write_byte_to(address_raw, value as u8);
                },
                StoreLoadMemorySize::Halfword => {
                    self.memory.write_half_word_to(address_raw, value as u16);
                },
                _ => {
                    self.memory.write_word_to(address_raw, value);
                },
            }
        }
    }

    fn execute_block_transfer(
        &mut self,
        is_load: bool,
        register_base: RegisterIndex,
        register_base_write_back: bool,
        register_list: RegisterList,
        addressing_mode: StoreLoadManyAddressingMode,
    )
        requires
            old(self).wf(),
            can_run(
                InstructionOp::StoreOrLoadRegisters {
                    is_load,
                    register_base,
                    register_base_write_back,
                    register_list,
                    addressing_mode,
                },
                old(self).registers,
                old(self).memory@,
            ),
        ensures
            final(self).wf(),
            final(self).same_clock(old(self)),
            (final(self).registers, final(self).memory@) == run(
                InstructionOp::StoreOrLoadRegisters {
                    is_load,
                    register_base,
                    register_base_write_back,
                    register_list,
                    addressing_mode,
                },
                old(self).registers,
                old(self).memory@,
            ),
    {
        let ghost regs0 = self.registers;
        let ghost mem0 = self.memory@;
        let base = self.registers.read(register_base);
        let start = addressing_mode.start_address(base, register_list);
        let mut address = start;
        let mut k: u32 = 0;
        while k < 18
            invariant
                self.wf(),
                self.same_clock(old(self)),
                k <= 18,
                block_transfer(is_load, register_list, k as nat, self.registers, self.memory@, address)
                    == block_transfer(is_load, register_list, 0, regs0, mem0, start),
                can_block_transfer(is_load, register_list, k as nat, self.registers, self.memory@, address),
            decreases 18 - k,
        {
            if register_list.0 & (1u32 << k) != 0 {
                assert(register_list.has(k as nat));
                let register = match RegisterIndex::try_from_u32(k) {
                    Ok(r) => r,
                    Err(_) => RegisterIndex::R0,
                };
                assert(register == register_number(k as nat));
                if is_load {
                    let value = self.memory.read_word(address);
                    let value = if register == RegisterIndex::Ip {
                        value & if self.registers.cpsr().is_thumb() {
                            0xffff_fffeu32
                        } else {
                            0xffff_fffcu32
                        }
                    } else {
                        value
                    };
                    self.registers.write(register, value);
                } else {
                    let value = self.registers.read(register);
                    self.memory.write_word_to(address, value);
                }
                address = address + 4;
            } else {
                assert(!register_list.has(k as nat));
            }
            k = k + 1;
        }
        if register_base_write_back {
            let write_back = addressing_mode.write_back(base, register_list);
            self.registers.write(register_base, write_back);
        }
    }

    fn execute_msr(&mut self, use_spsr: bool, field_mask: MsrFieldMask, operand: ShifterOperand)
        requires
            old(self).wf(),
            can_run(
                InstructionOp::Msr { use_spsr, field_mask, operand },
                old(self).registers,
                old(self).memory@,
            ),
        ensures
            final(self).wf(),
            final(self).same_clock(old(self)),
            (final(self).registers, final(self).memory@) == run(
                InstructionOp::Msr { use_spsr, field_mask, operand },
                old(self).registers,
                old(self).memory@,
            ),
            final(self).memory == old(self).memory,
    {
        let value = operand.resolve_mut(&mut self.registers, false);
        let mode = self.registers.cpsr().mode();
        if use_spsr {
            let old_value = self.registers.read(RegisterIndex::Spsr);
            let mask = field_mask.to_mask() & (USER_MASK | PRIV_MASK | STATE_MASK);
            self.registers.write(RegisterIndex::Spsr, (old_value & !mask) | (value & mask));
        } else {
            let old_value = self.registers.read(RegisterIndex::Cpsr);
            let mask = if mode.is_privileged() {
                field_mask.to_mask() & (USER_MASK | PRIV_MASK)
            } else {
                field_mask.to_mask() & USER_MASK
            };
            self.registers.write(RegisterIndex::Cpsr, (old_value & !mask) | (value & mask));
        }
    }
}

impl InstructionOp {
    /// Runs the operation on the console's registers and memory.
    pub fn execute(self, state: &mut Gba)
        requires
            old(state).wf(),
            can_run(self, old(state).registers, old(state).memory@),
        ensures
            final(state).wf(),
            (final(state).registers, final(state).memory@) == run(
                self,
                old(state).registers,
                old(state).memory@,
            ),
            final(state).same_clock(old(state)),
    {
        match self {
            InstructionOp::Branch {
                store_return_address_in_link_register,
                return_address_is_thumb,
                does_switch_mode,
                target,
                instruction_size,
            } => state.execute_branch(
                store_return_address_in_link_register,
                return_address_is_thumb,
                does_switch_mode,
                target,
                instruction_size,
            ),
            InstructionOp::StoreOrLoadRegister {
                is_load,
                address,
                register_destination,
                read_size,
            } => state.execute_single_transfer(is_load, address, register_destination, read_size),
            InstructionOp::StoreOrLoadRegisters {
                is_load,
                register_base,
                register_base_write_back,
                register_list,
                addressing_mode,
            } => state.execute_block_transfer(
                is_load,
                register_base,
                register_base_write_back,
                register_list,
                addressing_mode,
            ),
            InstructionOp::Mrs { use_spsr, register_base } => {
                let source = if use_spsr {
                    RegisterIndex::Spsr
                } else {
                    RegisterIndex::Cpsr
                };
                let value = state.registers.read(source);
                state.registers.write(register_base, value);
            },
            InstructionOp::Msr { use_spsr, field_mask, operand } => state.execute_msr(
                use_spsr,
                field_mask,
                operand,
            ),
            InstructionOp::ShifterOperandInstruction {
                op,
                update_flags,
                base,
                destination,
                value,
            } => op.execute(&mut state.registers, update_flags, base, destination, value),
        }
    }
}

impl Instruction {
    /// Runs the instruction if its condition holds under the current flags.
    pub fn execute(self, state: &mut Gba)
        requires
            old(state).wf(),
            condition_holds(self.condition, old(state).registers.spec_flags()) ==> can_run(
                self.op,
                old(state).registers,
                old(state).memory@,
            ),
        ensures
            final(state).wf(),
            (final(state).registers, final(state).memory@) == if condition_holds(
                self.condition,
                old(state).registers.spec_flags(),
            ) {
                run(self.op, old(state).registers, old(state).memory@)
            } else {
                (old(state).registers, old(state).memory@)
            },
            final(state).same_clock(old(state)),
    {
        if self.condition.can_execute(state.registers.flags()) {
            self.op.execute(state);
        }
    }
}

/// The mode bits of a status word given a mode name that mode.
pub proof fn lemma_psr_with_mode(psr: u32, mode: Mode)
    ensures
        mode_of_bits(psr_with_mode(psr, mode)) == Some(mode),
{
    let b = mode.bits();
    assert(((b & 0x1f) | (psr & !0x1fu32)) & 0x1f == b) by (bit_vector)
        requires
            b == 0x10 || b == 0x11 || b == 0x12 || b == 0x13 || b == 0x17 || b == 0x1b || b
                == 0x1f,
    ;
}

/// Setting or clearing the T bit keeps the mode bits.
pub proof fn lemma_psr_with_thumb(psr: u32, is_thumb: bool)
    ensures
        psr_with_thumb(psr, is_thumb) & 0x1f == psr & 0x1f,
{
    assert((psr | 0x20) & 0x1f == psr & 0x1f) by (bit_vector);
    assert((psr & !0x20u32) & 0x1f == psr & 0x1f) by (bit_vector);
}

/// The registers after taking an interrupt: IRQ mode with the old status
/// word saved, ARM state, the return address in LR, and execution at the
/// IRQ vector 18h.
pub open spec fn irq_entry(regs: Registers) -> Registers {
    let ip = regs.spec_read(RegisterIndex::Ip);
    let psr = regs.spec_read(RegisterIndex::Cpsr);
    let r1 = regs.spec_write(RegisterIndex::Cpsr, psr_with_mode(regs.cpsr_bits(), Mode::Irq));
    let r2 = r1.spec_write(RegisterIndex::Spsr, psr);
    let r3 = r2.spec_write(RegisterIndex::Cpsr, psr_with_thumb(r2.cpsr_bits(), false));
    let r4 = r3.spec_write(RegisterIndex::Lr, ip);
    r4.spec_write(RegisterIndex::Ip, 0x18)
}

/// Where the next instruction is fetched: the instruction pointer aligned
/// to the current instruction size.
pub open spec fn fetch_address(regs: Registers) -> u32 {
    let ip = regs.spec_read_raw(RegisterIndex::Ip);
    if regs.is_thumb_state() {
        ip & !1u32
    } else {
        ip & !3u32
    }
}

/// Whether the instruction at the instruction pointer can be fetched and
/// decoded without a fault.
pub open spec fn can_fetch(regs: Registers, mem: MemoryView) -> bool {
    let a = fetch_address(regs);
    if regs.is_thumb_state() {
        &&& a + 4 <= u32::MAX
        &&& mem.can_read(a, 2)
        &&& mem.can_read((a + 2) as u32, 2)
        &&& thumb_decodable(mem.half_word(a), mem.half_word((a + 2) as u32))
        &&& spec_decode_thumb(mem.half_word(a), mem.half_word((a + 2) as u32)) is Ok
    } else {
        &&& a % 4 == 0
        &&& mem.can_read(a, 4)
        &&& arm_decodable(mem.word(a))
        &&& spec_decode_arm(mem.word(a)) is Ok
    }
}

/// The fetched instruction and the memory after the fetch's reads.
pub open spec fn fetched(regs: Registers, mem: MemoryView) -> (Instruction, MemoryView) {
    let a = fetch_address(regs);
    if regs.is_thumb_state() {
        (
            spec_decode_thumb(mem.half_word(a), mem.half_word((a + 2) as u32))->Ok_0,
            mem.logged_reads(a, 2).logged_reads((a + 2) as u32, 2),
        )
    } else {
        (spec_decode_arm(mem.word(a))->Ok_0, mem.logged_reads(a, 4))
    }
}

/// The console as contracts see it.
pub struct GbaView {
    pub registers: Registers,
    pub memory: MemoryView,
    pub args: GbaArgs,
    pub ticks: usize,
    pub wait_ticks: usize,
    pub disable_interrupts_since_nothing_is_being_executed: bool,
}

/// The console right before the fetch of a cycle that executes: the clock
/// ticked, the devices ran, and a ready interrupt was taken.
pub open spec fn before_fetch(v: GbaView) -> GbaView {
    let ticks = (v.ticks + 1) as usize;
    let io1 = v.memory.io.after_cycle(ticks);
    let (irq, interrupt) = io1.interrupt.step(ticks);
    GbaView {
        registers: if irq is Some {
            irq_entry(v.registers)
        } else {
            v.registers
        },
        memory: MemoryView { io: GbaIo { interrupt, ..io1 }, ..v.memory },
        ticks,
        ..v
    }
}

/// What one cycle does: while an instruction's cycles are pending, it only
/// counts them down; otherwise the devices run, an interrupt may be taken,
/// and the next instruction is fetched and executed; unless the
/// instruction set the instruction pointer, it then moves on by the
/// instruction's size.
pub open spec fn cycle(v: GbaView) -> GbaView {
    if v.wait_ticks > 0 {
        GbaView { ticks: (v.ticks + 1) as usize, wait_ticks: (v.wait_ticks - 1) as usize, ..v }
    } else {
        let w = before_fetch(v);
        let regs = w.registers;
        let ip = regs.spec_read_raw(RegisterIndex::Ip);
        let (instruction, mem) = fetched(regs, w.memory);
        let holds = condition_holds(instruction.condition, regs.spec_flags());
        let increment: u32 = if holds && op_sets_ip(instruction.op) {
            0
        } else if regs.is_thumb_state() {
            2
        } else {
            4
        };
        let (regs2, mem2) = if holds {
            run(instruction.op, regs, mem)
        } else {
            (regs, mem)
        };
        let sets_ip = condition_holds(instruction.condition, regs2.spec_flags()) && op_sets_ip(
            instruction.op,
        );
        GbaView {
            registers: if sets_ip {
                regs2
            } else {
                regs2.spec_write(RegisterIndex::Ip, (ip + increment) as u32)
            },
            memory: mem2,
            ticks: w.ticks,
            wait_ticks: (op_ticks(instruction.op) + if holds {
                0int
            } else {
                1int
            }) as usize,
            disable_interrupts_since_nothing_is_being_executed: false,
            args: v.args,
        }
    }
}

/// Whether the cycle of `v` runs without a fault: the clock does not
/// overflow, the interrupt entry can read the instruction pointer, the
/// instruction can be fetched and decoded, its tick count is defined, it
/// can run, and the instruction pointer does not overflow.
pub open spec fn can_cycle(v: GbaView) -> bool {
    &&& v.ticks < usize::MAX
    &&& v.wait_ticks == 0 ==> {
        let ticks = (v.ticks + 1) as usize;
        let io1 = v.memory.io.after_cycle(ticks);
        let w = before_fetch(v);
        let regs = w.registers;
        let ip = regs.spec_read_raw(RegisterIndex::Ip);
        let (instruction, mem) = fetched(regs, w.memory);
        let holds = condition_holds(instruction.condition, regs.spec_flags());
        let (regs2, mem2) = if holds {
            run(instruction.op, regs, mem)
        } else {
            (regs, mem)
        };
        &&& io1.interrupt.step(ticks).0 is Some ==> v.registers.can_read(RegisterIndex::Ip)
        &&& can_fetch(regs, w.memory)
        &&& instruction.op.has_tick_duration()
        &&& holds ==> can_run(instruction.op, regs, mem)
        &&& ip + 4 <= u32::MAX
    }
}

impl Gba {
    /// The console as contracts see it.
    pub open spec fn spec_view(&self) -> GbaView {
        GbaView {
            registers: self.registers,
            memory: self.memory@,
            args: self.args,
            ticks: self.ticks,
            wait_ticks: self.wait_ticks,
            disable_interrupts_since_nothing_is_being_executed: self.disable_interrupts_since_nothing_is_being_executed,
        }
    }

    /// A console with `bios` at address 0 and `cartridge` in the game pak
    /// slot, in the state after a reset.
    pub fn new(cartridge: Cartridge, bios: &[u8]) -> (r: Gba)
        requires
            bios@.len() <= RAW_SIZE,
        ensures
            r.wf(),
            r.memory@.cartridge == cartridge.bytes(),
            r.memory@.raw == Seq::new(RAW_SIZE as nat, |i: int| if i < bios@.len() { bios@[i] } else { 0u8 }),
            r.registers.cpsr_bits() == 0xd3,
            r.ticks == 0 && r.wait_ticks == 0,
            r.args == (GbaArgs { trace_functions: false, watch_stack: false, watch_registers: RegisterList(0) }),
    {
        let io = GbaIo::new(Lcd::new());
        Gba {
            memory: Memory::new(bios, cartridge, io),
            registers: Registers::new(),
            args: GbaArgs::new(),
            ticks: 0,
            wait_ticks: 0,
            disable_interrupts_since_nothing_is_being_executed: false,
        }
    }

    /// The console with the given options.
    pub fn with_args(self, args: GbaArgs) -> (r: Gba)
        ensures
            r.args == args,
            r.memory == self.memory,
            r.registers == self.registers,
            r.ticks == self.ticks,
            r.wait_ticks == self.wait_ticks,
    {
        Gba { args, ..self }
    }

    /// The `length` bytes from `at` on, without logging the reads.
    pub fn read_memory(&self, at: u32, length: u32) -> (r: Vec<u8>)
        requires
            self.wf(),
            at + length <= u32::MAX,
            forall|i: int| 0 <= i < length ==> #[trigger] self.memory@.can_read((at + i) as u32, 1),
        ensures
            r@ == Seq::new(length as nat, |i: int| self.memory@.byte_of((at + i) as u32, 0)),
    {
        self.memory.read_vec(at, length)
    }

    /// A copy of the I/O devices.
    pub fn clone_gba_io(&self) -> (r: GbaIo)
        requires
            self.wf(),
        ensures
            r == self.memory@.io,
    {
        *self.memory.io()
    }

    /// Resets the registers and the I/O devices.
    pub fn reset(&mut self)
        requires
            old(self).wf(),
        ensures
            final(self).wf(),
            final(self).registers.cpsr_bits() == 0xd3,
            final(self).memory@.io.was_reset(old(self).memory@.io),
            final(self).memory@ == (MemoryView { io: final(self).memory@.io, ..old(self).memory@ }),
    {
        self.registers = Registers::new();
        self.memory.reset_io();
    }

    /// Takes the interrupt that is ready at the current tick, if any.
    pub fn handle_interrupts(&mut self) -> (r: Option<Interrupt>)
        requires
            old(self).wf(),
            old(self).memory@.io.interrupt.step(old(self).ticks).0 is Some ==> old(
                self,
            ).registers.can_read(RegisterIndex::Ip),
        ensures
            final(self).wf(),
            r == old(self).memory@.io.interrupt.step(old(self).ticks).0,
            final(self).memory@ == (MemoryView {
                io: GbaIo {
                    interrupt: old(self).memory@.io.interrupt.step(old(self).ticks).1,
                    ..old(self).memory@.io
                },
                ..old(self).memory@
            }),
            final(self).registers == if r is Some {
                irq_entry(old(self).registers)
            } else {
                old(self).registers
            },
            final(self).same_clock(old(self)),
    {
        let interrupt = self.memory.next_interrupt(self.ticks);
        if interrupt.is_none() {
            return interrupt;
        }
        let ghost r0 = self.registers;
        let ip = self.registers.read(RegisterIndex::Ip);
        let psr = self.registers.read(RegisterIndex::Cpsr);
        self.registers.set_mode(Mode::Irq);
        proof {
            lemma_psr_with_mode(r0.cpsr_bits(), Mode::Irq);
            r0.lemma_write_cpsr(psr_with_mode(r0.cpsr_bits(), Mode::Irq));
        }
        let ghost r1 = self.registers;
        self.registers.write(RegisterIndex::Spsr, psr);
        let ghost r2 = self.registers;
        proof {
            r1.lemma_bank_bound(RegisterIndex::Spsr);
            Registers::lemma_slot_of_set_slot(r1, r1.bank_of(RegisterIndex::Spsr), 17, psr, 0, 16);
        }
        self.registers.set_is_thumb(false);
        proof {
            assert(r2.cpsr_bits() == psr_with_mode(r0.cpsr_bits(), Mode::Irq));
            lemma_psr_with_thumb(r2.cpsr_bits(), false);
            r2.lemma_write_cpsr(psr_with_thumb(r2.cpsr_bits(), false));
            assert(mode_of_bits(self.registers.cpsr_bits()) == Some(Mode::Irq));
        }
        self.registers.write(RegisterIndex::Lr, ip);
        self.registers.write(RegisterIndex::Ip, 0x0000_0018);
        interrupt
    }

    /// Fetches and decodes the instruction at the instruction pointer.
    pub fn fetch(&mut self) -> (r: Result<Instruction, InstructionDecodeError>)
        requires
            old(self).wf(),
            can_fetch(old(self).registers, old(self).memory@),
        ensures
            final(self).wf(),
            r == Ok::<Instruction, InstructionDecodeError>(
                fetched(old(self).registers, old(self).memory@).0,
            ),
            final(self).memory@ == fetched(old(self).registers, old(self).memory@).1,
            final(self).registers == old(self).registers,
            final(self).same_clock(old(self)),
    {
        let raw = self.registers.read_raw(RegisterIndex::Ip);
        if self.registers.cpsr().is_thumb() {
            let ip = raw & !1u32;
            assert(ip % 2 == 0) by (bit_vector)
                requires
                    ip == raw & !1u32,
            ;
            let half_word = self.memory.read_half_word_at(ip);
            proof {
                old(self).memory@.lemma_logged_reads(ip, 2);
                self.memory@.lemma_can_read_same(old(self).memory@, (ip + 2) as u32, 2);
            }
            let next_half_word = self.memory.read_half_word_at(ip + 2);
            Instruction::decode_thumb(half_word, next_half_word)
        } else {
            let ip = raw & !3u32;
            assert(ip % 4 == 0) by (bit_vector)
                requires
                    ip == raw & !3u32,
            ;
            let word = self.memory.read_word(ip);
            Instruction::decode_arm(word)
        }
    }
}

impl Gba {
    /// Runs one cycle of the console: see `cycle`.
    pub fn run_cycle(&mut self)
        requires
            old(self).wf(),
            can_cycle(old(self).spec_view()),
        ensures
            final(self).wf(),
            final(self).spec_view() == cycle(old(self).spec_view()),
    {
        if self.wait_ticks > 0 {
            self.ticks = self.ticks + 1;
            self.wait_ticks = self.wait_ticks - 1;
            return;
        }
        let ghost v = self.spec_view();
        self.ticks = self.ticks + 1;
        self.memory.run_io_cycle(self.ticks);
        self.handle_interrupts();
        assert(self.spec_view() == before_fetch(v));
        let ip = self.registers.read_raw(RegisterIndex::Ip);
        let instruction = match self.fetch() {
            Ok(instruction) => instruction,
            Err(_) => {
                return;
            },
        };
        let duration = instruction.tick_duration(self.registers.flags());
        self.wait_ticks = duration;
        self.disable_interrupts_since_nothing_is_being_executed = false;
        let increment: u32 = if instruction.increments_instruction_pointer(&self.registers) {
            0
        } else if self.registers.cpsr().is_thumb() {
            2
        } else {
            4
        };
        instruction.execute(self);
        if !instruction.increments_instruction_pointer(&self.registers) {
            self.registers.write(RegisterIndex::Ip, ip + increment);
        }
    }
}

/// The console after the fetched instruction `instruction`, found at `ip`,
/// ran: the rest of a cycle after the fetch (see `cycle`).
pub open spec fn executed(v: GbaView, instruction: Instruction, ip: u32) -> GbaView {
    let regs = v.registers;
    let holds = condition_holds(instruction.condition, regs.spec_flags());
    let increment: u32 = if holds && op_sets_ip(instruction.op) {
        0
    } else if regs.is_thumb_state() {
        2
    } else {
        4
    };
    let (regs2, mem2) = if holds {
        run(instruction.op, regs, v.memory)
    } else {
        (regs, v.memory)
    };
    let sets_ip = condition_holds(instruction.condition, regs2.spec_flags()) && op_sets_ip(
        instruction.op,
    );
    GbaView {
        registers: if sets_ip {
            regs2
        } else {
            regs2.spec_write(RegisterIndex::Ip, (ip + increment) as u32)
        },
        memory: mem2,
        wait_ticks: (op_ticks(instruction.op) + if holds {
            0int
        } else {
            1int
        }) as usize,
        disable_interrupts_since_nothing_is_being_executed: false,
        ..v
    }
}

/// Whether the fetched instruction `instruction` at `ip` can run in `v`.
pub open spec fn can_execute(v: GbaView, instruction: Instruction, ip: u32) -> bool {
    let holds = condition_holds(instruction.condition, v.registers.spec_flags());
    &&& instruction.op.has_tick_duration()
    &&& holds ==> can_run(instruction.op, v.registers, v.memory)
    &&& ip + 4 <= u32::MAX
}

impl Gba {
    /// Copies into `buffer` the lines of the rendered frame `rendered` that
    /// the display drew since the last fetch.
    pub fn swap_buffers(&mut self, rendered: &[u32; 38400], buffer: &mut [u32; 38400])
        requires
            old(self).wf(),
            old(self).memory@.io.lcd.last_fetched_line > old(self).memory@.io.lcd.last_rendered_line
                || old(self).memory@.io.lcd.last_fetched_line <= 160,
        ensures
            final(self).wf(),
            final(self).memory@ == (MemoryView {
                io: GbaIo {
                    lcd: Lcd {
                        last_fetched_line: old(self).memory@.io.lcd.fetch_end() as u16,
                        ..old(self).memory@.io.lcd
                    },
                    ..old(self).memory@.io
                },
                ..old(self).memory@
            }),
            final(self).registers == old(self).registers,
            final(self).ticks == old(self).ticks,
            forall|i: int|
                0 <= i < 38400 ==> #[trigger] final(buffer)@[i] == if old(self).memory@.io.lcd.fetches_pixel(i) {
                    rendered@[i]
                } else {
                    old(buffer)@[i]
                },
    {
        self.memory.swap_buffers(rendered, buffer);
    }

    /// The tiles of video memory in `format`, in order.
    pub fn load_tiles(&self, format: PixelFormat) -> (r: Vec<Vec<u8>>)
        ensures
            r@.len() == self.memory@.vram.len() / tile_bytes(format),
            forall|t: int|
                0 <= t < r@.len() ==> #[trigger] r@[t]@ == tile_pixels(self.memory@.vram, format, t),
    {
        self.memory.load_tiles(format)
    }

    /// The steps of a cycle one at a time, for embedders that are asked in
    /// between: the clock ticks and the devices run; the interrupt that is
    /// ready, if any, is handed out without being taken.
    pub fn start_cycle(&mut self) -> (r: Option<Interrupt>)
        requires
            old(self).wf(),
            old(self).ticks < usize::MAX,
        ensures
            final(self).wf(),
            final(self).ticks == old(self).ticks + 1,
            r == old(self).memory@.io.after_cycle(final(self).ticks).interrupt.step(final(self).ticks).0,
            final(self).memory@ == ({
                let io1 = old(self).memory@.io.after_cycle(final(self).ticks);
                MemoryView {
                    io: GbaIo { interrupt: io1.interrupt.step(final(self).ticks).1, ..io1 },
                    ..old(self).memory@
                }
            }),
            final(self).registers == old(self).registers,
            final(self).args == old(self).args,
            final(self).wait_ticks == old(self).wait_ticks,
            final(self).disable_interrupts_since_nothing_is_being_executed
                == old(self).disable_interrupts_since_nothing_is_being_executed,
    {
        self.ticks = self.ticks + 1;
        self.memory.run_io_cycle(self.ticks);
        self.memory.next_interrupt(self.ticks)
    }

    /// Enters the interrupt handler: see `irq_entry`.
    pub fn enter_interrupt(&mut self)
        requires
            old(self).registers.can_read(RegisterIndex::Ip),
        ensures
            final(self).registers == irq_entry(old(self).registers),
            final(self).memory == old(self).memory,
            final(self).same_clock(old(self)),
    {
        let ghost r0 = self.registers;
        let ip = self.registers.read(RegisterIndex::Ip);
        let psr = self.registers.read(RegisterIndex::Cpsr);
        self.registers.set_mode(Mode::Irq);
        proof {
            lemma_psr_with_mode(r0.cpsr_bits(), Mode::Irq);
            r0.lemma_write_cpsr(psr_with_mode(r0.cpsr_bits(), Mode::Irq));
        }
        let ghost r1 = self.registers;
        self.registers.write(RegisterIndex::Spsr, psr);
        let ghost r2 = self.registers;
        proof {
            r1.lemma_bank_bound(RegisterIndex::Spsr);
            Registers::lemma_slot_of_set_slot(r1, r1.bank_of(RegisterIndex::Spsr), 17, psr, 0, 16);
        }
        self.registers.set_is_thumb(false);
        proof {
            assert(r2.cpsr_bits() == psr_with_mode(r0.cpsr_bits(), Mode::Irq));
            lemma_psr_with_thumb(r2.cpsr_bits(), false);
            r2.lemma_write_cpsr(psr_with_thumb(r2.cpsr_bits(), false));
            assert(mode_of_bits(self.registers.cpsr_bits()) == Some(Mode::Irq));
        }
        self.registers.write(RegisterIndex::Lr, ip);
        self.registers.write(RegisterIndex::Ip, 0x0000_0018);
    }

    /// Leaves `interrupt` pending for a later cycle.
    pub fn hold_interrupt(&mut self, interrupt: Interrupt)
        requires
            old(self).wf(),
        ensures
            final(self).wf(),
            final(self).memory@ == (MemoryView {
                io: GbaIo {
                    interrupt: crate::io_registers::interrupt_waitstate::InterruptWaitstate {
                        interrupt_request_flags: old(self).memory@.io.interrupt.interrupt_request_flags
                            | (1u16 << interrupt.bit()),
                        ..old(self).memory@.io.interrupt
                    },
                    ..old(self).memory@.io
                },
                ..old(self).memory@
            }),
            final(self).registers == old(self).registers,
            final(self).same_clock(old(self)),
    {
        self.memory.queue_interrupt(interrupt);
    }

    /// Runs the fetched instruction `instruction`, found at `ip`: see
    /// `executed`.
    pub fn execute_fetched(&mut self, instruction: Instruction, ip: u32)
        requires
            old(self).wf(),
            old(self).registers.spec_read_raw(RegisterIndex::Ip) == ip,
            can_execute(old(self).spec_view(), instruction, ip),
        ensures
            final(self).wf(),
            final(self).spec_view() == executed(old(self).spec_view(), instruction, ip),
    {
        let duration = instruction.tick_duration(self.registers.flags());
        self.wait_ticks = duration;
        self.disable_interrupts_since_nothing_is_being_executed = false;
        let increment: u32 = if instruction.increments_instruction_pointer(&self.registers) {
            0
        } else if self.registers.cpsr().is_thumb() {
            2
        } else {
            4
        };
        instruction.execute(self);
        if !instruction.increments_instruction_pointer(&self.registers) {
            self.registers.write(RegisterIndex::Ip, ip + increment);
        }
    }

    /// Takes back the tick of a cycle whose instruction a plugin held back;
    /// interrupts stay off while nothing runs.
    pub fn pause_cycle(&mut self)
        requires
            old(self).ticks > 0,
        ensures
            final(self).ticks == old(self).ticks - 1,
            final(self).disable_interrupts_since_nothing_is_being_executed,
            final(self).registers == old(self).registers,
            final(self).memory == old(self).memory,
            final(self).wait_ticks == old(self).wait_ticks,
            final(self).args == old(self).args,
    {
        self.ticks = self.ticks - 1;
        self.disable_interrupts_since_nothing_is_being_executed = true;
    }
}

} // verus!
