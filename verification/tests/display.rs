use gbaemu_core::display::DisplayContext;
use gbaemu_core::instructions::{
    BranchTarget, Condition, Instruction, InstructionFlags, InstructionOp, MsrFieldMask,
    StoreLoadManyAddressingMode, StoreLoadMemoryAddress, StoreLoadMemorySize,
};
use gbaemu_core::registers::{RegisterIndex, RegisterList, Registers};
use gbaemu_core::shifter_operand::{ShiftOperator, ShifterOperand, ShifterOperandInstructionOp};

fn data_processing(
    condition: Condition,
    op: ShifterOperandInstructionOp,
    update_flags: bool,
    base: RegisterIndex,
    destination: RegisterIndex,
    value: ShifterOperand,
) -> Instruction {
    Instruction {
        condition,
        op: InstructionOp::ShifterOperandInstruction {
            op,
            update_flags,
            base,
            destination,
            value,
        },
    }
}

fn move_five(condition: Condition) -> Instruction {
    data_processing(
        condition,
        ShifterOperandInstructionOp::Move,
        false,
        RegisterIndex::R0,
        RegisterIndex::R0,
        ShifterOperand::Immediate(5, None),
    )
}

fn registers_with_values() -> Registers {
    let mut registers = Registers::new();
    registers.write(RegisterIndex::R1, 0x20);
    registers.write(RegisterIndex::R2, 0x3);
    registers
}

#[test]
fn display_move_by_name() {
    let text = move_five(Condition::Always).display(DisplayContext::default());
    assert_eq!(text, "MOV R0, #5");
}

#[test]
fn display_compare_has_no_destination() {
    let instruction = data_processing(
        Condition::Always,
        ShifterOperandInstructionOp::Compare,
        true,
        RegisterIndex::R1,
        RegisterIndex::R0,
        ShifterOperand::Register(RegisterIndex::R2),
    );
    assert_eq!(instruction.display(DisplayContext::default()), "CMPS R1, R2");
}

#[test]
fn display_shifted_operand() {
    let instruction = data_processing(
        Condition::Always,
        ShifterOperandInstructionOp::Add,
        true,
        RegisterIndex::R1,
        RegisterIndex::R3,
        ShifterOperand::RegisterImmediate(RegisterIndex::R2, ShiftOperator::LeftShift, 0x1f),
    );
    assert_eq!(
        instruction.display(DisplayContext::default()),
        "ADDS R3, R1, R2, LSL #1f"
    );
    let by_register = data_processing(
        Condition::Always,
        ShifterOperandInstructionOp::ExclusiveOr,
        false,
        RegisterIndex::R1,
        RegisterIndex::R3,
        ShifterOperand::RegisterRegister(
            RegisterIndex::R2,
            ShiftOperator::RotateRight,
            RegisterIndex::R4,
        ),
    );
    assert_eq!(
        by_register.display(DisplayContext::default()),
        "EOR R3, R1, R2, ROR R4"
    );
}

#[test]
fn display_failing_condition_in_parentheses() {
    // The zero flag is clear in a register file of zeros.
    let text = move_five(Condition::Equal).display(DisplayContext::default());
    assert_eq!(text, "(MOVEQ R0, #5)");
    let text = move_five(Condition::NotEqual).display(DisplayContext::default());
    assert_eq!(text, "MOVNE R0, #5");
}

#[test]
fn display_failing_condition_dark_grey_on_terminal() {
    let ctx = DisplayContext {
        is_tty: true,
        ..DisplayContext::default()
    };
    let text = move_five(Condition::Equal).display(ctx);
    assert_eq!(text, "\x1b[38;5;8mMOVEQ R0, #5\x1b[m");
}

#[test]
fn display_highlighted_register() {
    let highlighted = RegisterList::from_registers(&vec![RegisterIndex::R0]);
    let ctx = DisplayContext {
        highlighted_registers: highlighted,
        ..DisplayContext::default()
    };
    assert_eq!(move_five(Condition::Always).display(ctx), "MOV >R0, #5");
    let tty = DisplayContext {
        is_tty: true,
        ..ctx
    };
    assert_eq!(
        move_five(Condition::Always).display(tty),
        "MOV \x1b[38;5;14mR0\x1b[m, #5"
    );
}

#[test]
fn display_with_register_values() {
    let ctx = DisplayContext {
        register_values: registers_with_values(),
        use_register_values: true,
        ..DisplayContext::default()
    };
    let add = data_processing(
        Condition::Always,
        ShifterOperandInstructionOp::Add,
        false,
        RegisterIndex::R1,
        RegisterIndex::R3,
        ShifterOperand::Register(RegisterIndex::R2),
    );
    assert_eq!(add.display(ctx), "ADD R3, #20, #3");
}

#[test]
fn display_load_address() {
    let address = StoreLoadMemoryAddress {
        ignore_bit_1_of_pc: false,
        register_base: RegisterIndex::R1,
        write_back: true,
        negate_offset: false,
        offset: ShifterOperand::Immediate(4, None),
        is_post_indexing: false,
    };
    let load = Instruction {
        condition: Condition::Always,
        op: InstructionOp::StoreOrLoadRegister {
            is_load: true,
            address,
            register_destination: RegisterIndex::R0,
            read_size: StoreLoadMemorySize::Word,
        },
    };
    assert_eq!(load.display(DisplayContext::default()), "LDR R0 [R1, +#4]!");
    let ctx = DisplayContext {
        register_values: registers_with_values(),
        use_register_values: true,
        ..DisplayContext::default()
    };
    assert_eq!(load.display(ctx), "LDR R0 [#24]!");

    let post = StoreLoadMemoryAddress {
        is_post_indexing: true,
        negate_offset: true,
        write_back: false,
        ..address
    };
    let store = Instruction {
        condition: Condition::Always,
        op: InstructionOp::StoreOrLoadRegister {
            is_load: false,
            address: post,
            register_destination: RegisterIndex::R2,
            read_size: StoreLoadMemorySize::SignedHalfword,
        },
    };
    assert_eq!(store.display(DisplayContext::default()), "STRSH R2 [R1] -#4");
    assert_eq!(store.display(ctx), "STRSH #3 [#20] -#4");
}

#[test]
fn display_store_multiple() {
    let instruction = Instruction {
        condition: Condition::Always,
        op: InstructionOp::StoreOrLoadRegisters {
            is_load: false,
            register_base: RegisterIndex::Sp,
            register_base_write_back: true,
            register_list: RegisterList::from_registers(&vec![
                RegisterIndex::Lr,
                RegisterIndex::R0,
            ]),
            addressing_mode: StoreLoadManyAddressingMode::DecrementBefore,
        },
    };
    assert_eq!(
        instruction.display(DisplayContext::default()),
        "STMDB SP! {R0, LR, }"
    );
}

#[test]
fn display_branches() {
    let branch_link = Instruction {
        condition: Condition::Always,
        op: InstructionOp::Branch {
            store_return_address_in_link_register: true,
            return_address_is_thumb: false,
            does_switch_mode: false,
            target: BranchTarget::Offset(-4),
            instruction_size: 4,
        },
    };
    assert_eq!(
        branch_link.display(DisplayContext::default()),
        "BL #fffffffc"
    );
    let exchange = Instruction {
        condition: Condition::Always,
        op: InstructionOp::Branch {
            store_return_address_in_link_register: false,
            return_address_is_thumb: false,
            does_switch_mode: true,
            target: BranchTarget::RegisterWithOffset(RegisterIndex::Lr, 0),
            instruction_size: 4,
        },
    };
    assert_eq!(exchange.display(DisplayContext::default()), "BX LR");
    let offset = Instruction {
        condition: Condition::Always,
        op: InstructionOp::Branch {
            store_return_address_in_link_register: true,
            return_address_is_thumb: true,
            does_switch_mode: false,
            target: BranchTarget::RegisterWithOffset(RegisterIndex::Lr, 0x10),
            instruction_size: 2,
        },
    };
    assert_eq!(offset.display(DisplayContext::default()), "BL LR + #10");
}

#[test]
fn display_status_register_transfers() {
    let msr = Instruction {
        condition: Condition::Always,
        op: InstructionOp::Msr {
            use_spsr: false,
            field_mask: MsrFieldMask {
                control: true,
                extension: false,
                status: false,
                flags: true,
            },
            operand: ShifterOperand::Register(RegisterIndex::R0),
        },
    };
    assert_eq!(msr.display(DisplayContext::default()), "MSR CPSR_cf, R0");
    let mrs = Instruction {
        condition: Condition::Always,
        op: InstructionOp::Mrs {
            use_spsr: true,
            register_base: RegisterIndex::R0,
        },
    };
    assert_eq!(mrs.display(DisplayContext::default()), "MRS R0, SPSR");
}

#[test]
fn display_flags() {
    let flags = InstructionFlags {
        negative_flag: true,
        zero_flag: false,
        carry_flag: true,
        overflow_flag: false,
    };
    assert_eq!(flags.text(), "-CN-");
}
