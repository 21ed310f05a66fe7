use gbaemu_core::decomp::{
    can_load_program, decompile, load_functions, load_program, read_half_word_at, read_word_at,
    BasicBlock, BasicBlockSuccessor, Program,
};
use gbaemu_core::instructions::{BranchTarget, Condition, Instruction, InstructionOp};
use gbaemu_core::plugins::debug_symbols::{ArmMode, DebugSymbols, Function};

fn words(ws: &[u32]) -> Vec<u8> {
    ws.iter().flat_map(|w| w.to_le_bytes()).collect()
}

fn symbols() -> DebugSymbols {
    DebugSymbols {
        functions: vec![Function {
            name: Some("main".to_string()),
            start: 0,
            end: 8,
            mode: ArmMode::Arm,
            params: Vec::new(),
            return_params: Vec::new(),
        }],
    }
}

// MOV R0, #5; B to itself minus 4 (the start); MOV R1, #1
fn image() -> Vec<u8> {
    words(&[0xE3A0_0005, 0xEAFF_FFFE, 0xE3A0_1001])
}

#[test]
fn words_past_the_end_read_as_zero() {
    let bytes = vec![0x78, 0x56, 0x34];
    assert_eq!(read_word_at(&bytes, 0), 0x0034_5678);
    assert_eq!(read_half_word_at(&bytes, 2), 0x0034);
    assert_eq!(read_half_word_at(&bytes, 7), 0);
}

#[test]
fn successors_are_written_by_block_labels() {
    assert_eq!(BasicBlockSuccessor::Unset.text(), "?");
    assert_eq!(BasicBlockSuccessor::One(0x10).text(), "_bb_0010");
    assert_eq!(
        BasicBlockSuccessor::Two(0x10, 0x12345).text(),
        "_bb_0010 or _bb_12345"
    );
    assert_eq!(BasicBlockSuccessor::OneUnknown.text(), "_bb_xxxx");
    assert_eq!(BasicBlockSuccessor::TwoUnknown(4).text(), "_bb_xxxx or _bb_0004");
}

#[test]
fn conditional_branch_has_two_successors() {
    let branch = Program::Instr(gbaemu_core::decomp::Instr {
        ip: 0x20,
        instr: Instruction {
            condition: Condition::Equal,
            op: InstructionOp::Branch {
                store_return_address_in_link_register: false,
                return_address_is_thumb: false,
                does_switch_mode: false,
                target: BranchTarget::Offset(-8),
                instruction_size: 4,
            },
        },
        size: 4,
    });
    assert_eq!(
        BasicBlockSuccessor::new(&branch),
        Some(BasicBlockSuccessor::Two(0x1c, 0x24))
    );
    assert_eq!(BasicBlockSuccessor::new(&Program::Data(7)), None);
}

#[test]
fn splitting_a_block_keeps_the_entries_before_the_target() {
    let mut block = BasicBlock {
        start: 0,
        end: 8,
        instructions: vec![
            Program::Data(1),
            Program::Data(2),
            Program::Data(3),
            Program::Data(4),
        ],
        successor: BasicBlockSuccessor::OneUnknown,
    };
    let rest = block.split(4);
    assert_eq!((block.start, block.end), (0, 4));
    assert_eq!(block.instructions, vec![Program::Data(1), Program::Data(2)]);
    assert_eq!(block.successor, BasicBlockSuccessor::One(4));
    assert_eq!((rest.start, rest.end), (4, 4));
    assert_eq!(rest.instructions, vec![Program::Data(3), Program::Data(4)]);
    assert_eq!(rest.successor, BasicBlockSuccessor::One(4));
}

#[test]
fn program_is_decoded_entry_by_entry() {
    let bytes = image();
    let symbols = symbols();
    assert!(can_load_program(&bytes, &symbols));
    let program = load_program(&bytes, &symbols);
    let addresses: Vec<usize> = program.iter().map(|(ip, _)| *ip).collect();
    assert_eq!(addresses, vec![0, 4, 8]);
    for (ip, entry) in &program {
        match entry {
            Program::Instr(i) => {
                assert_eq!(i.ip, *ip);
                assert_eq!(i.size, 4);
            }
            Program::Data(_) => panic!("every word is an ARM instruction"),
        }
    }
}

#[test]
fn entries_are_grouped_along_the_symbols() {
    let bytes = image();
    let symbols = symbols();
    let program = load_program(&bytes, &symbols);
    let functions = load_functions(&program, &symbols);
    // The function still being filled at the end is not returned.
    assert_eq!(functions.len(), 1);
    assert_eq!(functions[0].name, "main");
    assert_eq!(functions[0].start, 0);
    assert_eq!(functions[0].program.len(), 2);
    assert!(functions[0].is_mapped);
    assert_eq!(functions[0].symbol, Some(0));
}

#[test]
fn decompiled_listing() {
    let bytes = image();
    let symbols = symbols();
    let functions = decompile(&bytes, &symbols).expect("the image decompiles");
    assert_eq!(functions.len(), 1);
    let f = &functions[0];
    assert_eq!(f.program.len(), 1);
    assert_eq!(f.program[0].successor, BasicBlockSuccessor::One(0));
    assert!(f.can_list());
    assert_eq!(
        f.listing(&symbols),
        "fn main() -> :\n  _bb_0000 -> _bb_0000\n    [0000] MOV R0, #5\n    [0004] B @main\n"
    );
}
