use gbaemu_core::commands::{Address, Command};
use gbaemu_core::instructions::Instruction;
use gbaemu_core::interrupts::Interrupt;
use gbaemu_core::io_registers::lcd::Lcd;
use gbaemu_core::io_registers::GbaIo;
use gbaemu_core::memory::{Cartridge, Memory};
use gbaemu_core::plugins::debug_symbols::{ArmMode, DebugSymbols, Function, Type};
use gbaemu_core::plugins::debugger::{
    BreakpointAction, BreakpointCondition, CommandOutput, Debugger, WatchMessage,
};
use gbaemu_core::plugins::function_watcher::FunctionWatcher;
use gbaemu_core::plugins::timetravel::History;
use gbaemu_core::plugins::PluginWishes;
use gbaemu_core::gba::GbaArgs;
use gbaemu_core::registers::{Mode, RegisterIndex, Registers};

fn memory() -> Memory {
    Memory::new(&[], Cartridge::new(vec![0; 16]), GbaIo::new(Lcd::new()))
}

fn function(name: Option<&str>, start: u32, end: u32) -> Function {
    Function {
        name: name.map(|n| n.to_string()),
        start,
        end,
        mode: ArmMode::Thumb,
        params: Vec::new(),
        return_params: Vec::new(),
    }
}

fn symbols() -> DebugSymbols {
    DebugSymbols {
        functions: vec![
            function(Some("reset"), 0x00, 0x20),
            function(None, 0x20, 0x40),
            function(Some("swi_handler"), 0x20, 0x80),
        ],
    }
}

#[test]
fn combining_wishes_prefers_the_first() {
    let mut a = PluginWishes::default();
    a.register_changes[3] = Some(1);
    a.memory_changes = vec![(0x20, 1), (0x10, 2), (0x20, 3)];
    let mut b = PluginWishes::default();
    b.pause_execution = true;
    b.register_changes[3] = Some(7);
    b.register_changes[4] = Some(8);
    b.memory_changes = vec![(0x10, 9), (0x05, 4)];
    let c = a.combined_with(b);
    assert!(c.pause_execution);
    assert!(!c.stop_execution);
    assert_eq!(c.register_changes[3], Some(1));
    assert_eq!(c.register_changes[4], Some(8));
    assert_eq!(c.memory_changes, vec![(0x05, 4), (0x10, 2), (0x20, 1)]);
}

#[test]
fn combining_with_no_wishes_changes_nothing() {
    let mut a = PluginWishes::default();
    a.stop_execution = true;
    a.memory_changes = vec![(1, 1), (2, 2)];
    let c = a.clone().combined_with(PluginWishes::default());
    assert_eq!(c, a);
    let d = PluginWishes::default().combined_with(a.clone());
    assert_eq!(d, a);
}

#[test]
fn applying_wishes_writes_registers_and_memory() {
    let mut wishes = PluginWishes::default();
    wishes.register_changes[0] = Some(11);
    wishes.register_changes[13] = Some(0x0300_7f00);
    wishes.memory_changes = vec![(0x0200_0000, 0xaa), (0x0200_0001, 0xbb)];
    let mut registers = Registers::new();
    wishes.apply_register_changes(&mut registers);
    assert_eq!(registers.read(RegisterIndex::R0), 11);
    assert_eq!(registers.read(RegisterIndex::Sp), 0x0300_7f00);
    let mut memory = memory();
    wishes.apply_memory_changes(&mut memory);
    assert_eq!(memory.read_half_word_at_silent(0x0200_0000), 0xbbaa);
}

#[test]
fn function_names_and_lookup() {
    let symbols = symbols();
    assert_eq!(symbols.functions[0].name(), "reset");
    assert_eq!(symbols.functions[1].name(), "unknown_0020");
    assert_eq!(function(None, 0x1234_5, 0).name(), "unknown_12345");
    let f = symbols.find_function_for_address(0x24).unwrap();
    assert_eq!(f.start, 0x20);
    assert!(f.name.is_none());
    assert!(symbols.find_function_for_address(0x80).is_none());
}

#[test]
fn type_names() {
    assert_eq!(Type::U32.to_string(), "u32");
    assert_eq!(Type::Pointer(Box::new(Type::Symbol("Thing".to_string()))).to_string(), "Thing*");
    assert_eq!(Type::Pointer(Box::new(Type::Pointer(Box::new(Type::D16)))).to_string(), "d16**");
    assert_eq!(Type::Bool.to_string(), "bool");
}

#[test]
fn function_watcher_reports_entered_functions() {
    let mut watcher = FunctionWatcher::default();
    assert_eq!(watcher.function_entered(0x10), None);
    let mut args = GbaArgs::new();
    args.trace_functions = true;
    watcher.with_args(args, symbols());
    assert_eq!(watcher.find_function_name_for_address(0x24), Some("swi_handler"));
    assert_eq!(watcher.function_entered(0x10), Some("reset".to_string()));
    assert_eq!(watcher.function_entered(0x12), None);
    assert_eq!(watcher.function_entered(0x30), Some("swi_handler".to_string()));
    assert_eq!(watcher.function_entered(0x90), None);
    assert_eq!(watcher.function_entered(0x10), Some("reset".to_string()));
}

#[test]
fn history_undoes_a_store() {
    let mut memory = memory();
    memory.write_word_to(0x0200_0000, 0x1122_3344);
    let mut registers = Registers::new();
    registers.write(RegisterIndex::R0, 0x0200_0000);
    registers.write(RegisterIndex::R1, 0xdead_beef);
    // STR r1, [r0]
    let store = Instruction::decode_arm(0xe580_1000).unwrap();
    let range = store.accessed_memory_addresses(registers).unwrap();
    assert_eq!((range.start, range.end), (0x0200_0000, 0x0200_0004));
    let mut history = History::new(4);
    history.start_entry(0x0800_0000, registers, store, &memory);
    history.finish_entry(registers, &mut memory);
    assert_eq!(history.entries.len(), 1);
    let mut register_changes = [None; 18];
    let mut memory_changes = Vec::new();
    history.go_back(&mut register_changes, &mut memory_changes);
    assert_eq!(register_changes[0], Some(0x0200_0000));
    assert_eq!(register_changes[1], Some(0xdead_beef));
    assert_eq!(register_changes[16], Some(0xd3));
    assert_eq!(
        memory_changes,
        vec![(0x0200_0000, 0x44), (0x0200_0001, 0x33), (0x0200_0002, 0x22), (0x0200_0003, 0x11)]
    );
    assert_eq!(history.entries.len(), 0);
}

#[test]
fn history_keeps_fewer_entries_than_its_capacity() {
    let mut memory = memory();
    let registers = Registers::new();
    // MOV r0, r0
    let nop = Instruction::decode_arm(0xe1a0_0000).unwrap();
    assert!(nop.accessed_memory_addresses(registers).is_none());
    let mut history = History::new(3);
    for ip in 0..5u32 {
        history.start_entry(ip * 4, registers, nop, &memory);
        history.finish_entry(registers, &mut memory);
    }
    assert_eq!(history.entries.len(), 2);
    assert_eq!(history.entries[0].ip, 12);
    assert_eq!(history.entries[1].ip, 16);
    let mut tiny = History::new(1);
    tiny.start_entry(0, registers, nop, &memory);
    tiny.finish_entry(registers, &mut memory);
    assert_eq!(tiny.entries.len(), 0);
}

#[test]
fn debugger_skips_sections_and_functions() {
    let mut debugger = Debugger::new(false, 8, symbols());
    assert!(!debugger.is_silent_at(0x10));
    debugger.skip_function("reset");
    assert!(debugger.is_skipped(0x10));
    assert!(!debugger.is_skipped(0x20));
    debugger.skip_section(0x100, 0x104);
    assert!(debugger.is_silent_at(0x102));
    assert_eq!(debugger.find_function_name_for_address(0x30), Some("swi_handler"));
}

#[test]
fn debugger_stops_at_breakpoints() {
    let mut debugger = Debugger::new(true, 8, symbols());
    debugger.with_breakpoint(0x40);
    debugger.emit_register_on(RegisterIndex::R2, 0x40);
    debugger.with_breakpoint_conditionally(0x44, 0);
    assert_eq!(debugger.next_breakpoint_at(0x40, 0), Some(0));
    assert_eq!(debugger.next_breakpoint_at(0x40, 1), Some(1));
    assert_eq!(debugger.next_breakpoint_at(0x40, 2), None);
    assert_eq!(debugger.breakpoints[1].action, BreakpointAction::EmitRegister(RegisterIndex::R2));
    assert_eq!(debugger.breakpoints[2].condition, BreakpointCondition::Custom(0));
    let memory = memory();
    let registers = Registers::new();
    let nop = Instruction::decode_arm(0xe1a0_0000).unwrap();
    let decision = debugger.should_execute(&registers, &nop, 0x3c, &memory, false);
    assert!(!decision.ask_for_command && !decision.print_instruction);
    let decision = debugger.should_execute(&registers, &nop, 0x40, &memory, true);
    assert!(decision.ask_for_command && decision.print_instruction);
    let (wishes, output) = debugger.execute_command(&Command::Continue, registers, 0x40, &memory);
    assert!(!wishes.pause_execution);
    assert_eq!(output, CommandOutput::Nothing);
    assert!(!debugger.is_stepping);
}

#[test]
fn debugger_reacts_to_interrupts() {
    let mut debugger = Debugger::new(true, 8, symbols());
    debugger.break_on_irq(Interrupt::Vblank);
    debugger.emit_interrupt_names();
    let (wishes, names) = debugger.interrupt_occured(Interrupt::SerialCom);
    assert!(!wishes.pause_execution);
    assert_eq!(names, 1);
    assert!(!debugger.is_stepping);
    let (wishes, names) = debugger.interrupt_occured(Interrupt::Vblank);
    assert!(wishes.pause_execution);
    assert_eq!(names, 1);
    assert!(debugger.is_stepping);
}

#[test]
fn debugger_reports_watched_memory_and_goes_back() {
    let mut debugger = Debugger::new(true, 8, symbols());
    debugger.with_watch_memory_address(0x0200_0000, 2, true, false, true);
    let mut memory = memory();
    let mut registers = Registers::new();
    registers.write(RegisterIndex::R0, 0x0200_0000);
    registers.write(RegisterIndex::R1, 0x0000_abcd);
    // STRH r1, [r0]
    let store = Instruction::decode_arm(0xe1c0_10b0).unwrap();
    let decision = debugger.should_execute(&registers, &store, 0x0800_0000, &memory, false);
    assert!(!decision.ask_for_command);
    let _ = memory.take_watched_accesses();
    memory.write_half_word_to(0x0200_0000, 0xabcd);
    let report = debugger.after_executing(&registers, &store, 0x0800_0000, &mut memory);
    assert!(debugger.is_stepping);
    assert!(report.print_changes);
    assert_eq!(report.memory_changes.len(), 2);
    assert_eq!(
        report.messages,
        vec![
            WatchMessage::Change { address: 0x0200_0000, old: 0, new: 0xcd },
            WatchMessage::Change { address: 0x0200_0001, old: 0, new: 0xab }
        ]
    );
    assert_eq!(debugger.memory_address_watchers[0].last_seen_value, 0xcd);
    let (wishes, _) = debugger.execute_command(&Command::GoBack, registers, 0x0800_0004, &memory);
    assert!(wishes.pause_execution);
    assert_eq!(wishes.register_changes[1], Some(0x0000_abcd));
    // the bytes are taken when the instruction is recorded, after it ran
    assert_eq!(wishes.memory_changes, vec![(0x0200_0000, 0xcd), (0x0200_0001, 0xab)]);
    let (_, output) = debugger.execute_command(
        &Command::ReadMemory(Address::Literal(0x0200_0000)),
        registers,
        0x0800_0004,
        &memory,
    );
    assert_eq!(output, CommandOutput::MemoryValue { address: 0x0200_0000, value: 0xabcd });
}

#[test]
fn debugger_reports_reads_then_changes_of_watched_bytes() {
    let mut debugger = Debugger::new(true, 8, symbols());
    debugger.with_watch_memory_address(0x0200_0010, 1, false, false, true);
    debugger.with_watch_memory_address(0x0200_0020, 1, false, false, false);
    let mut memory = memory();
    let registers = Registers::new();
    // MOV r0, r0
    let nop = Instruction::decode_arm(0xe1a0_0000).unwrap();
    let _ = debugger.should_execute(&registers, &nop, 0x0800_0000, &memory, false);
    let _ = memory.take_watched_accesses();
    memory.write_byte_to(0x0200_0010, 0x5a);
    memory.write_byte_to(0x0200_0010, 0x6b);
    memory.write_byte_to(0x0200_0030, 0x01);
    assert_eq!(memory.read_byte_at(0x0200_0010), 0x6b);
    assert_eq!(memory.read_byte_at(0x0200_0020), 0x00);
    let report = debugger.after_executing(&registers, &nop, 0x0800_0000, &mut memory);
    assert!(!debugger.is_stepping);
    assert_eq!(report.memory_changes.len(), 3);
    assert_eq!(
        report.messages,
        vec![
            WatchMessage::Read { address: 0x0200_0010, value: 0x6b },
            WatchMessage::Change { address: 0x0200_0010, old: 0x00, new: 0x5a },
            WatchMessage::Change { address: 0x0200_0010, old: 0x5a, new: 0x6b },
        ]
    );
    assert_eq!(debugger.memory_address_watchers[0].last_seen_value, 0x6b);
    assert_eq!(debugger.memory_address_watchers[1].last_seen_value, 0x00);
}

#[test]
fn debugger_follows_the_stack() {
    let mut debugger = Debugger::new(true, 8, symbols());
    debugger.with_watch_stack();
    let mut memory = memory();
    let registers = Registers::new();
    // BL +0
    let call = Instruction::decode_arm(0xeb00_0000).unwrap();
    debugger.should_execute(&registers, &call, 0x100, &memory, false);
    debugger.after_executing(&registers, &call, 0x100, &mut memory);
    assert_eq!(debugger.stackframe, vec![0x104]);
    let (wishes, output) = debugger.execute_command(&Command::JumpOut, registers, 0x200, &memory);
    assert!(!wishes.pause_execution);
    assert_eq!(output, CommandOutput::Nothing);
    assert_eq!(debugger.breakpoints.last().unwrap().ip, 0x104);
    assert!(debugger.breakpoints.last().unwrap().fragile);
    let _ = Mode::User;
}

#[test]
fn debugger_breakpoint_outcome_walks_the_breakpoints_in_order() {
    let mut debugger = Debugger::new(true, 8, symbols());
    debugger.emit_register_on(RegisterIndex::R2, 0x40);
    debugger.with_breakpoint_conditionally(0x40, 0);
    debugger.emit_register_on(RegisterIndex::R3, 0x40);
    debugger.with_breakpoint(0x40);
    debugger.emit_register_on(RegisterIndex::R4, 0x40);
    // the condition does not hold: the later registers show and the plain breakpoint stops
    let outcome = debugger.breakpoint_outcome(0x40, &vec![false]);
    assert!(outcome.stop && !outcome.fatal);
    assert_eq!(outcome.emitted, vec![RegisterIndex::R2, RegisterIndex::R3]);
    // the condition holds: it stops before R3 is shown
    let outcome = debugger.breakpoint_outcome(0x40, &vec![true]);
    assert!(outcome.stop);
    assert_eq!(outcome.emitted, vec![RegisterIndex::R2]);
    // a missing condition is fatal
    let outcome = debugger.breakpoint_outcome(0x40, &vec![]);
    assert!(outcome.fatal && !outcome.stop);
    // nothing sits at another address
    let outcome = debugger.breakpoint_outcome(0x44, &vec![true]);
    assert!(!outcome.stop && !outcome.fatal && outcome.emitted.is_empty());
    debugger.panic_on(0x48);
    assert!(debugger.breakpoint_outcome(0x48, &vec![]).fatal);
}
