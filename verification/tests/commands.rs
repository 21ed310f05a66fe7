use gbaemu_core::commands::{parse_command, parse_tokens, Address, Command, Token};
use gbaemu_core::io_registers::lcd::Lcd;
use gbaemu_core::io_registers::GbaIo;
use gbaemu_core::memory::{Cartridge, Memory};
use gbaemu_core::registers::{RegisterIndex, Registers};

fn p(t: &str) -> Result<Command, ()> {
    parse_command(t.to_string(), Registers::default())
}

fn expect_echo(p: Result<Command, ()>, arg: &str) {
    let p = p.unwrap();
    let e = match p {
        Command::Echo(e) => e,
        c => panic!("Command {c:?} was not echo!"),
    };
    assert_eq!(e, arg);
}

fn expect_read_memory(p: Result<Command, ()>, arg: u32) {
    let p = p.unwrap();
    let e = match p {
        Command::ReadMemory(e) => e,
        c => panic!("Command {c:?} was not echo!"),
    };
    let memory = Memory::new(&[], Cartridge::new(Vec::new()), GbaIo::new(Lcd::new()));
    assert_eq!(e.resolve(Registers::default(), &memory), arg);
}

#[test]
fn parse_tests() {
    expect_echo(p("123"), "123");
    expect_read_memory(p("[123]"), 123);
    assert_eq!(
        p("[123]=1"),
        Ok(Command::WriteMemory(Address::Literal(123), 1))
    );
    assert_eq!(p("b"), Ok(Command::GoBack));
}

#[test]
fn tokens_of_a_write() {
    assert_eq!(
        parse_tokens("[0x10] = r1".to_string()),
        vec![
            Token::LBracket,
            Token::Int(16),
            Token::RBracket,
            Token::Equals,
            Token::Text("r1".to_string())
        ]
    );
}

#[test]
fn number_too_large_is_an_error_token() {
    assert_eq!(parse_tokens("4294967296".to_string()), vec![Token::Error]);
    assert_eq!(parse_tokens("4294967295".to_string()), vec![Token::Int(u32::MAX)]);
}

#[test]
fn empty_line_steps() {
    assert_eq!(p(""), Ok(Command::Step));
    assert_eq!(p("   "), Ok(Command::Step));
}

#[test]
fn named_commands() {
    assert_eq!(p("continue"), Ok(Command::Continue));
    assert_eq!(p("?"), Ok(Command::Help));
    assert_eq!(p("sf"), Ok(Command::ShowStackFrame));
    assert_eq!(p("show-asm"), Ok(Command::StartEmittingAssembly));
    assert_eq!(p("hide-asm"), Ok(Command::StopEmittingAssembly));
    assert_eq!(p("registers"), Ok(Command::ShowRegisters));
    assert_eq!(p("jr"), Ok(Command::JumpOut));
    assert_eq!(p("next"), Ok(Command::Step));
    assert_eq!(p("frobnicate"), Err(()));
}

#[test]
fn registers_and_indirect_addresses() {
    assert_eq!(p("[sp]"), Ok(Command::ReadMemory(Address::Register(RegisterIndex::Sp))));
    assert_eq!(
        p("[[0x20]]"),
        Ok(Command::ReadMemory(Address::Indirect(Box::new(Address::Literal(0x20)))))
    );
    assert_eq!(p("[R3]=r6"), Err(()));
    assert_eq!(
        parse_command("[R3]=r6".to_string(), Registers::new()),
        Ok(Command::WriteMemory(Address::Register(RegisterIndex::R3), 0))
    );
    assert_eq!(p("[123"), Err(()));
    assert_eq!(p("[123]=x"), Err(()));
    assert_eq!(p("1 2"), Err(()));
}

#[test]
fn echo_is_decimal() {
    expect_echo(p("0xff"), "255");
    expect_echo(p("0"), "0");
}

#[test]
fn help_lists_every_command_after_the_address_syntax() {
    let lines = gbaemu_core::commands::help_lines();
    assert_eq!(lines.len(), 12);
    assert!(lines[0].starts_with("ADDR or VALUE can be written as hex"));
    assert_eq!(lines[1], "  b/back - Go back one instruction in the debugger");
    assert_eq!(lines[11], "  ?/h/help - Emits this help.");
}
