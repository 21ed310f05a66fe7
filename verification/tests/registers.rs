use gbaemu_core::registers::{Mode, RegisterIndex, Registers};

#[test]
fn registers_from_cold_boot_processor() {
    let cpu = armv4t_emu::Cpu::new();
    let registers = Registers::from_extern(&cpu).unwrap();
    assert_eq!(registers.read(RegisterIndex::Cpsr), 0xd3);
    assert!(registers.cpsr().mode() == Mode::Supervisor);
    assert_eq!(registers.read(RegisterIndex::R0), 0);
    assert_eq!(registers.read_raw(RegisterIndex::Ip), 0);
}

#[test]
fn registers_from_processor_keep_banked_values() {
    let mut cpu = armv4t_emu::Cpu::new();
    cpu.reg_set(armv4t_emu::Mode::Supervisor, 13, 0x0300_7fe0);
    cpu.reg_set(armv4t_emu::Mode::Supervisor, 14, 0x0800_0100);
    cpu.reg_set(armv4t_emu::Mode::User, 13, 0x0300_7f00);
    cpu.reg_set(armv4t_emu::Mode::User, 3, 42);
    cpu.reg_set(armv4t_emu::Mode::User, 15, 0x0800_0000);
    let mut registers = Registers::from_extern(&cpu).unwrap();
    assert_eq!(registers.read(RegisterIndex::Sp), 0x0300_7fe0);
    assert_eq!(registers.read(RegisterIndex::Lr), 0x0800_0100);
    assert_eq!(registers.read(RegisterIndex::R3), 42);
    assert_eq!(registers.read_raw(RegisterIndex::Ip), 0x0800_0000);
    // only the registers of the current mode are taken over
    registers.set_mode(Mode::User);
    assert_eq!(registers.read(RegisterIndex::Sp), 0);
    assert_eq!(registers.read(RegisterIndex::R3), 42);
}

#[test]
fn registers_from_parts_use_the_banks_of_the_mode() {
    let mut values = [0u32; 18];
    for (i, v) in values.iter_mut().enumerate() {
        *v = 100 + i as u32;
    }
    values[16] = 0x11; // FIQ mode
    let mut registers = Registers::from_parts(Mode::Fiq, values);
    assert_eq!(registers.read(RegisterIndex::R7), 107);
    assert_eq!(registers.read(RegisterIndex::R8), 108);
    assert_eq!(registers.read(RegisterIndex::Spsr), 117);
    registers.set_mode(Mode::User);
    assert_eq!(registers.read(RegisterIndex::R7), 107);
    assert_eq!(registers.read(RegisterIndex::R8), 0);
}

#[test]
fn registers_from_processor_with_invalid_mode_bits_are_none() {
    let mut cpu = armv4t_emu::Cpu::new();
    // register 17 of the user bank is the status word itself, written without a mode check
    cpu.reg_set(armv4t_emu::Mode::User, 17, 0);
    assert!(Registers::from_extern(&cpu).is_none());
}

#[test]
fn registers_from_status_and_values_decode_the_mode() {
    let mut values = [0u32; 18];
    values[13] = 0x0300_7fe0;
    values[16] = 0xd3;
    let registers = Registers::from_status_and_values(0xd3, values).unwrap();
    assert!(registers.cpsr().mode() == Mode::Supervisor);
    assert_eq!(registers.read(RegisterIndex::Sp), 0x0300_7fe0);
    assert!(Registers::from_status_and_values(0x00, values).is_none());
    assert!(Registers::from_status_and_values(0x1e, values).is_none());
}

#[test]
fn register_list_of_registers_walks_each_named_register_once_in_order() {
    let list = gbaemu_core::registers::RegisterList::from_registers(&vec![
        RegisterIndex::R3,
        RegisterIndex::R1,
        RegisterIndex::R3,
        RegisterIndex::Lr,
    ]);
    assert!(list.contains(RegisterIndex::R1));
    assert!(list.contains(RegisterIndex::Lr));
    assert!(!list.contains(RegisterIndex::R2));
    let mut it = list.into_iter();
    let mut walked = Vec::new();
    while let Some(r) = it.next() {
        walked.push(r);
    }
    assert!(walked == vec![RegisterIndex::R1, RegisterIndex::R3, RegisterIndex::Lr]);
    assert_eq!(list.len(), 3);
}
