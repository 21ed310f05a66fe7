use gbaemu_core::io_registers::lcd::Lcd;
use gbaemu_core::io_registers::GbaIo;
use gbaemu_core::memory::{Cartridge, Memory};

fn memory() -> Memory {
    Memory::new(&[0x12, 0x34], Cartridge::new(vec![1, 2, 3, 4]), GbaIo::new(Lcd::new()))
}

#[test]
fn word_written_to_work_ram_reads_back() {
    let mut memory = memory();
    memory.write_word_to(0x0200_0010, 0xdead_beef);
    assert_eq!(memory.read_word_silent(0x0200_0010), 0xdead_beef);
    assert_eq!(memory.read_byte_at_silent(0x0200_0010), 0xef);
    assert_eq!(memory.read_byte_at_silent(0x0200_0013), 0xde);
    // work RAM is mirrored every 256 KiB
    assert_eq!(memory.read_word_silent(0x0204_0010), 0xdead_beef);
}

#[test]
fn half_word_written_to_video_ram_reads_back() {
    let mut memory = memory();
    memory.write_half_word_to(0x0600_0100, 0x7fff);
    assert_eq!(memory.read_half_word_at_silent(0x0600_0100), 0x7fff);
    memory.write_byte_to(0x0500_0002, 0xab);
    assert_eq!(memory.read_byte_at_silent(0x0500_0002), 0xab);
}

#[test]
fn writes_to_the_bios_are_dropped() {
    let mut memory = memory();
    memory.write_byte_to(0x0000_0000, 0xff);
    assert_eq!(memory.read_byte_at_silent(0x0000_0000), 0x12);
    assert_eq!(memory.read_byte_at_silent(0x0000_0001), 0x34);
}

#[test]
fn reads_are_logged() {
    let mut memory = memory();
    let before = memory.memory_watcher.reads.len();
    assert_eq!(memory.read_word(0x0800_0000), 0x0403_0201);
    assert_eq!(memory.memory_watcher.reads.len(), before + 4);
}

#[test]
fn word_written_to_ram_reads_back_and_is_logged() {
    let mut memory = memory();
    let (_, _) = memory.take_watched_accesses();
    memory.write_byte_to(0x0200_0104, 0x77);
    let (_, _) = memory.take_watched_accesses();
    memory.write_word_to(0x0200_0100, 0x1234_5678);
    assert_eq!(memory.read_word_silent(0x0200_0100), 0x1234_5678);
    // the neighbouring byte is kept
    assert_eq!(memory.read_byte_at_silent(0x0200_0104), 0x77);
    assert_eq!(memory.memory_watcher.reads.len(), 0);
    let writes: Vec<(u32, u8, u8)> = memory.memory_watcher.writes.iter().copied().collect();
    assert_eq!(
        writes,
        vec![
            (0x0200_0100, 0, 0x78),
            (0x0200_0101, 0, 0x56),
            (0x0200_0102, 0, 0x34),
            (0x0200_0103, 0, 0x12),
        ]
    );
}

#[test]
fn word_read_is_logged_byte_by_byte() {
    let mut memory = memory();
    memory.write_word_to(0x0200_0200, 0xa1b2_c3d4);
    let (_, _) = memory.take_watched_accesses();
    assert_eq!(memory.read_word(0x0200_0200), 0xa1b2_c3d4);
    let reads: Vec<(u32, u8)> = memory.memory_watcher.reads.iter().copied().collect();
    assert_eq!(
        reads,
        vec![(0x0200_0200, 0xd4), (0x0200_0201, 0xc3), (0x0200_0202, 0xb2), (0x0200_0203, 0xa1)]
    );
    assert_eq!(memory.memory_watcher.writes.len(), 0);
}

#[test]
fn io_devices_answer_for_the_io_area_only() {
    use_io_devices();
}

fn use_io_devices() {
    let io = GbaIo::new(Lcd::new());
    let device = |a: usize| io.find_for_address(a);
    assert_eq!(device(0x0400_0000), Some(gbaemu_core::io_registers::IoDevice::Lcd));
    assert_eq!(device(0x0400_0060), Some(gbaemu_core::io_registers::IoDevice::Sound));
    assert_eq!(device(0x0400_00b0), Some(gbaemu_core::io_registers::IoDevice::Dma));
    assert_eq!(device(0x0400_0100), Some(gbaemu_core::io_registers::IoDevice::Timer));
    assert_eq!(device(0x0400_0120), Some(gbaemu_core::io_registers::IoDevice::SerialCom));
    assert_eq!(device(0x0400_0130), Some(gbaemu_core::io_registers::IoDevice::Keypad));
    assert_eq!(device(0x0400_0134), Some(gbaemu_core::io_registers::IoDevice::SerialCom));
    assert_eq!(device(0x0400_0200), Some(gbaemu_core::io_registers::IoDevice::Interrupt));
    assert_eq!(device(0x0470_0000), Some(gbaemu_core::io_registers::IoDevice::Interrupt));
    assert_eq!(device(0x0470_0001), None);
    assert_eq!(device(0x03ff_ffff), None);
}
