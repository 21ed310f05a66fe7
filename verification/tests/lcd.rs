use gbaemu_core::bits::BitModifications;
use gbaemu_core::gba::Gba;
use gbaemu_core::io_registers::lcd::{vert_lines, Lcd, PixelFormat};
use gbaemu_core::memory::Cartridge;

#[test]
fn rotating_iter() {
    let values: Vec<u16> = vert_lines(150, 10);
    assert_eq!(
        values,
        &[
            150, 151, 152, 153, 154, 155, 156, 157, 158, 159, 0, 1, 2, 3, 4, 5, 6, 7, 8, 9
        ]
    );
}

#[test]
fn lines_without_wrapping() {
    assert_eq!(vert_lines(3, 6), vec![3, 4, 5]);
    assert_eq!(vert_lines(5, 5), Vec::<u16>::new());
}

#[test]
fn tiles_of_video_memory() {
    let mut gba = Gba::new(Cartridge::new(Vec::new()), &[]);
    gba.memory.write_byte_to(0x600_0000, 0xab);
    gba.memory.write_byte_to(0x600_0021, 0x5c);

    let tiles = gba.load_tiles(PixelFormat::Bpp4);
    assert_eq!(tiles.len(), 0x1_8000 / 32);
    assert!(tiles.iter().all(|t| t.len() == 64));
    // Both entries of a byte are its low nibble.
    assert_eq!(&tiles[0][0..4], &[0xb, 0xb, 0, 0]);
    assert_eq!(&tiles[1][0..4], &[0, 0, 0xc, 0xc]);

    let tiles = gba.load_tiles(PixelFormat::Bpp8);
    assert_eq!(tiles.len(), 0x1_8000 / 64);
    assert_eq!(tiles[0][0], 0xab);
    assert_eq!(tiles[0][0x21], 0x5c);
    assert_eq!(tiles[1], vec![0; 64]);
}

#[test]
fn single_bits_of_words() {
    assert!(0x40u16.bit(6));
    assert!(!0x40u16.bit(5));
    assert!(0x8000_0000u32.bit(31));
    assert!(!0x7fff_ffffu32.bit(31));
}

#[test]
fn lcd_swap_buffers_copies_the_lines_drawn_since_the_last_fetch() {
    let mut lcd = Lcd::new();
    let mut rendered = [0u32; 38400];
    for (i, p) in rendered.iter_mut().enumerate() {
        *p = i as u32 + 1;
    }
    let mut buffer = [0u32; 38400];
    lcd.memory_interface.vertical_count = 10;
    lcd.last_rendered_line = 10;
    lcd.swap_buffers(&rendered, &mut buffer);
    assert_eq!(lcd.last_fetched_line, 10);
    assert_eq!(buffer[0], 1);
    assert_eq!(buffer[2399], 2400);
    assert_eq!(buffer[2400], 0);
    // the counter went round: the bottom of the screen and the top are taken
    let mut buffer = [0u32; 38400];
    lcd.memory_interface.vertical_count = 5;
    lcd.swap_buffers(&rendered, &mut buffer);
    assert_eq!(lcd.last_fetched_line, 5);
    assert_eq!(buffer[1199], 1200);
    assert_eq!(buffer[1200], 0);
    assert_eq!(buffer[2399], 0);
    assert_eq!(buffer[2400], 2401);
    assert_eq!(buffer[38399], 38400);
}
