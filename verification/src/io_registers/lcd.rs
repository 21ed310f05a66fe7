//! The LCD controller's registers and the values packed into them.
use vstd::prelude::*;
use vstd::array::*;

use crate::interrupts::Interrupt;
use crate::io_registers::{
    half_with_byte,
    read_byte_from_half_word,
    word_with_byte,
    write_byte_to_half_word,
    write_byte_to_word,
};
use crate::memory::{byte16, MemoryPlugin, SimpleMemory};

pub mod obj;

verus! {

broadcast use vstd::array::group_array_axioms;

/// The scan lines from `from` up to `to` on a screen of `limit` lines,
/// wrapping past the last line to line 0 when `from` is above `to`.
pub open spec fn line_range(from: u16, to: u16, limit: u16) -> Seq<u16> {
    if from > to {
        Seq::new((limit - from) as nat, |i: int| (from + i) as u16) + Seq::new(
            to as nat,
            |i: int| i as u16,
        )
    } else {
        Seq::new((to - from) as nat, |i: int| (from + i) as u16)
    }
}

/// The scan lines from `from` up to `to` of the 160-line screen.
pub fn vert_lines(from: u16, to: u16) -> (r: Vec<u16>)
    requires
        from <= 160,
    ensures
        r@ == line_range(from, to, 160),
{
    let mut result: Vec<u16> = Vec::new();
    if from > to {
        let mut line = from;
        while line < 160
            invariant
                from <= line <= 160,
                result@ == Seq::new((line - from) as nat, |i: int| (from + i) as u16),
            decreases 160 - line,
        {
            result.push(line);
            line = line + 1;
        }
        let ghost first = result@;
        let mut line: u16 = 0;
        while line < to
            invariant
                line <= to,
                result@ == first + Seq::new(line as nat, |i: int| i as u16),
            decreases to - line,
        {
            result.push(line);
            line = line + 1;
        }
    } else {
        let mut line = from;
        while line < to
            invariant
                from <= line <= to,
                result@ == Seq::new((line - from) as nat, |i: int| (from + i) as u16),
            decreases to - line,
        {
            result.push(line);
            line = line + 1;
        }
    }
    result
}

/// The six display modes of DISPCNT.
#[derive(Debug, Clone, Copy, PartialEq, Eq, Structural)]
pub enum DisplayMode {
    DisplayMode0,
    DisplayMode1,
    DisplayMode2,
    DisplayMode3,
    DisplayMode4,
    DisplayMode5,
}

impl DisplayMode {
    pub open spec fn spec_from_repr(value: u16) -> Option<DisplayMode> {
        if value == 0 {
            Some(DisplayMode::DisplayMode0)
        } else if value == 1 {
            Some(DisplayMode::DisplayMode1)
        } else if value == 2 {
            Some(DisplayMode::DisplayMode2)
        } else if value == 3 {
            Some(DisplayMode::DisplayMode3)
        } else if value == 4 {
            Some(DisplayMode::DisplayMode4)
        } else if value == 5 {
            Some(DisplayMode::DisplayMode5)
        } else {
            None
        }
    }

    /// The mode with the given number; none above 5.
    pub fn from_repr(value: u16) -> (r: Option<DisplayMode>)
        ensures
            r == Self::spec_from_repr(value),
    {
        if value == 0 {
            Some(DisplayMode::DisplayMode0)
        } else if value == 1 {
            Some(DisplayMode::DisplayMode1)
        } else if value == 2 {
            Some(DisplayMode::DisplayMode2)
        } else if value == 3 {
            Some(DisplayMode::DisplayMode3)
        } else if value == 4 {
            Some(DisplayMode::DisplayMode4)
        } else if value == 5 {
            Some(DisplayMode::DisplayMode5)
        } else {
            None
        }
    }
}

/// How many bits a pixel index of a tile takes.
#[derive(Debug, Clone, Copy, PartialEq, Eq, Structural)]
pub enum PixelFormat {
    Bpp4,
    Bpp8,
}

/// A background control register (BGxCNT).
#[derive(Debug, Clone, Copy, PartialEq, Eq, Structural)]
pub struct BackgroundControl(pub u16);

impl BackgroundControl {
    pub fn priority(&self) -> (r: u16)
        ensures
            r == self.0 & 0x3,
    {
        self.0 & 0x3
    }

    /// The byte offset in VRAM of the tiles (bits 2-3, in 16K units).
    pub fn char_block(&self) -> (r: u32)
        ensures
            r == (((self.0 & 0xc) >> 2u16) as u32) * 0x4000,
    {
        let v = self.0;
        assert((v & 0xc) >> 2u16 <= 3) by (bit_vector);
        (((self.0 & 0xc) >> 2u16) as u32) * 0x4000
    }

    /// The byte offset in VRAM of the tile map (bits 8-12, in 2K units).
    pub fn screen_block(&self) -> (r: u32)
        ensures
            r == (((self.0 & 0x1f00) >> 8u16) as u32) * 0x800,
    {
        let v = self.0;
        assert((v & 0x1f00) >> 8u16 <= 31) by (bit_vector);
        (((self.0 & 0x1f00) >> 8u16) as u32) * 0x800
    }

    /// Width and height in pixels of a text background (bits 14-15).
    pub fn size_regular(&self) -> (r: (u32, u32))
        ensures
            r == match (self.0 & 0xc000) >> 14u16 {
                0 => (256u32, 256u32),
                1 => (512u32, 256u32),
                2 => (256u32, 512u32),
                _ => (512u32, 512u32),
            },
    {
        let bits = (self.0 & 0xc000) >> 14u16;
        if bits == 0 {
            (256, 256)
        } else if bits == 1 {
            (512, 256)
        } else if bits == 2 {
            (256, 512)
        } else {
            (512, 512)
        }
    }

    /// The byte size of a tile and the pixel format (bit 7: 256 colours).
    pub fn tile_format(&self) -> (r: (u32, PixelFormat))
        ensures
            r == if self.0 & 0x80 != 0 {
                (64u32, PixelFormat::Bpp8)
            } else {
                (32u32, PixelFormat::Bpp4)
            },
    {
        if self.0 & 0x80 > 0 {
            (2 * 32, PixelFormat::Bpp8)
        } else {
            (32, PixelFormat::Bpp4)
        }
    }
}

/// An entry of a text background's tile map.
#[derive(Debug, Clone, Copy, PartialEq, Eq, Structural)]
pub struct TileMapEntry(pub u16);

impl TileMapEntry {
    pub fn tile_index(&self) -> (r: u16)
        ensures
            r == self.0 & 0x03ff,
    {
        self.0 & 0x03ff
    }

    pub fn x_flip(&self) -> (r: bool)
        ensures
            r == (self.0 & 0x0400 != 0),
    {
        (self.0 & 0x0400) > 0
    }

    pub fn y_flip(&self) -> (r: bool)
        ensures
            r == (self.0 & 0x0800 != 0),
    {
        (self.0 & 0x0800) > 0
    }

    /// The 16-colour palette bank (bits 12-15); 0 in 256-colour mode.
    pub fn palette_bank(&self, pixel_format: PixelFormat) -> (r: u16)
        ensures
            r == match pixel_format {
                PixelFormat::Bpp4 => (self.0 & 0xf000) >> 12u16,
                PixelFormat::Bpp8 => 0u16,
            },
    {
        match pixel_format {
            PixelFormat::Bpp4 => (self.0 & 0xf000) >> 12u16,
            PixelFormat::Bpp8 => 0,
        }
    }
}

/// The LCD registers at 4000000h..4000060h.
#[derive(Debug, Clone, Copy)]
pub struct LcdMemoryInterface {
    pub display_control: u16,
    pub green_swap: u16,
    pub display_stat: u16,
    pub vertical_count: u16,
    pub background_control: [BackgroundControl; 4],
    pub background_x_offset: [u16; 4],
    pub background_y_offset: [u16; 4],
    pub background_2_rotation_scaling: [u16; 4],
    pub background_2_reference_point: [u32; 2],
    pub background_3_rotation_scaling: [u16; 4],
    pub background_3_reference_point: [u32; 2],
    pub window_horizontal_dimensions: [u16; 2],
    pub window_vertical_dimensions: [u16; 2],
    pub inside_window_0_and_1: u16,
    pub inside_window_obj_and_outside_windows: u16,
    pub mosaic_size: u16,
    pub color_special_effects: u16,
    pub alpha_blending: u16,
    pub brightness_coefficient: u16,
    pub has_render_changes: bool,
}

/// Whether the two interfaces hold the same registers.
pub open spec fn same_lcd(a: LcdMemoryInterface, b: LcdMemoryInterface) -> bool {
    &&& a.display_control == b.display_control
    &&& a.green_swap == b.green_swap
    &&& a.display_stat == b.display_stat
    &&& a.vertical_count == b.vertical_count
    &&& a.background_control@ == b.background_control@
    &&& a.background_x_offset@ == b.background_x_offset@
    &&& a.background_y_offset@ == b.background_y_offset@
    &&& a.background_2_rotation_scaling@ == b.background_2_rotation_scaling@
    &&& a.background_2_reference_point@ == b.background_2_reference_point@
    &&& a.background_3_rotation_scaling@ == b.background_3_rotation_scaling@
    &&& a.background_3_reference_point@ == b.background_3_reference_point@
    &&& a.window_horizontal_dimensions@ == b.window_horizontal_dimensions@
    &&& a.window_vertical_dimensions@ == b.window_vertical_dimensions@
    &&& a.inside_window_0_and_1 == b.inside_window_0_and_1
    &&& a.inside_window_obj_and_outside_windows == b.inside_window_obj_and_outside_windows
    &&& a.mosaic_size == b.mosaic_size
    &&& a.color_special_effects == b.color_special_effects
    &&& a.alpha_blending == b.alpha_blending
    &&& a.brightness_coefficient == b.brightness_coefficient
    &&& a.has_render_changes == b.has_render_changes
}

/// An array of half words with byte `byte_index` of entry `index` replaced.
pub open spec fn halves_with_byte<const N: usize>(
    a: [u16; N],
    index: int,
    byte_index: nat,
    byte: u8,
) -> [u16; N] {
    spec_array_update(a, index, half_with_byte(a@[index], byte_index, byte))
}

/// An array of words with byte `byte_index` of entry `index` replaced.
pub open spec fn words_with_byte<const N: usize>(
    a: [u32; N],
    index: int,
    byte_index: nat,
    byte: u8,
) -> [u32; N] {
    spec_array_update(a, index, word_with_byte(a@[index], byte_index, byte))
}

/// Replaces a byte of one of four rotation/scaling parameters.
pub fn write_rotation_scaling(
    background_rotation_scaling: &mut [u16; 4],
    relative_address: usize,
    byte: u8,
)
    requires
        relative_address < 8,
    ensures
        final(background_rotation_scaling)@ == halves_with_byte(
            *old(background_rotation_scaling),
            (relative_address / 2) as int,
            (relative_address % 2) as nat,
            byte,
        )@,
{
    let byte_index = relative_address % 2;
    let index = relative_address >> 1usize;
    assert(relative_address >> 1usize == relative_address / 2) by (bit_vector);
    let mut value = background_rotation_scaling[index];
    write_byte_to_half_word(&mut value, byte_index, byte);
    background_rotation_scaling[index] = value;
}

fn write_half_in<const N: usize>(a: &mut [u16; N], index: usize, byte_index: usize, byte: u8)
    requires
        index < N,
        byte_index < 2,
    ensures
        final(a)@ == halves_with_byte(*old(a), index as int, byte_index as nat, byte)@,
{
    let mut value = a[index];
    write_byte_to_half_word(&mut value, byte_index, byte);
    a[index] = value;
}

fn write_word_in<const N: usize>(a: &mut [u32; N], index: usize, byte_index: usize, byte: u8)
    requires
        index < N,
        byte_index < 4,
    ensures
        final(a)@ == words_with_byte(*old(a), index as int, byte_index as nat, byte)@,
{
    let mut value = a[index];
    write_byte_to_word(&mut value, byte_index, byte);
    a[index] = value;
}

impl LcdMemoryInterface {
    pub fn new() -> (r: LcdMemoryInterface)
        ensures
            r.display_control == 0 && r.vertical_count == 0 && !r.has_render_changes,
            forall|i: int| 0 <= i < 4 ==> (#[trigger] r.background_control@[i]).0 == 0,
    {
        LcdMemoryInterface {
            display_control: 0,
            green_swap: 0,
            display_stat: 0,
            vertical_count: 0,
            background_control: [
                BackgroundControl(0),
                BackgroundControl(0),
                BackgroundControl(0),
                BackgroundControl(0),
            ],
            background_x_offset: [0u16; 4],
            background_y_offset: [0u16; 4],
            background_2_rotation_scaling: [0u16; 4],
            background_2_reference_point: [0u32; 2],
            background_3_rotation_scaling: [0u16; 4],
            background_3_reference_point: [0u32; 2],
            window_horizontal_dimensions: [0u16; 2],
            window_vertical_dimensions: [0u16; 2],
            inside_window_0_and_1: 0,
            inside_window_obj_and_outside_windows: 0,
            mosaic_size: 0,
            color_special_effects: 0,
            alpha_blending: 0,
            brightness_coefficient: 0,
            has_render_changes: false,
        }
    }

    /// The scroll registers after writing `byte` at offset `rel` (below
    /// 0x10) of the BGxHOFS/BGxVOFS block; a redraw is then due.
    pub open spec fn spec_write_background_offset(self, rel: int, byte: u8) -> LcdMemoryInterface {
        let byte_index = rel % 4;
        let background = rel / 4;
        if byte_index < 2 {
            LcdMemoryInterface {
                background_x_offset: halves_with_byte(
                    self.background_x_offset,
                    background,
                    byte_index as nat,
                    byte,
                ),
                has_render_changes: true,
                ..self
            }
        } else {
            LcdMemoryInterface {
                background_y_offset: halves_with_byte(
                    self.background_y_offset,
                    background,
                    (byte_index - 2) as nat,
                    byte,
                ),
                has_render_changes: true,
                ..self
            }
        }
    }

    pub fn write_background_offset(&mut self, relative_address: usize, byte: u8)
        requires
            relative_address < 0x10,
        ensures
            same_lcd(
                *final(self),
                old(self).spec_write_background_offset(relative_address as int, byte),
            ),
    {
        self.has_render_changes = true;
        let byte_index = relative_address % 4;
        let background_index = relative_address / 4;
        if byte_index < 2 {
            write_half_in(&mut self.background_x_offset, background_index, byte_index, byte);
        } else {
            write_half_in(&mut self.background_y_offset, background_index, byte_index - 2, byte);
        }
    }

    /// The registers after writing `byte` to `address`; VCOUNT and the
    /// unused bytes ignore writes.
    pub open spec fn spec_write(self, address: usize, byte: u8) -> LcdMemoryInterface {
        let rel = address - 0x400_0000;
        if rel < 0x2 {
            LcdMemoryInterface { display_control: half_with_byte(self.display_control, rel as nat, byte), ..self }
        } else if rel < 0x4 {
            LcdMemoryInterface { green_swap: half_with_byte(self.green_swap, (rel - 2) as nat, byte), ..self }
        } else if rel < 0x6 {
            LcdMemoryInterface { display_stat: half_with_byte(self.display_stat, (rel - 4) as nat, byte), ..self }
        } else if rel < 0x8 {
            self
        } else if rel < 0x10 {
            let i = (rel - 8) / 2;
            LcdMemoryInterface {
                background_control: spec_array_update(
                    self.background_control,
                    i,
                    BackgroundControl(
                        half_with_byte(self.background_control@[i].0, ((rel - 8) % 2) as nat, byte),
                    ),
                ),
                ..self
            }
        } else if rel < 0x20 {
            self.spec_write_background_offset(rel - 0x10, byte)
        } else if rel < 0x28 {
            LcdMemoryInterface {
                background_2_rotation_scaling: halves_with_byte(
                    self.background_2_rotation_scaling,
                    (rel - 0x20) / 2,
                    ((rel - 0x20) % 2) as nat,
                    byte,
                ),
                ..self
            }
        } else if rel < 0x30 {
            LcdMemoryInterface {
                background_2_reference_point: words_with_byte(
                    self.background_2_reference_point,
                    (rel - 0x28) / 4,
                    ((rel - 0x28) % 4) as nat,
                    byte,
                ),
                ..self
            }
        } else if rel < 0x38 {
            LcdMemoryInterface {
                background_3_rotation_scaling: halves_with_byte(
                    self.background_3_rotation_scaling,
                    (rel - 0x30) / 2,
                    ((rel - 0x30) % 2) as nat,
                    byte,
                ),
                ..self
            }
        } else if rel < 0x40 {
            LcdMemoryInterface {
                background_3_reference_point: words_with_byte(
                    self.background_3_reference_point,
                    (rel - 0x38) / 4,
                    ((rel - 0x38) % 4) as nat,
                    byte,
                ),
                ..self
            }
        } else if rel < 0x44 {
            LcdMemoryInterface {
                window_horizontal_dimensions: halves_with_byte(
                    self.window_horizontal_dimensions,
                    (rel - 0x40) / 2,
                    ((rel - 0x40) % 2) as nat,
                    byte,
                ),
                ..self
            }
        } else if rel < 0x48 {
            LcdMemoryInterface {
                window_vertical_dimensions: halves_with_byte(
                    self.window_vertical_dimensions,
                    (rel - 0x44) / 2,
                    ((rel - 0x44) % 2) as nat,
                    byte,
                ),
                ..self
            }
        } else if rel < 0x4a {
            LcdMemoryInterface {
                inside_window_0_and_1: half_with_byte(self.inside_window_0_and_1, (rel - 0x48) as nat, byte),
                ..self
            }
        } else if rel < 0x4c {
            LcdMemoryInterface {
                inside_window_obj_and_outside_windows: half_with_byte(
                    self.inside_window_obj_and_outside_windows,
                    (rel - 0x4a) as nat,
                    byte,
                ),
                ..self
            }
        } else if rel < 0x4e {
            LcdMemoryInterface { mosaic_size: half_with_byte(self.mosaic_size, (rel - 0x4c) as nat, byte), ..self }
        } else if rel < 0x50 {
            self
        } else if rel < 0x52 {
            LcdMemoryInterface {
                color_special_effects: half_with_byte(self.color_special_effects, (rel - 0x50) as nat, byte),
                ..self
            }
        } else if rel < 0x54 {
            LcdMemoryInterface { alpha_blending: half_with_byte(self.alpha_blending, (rel - 0x52) as nat, byte), ..self }
        } else if rel < 0x56 {
            LcdMemoryInterface {
                brightness_coefficient: half_with_byte(self.brightness_coefficient, (rel - 0x54) as nat, byte),
                ..self
            }
        } else {
            self
        }
    }
}

impl MemoryPlugin for LcdMemoryInterface {
    open spec fn claims(&self, address: usize) -> bool {
        0x400_0000 <= address < 0x400_0060
    }

    open spec fn readable(&self, address: usize) -> bool {
        self.claims(address)
    }

    /// The readable registers; the write-only ones and the unused bytes
    /// read as zero.
    open spec fn byte_at(&self, address: usize) -> u8 {
        let rel = address - 0x400_0000;
        if rel < 0x2 {
            byte16(self.display_control, rel as nat)
        } else if rel < 0x4 {
            byte16(self.green_swap, (rel - 2) as nat)
        } else if rel < 0x6 {
            byte16(self.display_stat, (rel - 4) as nat)
        } else if rel < 0x8 {
            byte16(self.vertical_count, (rel - 6) as nat)
        } else if rel < 0x10 {
            byte16(self.background_control@[(rel - 8) / 2].0, ((rel - 8) % 2) as nat)
        } else if 0x48 <= rel < 0x4a {
            byte16(self.inside_window_0_and_1, (rel - 0x48) as nat)
        } else if 0x4a <= rel < 0x4c {
            byte16(self.inside_window_obj_and_outside_windows, (rel - 0x4a) as nat)
        } else if 0x50 <= rel < 0x52 {
            byte16(self.color_special_effects, (rel - 0x50) as nat)
        } else if 0x52 <= rel < 0x54 {
            byte16(self.alpha_blending, (rel - 0x52) as nat)
        } else {
            0
        }
    }

    open spec fn writable(&self, address: usize, byte: u8) -> bool {
        self.claims(address)
    }

    open spec fn wrote(&self, before: LcdMemoryInterface, address: usize, byte: u8) -> bool {
        same_lcd(*self, before.spec_write(address, byte))
    }

    open spec fn was_reset(&self, before: LcdMemoryInterface) -> bool {
        same_lcd(*self, before)
    }

    fn claims_address(&self, address: usize) -> (r: bool) {
        0x400_0000 <= address && address < 0x400_0060
    }

    fn reset(&mut self) {
    }

    fn read_byte(&self, address: usize) -> (r: u8) {
        let rel = address - 0x400_0000;
        if rel < 0x2 {
            read_byte_from_half_word(self.display_control, rel)
        } else if rel < 0x4 {
            read_byte_from_half_word(self.green_swap, rel - 2)
        } else if rel < 0x6 {
            read_byte_from_half_word(self.display_stat, rel - 4)
        } else if rel < 0x8 {
            read_byte_from_half_word(self.vertical_count, rel - 6)
        } else if rel < 0x10 {
            read_byte_from_half_word(self.background_control[(rel - 8) / 2].0, (rel - 8) % 2)
        } else if 0x48 <= rel && rel < 0x4a {
            read_byte_from_half_word(self.inside_window_0_and_1, rel - 0x48)
        } else if 0x4a <= rel && rel < 0x4c {
            read_byte_from_half_word(self.inside_window_obj_and_outside_windows, rel - 0x4a)
        } else if 0x50 <= rel && rel < 0x52 {
            read_byte_from_half_word(self.color_special_effects, rel - 0x50)
        } else if 0x52 <= rel && rel < 0x54 {
            read_byte_from_half_word(self.alpha_blending, rel - 0x52)
        } else {
            0
        }
    }

    fn write_byte(&mut self, address: usize, byte: u8) {
        let rel = address - 0x400_0000;
        if rel < 0x2 {
            write_byte_to_half_word(&mut self.display_control, rel, byte);
        } else if rel < 0x4 {
            write_byte_to_half_word(&mut self.green_swap, rel - 2, byte);
        } else if rel < 0x6 {
            write_byte_to_half_word(&mut self.display_stat, rel - 4, byte);
        } else if rel < 0x8 {
        } else if rel < 0x10 {
            let i = (rel - 8) / 2;
            let mut value = self.background_control[i].0;
            write_byte_to_half_word(&mut value, (rel - 8) % 2, byte);
            self.background_control[i] = BackgroundControl(value);
        } else if rel < 0x20 {
            self.write_background_offset(rel - 0x10, byte);
        } else if rel < 0x28 {
            write_rotation_scaling(&mut self.background_2_rotation_scaling, rel - 0x20, byte);
        } else if rel < 0x30 {
            write_word_in(&mut self.background_2_reference_point, (rel - 0x28) / 4, (rel - 0x28) % 4, byte);
        } else if rel < 0x38 {
            write_rotation_scaling(&mut self.background_3_rotation_scaling, rel - 0x30, byte);
        } else if rel < 0x40 {
            write_word_in(&mut self.background_3_reference_point, (rel - 0x38) / 4, (rel - 0x38) % 4, byte);
        } else if rel < 0x44 {
            write_half_in(&mut self.window_horizontal_dimensions, (rel - 0x40) / 2, (rel - 0x40) % 2, byte);
        } else if rel < 0x48 {
            write_half_in(&mut self.window_vertical_dimensions, (rel - 0x44) / 2, (rel - 0x44) % 2, byte);
        } else if rel < 0x4a {
            write_byte_to_half_word(&mut self.inside_window_0_and_1, rel - 0x48, byte);
        } else if rel < 0x4c {
            write_byte_to_half_word(&mut self.inside_window_obj_and_outside_windows, rel - 0x4a, byte);
        } else if rel < 0x4e {
            write_byte_to_half_word(&mut self.mosaic_size, rel - 0x4c, byte);
        } else if rel < 0x50 {
        } else if rel < 0x52 {
            write_byte_to_half_word(&mut self.color_special_effects, rel - 0x50, byte);
        } else if rel < 0x54 {
            write_byte_to_half_word(&mut self.alpha_blending, rel - 0x52, byte);
        } else if rel < 0x56 {
            write_byte_to_half_word(&mut self.brightness_coefficient, rel - 0x54, byte);
        }
    }
}

/// The palette index of pixel (`x`, `y`) of the tile at byte offset
/// `address` in VRAM: a nibble in 16-colour mode (the high one for odd
/// `x`), a byte in 256-colour mode.
pub open spec fn pixel_index(vram: SimpleMemory, format: PixelFormat, address: u32, x: u32, y: u32) -> u8 {
    match format {
        PixelFormat::Bpp4 => {
            let byte = vram.byte_at((address + 4 * y + x / 2 + 0x600_0000) as usize);
            if x & 1 != 0 {
                byte >> 4u8
            } else {
                byte & 0xf
            }
        },
        PixelFormat::Bpp8 => vram.byte_at((address + 0x600_0000 + 8 * y + x) as usize),
    }
}

pub fn read_pixel_index(vram: &SimpleMemory, format: PixelFormat, address: u32, x: u32, y: u32) -> (r: u8)
    requires
        x < 8 && y < 8,
        address <= 0x18000,
        vram.readable((address + 4 * y + x / 2 + 0x600_0000) as usize),
        format == PixelFormat::Bpp8 ==> vram.readable((address + 0x600_0000 + 8 * y + x) as usize),
    ensures
        r == pixel_index(*vram, format, address, x, y),
{
    match format {
        PixelFormat::Bpp4 => {
            let offset = address + (4 * y + (x / 2));
            let byte = vram.read_byte(offset as usize + 0x600_0000);
            if x & 1 != 0 {
                byte >> 4u8
            } else {
                byte & 0xf
            }
        },
        PixelFormat::Bpp8 => {
            let offset = address as usize + 0x600_0000;
            vram.read_byte(offset + (8 * (y as usize) + (x as usize)))
        },
    }
}

/// The bytes of a tile: 32 for four bits per pixel, 64 for eight.
pub open spec fn tile_bytes(format: PixelFormat) -> nat {
    match format {
        PixelFormat::Bpp4 => 32,
        PixelFormat::Bpp8 => 64,
    }
}

/// The pixel entries of tile `t` in `bytes`. With four bits per pixel each
/// byte yields two entries; both are its low four bits, since the mask of
/// the high nibble (`0xf0 >> 4`) is the low nibble.
pub open spec fn tile_pixels(bytes: Seq<u8>, format: PixelFormat, t: int) -> Seq<u8> {
    match format {
        PixelFormat::Bpp4 => Seq::new(64, |k: int| bytes[t * 32 + k / 2] & 0xf),
        PixelFormat::Bpp8 => bytes.subrange(t * 64, t * 64 + 64),
    }
}

/// The pixels of one tile starting at byte `base` of `bytes`.
fn tile_at(bytes: &[u8], format: PixelFormat, base: usize) -> (r: Vec<u8>)
    requires
        base + tile_bytes(format) <= bytes@.len(),
    ensures
        r@ == (match format {
            PixelFormat::Bpp4 => Seq::new(64, |k: int| bytes@[base + k / 2] & 0xf),
            PixelFormat::Bpp8 => bytes@.subrange(base as int, base + 64),
        }),
{
    let length = bytes.len();
    let mut tile: Vec<u8> = Vec::new();
    match format {
        PixelFormat::Bpp4 => {
            let mut i: usize = 0;
            while i < 32
                invariant
                    i <= 32,
                    base + 32 <= bytes@.len(),
                    bytes@.len() == length,
                    tile@.len() == 2 * i,
                    forall|k: int| 0 <= k < 2 * i ==> #[trigger] tile@[k] == bytes@[base + k / 2] & 0xf,
                decreases 32 - i,
            {
                let b = bytes[base + i];
                tile.push(b & 0xf);
                tile.push(b & 0xf);
                i = i + 1;
            }
            assert(tile@ =~= Seq::new(64, |k: int| bytes@[base + k / 2] & 0xf));
        },
        PixelFormat::Bpp8 => {
            let mut i: usize = 0;
            while i < 64
                invariant
                    i <= 64,
                    base + 64 <= bytes@.len(),
                    bytes@.len() == length,
                    tile@ =~= bytes@.subrange(base as int, base + i),
                decreases 64 - i,
            {
                tile.push(bytes[base + i]);
                i = i + 1;
            }
        },
    }
    tile
}

/// The tiles of video memory in `format`, in order; trailing bytes that
/// do not fill a tile are left out.
pub fn load_tiles(vram: &SimpleMemory, format: PixelFormat) -> (r: Vec<Vec<u8>>)
    ensures
        r@.len() == vram.bytes().len() / tile_bytes(format),
        forall|t: int| 0 <= t < r@.len() ==> #[trigger] r@[t]@ == tile_pixels(vram.bytes(), format, t),
{
    let bytes = vram.as_bytes();
    let size: usize = match format {
        PixelFormat::Bpp4 => 32,
        PixelFormat::Bpp8 => 64,
    };
    let count = bytes.len() / size;
    let mut tiles: Vec<Vec<u8>> = Vec::new();
    let mut t: usize = 0;
    let mut base: usize = 0;
    while t < count
        invariant
            size == tile_bytes(format),
            count == bytes@.len() / (size as nat),
            bytes@ == vram.bytes(),
            bytes@.len() <= usize::MAX,
            t <= count,
            base == t * size,
            tiles@.len() == t,
            forall|u: int| 0 <= u < t ==> #[trigger] tiles@[u]@ == tile_pixels(bytes@, format, u),
        decreases count - t,
    {
        assert(base + size <= bytes@.len()) by (nonlinear_arith)
            requires
                base == t * size,
                t < count,
                count == bytes@.len() / (size as nat),
                size > 0,
        ;
        let tile = tile_at(bytes, format, base);
        proof {
            match format {
                PixelFormat::Bpp4 => {
                    assert(tile@ =~= tile_pixels(bytes@, format, t as int));
                },
                PixelFormat::Bpp8 => {
                    assert(tile@ =~= tile_pixels(bytes@, format, t as int));
                },
            }
        }
        tiles.push(tile);
        t = t + 1;
        base = base + size;
    }
    tiles
}

/// The LCD: its registers and which scan lines were drawn and handed out.
#[derive(Debug, Clone, Copy)]
pub struct Lcd {
    pub memory_interface: LcdMemoryInterface,
    pub last_rendered_line: u16,
    pub last_fetched_line: u16,
}

impl Lcd {
    pub fn new() -> (r: Lcd)
        ensures
            r.memory_interface.vertical_count == 0,
            r.memory_interface.display_control == 0,
            r.last_rendered_line == 0 && r.last_fetched_line == 0,
    {
        Lcd { memory_interface: LcdMemoryInterface::new(), last_rendered_line: 0, last_fetched_line: 0 }
    }

    /// The display mode in DISPCNT; its low three bits must be at most 5.
    pub fn display_mode(&self) -> (r: DisplayMode)
        requires
            self.memory_interface.display_control & 7 <= 5,
        ensures
            Some(r) == DisplayMode::spec_from_repr(self.memory_interface.display_control & 7),
    {
        match DisplayMode::from_repr(self.memory_interface.display_control & 0x0007) {
            Some(mode) => mode,
            None => DisplayMode::DisplayMode0,
        }
    }

    /// The vertical counter after a cycle at `tick`: it advances every
    /// fourth tick and wraps to 0 past line 228.
    pub open spec fn next_vertical_count(vertical_count: u16, tick: usize) -> u16 {
        let advanced = if tick % 4 == 0 {
            vertical_count + 1
        } else {
            vertical_count as int
        };
        if advanced > 228 {
            0
        } else {
            advanced as u16
        }
    }

    /// Advances the scan line; when it reaches line 160, the vertical blank
    /// interrupt is requested.
    pub fn run_cycle(&mut self, tick: usize) -> (r: Vec<Interrupt>)
        requires
            old(self).memory_interface.vertical_count <= 228,
        ensures
            final(self).memory_interface.vertical_count == Self::next_vertical_count(
                old(self).memory_interface.vertical_count,
                tick,
            ),
            final(self).memory_interface.vertical_count <= 228,
            final(self).memory_interface == (LcdMemoryInterface {
                vertical_count: final(self).memory_interface.vertical_count,
                ..old(self).memory_interface
            }),
            r@ == if final(self).memory_interface.vertical_count == 160 {
                seq![Interrupt::Vblank]
            } else {
                Seq::<Interrupt>::empty()
            },
            final(self).last_fetched_line == old(self).last_fetched_line,
            final(self).last_rendered_line == if tick % 4 == 0 {
                if Self::next_vertical_count(old(self).memory_interface.vertical_count, tick) < 160 {
                    Self::next_vertical_count(old(self).memory_interface.vertical_count, tick)
                } else {
                    160
                }
            } else {
                old(self).last_rendered_line
            },
    {
        let mut result: Vec<Interrupt> = Vec::new();
        if tick % 4 == 0 {
            self.memory_interface.vertical_count = self.memory_interface.vertical_count + 1;
        }
        if self.memory_interface.vertical_count > 228 {
            self.memory_interface.vertical_count = 0;
        }
        if tick % 4 == 0 {
            let line = self.memory_interface.vertical_count;
            self.last_rendered_line = if line < 160 {
                line
            } else {
                160
            };
        }
        if self.memory_interface.vertical_count == 160 {
            result.push(Interrupt::Vblank);
        }
        result
    }

    /// The line from which the next frame fetch copies: the last fetched
    /// one, or the first when rendering started over since.
    pub open spec fn fetch_start(self) -> int {
        if self.last_fetched_line > self.last_rendered_line {
            0
        } else {
            self.last_fetched_line as int
        }
    }

    /// The line up to which a frame fetch copies: the current one, at most
    /// the last line of the screen.
    pub open spec fn fetch_end(self) -> int {
        if self.memory_interface.vertical_count < 159 {
            self.memory_interface.vertical_count as int
        } else {
            159
        }
    }

    /// Whether a frame fetch copies pixel `i`: the lines from the fetch start
    /// up to the fetch end, going round past the bottom of the screen when
    /// the end lies before the start.
    pub open spec fn fetches_pixel(self, i: int) -> bool {
        let start = self.fetch_start() * 240;
        let end = self.fetch_end() * 240;
        if end < start {
            i < end || start <= i
        } else {
            start <= i < end
        }
    }

    /// Copies into `buffer` the lines of the rendered frame `rendered` that
    /// were drawn since the last fetch, and remembers how far it fetched.
    pub fn swap_buffers(&mut self, rendered: &[u32; 38400], buffer: &mut [u32; 38400])
        requires
            old(self).last_fetched_line > old(self).last_rendered_line || old(self).last_fetched_line
                <= 160,
        ensures
            final(self).last_fetched_line == old(self).fetch_end(),
            *final(self) == (Lcd { last_fetched_line: final(self).last_fetched_line, ..*old(self) }),
            forall|i: int|
                0 <= i < 38400 ==> #[trigger] final(buffer)@[i] == if old(self).fetches_pixel(i) {
                    rendered@[i]
                } else {
                    old(buffer)@[i]
                },
    {
        if self.last_fetched_line > self.last_rendered_line {
            self.last_fetched_line = 0;
        }
        let start_index: usize = self.last_fetched_line as usize * 240;
        let last_line: u16 = if self.memory_interface.vertical_count < 159 {
            self.memory_interface.vertical_count
        } else {
            159
        };
        let end_index: usize = last_line as usize * 240;
        let ghost original = buffer@;
        let end_index: usize = if end_index < start_index {
            let mut i: usize = 0;
            while i < end_index
                invariant
                    end_index <= 38400,
                    i <= end_index,
                    forall|k: int|
                        0 <= k < 38400 ==> #[trigger] buffer@[k] == if k < i {
                            rendered@[k]
                        } else {
                            original[k]
                        },
                decreases end_index - i,
            {
                buffer[i] = rendered[i];
                i = i + 1;
            }
            38400
        } else {
            end_index
        };
        let ghost wrapped = buffer@;
        self.last_fetched_line = last_line;
        let mut i: usize = start_index;
        while i < end_index
            invariant
                start_index <= 38400,
                end_index <= 38400,
                start_index <= i <= end_index || (end_index < start_index && i == start_index),
                forall|k: int|
                    0 <= k < 38400 ==> #[trigger] buffer@[k] == if start_index <= k < i {
                        rendered@[k]
                    } else {
                        wrapped[k]
                    },
            decreases end_index - i,
        {
            buffer[i] = rendered[i];
            i = i + 1;
        }
    }
}

impl MemoryPlugin for Lcd {
    open spec fn claims(&self, address: usize) -> bool {
        0x400_0000 <= address < 0x400_0060
    }

    open spec fn readable(&self, address: usize) -> bool {
        self.claims(address)
    }

    open spec fn byte_at(&self, address: usize) -> u8 {
        self.memory_interface.byte_at(address)
    }

    open spec fn writable(&self, address: usize, byte: u8) -> bool {
        self.claims(address)
    }

    open spec fn wrote(&self, before: Lcd, address: usize, byte: u8) -> bool {
        &&& same_lcd(self.memory_interface, before.memory_interface.spec_write(address, byte))
        &&& self.last_rendered_line == before.last_rendered_line
        &&& self.last_fetched_line == before.last_fetched_line
    }

    /// A reset clears the registers and both line counters.
    open spec fn was_reset(&self, before: Lcd) -> bool {
        &&& self.memory_interface.display_control == 0
        &&& self.memory_interface.vertical_count == 0
        &&& self.last_rendered_line == 0
        &&& self.last_fetched_line == 0
    }

    fn claims_address(&self, address: usize) -> (r: bool) {
        0x400_0000 <= address && address < 0x400_0060
    }

    fn reset(&mut self) {
        self.memory_interface = LcdMemoryInterface::new();
        self.last_fetched_line = 0;
        self.last_rendered_line = 0;
    }

    fn read_byte(&self, address: usize) -> (r: u8) {
        self.memory_interface.read_byte(address)
    }

    fn write_byte(&mut self, address: usize, byte: u8) {
        self.memory_interface.write_byte(address, byte);
    }
}

/// Interfaces that hold the same registers are equal.
pub proof fn lemma_same_lcd(a: LcdMemoryInterface, b: LcdMemoryInterface)
    requires
        same_lcd(a, b),
    ensures
        a == b,
{
    assert(a.background_control =~= b.background_control);
    assert(a.background_x_offset =~= b.background_x_offset);
    assert(a.background_y_offset =~= b.background_y_offset);
    assert(a.background_2_rotation_scaling =~= b.background_2_rotation_scaling);
    assert(a.background_2_reference_point =~= b.background_2_reference_point);
    assert(a.background_3_rotation_scaling =~= b.background_3_rotation_scaling);
    assert(a.background_3_reference_point =~= b.background_3_reference_point);
    assert(a.window_horizontal_dimensions =~= b.window_horizontal_dimensions);
    assert(a.window_vertical_dimensions =~= b.window_vertical_dimensions);
}

} // verus!
