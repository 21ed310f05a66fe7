//! The sound registers at 4000060h..40000B0h.
use vstd::prelude::*;

use crate::bits::BitModifications;
use vstd::array::*;

use crate::io_registers::{
    half_with_byte,
    read_byte_from_half_word,
    read_byte_from_word,
    word_with_byte,
    write_byte_to_half_word,
    write_byte_to_word,
};
use crate::memory::{byte16, byte32, MemoryPlugin};

verus! {

broadcast use vstd::array::group_array_axioms;

/// One bank of channel 3's wave pattern RAM.
#[derive(Debug, Clone, Copy)]
pub struct WaveRam {
    pub cursor: usize,
    pub buffer: [u8; 0x20],
}

impl WaveRam {
    pub fn new() -> (r: WaveRam)
        ensures
            r.cursor == 0,
            r.buffer@ == Seq::new(0x20, |i: int| 0u8),
    {
        let r = WaveRam { cursor: 0, buffer: [0u8; 0x20] };
        assert(r.buffer@ =~= Seq::new(0x20, |i: int| 0u8));
        r
    }

    /// The cursor stays inside the buffer.
    pub open spec fn wf(self) -> bool {
        self.cursor < 0x20
    }

    /// Where byte `address` of the bank is stored.
    pub open spec fn spec_real_address(self, address: int) -> int {
        (self.cursor + address) % 0x20
    }

    fn real_address(&self, address: usize) -> (r: usize)
        requires
            self.wf(),
            address < 0x20,
        ensures
            r == self.spec_real_address(address as int),
            r < 0x20,
    {
        (self.cursor + address) % 0x20
    }

    pub fn read_byte(&self, address: usize) -> (r: u8)
        requires
            self.wf(),
            address < 0x20,
        ensures
            r == self.buffer@[self.spec_real_address(address as int)],
    {
        self.buffer[self.real_address(address)]
    }

    pub fn write_byte(&mut self, address: usize, byte: u8)
        requires
            old(self).wf(),
            address < 0x20,
        ensures
            final(self).cursor == old(self).cursor,
            final(self).buffer@ == old(self).buffer@.update(
                old(self).spec_real_address(address as int),
                byte,
            ),
    {
        let index = self.real_address(address);
        self.buffer[index] = byte;
    }
}

/// The half-word registers from 4000060h to 4000089h, one slot per half
/// word: SOUND1CNT_L/H/X, SOUND2CNT_L/H, SOUND3CNT_L/H/X, SOUND4CNT_L/H and
/// SOUNDCNT_L/H/X, SOUNDBIAS; the slots of unused half words stay zero.
pub open spec fn is_register_slot(slot: int) -> bool {
    0 <= slot < 21 && slot != 3 && slot != 5 && slot != 7 && slot != 11 && slot != 13 && slot
        != 15 && slot != 19
}

/// The slot that holds SOUND3CNT_L, whose bit 6 selects the played bank.
pub const WAVE_SELECT_SLOT: usize = 8;

/// The sound registers, channel 3's two wave banks and the two FIFOs.
#[derive(Debug, Clone, Copy)]
pub struct Sound {
    pub registers: [u16; 21],
    pub wave_pattern_0: WaveRam,
    pub wave_pattern_1: WaveRam,
    pub channel_a_fifo: u32,
    pub channel_b_fifo: u32,
}

/// Whether the two devices hold the same values.
pub open spec fn same_sound(a: Sound, b: Sound) -> bool {
    &&& a.registers@ == b.registers@
    &&& a.wave_pattern_0.cursor == b.wave_pattern_0.cursor
    &&& a.wave_pattern_0.buffer@ == b.wave_pattern_0.buffer@
    &&& a.wave_pattern_1.cursor == b.wave_pattern_1.cursor
    &&& a.wave_pattern_1.buffer@ == b.wave_pattern_1.buffer@
    &&& a.channel_a_fifo == b.channel_a_fifo
    &&& a.channel_b_fifo == b.channel_b_fifo
}

impl Sound {
    pub fn new() -> (r: Sound)
        ensures
            r.wf(),
            r.registers@ == Seq::new(21, |i: int| 0u16),
            r.channel_a_fifo == 0 && r.channel_b_fifo == 0,
    {
        let r = Sound {
            registers: [0u16; 21],
            wave_pattern_0: WaveRam::new(),
            wave_pattern_1: WaveRam::new(),
            channel_a_fifo: 0,
            channel_b_fifo: 0,
        };
        assert(r.registers@ =~= Seq::new(21, |i: int| 0u16));
        r
    }

    pub open spec fn wf(self) -> bool {
        self.wave_pattern_0.wf() && self.wave_pattern_1.wf()
    }

    /// Whether bank 1 is being played, so that bank 0 is the one the CPU
    /// sees (bit 6 of SOUND3CNT_L set).
    pub open spec fn plays_bank_1(self) -> bool {
        self.registers@[WAVE_SELECT_SLOT as int].has_bit(6)
    }

    /// The wave bank that is not being played.
    pub open spec fn inactive_bank(self) -> WaveRam {
        if self.plays_bank_1() {
            self.wave_pattern_0
        } else {
            self.wave_pattern_1
        }
    }

    fn plays_bank_1_exec(&self) -> (r: bool)
        ensures
            r == self.plays_bank_1(),
    {
        self.registers[WAVE_SELECT_SLOT].bit(6)
    }

    /// The device after writing `byte` to `address`; unused bytes are
    /// ignored.
    pub open spec fn spec_write(self, address: usize, byte: u8) -> Sound {
        let rel = address - 0x400_0000;
        if 0x60 <= rel < 0x8a {
            let slot = (rel - 0x60) / 2;
            if is_register_slot(slot) {
                Sound {
                    registers: spec_array_update(
                        self.registers,
                        slot,
                        half_with_byte(self.registers@[slot], ((rel - 0x60) % 2) as nat, byte),
                    ),
                    ..self
                }
            } else {
                self
            }
        } else if 0x90 <= rel < 0xa0 {
            if self.plays_bank_1() {
                Sound {
                    wave_pattern_0: WaveRam {
                        buffer: spec_array_update(
                            self.wave_pattern_0.buffer,
                            self.wave_pattern_0.spec_real_address(rel - 0x90),
                            byte,
                        ),
                        ..self.wave_pattern_0
                    },
                    ..self
                }
            } else {
                Sound {
                    wave_pattern_1: WaveRam {
                        buffer: spec_array_update(
                            self.wave_pattern_1.buffer,
                            self.wave_pattern_1.spec_real_address(rel - 0x90),
                            byte,
                        ),
                        ..self.wave_pattern_1
                    },
                    ..self
                }
            }
        } else if 0xa0 <= rel < 0xa4 {
            Sound { channel_a_fifo: word_with_byte(self.channel_a_fifo, (rel - 0xa0) as nat, byte), ..self }
        } else if 0xa4 <= rel < 0xa8 {
            Sound { channel_b_fifo: word_with_byte(self.channel_b_fifo, (rel - 0xa4) as nat, byte), ..self }
        } else {
            self
        }
    }
}

fn is_register_slot_exec(slot: usize) -> (r: bool)
    ensures
        r == is_register_slot(slot as int),
{
    slot < 21 && slot != 3 && slot != 5 && slot != 7 && slot != 11 && slot != 13 && slot != 15
        && slot != 19
}

impl MemoryPlugin for Sound {
    open spec fn claims(&self, address: usize) -> bool {
        0x400_0060 <= address < 0x400_00b0
    }

    /// Every register, the inactive wave bank, the FIFOs and the unused
    /// tail; not the unused half words between the registers.
    open spec fn readable(&self, address: usize) -> bool {
        let rel = address - 0x400_0000;
        &&& self.claims(address)
        &&& self.wf()
        &&& (0x60 <= rel < 0x8a ==> is_register_slot((rel - 0x60) / 2))
        &&& !(0x8a <= rel < 0x90)
    }

    open spec fn byte_at(&self, address: usize) -> u8 {
        let rel = address - 0x400_0000;
        if rel < 0x8a {
            byte16(self.registers@[(rel - 0x60) / 2], ((rel - 0x60) % 2) as nat)
        } else if rel < 0xa0 {
            let bank = self.inactive_bank();
            bank.buffer@[bank.spec_real_address(rel - 0x90)]
        } else if rel < 0xa4 {
            byte32(self.channel_a_fifo, (rel - 0xa0) as nat)
        } else if rel < 0xa8 {
            byte32(self.channel_b_fifo, (rel - 0xa4) as nat)
        } else {
            0
        }
    }

    open spec fn writable(&self, address: usize, byte: u8) -> bool {
        self.claims(address) && self.wf()
    }

    open spec fn wrote(&self, before: Sound, address: usize, byte: u8) -> bool {
        same_sound(*self, before.spec_write(address, byte))
    }

    open spec fn was_reset(&self, before: Sound) -> bool {
        same_sound(*self, before)
    }

    fn claims_address(&self, address: usize) -> (r: bool) {
        0x400_0060 <= address && address < 0x400_00b0
    }

    fn reset(&mut self) {
    }

    fn read_byte(&self, address: usize) -> (r: u8) {
        let rel = address - 0x400_0000;
        if rel < 0x8a {
            read_byte_from_half_word(self.registers[(rel - 0x60) / 2], (rel - 0x60) % 2)
        } else if rel < 0xa0 {
            if self.plays_bank_1_exec() {
                self.wave_pattern_0.read_byte(rel - 0x90)
            } else {
                self.wave_pattern_1.read_byte(rel - 0x90)
            }
        } else if rel < 0xa4 {
            read_byte_from_word(self.channel_a_fifo, rel - 0xa0)
        } else if rel < 0xa8 {
            read_byte_from_word(self.channel_b_fifo, rel - 0xa4)
        } else {
            0
        }
    }

    fn write_byte(&mut self, address: usize, byte: u8) {
        let rel = address - 0x400_0000;
        if 0x60 <= rel && rel < 0x8a {
            let slot = (rel - 0x60) / 2;
            if is_register_slot_exec(slot) {
                let mut value = self.registers[slot];
                write_byte_to_half_word(&mut value, (rel - 0x60) % 2, byte);
                self.registers[slot] = value;
            }
        } else if 0x90 <= rel && rel < 0xa0 {
            if self.plays_bank_1_exec() {
                self.wave_pattern_0.write_byte(rel - 0x90, byte);
            } else {
                self.wave_pattern_1.write_byte(rel - 0x90, byte);
            }
        } else if 0xa0 <= rel && rel < 0xa4 {
            write_byte_to_word(&mut self.channel_a_fifo, rel - 0xa0, byte);
        } else if 0xa4 <= rel && rel < 0xa8 {
            write_byte_to_word(&mut self.channel_b_fifo, rel - 0xa4, byte);
        }
    }
}

/// Devices that hold the same values are equal.
pub proof fn lemma_same_sound(a: Sound, b: Sound)
    requires
        same_sound(a, b),
    ensures
        a == b,
{
    assert(a.registers =~= b.registers);
    assert(a.wave_pattern_0.buffer =~= b.wave_pattern_0.buffer);
    assert(a.wave_pattern_1.buffer =~= b.wave_pattern_1.buffer);
}

} // verus!
