//! The keypad status and interrupt control registers.
use vstd::prelude::*;

use crate::io_registers::{half_with_byte, read_byte_from_half_word, write_byte_to_half_word};
use crate::memory::{byte16, MemoryPlugin};

verus! {

/// KEYINPUT (4000130h) and KEYCNT (4000132h).
#[derive(Debug, Clone, Copy, PartialEq, Eq, Structural)]
pub struct KeypadInput {
    pub status: u16,
    pub interrupt_control: u16,
}

impl KeypadInput {
    pub fn new() -> (r: KeypadInput)
        ensures
            r.status == 0 && r.interrupt_control == 0,
    {
        KeypadInput { status: 0, interrupt_control: 0 }
    }

    /// The registers after writing `byte` to `address`: the status register
    /// is read-only.
    pub open spec fn spec_write(self, address: usize, byte: u8) -> KeypadInput {
        let rel = address - 0x400_0000;
        if 0x132 <= rel < 0x134 {
            KeypadInput {
                interrupt_control: half_with_byte(self.interrupt_control, (rel - 0x132) as nat, byte),
                ..self
            }
        } else {
            self
        }
    }
}

impl MemoryPlugin for KeypadInput {
    open spec fn claims(&self, address: usize) -> bool {
        0x400_0130 <= address < 0x400_0134
    }

    open spec fn readable(&self, address: usize) -> bool {
        self.claims(address)
    }

    open spec fn byte_at(&self, address: usize) -> u8 {
        let rel = address - 0x400_0000;
        if rel < 0x132 {
            byte16(self.status, (rel - 0x130) as nat)
        } else {
            byte16(self.interrupt_control, (rel - 0x132) as nat)
        }
    }

    open spec fn writable(&self, address: usize, byte: u8) -> bool {
        self.claims(address)
    }

    open spec fn wrote(&self, before: KeypadInput, address: usize, byte: u8) -> bool {
        *self == before.spec_write(address, byte)
    }

    open spec fn was_reset(&self, before: KeypadInput) -> bool {
        *self == before
    }

    fn claims_address(&self, address: usize) -> (r: bool) {
        0x400_0130 <= address && address < 0x400_0134
    }

    fn reset(&mut self) {
    }

    fn read_byte(&self, address: usize) -> (r: u8) {
        let relative_address = address - 0x400_0000;
        if relative_address < 0x132 {
            read_byte_from_half_word(self.status, relative_address - 0x130)
        } else {
            read_byte_from_half_word(self.interrupt_control, relative_address - 0x132)
        }
    }

    fn write_byte(&mut self, address: usize, byte: u8) {
        let relative_address = address - 0x400_0000;
        if relative_address >= 0x132 {
            write_byte_to_half_word(
                &mut self.interrupt_control,
                relative_address - 0x132,
                byte,
            );
        }
    }
}

} // verus!
