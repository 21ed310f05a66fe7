//! The four timers' reload and control registers.
use vstd::prelude::*;
use vstd::array::*;

use crate::io_registers::{half_with_byte, read_byte_from_half_word, write_byte_to_half_word};
use crate::memory::{byte16, MemoryPlugin};

verus! {

broadcast use vstd::array::group_array_axioms;

/// The reload value (TMxCNT_L) and control (TMxCNT_H) of one timer.
#[derive(Debug, Clone, Copy, PartialEq, Eq, Structural)]
pub struct SingleTimer {
    pub counter_reload: u16,
    pub control: u16,
}

impl SingleTimer {
    pub fn new() -> (r: SingleTimer)
        ensures
            r.counter_reload == 0 && r.control == 0,
    {
        SingleTimer { counter_reload: 0, control: 0 }
    }

    /// The timer after writing `byte` at offset `rel` (below 4).
    pub open spec fn spec_write(self, rel: usize, byte: u8) -> SingleTimer {
        if rel < 2 {
            SingleTimer { counter_reload: half_with_byte(self.counter_reload, rel as nat, byte), ..self }
        } else {
            SingleTimer { control: half_with_byte(self.control, (rel - 2) as nat, byte), ..self }
        }
    }
}

impl MemoryPlugin for SingleTimer {
    open spec fn claims(&self, address: usize) -> bool {
        0x400_0100 <= address < 0x400_0120
    }

    open spec fn readable(&self, address: usize) -> bool {
        address < 4
    }

    open spec fn byte_at(&self, address: usize) -> u8 {
        if address < 2 {
            byte16(self.counter_reload, address as nat)
        } else {
            byte16(self.control, (address - 2) as nat)
        }
    }

    open spec fn writable(&self, address: usize, byte: u8) -> bool {
        address < 4
    }

    open spec fn wrote(&self, before: SingleTimer, address: usize, byte: u8) -> bool {
        *self == before.spec_write(address, byte)
    }

    open spec fn was_reset(&self, before: SingleTimer) -> bool {
        *self == before
    }

    fn claims_address(&self, address: usize) -> (r: bool) {
        0x400_0100 <= address && address < 0x400_0120
    }

    fn reset(&mut self) {
    }

    fn read_byte(&self, address: usize) -> (r: u8) {
        if address < 2 {
            read_byte_from_half_word(self.counter_reload, address)
        } else {
            read_byte_from_half_word(self.control, address - 2)
        }
    }

    fn write_byte(&mut self, address: usize, byte: u8) {
        if address < 2 {
            write_byte_to_half_word(&mut self.counter_reload, address, byte)
        } else {
            write_byte_to_half_word(&mut self.control, address - 2, byte)
        }
    }
}

/// The registers of the four timers (4000100h-400010Fh).
#[derive(Debug, Clone, Copy)]
pub struct Timer {
    pub timer: [SingleTimer; 4],
}

impl Timer {
    pub fn new() -> (r: Timer)
        ensures
            forall|i: int| 0 <= i < 4 ==> r.timer@[i] == (SingleTimer { counter_reload: 0, control: 0 }),
    {
        Timer { timer: [SingleTimer::new(), SingleTimer::new(), SingleTimer::new(), SingleTimer::new()] }
    }

    /// The timers after writing `byte` to `address`; the unused addresses
    /// above the four timers ignore writes.
    pub open spec fn spec_write(self, address: usize, byte: u8) -> Timer {
        if 0x400_0110 <= address {
            self
        } else {
            let rel = (address - 0x400_0100) as usize;
            let index = rel / 4;
            Timer {
                timer: spec_array_update(
                    self.timer,
                    index as int,
                    self.timer@[index as int].spec_write(rel % 4, byte),
                ),
            }
        }
    }
}

impl MemoryPlugin for Timer {
    open spec fn claims(&self, address: usize) -> bool {
        0x400_0100 <= address < 0x400_0120
    }

    open spec fn readable(&self, address: usize) -> bool {
        self.claims(address)
    }

    open spec fn byte_at(&self, address: usize) -> u8 {
        if 0x400_0110 <= address {
            0
        } else {
            let rel = (address - 0x400_0100) as usize;
            self.timer@[(rel / 4) as int].byte_at(rel % 4)
        }
    }

    open spec fn writable(&self, address: usize, byte: u8) -> bool {
        self.claims(address)
    }

    open spec fn wrote(&self, before: Timer, address: usize, byte: u8) -> bool {
        self.timer@ == before.spec_write(address, byte).timer@
    }

    open spec fn was_reset(&self, before: Timer) -> bool {
        self.timer@ == before.timer@
    }

    fn claims_address(&self, address: usize) -> (r: bool) {
        0x400_0100 <= address && address < 0x400_0120
    }

    fn reset(&mut self) {
    }

    fn read_byte(&self, address: usize) -> (r: u8) {
        if 0x400_0110 <= address {
            return 0;
        }
        let relative_address = address - 0x400_0100;
        let index = relative_address / 4;
        self.timer[index].read_byte(relative_address % 4)
    }

    fn write_byte(&mut self, address: usize, byte: u8) {
        if 0x400_0110 <= address {
            return;
        }
        let relative_address = address - 0x400_0100;
        let index = relative_address / 4;
        let mut t = self.timer[index];
        t.write_byte(relative_address % 4, byte);
        self.timer[index] = t;
    }
}

} // verus!
