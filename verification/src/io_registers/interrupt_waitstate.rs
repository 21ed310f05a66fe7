//! Interrupt control, waitstate control and power-down registers.
use vstd::prelude::*;

use crate::interrupts::Interrupt;
use crate::io_registers::{half_with_byte, read_byte_from_half_word, write_byte_to_half_word};
use crate::memory::{byte16, MemoryPlugin};

verus! {

/// IE (4000200h), IF (4000202h), WAITCNT (4000204h), IME (4000208h),
/// POSTFLG (4000300h), HALTCNT (4000301h) and the undocumented internal
/// memory control (4000800h); plus, per interrupt, the tick at which it
/// was last raised.
#[derive(Debug, Clone, Copy, PartialEq, Eq, Structural)]
pub struct InterruptWaitstate {
    pub interrupt_enable: u16,
    pub interrupt_request_flags: u16,
    pub game_pak_waitstate: u16,
    pub interrupt_master_enable: u16,
    pub post_boot_flag: u8,
    pub power_down_control: u8,
    pub internal_memory_control: u32,
    pub last_vblank: Option<usize>,
    pub last_serial_com: Option<usize>,
}

/// Whether bit `bit` of `value` is set.
pub open spec fn has_bit(value: u16, bit: u16) -> bool {
    value & (1u16 << bit) != 0
}

impl InterruptWaitstate {
    pub fn new() -> (r: InterruptWaitstate)
        ensures
            r == InterruptWaitstate::spec_new(),
    {
        InterruptWaitstate {
            interrupt_enable: 0,
            interrupt_request_flags: 0,
            game_pak_waitstate: 0,
            interrupt_master_enable: 0,
            post_boot_flag: 0,
            power_down_control: 0,
            internal_memory_control: 0,
            last_vblank: None,
            last_serial_com: None,
        }
    }

    pub open spec fn spec_new() -> InterruptWaitstate {
        InterruptWaitstate {
            interrupt_enable: 0,
            interrupt_request_flags: 0,
            game_pak_waitstate: 0,
            interrupt_master_enable: 0,
            post_boot_flag: 0,
            power_down_control: 0,
            internal_memory_control: 0,
            last_vblank: None,
            last_serial_com: None,
        }
    }

    /// Whether the master enable and the interrupt's enable bit are set.
    pub open spec fn raises(self, interrupt: Interrupt) -> bool {
        self.interrupt_master_enable & 1 != 0 && has_bit(self.interrupt_enable, interrupt.bit())
    }

    /// When `interrupt` was last raised.
    pub open spec fn last_raised(self, interrupt: Interrupt) -> Option<usize> {
        match interrupt {
            Interrupt::Vblank => self.last_vblank,
            Interrupt::SerialCom => self.last_serial_com,
        }
    }

    /// Whether `interrupt` is requested, enabled, and not raised within its
    /// cooldown before `ticks`.
    pub open spec fn is_ready(self, interrupt: Interrupt, ticks: usize) -> bool {
        &&& has_bit(self.interrupt_request_flags, interrupt.bit())
        &&& self.raises(interrupt)
        &&& match self.last_raised(interrupt) {
            Some(t) => t <= ticks && ticks - t >= interrupt.cooldown(),
            None => true,
        }
    }

    pub fn should_raise_interrupt(&self, interrupt: Interrupt) -> (r: bool)
        ensures
            r == self.raises(interrupt),
    {
        if self.interrupt_master_enable & 1 == 0 {
            return false;
        }
        let bit = interrupt.to_bit_index();
        (self.interrupt_enable & (1u16 << bit)) > 0
    }

    /// Requests `interrupt`: sets its bit in IF.
    pub fn queue(&mut self, interrupt: Interrupt)
        ensures
            *final(self) == (InterruptWaitstate {
                interrupt_request_flags: old(self).interrupt_request_flags | (1u16
                    << interrupt.bit()),
                ..*old(self)
            }),
    {
        let bit = interrupt.to_bit_index();
        self.interrupt_request_flags = self.interrupt_request_flags | (1u16 << bit);
    }

    fn is_ready_exec(&self, interrupt: Interrupt, ticks: usize) -> (r: bool)
        ensures
            r == self.is_ready(interrupt, ticks),
    {
        let bit = interrupt.to_bit_index();
        if self.interrupt_request_flags & (1u16 << bit) == 0 || !self.should_raise_interrupt(
            interrupt,
        ) {
            return false;
        }
        let last = match interrupt {
            Interrupt::Vblank => self.last_vblank,
            Interrupt::SerialCom => self.last_serial_com,
        };
        match last {
            Some(t) => t <= ticks && ticks - t >= interrupt.min_fire_cooldown(),
            None => true,
        }
    }

    /// The interrupt raised at `ticks` and the registers after it: the
    /// lowest-numbered ready interrupt, recorded as raised then.
    pub open spec fn step(self, ticks: usize) -> (Option<Interrupt>, InterruptWaitstate) {
        if self.is_ready(Interrupt::Vblank, ticks) {
            (Some(Interrupt::Vblank), InterruptWaitstate { last_vblank: Some(ticks), ..self })
        } else if self.is_ready(Interrupt::SerialCom, ticks) {
            (Some(Interrupt::SerialCom), InterruptWaitstate { last_serial_com: Some(ticks), ..self })
        } else {
            (None, self)
        }
    }

    /// The interrupt to raise at `ticks`: the lowest-numbered one that is
    /// ready; it is recorded as raised then.
    pub fn next(&mut self, ticks: usize) -> (r: Option<Interrupt>)
        ensures
            old(self).is_ready(Interrupt::Vblank, ticks) ==> r == Some(Interrupt::Vblank)
                && *final(self) == (InterruptWaitstate { last_vblank: Some(ticks), ..*old(self) }),
            !old(self).is_ready(Interrupt::Vblank, ticks) && old(self).is_ready(
                Interrupt::SerialCom,
                ticks,
            ) ==> r == Some(Interrupt::SerialCom) && *final(self) == (InterruptWaitstate {
                last_serial_com: Some(ticks),
                ..*old(self)
            }),
            !old(self).is_ready(Interrupt::Vblank, ticks) && !old(self).is_ready(
                Interrupt::SerialCom,
                ticks,
            ) ==> r == None::<Interrupt> && *final(self) == *old(self),
            (r, *final(self)) == old(self).step(ticks),
    {
        if self.is_ready_exec(Interrupt::Vblank, ticks) {
            self.last_vblank = Some(ticks);
            Some(Interrupt::Vblank)
        } else if self.is_ready_exec(Interrupt::SerialCom, ticks) {
            self.last_serial_com = Some(ticks);
            Some(Interrupt::SerialCom)
        } else {
            None
        }
    }

    /// The registers after writing `byte` to `address`; unused and
    /// write-only bytes keep nothing.
    pub open spec fn spec_write(self, address: usize, byte: u8) -> InterruptWaitstate {
        let rel = address - 0x400_0000;
        if 0x200 <= rel < 0x202 {
            InterruptWaitstate {
                interrupt_enable: half_with_byte(self.interrupt_enable, (rel - 0x200) as nat, byte),
                ..self
            }
        } else if 0x202 <= rel < 0x204 {
            InterruptWaitstate {
                interrupt_request_flags: half_with_byte(
                    self.interrupt_request_flags,
                    (rel - 0x202) as nat,
                    byte,
                ),
                ..self
            }
        } else if 0x204 <= rel < 0x206 {
            InterruptWaitstate {
                game_pak_waitstate: half_with_byte(
                    self.game_pak_waitstate,
                    (rel - 0x204) as nat,
                    byte,
                ),
                ..self
            }
        } else if 0x208 <= rel < 0x20a {
            InterruptWaitstate {
                interrupt_master_enable: half_with_byte(
                    self.interrupt_master_enable,
                    (rel - 0x208) as nat,
                    byte,
                ),
                ..self
            }
        } else if rel == 0x300 {
            InterruptWaitstate { post_boot_flag: byte, ..self }
        } else if rel == 0x301 {
            InterruptWaitstate { power_down_control: byte, ..self }
        } else {
            self
        }
    }
}

impl MemoryPlugin for InterruptWaitstate {
    open spec fn claims(&self, address: usize) -> bool {
        0x400_0200 <= address <= 0x470_0000
    }

    /// IE, IF, WAITCNT and POSTFLG can be read.
    open spec fn readable(&self, address: usize) -> bool {
        self.claims(address) && (0x400_0200 <= address < 0x400_0206 || address == 0x400_0300)
    }

    open spec fn byte_at(&self, address: usize) -> u8 {
        let rel = address - 0x400_0000;
        if rel < 0x202 {
            byte16(self.interrupt_enable, (rel - 0x200) as nat)
        } else if rel < 0x204 {
            byte16(self.interrupt_request_flags, (rel - 0x202) as nat)
        } else if rel < 0x206 {
            byte16(self.game_pak_waitstate, (rel - 0x204) as nat)
        } else {
            self.post_boot_flag
        }
    }

    /// Everything from IE to HALTCNT, and the undocumented byte at 4000410h.
    open spec fn writable(&self, address: usize, byte: u8) -> bool {
        0x400_0200 <= address <= 0x400_0301 || address == 0x400_0410
    }

    open spec fn wrote(&self, before: InterruptWaitstate, address: usize, byte: u8) -> bool {
        *self == before.spec_write(address, byte)
    }

    open spec fn was_reset(&self, before: InterruptWaitstate) -> bool {
        *self == before
    }

    fn claims_address(&self, address: usize) -> (r: bool) {
        0x400_0200 <= address && address <= 0x470_0000
    }

    fn reset(&mut self) {
    }

    fn read_byte(&self, address: usize) -> (r: u8) {
        let rel = address - 0x400_0000;
        if rel < 0x202 {
            read_byte_from_half_word(self.interrupt_enable, rel - 0x200)
        } else if rel < 0x204 {
            read_byte_from_half_word(self.interrupt_request_flags, rel - 0x202)
        } else if rel < 0x206 {
            read_byte_from_half_word(self.game_pak_waitstate, rel - 0x204)
        } else {
            self.post_boot_flag
        }
    }

    fn write_byte(&mut self, address: usize, byte: u8) {
        let rel = address - 0x400_0000;
        if 0x200 <= rel && rel < 0x202 {
            write_byte_to_half_word(&mut self.interrupt_enable, rel - 0x200, byte);
        } else if 0x202 <= rel && rel < 0x204 {
            write_byte_to_half_word(&mut self.interrupt_request_flags, rel - 0x202, byte);
        } else if 0x204 <= rel && rel < 0x206 {
            write_byte_to_half_word(&mut self.game_pak_waitstate, rel - 0x204, byte);
        } else if 0x208 <= rel && rel < 0x20a {
            write_byte_to_half_word(&mut self.interrupt_master_enable, rel - 0x208, byte);
        } else if rel == 0x300 {
            self.post_boot_flag = byte;
        } else if rel == 0x301 {
            self.power_down_control = byte;
        }
    }
}

} // verus!
