//! The memory-mapped I/O registers of the Game Boy Advance.
use vstd::prelude::*;

use crate::interrupts::Interrupt;
use crate::memory::{byte16, byte32, MemoryPlugin};
use dma::Dma;
use interrupt_waitstate::InterruptWaitstate;
use keypad_input::KeypadInput;
use lcd::{Lcd, LcdMemoryInterface};
use serial_communication::SerialCommunication;
use sound::Sound;
use timer::Timer;

pub mod dma;
pub mod interrupt_waitstate;
pub mod keypad_input;
pub mod lcd;
pub mod serial_communication;
pub mod sound;
pub mod timer;

verus! {

/// The half word with byte `i` replaced by `byte`.
pub open spec fn half_with_byte(dest: u16, i: nat, byte: u8) -> u16 {
    if i == 0 {
        (dest & 0xff00) | (byte as u16)
    } else {
        (dest & 0x00ff) | ((byte as u16) << 8u16)
    }
}

/// The word with byte `i` replaced by `byte`.
pub open spec fn word_with_byte(dest: u32, i: nat, byte: u8) -> u32 {
    if i == 0 {
        (dest & 0xffff_ff00) | (byte as u32)
    } else if i == 1 {
        (dest & 0xffff_00ff) | ((byte as u32) << 8u32)
    } else if i == 2 {
        (dest & 0xff00_ffff) | ((byte as u32) << 16u32)
    } else {
        (dest & 0x00ff_ffff) | ((byte as u32) << 24u32)
    }
}

/// Byte `byte_index` of a half word.
pub fn read_byte_from_half_word(source: u16, byte_index: usize) -> (r: u8)
    requires
        byte_index < 2,
    ensures
        r == byte16(source, byte_index as nat),
{
    if byte_index == 0 {
        (source & 0x00ff) as u8
    } else {
        let r = (source & 0xff00) >> 8u16;
        assert(r == (source >> 8u16) & 0xff) by (bit_vector)
            requires
                r == (source & 0xff00) >> 8u16,
        ;
        r as u8
    }
}

/// Byte `byte_index` of a word.
pub fn read_byte_from_word(source: u32, byte_index: usize) -> (r: u8)
    requires
        byte_index < 4,
    ensures
        r == byte32(source, byte_index as nat),
{
    if byte_index == 0 {
        (source & 0x00ff) as u8
    } else if byte_index == 1 {
        let r = (source & 0xff00) >> 8u32;
        assert(r == (source >> 8u32) & 0xff) by (bit_vector)
            requires
                r == (source & 0xff00) >> 8u32,
        ;
        r as u8
    } else if byte_index == 2 {
        let r = (source & 0xff0000) >> 16u32;
        assert(r == (source >> 16u32) & 0xff) by (bit_vector)
            requires
                r == (source & 0xff0000) >> 16u32,
        ;
        r as u8
    } else {
        let r = (source & 0xff000000) >> 24u32;
        assert(r == (source >> 24u32) & 0xff) by (bit_vector)
            requires
                r == (source & 0xff000000) >> 24u32,
        ;
        r as u8
    }
}

/// Replaces byte `byte_index` of a half word.
pub fn write_byte_to_half_word(destination: &mut u16, byte_index: usize, byte: u8)
    requires
        byte_index < 2,
    ensures
        *final(destination) == half_with_byte(*old(destination), byte_index as nat, byte),
{
    let byte = byte as u16;
    if byte_index == 0 {
        *destination = (*destination & 0xff00) | byte;
    } else {
        *destination = (*destination & 0x00ff) | (byte << 8u16);
    }
}

/// Replaces byte `byte_index` of a word.
pub fn write_byte_to_word(destination: &mut u32, byte_index: usize, byte: u8)
    requires
        byte_index < 4,
    ensures
        *final(destination) == word_with_byte(*old(destination), byte_index as nat, byte),
{
    let byte = byte as u32;
    if byte_index == 0 {
        *destination = (*destination & 0xffff_ff00) | byte;
    } else if byte_index == 1 {
        *destination = (*destination & 0xffff_00ff) | (byte << 8u32);
    } else if byte_index == 2 {
        *destination = (*destination & 0xff00_ffff) | (byte << 16u32);
    } else {
        *destination = (*destination & 0x00ff_ffff) | (byte << 24u32);
    }
}

/// The device of the I/O block that answers for an address.
#[derive(Debug, Clone, Copy, PartialEq, Eq, Structural)]
pub enum IoDevice {
    Lcd,
    Interrupt,
    Sound,
    Dma,
    Timer,
    SerialCom,
    Keypad,
}

/// All memory-mapped I/O devices.
#[derive(Debug, Clone, Copy)]
pub struct GbaIo {
    pub lcd: Lcd,
    pub sound: Sound,
    pub dma: Dma,
    pub timer: Timer,
    pub serial_com: SerialCommunication,
    pub keypad: KeypadInput,
    pub interrupt: InterruptWaitstate,
}

impl GbaIo {
    pub fn new(lcd: Lcd) -> (r: GbaIo)
        requires
            lcd.memory_interface.vertical_count <= 228,
        ensures
            r.wf(),
            r.lcd == lcd,
            r.interrupt == InterruptWaitstate::spec_new(),
    {
        GbaIo {
            lcd,
            sound: Sound::new(),
            dma: Dma::new(),
            timer: Timer::new(),
            serial_com: SerialCommunication::default(),
            keypad: KeypadInput::new(),
            interrupt: InterruptWaitstate::new(),
        }
    }

    /// The scan line counter stays on the screen's 229 lines and the wave
    /// banks' cursors stay inside them.
    pub open spec fn wf(self) -> bool {
        self.lcd.memory_interface.vertical_count <= 228 && self.sound.wf()
    }

    /// The first device, in the order LCD, interrupts, sound, DMA, timers,
    /// serial, keypad, that claims `address`.
    pub open spec fn device_for(self, address: usize) -> Option<IoDevice> {
        if self.lcd.claims(address) {
            Some(IoDevice::Lcd)
        } else if self.interrupt.claims(address) {
            Some(IoDevice::Interrupt)
        } else if self.sound.claims(address) {
            Some(IoDevice::Sound)
        } else if self.dma.claims(address) {
            Some(IoDevice::Dma)
        } else if self.timer.claims(address) {
            Some(IoDevice::Timer)
        } else if self.serial_com.claims(address) {
            Some(IoDevice::SerialCom)
        } else if self.keypad.claims(address) {
            Some(IoDevice::Keypad)
        } else {
            None
        }
    }

    /// The devices tile the I/O area from 4000000h to 4700000h without
    /// overlapping: an address there is claimed by exactly one device, and
    /// one outside it by none.
    pub proof fn lemma_devices_tile(self, address: usize)
        ensures
            self.device_for(address) is Some <==> 0x400_0000 <= address <= 0x470_0000,
            self.device_for(address) == Some(IoDevice::Lcd) <==> 0x400_0000 <= address < 0x400_0060,
            self.device_for(address) == Some(IoDevice::Sound) <==> 0x400_0060 <= address < 0x400_00b0,
            self.device_for(address) == Some(IoDevice::Dma) <==> 0x400_00b0 <= address < 0x400_0100,
            self.device_for(address) == Some(IoDevice::Timer) <==> 0x400_0100 <= address < 0x400_0120,
            self.device_for(address) == Some(IoDevice::SerialCom) <==> (0x400_0120 <= address < 0x400_0130)
                || (0x400_0134 <= address < 0x400_0200),
            self.device_for(address) == Some(IoDevice::Keypad) <==> 0x400_0130 <= address < 0x400_0134,
            self.device_for(address) == Some(IoDevice::Interrupt) <==> 0x400_0200 <= address <= 0x470_0000,
            (self.lcd.claims(address) as int) + (self.sound.claims(address) as int) + (self.dma.claims(address) as int)
                + (self.timer.claims(address) as int) + (self.serial_com.claims(address) as int) + (
            self.keypad.claims(address) as int) + (self.interrupt.claims(address) as int) <= 1,
    {
    }

    pub fn find_for_address(&self, address: usize) -> (r: Option<IoDevice>)
        ensures
            r == self.device_for(address),
    {
        if self.lcd.claims_address(address) {
            Some(IoDevice::Lcd)
        } else if self.interrupt.claims_address(address) {
            Some(IoDevice::Interrupt)
        } else if self.sound.claims_address(address) {
            Some(IoDevice::Sound)
        } else if self.dma.claims_address(address) {
            Some(IoDevice::Dma)
        } else if self.timer.claims_address(address) {
            Some(IoDevice::Timer)
        } else if self.serial_com.claims_address(address) {
            Some(IoDevice::SerialCom)
        } else if self.keypad.claims_address(address) {
            Some(IoDevice::Keypad)
        } else {
            None
        }
    }

    /// Whether every device but `device` is as in `before`.
    pub open spec fn others_unchanged(self, before: GbaIo, device: IoDevice) -> bool {
        &&& device != IoDevice::Lcd ==> self.lcd == before.lcd
        &&& device != IoDevice::Interrupt ==> self.interrupt == before.interrupt
        &&& device != IoDevice::Sound ==> self.sound == before.sound
        &&& device != IoDevice::Dma ==> self.dma == before.dma
        &&& device != IoDevice::Timer ==> self.timer == before.timer
        &&& device != IoDevice::SerialCom ==> self.serial_com == before.serial_com
        &&& device != IoDevice::Keypad ==> self.keypad == before.keypad
    }

    /// The devices after a cycle at `tick`: the LCD moves to its next scan
    /// line, and reaching line 160 requests the vertical blank interrupt.
    pub open spec fn after_cycle(self, tick: usize) -> GbaIo {
        let line = Lcd::next_vertical_count(self.lcd.memory_interface.vertical_count, tick);
        GbaIo {
            lcd: Lcd {
                memory_interface: LcdMemoryInterface { vertical_count: line, ..self.lcd.memory_interface },
                last_rendered_line: if tick % 4 == 0 {
                    if line < 160 {
                        line
                    } else {
                        160
                    }
                } else {
                    self.lcd.last_rendered_line
                },
                ..self.lcd
            },
            interrupt: if line == 160 {
                InterruptWaitstate {
                    interrupt_request_flags: self.interrupt.interrupt_request_flags | (1u16
                        << Interrupt::Vblank.bit()),
                    ..self.interrupt
                }
            } else {
                self.interrupt
            },
            ..self
        }
    }

    /// Advances the LCD one cycle and requests the interrupts it raises.
    pub fn run_cycle(&mut self, tick: usize)
        requires
            old(self).wf(),
        ensures
            final(self).wf(),
            *final(self) == old(self).after_cycle(tick),
            final(self).lcd.memory_interface.vertical_count == Lcd::next_vertical_count(
                old(self).lcd.memory_interface.vertical_count,
                tick,
            ),
            final(self).interrupt == (if final(self).lcd.memory_interface.vertical_count == 160 {
                InterruptWaitstate {
                    interrupt_request_flags: old(self).interrupt.interrupt_request_flags | (1u16
                        << Interrupt::Vblank.bit()),
                    ..old(self).interrupt
                }
            } else {
                old(self).interrupt
            }),
            final(self).sound == old(self).sound,
            final(self).dma == old(self).dma,
            final(self).timer == old(self).timer,
            final(self).serial_com == old(self).serial_com,
            final(self).keypad == old(self).keypad,
    {
        let raised = self.lcd.run_cycle(tick);
        let mut i: usize = 0;
        while i < raised.len()
            invariant
                i <= raised@.len(),
                raised@.len() <= 1,
                raised@.len() == 1 ==> raised@[0] == Interrupt::Vblank,
                i == 0 ==> self.interrupt == old(self).interrupt,
                i == 1 ==> self.interrupt == (InterruptWaitstate {
                    interrupt_request_flags: old(self).interrupt.interrupt_request_flags | (1u16
                        << Interrupt::Vblank.bit()),
                    ..old(self).interrupt
                }),
                self.lcd.memory_interface.vertical_count == Lcd::next_vertical_count(
                    old(self).lcd.memory_interface.vertical_count,
                    tick,
                ),
                (raised@.len() == 1) == (self.lcd.memory_interface.vertical_count == 160),
                self.lcd.memory_interface.vertical_count <= 228,
                self.lcd == old(self).after_cycle(tick).lcd,
                self.sound == old(self).sound,
                self.dma == old(self).dma,
                self.timer == old(self).timer,
                self.serial_com == old(self).serial_com,
                self.keypad == old(self).keypad,
            decreases raised@.len() - i,
        {
            self.interrupt.queue(raised[i]);
            i = i + 1;
        }
    }
}

impl MemoryPlugin for GbaIo {
    open spec fn claims(&self, address: usize) -> bool {
        self.device_for(address) is Some
    }

    open spec fn readable(&self, address: usize) -> bool {
        match self.device_for(address) {
            Some(IoDevice::Lcd) => self.lcd.readable(address),
            Some(IoDevice::Interrupt) => self.interrupt.readable(address),
            Some(IoDevice::Sound) => self.sound.readable(address),
            Some(IoDevice::Dma) => self.dma.readable(address),
            Some(IoDevice::Timer) => self.timer.readable(address),
            Some(IoDevice::SerialCom) => self.serial_com.readable(address),
            Some(IoDevice::Keypad) => self.keypad.readable(address),
            None => false,
        }
    }

    open spec fn byte_at(&self, address: usize) -> u8 {
        match self.device_for(address) {
            Some(IoDevice::Lcd) => self.lcd.byte_at(address),
            Some(IoDevice::Interrupt) => self.interrupt.byte_at(address),
            Some(IoDevice::Sound) => self.sound.byte_at(address),
            Some(IoDevice::Dma) => self.dma.byte_at(address),
            Some(IoDevice::Timer) => self.timer.byte_at(address),
            Some(IoDevice::SerialCom) => self.serial_com.byte_at(address),
            Some(IoDevice::Keypad) => self.keypad.byte_at(address),
            None => 0,
        }
    }

    open spec fn writable(&self, address: usize, byte: u8) -> bool {
        &&& self.wf()
        &&& match self.device_for(address) {
            Some(IoDevice::Lcd) => self.lcd.writable(address, byte),
            Some(IoDevice::Interrupt) => self.interrupt.writable(address, byte),
            Some(IoDevice::Sound) => self.sound.writable(address, byte),
            Some(IoDevice::Dma) => self.dma.writable(address, byte),
            Some(IoDevice::Timer) => self.timer.writable(address, byte),
            Some(IoDevice::SerialCom) => self.serial_com.writable(address, byte),
            Some(IoDevice::Keypad) => self.keypad.writable(address, byte),
            None => false,
        }
    }

    /// The claiming device took the write and the others are unchanged.
    open spec fn wrote(&self, before: GbaIo, address: usize, byte: u8) -> bool {
        match before.device_for(address) {
            Some(d) => {
                &&& self.others_unchanged(before, d)
                &&& match d {
                    IoDevice::Lcd => self.lcd.wrote(before.lcd, address, byte),
                    IoDevice::Interrupt => self.interrupt.wrote(before.interrupt, address, byte),
                    IoDevice::Sound => self.sound.wrote(before.sound, address, byte),
                    IoDevice::Dma => self.dma.wrote(before.dma, address, byte),
                    IoDevice::Timer => self.timer.wrote(before.timer, address, byte),
                    IoDevice::SerialCom => self.serial_com.wrote(before.serial_com, address, byte),
                    IoDevice::Keypad => self.keypad.wrote(before.keypad, address, byte),
                }
            },
            None => *self == before,
        }
    }

    open spec fn was_reset(&self, before: GbaIo) -> bool {
        &&& self.lcd.was_reset(before.lcd)
        &&& self.interrupt.was_reset(before.interrupt)
        &&& self.sound.was_reset(before.sound)
        &&& self.dma.was_reset(before.dma)
        &&& self.timer.was_reset(before.timer)
        &&& self.serial_com.was_reset(before.serial_com)
        &&& self.keypad.was_reset(before.keypad)
    }

    fn claims_address(&self, address: usize) -> (r: bool) {
        self.find_for_address(address).is_some()
    }

    fn reset(&mut self) {
        self.lcd.reset();
        self.interrupt.reset();
        self.sound.reset();
        self.dma.reset();
        self.timer.reset();
        self.serial_com.reset();
        self.keypad.reset();
    }

    fn read_byte(&self, address: usize) -> (r: u8) {
        match self.find_for_address(address) {
            Some(IoDevice::Lcd) => self.lcd.read_byte(address),
            Some(IoDevice::Interrupt) => self.interrupt.read_byte(address),
            Some(IoDevice::Sound) => self.sound.read_byte(address),
            Some(IoDevice::Dma) => self.dma.read_byte(address),
            Some(IoDevice::Timer) => self.timer.read_byte(address),
            Some(IoDevice::SerialCom) => self.serial_com.read_byte(address),
            Some(IoDevice::Keypad) => self.keypad.read_byte(address),
            None => 0,
        }
    }

    fn write_byte(&mut self, address: usize, byte: u8) {
        match self.find_for_address(address) {
            Some(IoDevice::Lcd) => self.lcd.write_byte(address, byte),
            Some(IoDevice::Interrupt) => self.interrupt.write_byte(address, byte),
            Some(IoDevice::Sound) => self.sound.write_byte(address, byte),
            Some(IoDevice::Dma) => self.dma.write_byte(address, byte),
            Some(IoDevice::Timer) => self.timer.write_byte(address, byte),
            Some(IoDevice::SerialCom) => self.serial_com.write_byte(address, byte),
            Some(IoDevice::Keypad) => self.keypad.write_byte(address, byte),
            None => {},
        }
    }
}

impl GbaIo {
    /// The devices after writing `byte` to `address`.
    pub open spec fn spec_write(self, address: usize, byte: u8) -> GbaIo {
        match self.device_for(address) {
            Some(IoDevice::Lcd) => GbaIo {
                lcd: Lcd {
                    memory_interface: self.lcd.memory_interface.spec_write(address, byte),
                    ..self.lcd
                },
                ..self
            },
            Some(IoDevice::Interrupt) => GbaIo {
                interrupt: self.interrupt.spec_write(address, byte),
                ..self
            },
            Some(IoDevice::Sound) => GbaIo { sound: self.sound.spec_write(address, byte), ..self },
            Some(IoDevice::Dma) => GbaIo { dma: self.dma.spec_write(address, byte), ..self },
            Some(IoDevice::Timer) => GbaIo { timer: self.timer.spec_write(address, byte), ..self },
            Some(IoDevice::SerialCom) => GbaIo {
                serial_com: self.serial_com.spec_write(address, byte),
                ..self
            },
            Some(IoDevice::Keypad) => GbaIo { keypad: self.keypad.spec_write(address, byte), ..self },
            None => self,
        }
    }

    /// A write leaves the devices exactly as `spec_write` says.
    pub proof fn lemma_wrote(self, before: GbaIo, address: usize, byte: u8)
        requires
            self.wrote(before, address, byte),
        ensures
            self == before.spec_write(address, byte),
    {
        let after = before.spec_write(address, byte);
        match before.device_for(address) {
            Some(IoDevice::Lcd) => {
                lcd::lemma_same_lcd(self.lcd.memory_interface, after.lcd.memory_interface);
            },
            Some(IoDevice::Sound) => {
                sound::lemma_same_sound(self.sound, after.sound);
            },
            Some(IoDevice::Dma) => {
                assert(self.dma.channels =~= after.dma.channels);
            },
            Some(IoDevice::Timer) => {
                assert(self.timer.timer =~= after.timer.timer);
            },
            Some(IoDevice::SerialCom) => {
                serial_communication::lemma_same_serial(self.serial_com, after.serial_com);
            },
            _ => {},
        }
    }

    /// A write keeps the scan line counter and the wave cursors in range.
    pub proof fn lemma_write_keeps_wf(self, address: usize, byte: u8)
        requires
            self.wf(),
        ensures
            self.spec_write(address, byte).wf(),
    {
    }
}

} // verus!
