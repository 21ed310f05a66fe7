//! The serial communication registers (SIO) at 4000120h..4000200h.
use vstd::prelude::*;
use vstd::array::*;

use crate::io_registers::{
    half_with_byte,
    read_byte_from_half_word,
    read_byte_from_word,
    word_with_byte,
    write_byte_to_half_word,
    write_byte_to_word,
};
use crate::memory::{byte16, byte32, MemoryPlugin};

verus! {

broadcast use vstd::array::group_array_axioms;

/// SIODATA (4000120h..4000128h), SIOCNT (4000128h), SIODATA8 (400012Ah),
/// RCNT (4000134h), JOYCNT (4000140h), JOY_RECV (4000150h), JOY_TRANS
/// (4000154h) and JOYSTAT (4000158h).
#[derive(Debug, Clone, Copy)]
pub struct SerialCommunication {
    pub data: [u16; 4],
    pub control_register: u16,
    pub data_2: u16,
    pub mode_select_general_purpose: u16,
    pub bus_control: u16,
    pub bus_receive_data: u32,
    pub bus_transmit_data: u32,
    pub bus_receive_status: u16,
}

impl Default for SerialCommunication {
    /// Every data register reads all ones; the rest is zero.
    fn default() -> (r: SerialCommunication)
        ensures
            r.data@ == seq![0xffffu16, 0xffffu16, 0xffffu16, 0xffffu16],
            r.data_2 == 0xffff,
            r.control_register == 0 && r.mode_select_general_purpose == 0 && r.bus_control == 0,
            r.bus_receive_data == 0 && r.bus_transmit_data == 0 && r.bus_receive_status == 0,
    {
        let r = SerialCommunication {
            data: [0xffffu16; 4],
            control_register: 0,
            data_2: 0xffff,
            mode_select_general_purpose: 0,
            bus_control: 0,
            bus_receive_data: 0,
            bus_transmit_data: 0,
            bus_receive_status: 0,
        };
        assert(r.data@ =~= seq![0xffffu16, 0xffffu16, 0xffffu16, 0xffffu16]);
        r
    }
}

/// Whether the two devices hold the same registers.
pub open spec fn same_serial(a: SerialCommunication, b: SerialCommunication) -> bool {
    &&& a.data@ == b.data@
    &&& a.control_register == b.control_register
    &&& a.data_2 == b.data_2
    &&& a.mode_select_general_purpose == b.mode_select_general_purpose
    &&& a.bus_control == b.bus_control
    &&& a.bus_receive_data == b.bus_receive_data
    &&& a.bus_transmit_data == b.bus_transmit_data
    &&& a.bus_receive_status == b.bus_receive_status
}

impl SerialCommunication {
    /// The data byte at offset `rel` (below 0xc) of the data block.
    pub open spec fn data_byte(self, rel: int) -> u8 {
        if rel > 8 {
            byte16(self.data_2, (rel - 0xa) as nat)
        } else {
            byte16(self.data@[rel / 2], (rel % 2) as nat)
        }
    }

    fn read_data(&self, relative_address: usize) -> (r: u8)
        requires
            relative_address < 8 || 0xa <= relative_address < 0xc,
        ensures
            r == self.data_byte(relative_address as int),
    {
        if relative_address > 8 {
            read_byte_from_half_word(self.data_2, relative_address - 0xa)
        } else {
            let index = relative_address / 2;
            let byte_index = relative_address % 2;
            read_byte_from_half_word(self.data[index], byte_index)
        }
    }

    fn write_data(&mut self, relative_address: usize, byte: u8)
        requires
            relative_address < 8 || 0xa <= relative_address < 0xc,
        ensures
            if relative_address > 8 {
                same_serial(
                    *final(self),
                    SerialCommunication {
                        data_2: half_with_byte(
                            old(self).data_2,
                            (relative_address - 0xa) as nat,
                            byte,
                        ),
                        ..*old(self)
                    },
                )
            } else {
                same_serial(
                    *final(self),
                    SerialCommunication {
                        data: spec_array_update(
                            old(self).data,
                            (relative_address / 2) as int,
                            half_with_byte(
                                old(self).data@[(relative_address / 2) as int],
                                (relative_address % 2) as nat,
                                byte,
                            ),
                        ),
                        ..*old(self)
                    },
                )
            },
    {
        if relative_address > 8 {
            write_byte_to_half_word(&mut self.data_2, relative_address - 0xa, byte);
        } else {
            let index = relative_address / 2;
            let byte_index = relative_address % 2;
            let mut value = self.data[index];
            write_byte_to_half_word(&mut value, byte_index, byte);
            self.data[index] = value;
        }
    }

    /// The device after writing `byte` to `address`; bytes that hold
    /// nothing are ignored.
    pub open spec fn spec_write(self, address: usize, byte: u8) -> SerialCommunication {
        let rel = address - 0x400_0000;
        if 0x120 <= rel < 0x128 {
            SerialCommunication {
                data: spec_array_update(
                    self.data,
                    (rel - 0x120) / 2,
                    half_with_byte(self.data@[(rel - 0x120) / 2], ((rel - 0x120) % 2) as nat, byte),
                ),
                ..self
            }
        } else if 0x128 <= rel < 0x12a {
            SerialCommunication {
                control_register: half_with_byte(self.control_register, (rel - 0x128) as nat, byte),
                ..self
            }
        } else if 0x12a <= rel < 0x12c {
            SerialCommunication {
                data_2: half_with_byte(self.data_2, (rel - 0x12a) as nat, byte),
                ..self
            }
        } else if 0x134 <= rel < 0x136 {
            SerialCommunication {
                mode_select_general_purpose: half_with_byte(
                    self.mode_select_general_purpose,
                    (rel - 0x134) as nat,
                    byte,
                ),
                ..self
            }
        } else if 0x140 <= rel < 0x142 {
            SerialCommunication {
                bus_control: half_with_byte(self.bus_control, (rel - 0x140) as nat, byte),
                ..self
            }
        } else if 0x150 <= rel < 0x154 {
            SerialCommunication {
                bus_receive_data: word_with_byte(self.bus_receive_data, (rel - 0x150) as nat, byte),
                ..self
            }
        } else if 0x154 <= rel < 0x158 {
            SerialCommunication {
                bus_transmit_data: word_with_byte(
                    self.bus_transmit_data,
                    (rel - 0x154) as nat,
                    byte,
                ),
                ..self
            }
        } else {
            self
        }
    }
}

impl MemoryPlugin for SerialCommunication {
    open spec fn claims(&self, address: usize) -> bool {
        (0x400_0120 <= address < 0x400_0130) || (0x400_0134 <= address < 0x400_0200)
    }

    /// Everything it claims but the infrared register at 4000136h.
    open spec fn readable(&self, address: usize) -> bool {
        self.claims(address) && !(0x400_0136 <= address < 0x400_0138)
    }

    open spec fn byte_at(&self, address: usize) -> u8 {
        let rel = address - 0x400_0000;
        if 0x120 <= rel < 0x128 || 0x12a <= rel < 0x12c {
            self.data_byte(rel - 0x120)
        } else if 0x128 <= rel < 0x12a {
            byte16(self.control_register, (rel - 0x128) as nat)
        } else if 0x134 <= rel < 0x136 {
            byte16(self.mode_select_general_purpose, (rel - 0x134) as nat)
        } else if 0x140 <= rel < 0x142 {
            byte16(self.bus_control, (rel - 0x140) as nat)
        } else if 0x150 <= rel < 0x154 {
            byte32(self.bus_receive_data, (rel - 0x150) as nat)
        } else if 0x154 <= rel < 0x158 {
            byte32(self.bus_transmit_data, (rel - 0x154) as nat)
        } else if 0x158 <= rel < 0x15a {
            byte16(self.bus_receive_status, (rel - 0x158) as nat)
        } else {
            0
        }
    }

    /// Everything it claims, except a write that would enable the serial
    /// interrupt in SIOCNT, which is not emulated.
    open spec fn writable(&self, address: usize, byte: u8) -> bool {
        &&& self.claims(address)
        &&& 0x400_0128 <= address < 0x400_012a ==> half_with_byte(
            self.control_register,
            (address - 0x400_0128) as nat,
            byte,
        ) & 0x40 == 0
    }

    open spec fn wrote(&self, before: SerialCommunication, address: usize, byte: u8) -> bool {
        same_serial(*self, before.spec_write(address, byte))
    }

    open spec fn was_reset(&self, before: SerialCommunication) -> bool {
        same_serial(*self, before)
    }

    fn claims_address(&self, address: usize) -> (r: bool) {
        (0x400_0120 <= address && address < 0x400_0130) || (0x400_0134 <= address && address
            < 0x400_0200)
    }

    fn reset(&mut self) {
    }

    fn read_byte(&self, address: usize) -> (r: u8) {
        let rel = address - 0x400_0000;
        if (0x120 <= rel && rel < 0x128) || (0x12a <= rel && rel < 0x12c) {
            self.read_data(rel - 0x120)
        } else if 0x128 <= rel && rel < 0x12a {
            read_byte_from_half_word(self.control_register, rel - 0x128)
        } else if 0x134 <= rel && rel < 0x136 {
            read_byte_from_half_word(self.mode_select_general_purpose, rel - 0x134)
        } else if 0x140 <= rel && rel < 0x142 {
            read_byte_from_half_word(self.bus_control, rel - 0x140)
        } else if 0x150 <= rel && rel < 0x154 {
            read_byte_from_word(self.bus_receive_data, rel - 0x150)
        } else if 0x154 <= rel && rel < 0x158 {
            read_byte_from_word(self.bus_transmit_data, rel - 0x154)
        } else if 0x158 <= rel && rel < 0x15a {
            read_byte_from_half_word(self.bus_receive_status, rel - 0x158)
        } else {
            0
        }
    }

    fn write_byte(&mut self, address: usize, byte: u8) {
        let rel = address - 0x400_0000;
        if (0x120 <= rel && rel < 0x128) || (0x12a <= rel && rel < 0x12c) {
            self.write_data(rel - 0x120, byte);
        } else if 0x128 <= rel && rel < 0x12a {
            write_byte_to_half_word(&mut self.control_register, rel - 0x128, byte);
        } else if 0x134 <= rel && rel < 0x136 {
            write_byte_to_half_word(&mut self.mode_select_general_purpose, rel - 0x134, byte);
        } else if 0x140 <= rel && rel < 0x142 {
            write_byte_to_half_word(&mut self.bus_control, rel - 0x140, byte);
        } else if 0x150 <= rel && rel < 0x154 {
            write_byte_to_word(&mut self.bus_receive_data, rel - 0x150, byte);
        } else if 0x154 <= rel && rel < 0x158 {
            write_byte_to_word(&mut self.bus_transmit_data, rel - 0x154, byte);
        }
    }
}

/// Devices that hold the same registers are equal.
pub proof fn lemma_same_serial(a: SerialCommunication, b: SerialCommunication)
    requires
        same_serial(a, b),
    ensures
        a == b,
{
    assert(a.data =~= b.data);
}

} // verus!
