//! The registers of the four DMA channels.
use vstd::prelude::*;
use vstd::array::*;

use crate::io_registers::{
    half_with_byte, read_byte_from_half_word, word_with_byte, write_byte_to_half_word,
    write_byte_to_word,
};
use crate::memory::{byte16, MemoryPlugin};

verus! {

broadcast use vstd::array::group_array_axioms;

/// Source, destination, word count and control of one DMA channel.
#[derive(Debug, Clone, Copy, PartialEq, Eq, Structural)]
pub struct DmaChannel {
    pub source_address: u32,
    pub destination_address: u32,
    pub word_count: u16,
    pub control: u16,
}

/// The address of the same register in channel 0's block.
pub open spec fn dma_normalized(address: usize) -> usize {
    if address < 0x400_00BC {
        address
    } else if address < 0x400_00C8 {
        (address - 0x400_00BC + 0x400_00B0) as usize
    } else if address < 0x400_00D4 {
        (address - 0x400_00C8 + 0x400_00B0) as usize
    } else {
        (address - 0x400_00D4 + 0x400_00B0) as usize
    }
}

/// The channel whose block holds `address`.
pub open spec fn dma_channel_of(address: usize) -> usize {
    if address < 0x400_00BC {
        0
    } else if address < 0x400_00C8 {
        1
    } else if address < 0x400_00D4 {
        2
    } else {
        3
    }
}

impl DmaChannel {
    pub fn new() -> (r: DmaChannel)
        ensures
            r == (DmaChannel { source_address: 0, destination_address: 0, word_count: 0, control: 0 }),
    {
        DmaChannel { source_address: 0, destination_address: 0, word_count: 0, control: 0 }
    }

    /// The address of the same register in channel 0's block.
    pub fn normalize_address(address: usize) -> (r: usize)
        requires
            0x400_00B0 <= address < 0x400_00E0,
        ensures
            r == dma_normalized(address),
            0x400_00B0 <= r < 0x400_00BC,
    {
        if address < 0x400_00BC {
            address
        } else if address < 0x400_00C8 {
            address - 0x400_00BC + 0x400_00B0
        } else if address < 0x400_00D4 {
            address - 0x400_00C8 + 0x400_00B0
        } else {
            address - 0x400_00D4 + 0x400_00B0
        }
    }

    /// The channel after writing `byte` to `address` of any channel's
    /// block.
    pub open spec fn spec_write(self, address: usize, byte: u8) -> DmaChannel {
        let rel = dma_normalized(address) - 0x400_0000;
        if rel < 0xb4 {
            DmaChannel {
                source_address: word_with_byte(self.source_address, (rel - 0xb0) as nat, byte),
                ..self
            }
        } else if rel < 0xb8 {
            DmaChannel {
                destination_address: word_with_byte(
                    self.destination_address,
                    (rel - 0xb4) as nat,
                    byte,
                ),
                ..self
            }
        } else if rel < 0xba {
            DmaChannel { word_count: half_with_byte(self.word_count, (rel - 0xb8) as nat, byte), ..self }
        } else {
            DmaChannel { control: half_with_byte(self.control, (rel - 0xba) as nat, byte), ..self }
        }
    }
}

impl MemoryPlugin for DmaChannel {
    open spec fn claims(&self, address: usize) -> bool {
        0x400_00B0 <= address < 0x400_0100
    }

    open spec fn readable(&self, address: usize) -> bool {
        0x400_00B0 <= address < 0x400_00E0
    }

    /// The address registers are write-only and read as zero.
    open spec fn byte_at(&self, address: usize) -> u8 {
        let rel = dma_normalized(address) - 0x400_0000;
        if rel < 0xba {
            0
        } else {
            byte16(self.control, (rel - 0xba) as nat)
        }
    }

    open spec fn writable(&self, address: usize, byte: u8) -> bool {
        0x400_00B0 <= address < 0x400_00E0
    }

    open spec fn wrote(&self, before: DmaChannel, address: usize, byte: u8) -> bool {
        *self == before.spec_write(address, byte)
    }

    open spec fn was_reset(&self, before: DmaChannel) -> bool {
        *self == before
    }

    fn claims_address(&self, address: usize) -> (r: bool) {
        0x400_00B0 <= address && address < 0x400_0100
    }

    fn reset(&mut self) {
    }

    fn read_byte(&self, address: usize) -> (r: u8) {
        let relative_address = Self::normalize_address(address) - 0x400_0000;
        if relative_address < 0xba {
            0
        } else {
            read_byte_from_half_word(self.control, relative_address - 0xba)
        }
    }

    fn write_byte(&mut self, address: usize, byte: u8) {
        let relative_address = Self::normalize_address(address) - 0x400_0000;
        if relative_address < 0xb4 {
            write_byte_to_word(&mut self.source_address, relative_address - 0xb0, byte)
        } else if relative_address < 0xb8 {
            write_byte_to_word(&mut self.destination_address, relative_address - 0xb4, byte)
        } else if relative_address < 0xba {
            write_byte_to_half_word(&mut self.word_count, relative_address - 0xb8, byte)
        } else {
            write_byte_to_half_word(&mut self.control, relative_address - 0xba, byte)
        }
    }
}

/// The registers of the four DMA channels (40000B0h-40000FFh).
#[derive(Debug, Clone, Copy)]
pub struct Dma {
    pub channels: [DmaChannel; 4],
}

impl Dma {
    pub fn new() -> (r: Dma)
        ensures
            forall|i: int| 0 <= i < 4 ==> r.channels@[i] == (DmaChannel {
                source_address: 0,
                destination_address: 0,
                word_count: 0,
                control: 0,
            }),
    {
        Dma { channels: [DmaChannel::new(), DmaChannel::new(), DmaChannel::new(), DmaChannel::new()] }
    }

    /// The channel whose block holds `address`.
    pub fn address_to_index(address: usize) -> (r: usize)
        requires
            0x400_00B0 <= address < 0x400_00E0,
        ensures
            r == dma_channel_of(address),
            r < 4,
    {
        if address < 0x400_00BC {
            0
        } else if address < 0x400_00C8 {
            1
        } else if address < 0x400_00D4 {
            2
        } else {
            3
        }
    }

    /// The channels after writing `byte` to `address`; the addresses above
    /// the channels ignore writes.
    pub open spec fn spec_write(self, address: usize, byte: u8) -> Dma {
        if 0x400_00E0 <= address {
            self
        } else {
            let index = dma_channel_of(address);
            Dma {
                channels: spec_array_update(
                    self.channels,
                    index as int,
                    self.channels@[index as int].spec_write(address, byte),
                ),
            }
        }
    }
}

impl MemoryPlugin for Dma {
    open spec fn claims(&self, address: usize) -> bool {
        0x400_00B0 <= address < 0x400_0100
    }

    open spec fn readable(&self, address: usize) -> bool {
        self.claims(address)
    }

    open spec fn byte_at(&self, address: usize) -> u8 {
        if 0x400_00E0 <= address {
            0
        } else {
            self.channels@[dma_channel_of(address) as int].byte_at(address)
        }
    }

    open spec fn writable(&self, address: usize, byte: u8) -> bool {
        self.claims(address)
    }

    open spec fn wrote(&self, before: Dma, address: usize, byte: u8) -> bool {
        self.channels@ == before.spec_write(address, byte).channels@
    }

    open spec fn was_reset(&self, before: Dma) -> bool {
        self.channels@ == before.channels@
    }

    fn claims_address(&self, address: usize) -> (r: bool) {
        0x400_00B0 <= address && address < 0x400_0100
    }

    fn reset(&mut self) {
    }

    fn read_byte(&self, address: usize) -> (r: u8) {
        if 0x400_00E0 <= address {
            0
        } else {
            self.channels[Self::address_to_index(address)].read_byte(address)
        }
    }

    fn write_byte(&mut self, address: usize, byte: u8) {
        if 0x400_00E0 <= address {
            return;
        }
        let index = Self::address_to_index(address);
        let mut channel = self.channels[index];
        channel.write_byte(address, byte);
        self.channels[index] = channel;
    }
}

} // verus!
