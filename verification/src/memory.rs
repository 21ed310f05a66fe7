//! The memory bus: devices that claim address ranges, and plain RAM.
use vstd::prelude::*;
use vstd::slice::slice_subrange;
use std::collections::VecDeque;

use crate::interrupts::Interrupt;
use crate::io_registers::GbaIo;
use crate::io_registers::lcd::{tile_bytes, tile_pixels, Lcd, PixelFormat};

verus! {

/// The half word whose little-endian bytes are `lo` and `hi`.
pub open spec fn le16(lo: u8, hi: u8) -> u16 {
    (lo as u16) | ((hi as u16) << 8u16)
}

/// The word whose little-endian bytes are `b0` to `b3`.
pub open spec fn le32(b0: u8, b1: u8, b2: u8, b3: u8) -> u32 {
    (b0 as u32) | ((b1 as u32) << 8u32) | ((b2 as u32) << 16u32) | ((b3 as u32) << 24u32)
}

/// Byte `i` (0 the lowest) of a half word.
pub open spec fn byte16(v: u16, i: nat) -> u8 {
    if i == 0 {
        (v & 0xff) as u8
    } else {
        ((v >> 8u16) & 0xff) as u8
    }
}

/// Byte `i` (0 the lowest) of a word.
pub open spec fn byte32(v: u32, i: nat) -> u8 {
    if i == 0 {
        (v & 0xff) as u8
    } else if i == 1 {
        ((v >> 8u32) & 0xff) as u8
    } else if i == 2 {
        ((v >> 16u32) & 0xff) as u8
    } else {
        ((v >> 24u32) & 0xff) as u8
    }
}

fn le16_exec(lo: u8, hi: u8) -> (r: u16)
    ensures
        r == le16(lo, hi),
{
    (lo as u16) | ((hi as u16) << 8u16)
}

fn le32_exec(b0: u8, b1: u8, b2: u8, b3: u8) -> (r: u32)
    ensures
        r == le32(b0, b1, b2, b3),
{
    (b0 as u32) | ((b1 as u32) << 8u32) | ((b2 as u32) << 16u32) | ((b3 as u32) << 24u32)
}

pub fn byte16_exec(v: u16, i: usize) -> (r: u8)
    requires
        i < 2,
    ensures
        r == byte16(v, i as nat),
{
    if i == 0 {
        (v & 0xff) as u8
    } else {
        ((v >> 8u16) & 0xff) as u8
    }
}

pub fn byte32_exec(v: u32, i: usize) -> (r: u8)
    requires
        i < 4,
    ensures
        r == byte32(v, i as nat),
{
    if i == 0 {
        (v & 0xff) as u8
    } else if i == 1 {
        ((v >> 8u32) & 0xff) as u8
    } else if i == 2 {
        ((v >> 16u32) & 0xff) as u8
    } else {
        ((v >> 24u32) & 0xff) as u8
    }
}

/// Splitting a half word into its bytes and joining them again gives it back.
pub proof fn lemma_le16_bytes(v: u16)
    ensures
        le16(byte16(v, 0), byte16(v, 1)) == v,
{
    let lo = (v & 0xff) as u8;
    let hi = ((v >> 8u16) & 0xff) as u8;
    assert((lo as u16) | ((hi as u16) << 8u16) == v) by (bit_vector)
        requires
            lo == (v & 0xff) as u8,
            hi == ((v >> 8u16) & 0xff) as u8,
    ;
}

/// Splitting a word into its bytes and joining them again gives it back.
pub proof fn lemma_le32_bytes(v: u32)
    ensures
        le32(byte32(v, 0), byte32(v, 1), byte32(v, 2), byte32(v, 3)) == v,
{
    let b0 = (v & 0xff) as u8;
    let b1 = ((v >> 8u32) & 0xff) as u8;
    let b2 = ((v >> 16u32) & 0xff) as u8;
    let b3 = ((v >> 24u32) & 0xff) as u8;
    assert((b0 as u32) | ((b1 as u32) << 8u32) | ((b2 as u32) << 16u32) | ((b3 as u32) << 24u32)
        == v) by (bit_vector)
        requires
            b0 == (v & 0xff) as u8,
            b1 == ((v >> 8u32) & 0xff) as u8,
            b2 == ((v >> 16u32) & 0xff) as u8,
            b3 == ((v >> 24u32) & 0xff) as u8,
    ;
}

/// The bytes of a word put together from four bytes are those bytes.
pub proof fn lemma_bytes_of_le32(b0: u8, b1: u8, b2: u8, b3: u8)
    ensures
        byte32(le32(b0, b1, b2, b3), 0) == b0,
        byte32(le32(b0, b1, b2, b3), 1) == b1,
        byte32(le32(b0, b1, b2, b3), 2) == b2,
        byte32(le32(b0, b1, b2, b3), 3) == b3,
{
    let v = le32(b0, b1, b2, b3);
    assert(((v & 0xff) as u8 == b0 && ((v >> 8u32) & 0xff) as u8 == b1 && ((v >> 16u32) & 0xff) as u8
        == b2 && ((v >> 24u32) & 0xff) as u8 == b3)) by (bit_vector)
        requires
            v == (b0 as u32) | ((b1 as u32) << 8u32) | ((b2 as u32) << 16u32) | ((b3 as u32) << 24u32),
    ;
}

/// A device on the memory bus: it claims a range of addresses and reads and
/// writes bytes there.
pub trait MemoryPlugin: Sized {
    /// Whether the device answers for `address`.
    spec fn claims(&self, address: usize) -> bool;

    /// Whether reading `address` is defined.
    spec fn readable(&self, address: usize) -> bool;

    /// The byte that reading `address` gives.
    spec fn byte_at(&self, address: usize) -> u8;

    /// Whether writing `byte` to `address` is defined.
    spec fn writable(&self, address: usize, byte: u8) -> bool;

    /// Whether the device is what writing `byte` to `address` makes of
    /// `before`.
    spec fn wrote(&self, before: Self, address: usize, byte: u8) -> bool;

    /// Whether the device is what a reset makes of `before`.
    spec fn was_reset(&self, before: Self) -> bool;

    fn claims_address(&self, address: usize) -> (r: bool)
        ensures
            r == self.claims(address),
    ;

    fn reset(&mut self)
        ensures
            final(self).was_reset(*old(self)),
    ;

    fn read_byte(&self, address: usize) -> (r: u8)
        requires
            self.readable(address),
        ensures
            r == self.byte_at(address),
    ;

    fn write_byte(&mut self, address: usize, byte: u8)
        requires
            old(self).writable(address, byte),
        ensures
            final(self).wrote(*old(self), address, byte),
    ;

    /// The little-endian half word at `address`.
    fn read_half_word(&self, address: usize) -> (r: u16)
        requires
            address + 1 <= usize::MAX,
            self.readable(address),
            self.readable((address + 1) as usize),
        ensures
            r == le16(self.byte_at(address), self.byte_at((address + 1) as usize)),
    {
        let lo = self.read_byte(address);
        let hi = self.read_byte(address + 1);
        le16_exec(lo, hi)
    }

    /// The little-endian word at `address`.
    fn read_word(&self, address: usize) -> (r: u32)
        requires
            address + 3 <= usize::MAX,
            self.readable(address),
            self.readable((address + 1) as usize),
            self.readable((address + 2) as usize),
            self.readable((address + 3) as usize),
        ensures
            r == le32(
                self.byte_at(address),
                self.byte_at((address + 1) as usize),
                self.byte_at((address + 2) as usize),
                self.byte_at((address + 3) as usize),
            ),
    {
        let b0 = self.read_byte(address);
        let b1 = self.read_byte(address + 1);
        let b2 = self.read_byte(address + 2);
        let b3 = self.read_byte(address + 3);
        le32_exec(b0, b1, b2, b3)
    }

}

/// A block of plain RAM starting at a fixed address.
pub struct SimpleMemory {
    data: Vec<u8>,
    start: usize,
}

impl SimpleMemory {
    /// The bytes of the block.
    pub closed spec fn bytes(&self) -> Seq<u8> {
        self.data@
    }

    /// The address of the first byte.
    pub closed spec fn start(&self) -> usize {
        self.start
    }

    /// Whether the block fits in the address space.
    pub open spec fn wf(&self) -> bool {
        self.start() + self.bytes().len() <= usize::MAX
    }

    /// A zeroed block of `size` bytes at `start`.
    pub fn new(start: usize, size: usize) -> (r: SimpleMemory)
        requires
            start + size <= usize::MAX,
        ensures
            r.start() == start,
            r.bytes() == Seq::new(size as nat, |i: int| 0u8),
            r.wf(),
    {
        let data: Vec<u8> = vec![0u8; size];
        proof {
            assert(data@ =~= Seq::new(size as nat, |i: int| 0u8));
        }
        SimpleMemory { data, start }
    }

    /// The bytes of the block.
    pub fn as_bytes(&self) -> (r: &[u8])
        ensures
            r@ == self.bytes(),
    {
        self.data.as_slice()
    }
}

impl MemoryPlugin for SimpleMemory {
    open spec fn claims(&self, address: usize) -> bool {
        self.start() <= address < self.start() + self.bytes().len()
    }

    open spec fn readable(&self, address: usize) -> bool {
        self.claims(address)
    }

    open spec fn byte_at(&self, address: usize) -> u8 {
        self.bytes()[address - self.start()]
    }

    open spec fn writable(&self, address: usize, byte: u8) -> bool {
        self.claims(address)
    }

    open spec fn wrote(&self, before: SimpleMemory, address: usize, byte: u8) -> bool {
        &&& self.start() == before.start()
        &&& self.bytes() == before.bytes().update(address - before.start(), byte)
    }

    open spec fn was_reset(&self, before: SimpleMemory) -> bool {
        self.start() == before.start() && self.bytes() == before.bytes()
    }

    fn claims_address(&self, address: usize) -> (r: bool) {
        self.start <= address && address - self.start < self.data.len()
    }

    fn reset(&mut self) {
    }

    fn read_byte(&self, address: usize) -> (r: u8) {
        self.data[address - self.start]
    }

    fn write_byte(&mut self, address: usize, byte: u8) {
        let i = address - self.start;
        self.data.set(i, byte);
    }
}

/// The game pak's ROM, mirrored three times from 8000000h to DFFFFFFh.
pub struct Cartridge {
    raw: Vec<u8>,
}

impl Cartridge {
    /// The bytes of the ROM image.
    pub closed spec fn bytes(&self) -> Seq<u8> {
        self.raw@
    }

    pub fn new(raw: Vec<u8>) -> (r: Cartridge)
        ensures
            r.bytes() == raw@,
    {
        Cartridge { raw }
    }

    /// `address` folded into the first mirror (below A000000h).
    pub open spec fn normalized(address: int) -> int
        decreases address,
    {
        if address >= 0xA00_0000 {
            Self::normalized(address - 0x200_0000)
        } else {
            address
        }
    }

    pub proof fn lemma_normalized(address: int)
        requires
            0x800_0000 <= address,
        ensures
            0x800_0000 <= Self::normalized(address) < 0xA00_0000,
            Self::normalized(address) <= address,
        decreases address,
    {
        if address >= 0xA00_0000 {
            Self::lemma_normalized(address - 0x200_0000);
        }
    }

    pub fn normalize_address(address: usize) -> (r: usize)
        ensures
            r == Self::normalized(address as int),
    {
        let original = address;
        let mut address = address;
        while address >= 0xA00_0000
            invariant
                Self::normalized(address as int) == Self::normalized(original as int),
            decreases address,
        {
            address = address - 0x200_0000;
        }
        address
    }

    /// The offset in the ROM image of a claimed address.
    pub open spec fn offset(address: usize) -> int {
        Self::normalized(address as int) - 0x800_0000
    }

    fn offset_exec(address: usize) -> (r: usize)
        requires
            0x800_0000 <= address,
        ensures
            r == Self::offset(address),
    {
        let normalized = Self::normalize_address(address);
        proof {
            Self::lemma_normalized(address as int);
        }
        assert(normalized & !0x800_0000usize == normalized - 0x800_0000) by (bit_vector)
            requires
                0x800_0000 <= normalized < 0xA00_0000,
        ;
        normalized & !0x800_0000usize
    }
}

impl MemoryPlugin for Cartridge {
    open spec fn claims(&self, address: usize) -> bool {
        0x800_0000 <= address < 0xE00_0000
    }

    open spec fn readable(&self, address: usize) -> bool {
        self.claims(address)
    }

    /// Bytes past the end of the image read as zero.
    open spec fn byte_at(&self, address: usize) -> u8 {
        if Self::offset(address) < self.bytes().len() {
            self.bytes()[Self::offset(address)]
        } else {
            0
        }
    }

    open spec fn writable(&self, address: usize, byte: u8) -> bool {
        self.claims(address) && Self::offset(address) < self.bytes().len()
    }

    open spec fn wrote(&self, before: Cartridge, address: usize, byte: u8) -> bool {
        self.bytes() == before.bytes().update(Self::offset(address), byte)
    }

    open spec fn was_reset(&self, before: Cartridge) -> bool {
        self.bytes() == before.bytes()
    }

    fn claims_address(&self, address: usize) -> (r: bool) {
        0x800_0000 <= address && address < 0xE00_0000
    }

    fn reset(&mut self) {
    }

    fn read_byte(&self, address: usize) -> (r: u8) {
        let relative_address = Self::offset_exec(address);
        if relative_address < self.raw.len() {
            self.raw[relative_address]
        } else {
            0
        }
    }

    fn write_byte(&mut self, address: usize, byte: u8) {
        let relative_address = Self::offset_exec(address);
        self.raw.set(relative_address, byte);
    }
}

/// The bytes that were read, and the bytes that were overwritten with
/// their old and new values.
pub struct MemoryWatcher {
    pub reads: VecDeque<(u32, u8)>,
    pub writes: VecDeque<(u32, u8, u8)>,
}

impl MemoryWatcher {
    pub fn new() -> (r: MemoryWatcher)
        ensures
            r.reads@ == Seq::<(u32, u8)>::empty(),
            r.writes@ == Seq::<(u32, u8, u8)>::empty(),
    {
        MemoryWatcher { reads: VecDeque::new(), writes: VecDeque::new() }
    }
}

/// The size of the flat memory behind the devices.
pub const RAW_SIZE: usize = 0x0FFF_FFFF;

/// Where a bus address is served.
#[derive(Debug, Clone, Copy, PartialEq, Eq, Structural)]
pub enum BusDevice {
    Cartridge,
    ColorRam,
    Vram,
    ObjRam,
    Io,
    Raw,
}

/// Why an address cannot be used.
#[derive(Debug, Clone, Copy, PartialEq, Eq, Structural)]
pub enum MemoryProtection {
    BiosOnly,
}

/// The contents of the bus.
pub struct MemoryView {
    pub raw: Seq<u8>,
    pub cartridge: Seq<u8>,
    pub color_ram: Seq<u8>,
    pub vram: Seq<u8>,
    pub obj_ram: Seq<u8>,
    pub io: GbaIo,
    pub reads: Seq<(u32, u8)>,
    pub writes: Seq<(u32, u8, u8)>,
    pub ip: u32,
}

/// The low 28 bits of an address above the 28-bit range.
pub open spec fn low_address(a: usize) -> usize {
    if a >= 0x1000_0000 {
        a & 0x0FFF_FFFF
    } else {
        a
    }
}

/// The address below 10000000h that a 28-bit address mirrors.
pub open spec fn mirror_below(a: usize) -> usize {
    if 0x200_0000 <= a <= 0x2ff_ffff {
        a & 0x203_FFFF
    } else if 0x300_0000 <= a <= 0x3ff_ffff {
        a & 0x300_7FFF
    } else if 0x500_0000 <= a <= 0x5ff_ffff {
        a & 0x500_03FF
    } else if 0x601_7FFF <= a <= 0x603_ffff {
        a & 0x601_7FFF
    } else if 0x604_0000 <= a <= 0x6ff_ffff {
        let b = a & 0x603_FFFF;
        if 0x601_7FFF <= b {
            b & 0x601_7FFF
        } else {
            b
        }
    } else if 0x700_0000 <= a <= 0x7ff_ffff {
        a & 0x700_03FF
    } else if 0xe00_0000 <= a <= 0xFFF_FFFF {
        a & 0xE00_FFFF
    } else {
        a
    }
}

/// The address that `a` mirrors.
pub open spec fn mirrored(a: usize) -> usize {
    mirror_below(low_address(a))
}

/// Whether `a` falls into the unused area 4000h..1FFFFFFh, whose reads the
/// hardware answers with prefetched opcodes, which is not emulated.
pub open spec fn is_unpredictable(a: usize) -> bool {
    0x4000 <= low_address(a) <= 0x1FF_FFFF
}

pub proof fn lemma_mirrored_bound(a: usize)
    requires
        a <= 0xffff_ffff,
    ensures
        mirrored(a) <= 0xE00_FFFF || (0x800_0000 <= mirrored(a) < 0xE00_0000),
        mirrored(a) < 0x1000_0000,
{
    let l = low_address(a);
    assert(a >= 0x1000_0000 ==> a & 0x0FFF_FFFF < 0x1000_0000) by (bit_vector);
    let b = l & 0x603_FFFF;
    assert(l & 0x203_FFFF <= 0x203_FFFF && l & 0x300_7FFF <= 0x300_7FFF && l & 0x500_03FF
        <= 0x500_03FF && l & 0x601_7FFF <= 0x601_7FFF && l & 0x700_03FF <= 0x700_03FF && l
        & 0xE00_FFFF <= 0xE00_FFFF && b <= 0x603_FFFF && b & 0x601_7FFF <= 0x601_7FFF)
        by (bit_vector)
        requires
            b == l & 0x603_FFFF,
    ;
}

impl MemoryView {
    /// Whether `a` can be mapped: it is not in the unused area, and once
    /// execution left the BIOS the BIOS cannot be read.
    pub open spec fn can_map(self, a: usize) -> bool {
        !is_unpredictable(a) && !(self.ip >= 0x4000 && mirrored(a) <= 0x3fff)
    }

    /// The device that answers for the mapped address `m`, in the order
    /// the bus asks them.
    pub open spec fn device_of(self, m: usize) -> BusDevice {
        if 0x800_0000 <= m < 0xE00_0000 {
            BusDevice::Cartridge
        } else if 0x500_0000 <= m < 0x500_0400 {
            BusDevice::ColorRam
        } else if 0x600_0000 <= m < 0x601_8000 {
            BusDevice::Vram
        } else if 0x700_0000 <= m < 0x700_0400 {
            BusDevice::ObjRam
        } else if self.io.claims(m) {
            BusDevice::Io
        } else {
            BusDevice::Raw
        }
    }

    /// Whether device `d` can read address `a`.
    pub open spec fn readable_in(self, d: BusDevice, a: usize) -> bool {
        match d {
            BusDevice::Cartridge => 0x800_0000 <= a < 0xE00_0000,
            BusDevice::ColorRam => 0x500_0000 <= a < 0x500_0400,
            BusDevice::Vram => 0x600_0000 <= a < 0x601_8000,
            BusDevice::ObjRam => 0x700_0000 <= a < 0x700_0400,
            BusDevice::Io => self.io.readable(a),
            BusDevice::Raw => a < RAW_SIZE,
        }
    }

    /// The byte device `d` answers for address `a`.
    pub open spec fn byte_in(self, d: BusDevice, a: usize) -> u8 {
        match d {
            BusDevice::Cartridge => {
                let off = Cartridge::offset(a);
                if off < self.cartridge.len() {
                    self.cartridge[off]
                } else {
                    0
                }
            },
            BusDevice::ColorRam => self.color_ram[a - 0x500_0000],
            BusDevice::Vram => self.vram[a - 0x600_0000],
            BusDevice::ObjRam => self.obj_ram[a - 0x700_0000],
            BusDevice::Io => self.io.byte_at(a),
            BusDevice::Raw => self.raw[a as int],
        }
    }

    /// Whether device `d` accepts `byte` at address `a`.
    pub open spec fn writable_in(self, d: BusDevice, a: usize, byte: u8) -> bool {
        match d {
            BusDevice::Cartridge => 0x800_0000 <= a < 0xE00_0000 && Cartridge::offset(a)
                < self.cartridge.len(),
            BusDevice::ColorRam => 0x500_0000 <= a < 0x500_0400,
            BusDevice::Vram => 0x600_0000 <= a < 0x601_8000,
            BusDevice::ObjRam => 0x700_0000 <= a < 0x700_0400,
            BusDevice::Io => self.io.writable(a, byte),
            BusDevice::Raw => a < RAW_SIZE,
        }
    }

    /// The contents after device `d` took `byte` at address `a`.
    pub open spec fn write_in(self, d: BusDevice, a: usize, byte: u8) -> MemoryView {
        match d {
            BusDevice::Cartridge => MemoryView {
                cartridge: self.cartridge.update(Cartridge::offset(a), byte),
                ..self
            },
            BusDevice::ColorRam => MemoryView {
                color_ram: self.color_ram.update(a - 0x500_0000, byte),
                ..self
            },
            BusDevice::Vram => MemoryView { vram: self.vram.update(a - 0x600_0000, byte), ..self },
            BusDevice::ObjRam => MemoryView {
                obj_ram: self.obj_ram.update(a - 0x700_0000, byte),
                ..self
            },
            BusDevice::Io => MemoryView { io: self.io.spec_write(a, byte), ..self },
            BusDevice::Raw => MemoryView { raw: self.raw.update(a as int, byte), ..self },
        }
    }

    /// The byte at `address`.
    pub open spec fn byte(self, address: u32) -> u8 {
        let m = mirrored(address as usize);
        self.byte_in(self.device_of(m), m)
    }

    /// Whether the `n` bytes from `address` can be read from the device that
    /// answers for the first.
    pub open spec fn can_read(self, address: u32, n: int) -> bool {
        let m = mirrored(address as usize);
        &&& self.can_map(address as usize)
        &&& forall|i: int| 0 <= i < n ==> #[trigger] self.readable_in(self.device_of(m), (m + i) as usize)
    }

    /// Byte `i` of a read of several bytes at `address`.
    pub open spec fn byte_of(self, address: u32, i: int) -> u8 {
        let m = mirrored(address as usize);
        self.byte_in(self.device_of(m), (m + i) as usize)
    }

    /// The half word at the even `address`.
    pub open spec fn half_word(self, address: u32) -> u16 {
        le16(self.byte_of(address, 0), self.byte_of(address, 1))
    }

    /// The word at the word-aligned `address`.
    pub open spec fn word(self, address: u32) -> u32 {
        le32(
            self.byte_of(address, 0),
            self.byte_of(address, 1),
            self.byte_of(address, 2),
            self.byte_of(address, 3),
        )
    }

    /// The contents after reading the `n` bytes at `address`, each logged.
    pub open spec fn logged_reads(self, address: u32, n: nat) -> MemoryView
        decreases n,
    {
        if n == 0 {
            self
        } else {
            let m = mirrored(address as usize);
            let prev = self.logged_reads(address, (n - 1) as nat);
            MemoryView {
                reads: prev.reads.push(((m + n - 1) as u32, self.byte_of(address, n - 1))),
                ..prev
            }
        }
    }

    /// Reading `n` bytes logs them, in order, with their addresses, and
    /// changes nothing else.
    pub proof fn lemma_logged_reads(self, address: u32, n: nat)
        ensures
            self.logged_reads(address, n) == (MemoryView {
                reads: self.reads + Seq::new(
                    n,
                    |i: int| ((mirrored(address as usize) + i) as u32, self.byte_of(address, i)),
                ),
                ..self
            }),
        decreases n,
    {
        if n > 0 {
            self.lemma_logged_reads(address, (n - 1) as nat);
            let m = mirrored(address as usize);
            assert(self.reads + Seq::new(n, |i: int| ((m + i) as u32, self.byte_of(address, i))) =~= (
            self.reads + Seq::new((n - 1) as nat, |i: int| ((m + i) as u32, self.byte_of(address, i))))
                .push(((m + n - 1) as u32, self.byte_of(address, n - 1)))
            );
        } else {
            assert(self.reads + Seq::new(0, |i: int| ((mirrored(address as usize) + i) as u32, self.byte_of(address, i))) =~= self.reads);
        }
    }

    /// Whether the first `n` addresses of the BIOS are hit by a write of
    /// `n` bytes at `address`: such writes are dropped.
    pub open spec fn is_read_only(address: u32, n: u32) -> bool {
        address <= 0x3FFF || address + n <= 0x3FFF
    }

    /// Whether the `n` bytes of `new_bytes` can be written at `address` by
    /// the device that answers for it (each is read first, for the log).
    pub open spec fn can_write(self, address: u32, new_bytes: Seq<u8>) -> bool {
        let m = mirrored(address as usize);
        &&& self.can_read(address, new_bytes.len() as int)
        &&& forall|i: int|
            0 <= i < new_bytes.len() ==> #[trigger] self.written(address, new_bytes, i).writable_in(
                self.device_of(m),
                (m + i) as usize,
                new_bytes[i],
            )
    }

    /// The contents after writing the first `i` bytes of `new_bytes` at
    /// `address`, after logging them all.
    pub open spec fn written(self, address: u32, new_bytes: Seq<u8>, i: int) -> MemoryView
        decreases i,
    {
        let m = mirrored(address as usize);
        if i <= 0 {
            MemoryView {
                writes: self.writes + Seq::new(
                    new_bytes.len(),
                    |k: int| ((m + k) as u32, self.byte_of(address, k), new_bytes[k]),
                ),
                ..self
            }
        } else {
            self.written(address, new_bytes, i - 1).write_in(
                self.device_of(m),
                (m + i - 1) as usize,
                new_bytes[i - 1],
            )
        }
    }

    /// The contents after a write of `new_bytes` at `address`.
    pub open spec fn after_write(self, address: u32, new_bytes: Seq<u8>) -> MemoryView {
        if Self::is_read_only(address, new_bytes.len() as u32) {
            self
        } else {
            self.written(address, new_bytes, new_bytes.len() as int)
        }
    }
}

/// The bytes of a half word, lowest first.
pub open spec fn half_bytes(v: u16) -> Seq<u8> {
    seq![byte16(v, 0), byte16(v, 1)]
}

/// The bytes of a word, lowest first.
pub open spec fn word_bytes(v: u32) -> Seq<u8> {
    seq![byte32(v, 0), byte32(v, 1), byte32(v, 2), byte32(v, 3)]
}

/// The whole address space: the BIOS and work RAM, the devices and the
/// game pak.
pub struct Memory {
    raw: Vec<u8>,
    pub cartridge: Cartridge,
    pub color_ram: SimpleMemory,
    pub vram: SimpleMemory,
    pub obj_ram: SimpleMemory,
    pub io: GbaIo,
    pub memory_watcher: MemoryWatcher,
    ip: u32,
}

impl View for Memory {
    type V = MemoryView;

    closed spec fn view(&self) -> MemoryView {
        MemoryView {
            raw: self.raw@,
            cartridge: self.cartridge.bytes(),
            color_ram: self.color_ram.bytes(),
            vram: self.vram.bytes(),
            obj_ram: self.obj_ram.bytes(),
            io: self.io,
            reads: self.memory_watcher.reads@,
            writes: self.memory_watcher.writes@,
            ip: self.ip,
        }
    }
}

impl Memory {
    /// The flat memory has its full size, each block of device RAM sits at
    /// its address with its size, and the I/O devices are well formed.
    pub closed spec fn wf(&self) -> bool {
        &&& self.raw@.len() == RAW_SIZE
        &&& self.color_ram.start() == 0x500_0000 && self.color_ram.bytes().len() == 0x400
        &&& self.vram.start() == 0x600_0000 && self.vram.bytes().len() == 0x1_8000
        &&& self.obj_ram.start() == 0x700_0000 && self.obj_ram.bytes().len() == 0x400
        &&& self.io.wf()
    }

    pub proof fn lemma_wf(&self)
        requires
            self.wf(),
        ensures
            self@.raw.len() == RAW_SIZE,
            self@.color_ram.len() == 0x400,
            self@.vram.len() == 0x1_8000,
            self@.obj_ram.len() == 0x400,
            self@.io.wf(),
    {
    }

    /// The bus with `bios` at address 0, `cartridge` as the game pak, and
    /// zeroed RAM and registers.
    pub fn new(bios: &[u8], cartridge: Cartridge, io: GbaIo) -> (r: Memory)
        requires
            bios@.len() <= RAW_SIZE,
            io.wf(),
        ensures
            r.wf(),
            r@.raw == Seq::new(RAW_SIZE as nat, |i: int| if i < bios@.len() { bios@[i] } else { 0u8 }),
            r@.cartridge == cartridge.bytes(),
            r@.color_ram == Seq::new(0x400, |i: int| 0u8),
            r@.vram == Seq::new(0x1_8000, |i: int| 0u8),
            r@.obj_ram == Seq::new(0x400, |i: int| 0u8),
            r@.io == io,
            r@.reads == Seq::<(u32, u8)>::empty(),
            r@.writes == Seq::<(u32, u8, u8)>::empty(),
            r@.ip == 0,
    {
        let mut raw: Vec<u8> = vec![0u8; RAW_SIZE];
        let mut i: usize = 0;
        while i < bios.len()
            invariant
                bios@.len() <= RAW_SIZE,
                i <= bios@.len(),
                raw@.len() == RAW_SIZE,
                forall|k: int| 0 <= k < RAW_SIZE ==> #[trigger] raw@[k] == if k < i {
                    bios@[k]
                } else {
                    0u8
                },
            decreases bios@.len() - i,
        {
            raw.set(i, bios[i]);
            i = i + 1;
        }
        let r = Memory {
            raw,
            cartridge,
            color_ram: SimpleMemory::new(0x500_0000, 0x400),
            vram: SimpleMemory::new(0x600_0000, 0x1_8000),
            obj_ram: SimpleMemory::new(0x700_0000, 0x400),
            io,
            memory_watcher: MemoryWatcher::new(),
            ip: 0,
        };
        assert(r@.raw =~= Seq::new(
            RAW_SIZE as nat,
            |i: int| if i < bios@.len() { bios@[i] } else { 0u8 },
        ));
        r
    }

    /// Clears the flat memory (the BIOS included) and resets the devices.
    pub fn reset(&mut self)
        requires
            old(self).wf(),
        ensures
            final(self).wf(),
            final(self)@.raw == Seq::new(RAW_SIZE as nat, |i: int| 0u8),
            final(self)@.ip == 0,
            final(self)@.cartridge == old(self)@.cartridge,
            final(self)@.color_ram == old(self)@.color_ram,
            final(self)@.vram == old(self)@.vram,
            final(self)@.obj_ram == old(self)@.obj_ram,
            final(self)@.io.was_reset(old(self)@.io),
            final(self)@.reads == old(self)@.reads,
            final(self)@.writes == old(self)@.writes,
    {
        self.raw = vec![0u8; RAW_SIZE];
        self.ip = 0;
        self.cartridge.reset();
        self.color_ram.reset();
        self.vram.reset();
        self.obj_ram.reset();
        self.io.reset();
        proof {
            assert(self@.raw =~= Seq::new(RAW_SIZE as nat, |i: int| 0u8));
            assert(self.io.lcd.memory_interface.vertical_count == 0);
        }
    }

    /// The stack area from `sp` up to 3007FFFh (exclusive).
    pub fn stack(&self, sp: u32) -> (r: &[u8])
        requires
            self.wf(),
            sp <= 0x300_7FFF,
        ensures
            r@ == self@.raw.subrange(sp as int, 0x300_7FFF),
    {
        slice_subrange(self.raw.as_slice(), sp as usize, 0x300_7FFF)
    }

    /// Whether a write of `size` bytes at `address` touches the BIOS.
    pub fn is_read_only(&self, address: u32, size: u32) -> (r: bool)
        requires
            address + size <= u32::MAX,
        ensures
            r == MemoryView::is_read_only(address, size),
    {
        address <= 0x3FFF || address + size <= 0x3FFF
    }

    /// The address that `address` mirrors, or an error for the BIOS once
    /// execution left it.
    pub fn handle_mirrors(&self, address: usize) -> (r: Result<usize, MemoryProtection>)
        requires
            address <= 0xffff_ffff,
            !is_unpredictable(address),
        ensures
            r == if self@.ip >= 0x4000 && mirrored(address) <= 0x3fff {
                Err::<usize, MemoryProtection>(MemoryProtection::BiosOnly)
            } else {
                Ok(mirrored(address))
            },
    {
        let a = if address >= 0x1000_0000 {
            address & 0x0FFF_FFFF
        } else {
            address
        };
        let m = if 0x200_0000 <= a && a <= 0x2ff_ffff {
            a & 0x203_FFFF
        } else if 0x300_0000 <= a && a <= 0x3ff_ffff {
            a & 0x300_7FFF
        } else if 0x500_0000 <= a && a <= 0x5ff_ffff {
            a & 0x500_03FF
        } else if 0x601_7FFF <= a && a <= 0x603_ffff {
            a & 0x601_7FFF
        } else if 0x604_0000 <= a && a <= 0x6ff_ffff {
            let b = a & 0x603_FFFF;
            if 0x601_7FFF <= b {
                b & 0x601_7FFF
            } else {
                b
            }
        } else if 0x700_0000 <= a && a <= 0x7ff_ffff {
            a & 0x700_03FF
        } else if 0xe00_0000 <= a && a <= 0xFFF_FFFF {
            a & 0xE00_FFFF
        } else {
            a
        };
        if self.ip >= 0x4000 && m <= 0x3fff {
            return Err(MemoryProtection::BiosOnly);
        }
        Ok(m)
    }

    fn map(&self, address: u32) -> (m: usize)
        requires
            self@.can_map(address as usize),
        ensures
            m == mirrored(address as usize),
            m < 0x1000_0000,
            m <= 0xE00_FFFF || (0x800_0000 <= m < 0xE00_0000),
    {
        proof {
            lemma_mirrored_bound(address as usize);
        }
        match self.handle_mirrors(address as usize) {
            Ok(m) => m,
            Err(_) => 0,
        }
    }

    fn device_of(&self, m: usize) -> (d: BusDevice)
        ensures
            d == self@.device_of(m),
    {
        if 0x800_0000 <= m && m < 0xE00_0000 {
            BusDevice::Cartridge
        } else if 0x500_0000 <= m && m < 0x500_0400 {
            BusDevice::ColorRam
        } else if 0x600_0000 <= m && m < 0x601_8000 {
            BusDevice::Vram
        } else if 0x700_0000 <= m && m < 0x700_0400 {
            BusDevice::ObjRam
        } else if self.io.claims_address(m) {
            BusDevice::Io
        } else {
            BusDevice::Raw
        }
    }

    fn read_in(&self, d: BusDevice, a: usize) -> (r: u8)
        requires
            self.wf(),
            self@.readable_in(d, a),
        ensures
            r == self@.byte_in(d, a),
    {
        match d {
            BusDevice::Cartridge => self.cartridge.read_byte(a),
            BusDevice::ColorRam => self.color_ram.read_byte(a),
            BusDevice::Vram => self.vram.read_byte(a),
            BusDevice::ObjRam => self.obj_ram.read_byte(a),
            BusDevice::Io => self.io.read_byte(a),
            BusDevice::Raw => self.raw[a],
        }
    }

    fn write_in(&mut self, d: BusDevice, a: usize, byte: u8)
        requires
            old(self).wf(),
            old(self)@.writable_in(d, a, byte),
        ensures
            final(self).wf(),
            final(self)@ == old(self)@.write_in(d, a, byte),
    {
        match d {
            BusDevice::Cartridge => self.cartridge.write_byte(a, byte),
            BusDevice::ColorRam => self.color_ram.write_byte(a, byte),
            BusDevice::Vram => self.vram.write_byte(a, byte),
            BusDevice::ObjRam => self.obj_ram.write_byte(a, byte),
            BusDevice::Io => {
                self.io.write_byte(a, byte);
                proof {
                    self.io.lemma_wrote(old(self).io, a, byte);
                    old(self).io.lemma_write_keeps_wf(a, byte);
                }
            },
            BusDevice::Raw => self.raw.set(a, byte),
        }
        proof {
            assert(self@ =~= old(self)@.write_in(d, a, byte));
        }
    }
}

impl Memory {
    /// Reads the `n` bytes at `address` from the device that answers for the
    /// first; with `log`, each byte is recorded in the read log.
    fn read_bytes(&mut self, address: u32, n: usize, log: bool) -> (r: Vec<u8>)
        requires
            old(self).wf(),
            n <= 4,
            old(self)@.can_read(address, n as int),
        ensures
            final(self).wf(),
            r@ == Seq::new(n as nat, |i: int| old(self)@.byte_of(address, i)),
            final(self)@ == if log {
                old(self)@.logged_reads(address, n as nat)
            } else {
                old(self)@
            },
    {
        let m = self.map(address);
        let d = self.device_of(m);
        let mut result: Vec<u8> = Vec::new();
        let mut k: usize = 0;
        while k < n
            invariant
                self.wf(),
                n <= 4,
                k <= n,
                m == mirrored(address as usize),
                m < 0x1000_0000,
                d == old(self)@.device_of(m),
                old(self)@.can_read(address, n as int),
                self@.io == old(self)@.io,
                self@.raw == old(self)@.raw,
                self@.cartridge == old(self)@.cartridge,
                self@.color_ram == old(self)@.color_ram,
                self@.vram == old(self)@.vram,
                self@.obj_ram == old(self)@.obj_ram,
                self@ == if log {
                    old(self)@.logged_reads(address, k as nat)
                } else {
                    old(self)@
                },
                result@ == Seq::new(k as nat, |i: int| old(self)@.byte_of(address, i)),
            decreases n - k,
        {
            assert(old(self)@.readable_in(d, (m + k) as usize));
            let b = self.read_in(d, m + k);
            assert(b == old(self)@.byte_of(address, k as int));
            if log {
                self.memory_watcher.reads.push_back(((m + k) as u32, b));
            }
            result.push(b);
            proof {
                assert(result@ =~= Seq::new((k + 1) as nat, |i: int| old(self)@.byte_of(address, i)));
                if log {
                    assert(self@ =~= old(self)@.logged_reads(address, (k + 1) as nat));
                }
            }
            k = k + 1;
        }
        result
    }

    /// Logs the old values of the `n` bytes at `address` that `new_bytes`
    /// replaces, then writes them through the device that answers for the
    /// first.
    fn write_bytes(&mut self, address: u32, new_bytes: &Vec<u8>)
        requires
            old(self).wf(),
            new_bytes@.len() <= 4,
            old(self)@.can_write(address, new_bytes@),
        ensures
            final(self).wf(),
            final(self)@ == old(self)@.written(address, new_bytes@, new_bytes@.len() as int),
    {
        let n = new_bytes.len();
        let m = self.map(address);
        let d = self.device_of(m);
        let ghost start = old(self)@;
        let mut k: usize = 0;
        while k < n
            invariant
                self.wf(),
                n == new_bytes@.len() <= 4,
                k <= n,
                m == mirrored(address as usize),
                m < 0x1000_0000,
                d == start.device_of(m),
                start == old(self)@,
                start.can_write(address, new_bytes@),
                self@ == (MemoryView {
                    writes: start.writes + Seq::new(
                        k as nat,
                        |i: int| ((m + i) as u32, start.byte_of(address, i), new_bytes@[i]),
                    ),
                    ..start
                }),
            decreases n - k,
        {
            assert(start.readable_in(d, (m + k) as usize));
            let b = self.read_in(d, m + k);
            self.memory_watcher.writes.push_back(((m + k) as u32, b, new_bytes[k]));
            proof {
                assert(self@.writes =~= start.writes + Seq::new(
                    (k + 1) as nat,
                    |i: int| ((m + i) as u32, start.byte_of(address, i), new_bytes@[i]),
                ));
                assert(self@ =~= (MemoryView {
                    writes: start.writes + Seq::new(
                        (k + 1) as nat,
                        |i: int| ((m + i) as u32, start.byte_of(address, i), new_bytes@[i]),
                    ),
                    ..start
                }));
            }
            k = k + 1;
        }
        assert(self@ == start.written(address, new_bytes@, 0));
        let mut k: usize = 0;
        while k < n
            invariant
                self.wf(),
                n == new_bytes@.len() <= 4,
                k <= n,
                m == mirrored(address as usize),
                m < 0x1000_0000,
                d == start.device_of(m),
                start.can_write(address, new_bytes@),
                self@ == start.written(address, new_bytes@, k as int),
            decreases n - k,
        {
            assert(start.written(address, new_bytes@, k as int).writable_in(
                d,
                (m + k) as usize,
                new_bytes@[k as int],
            ));
            self.write_in(d, m + k, new_bytes[k]);
            k = k + 1;
        }
    }

    /// The byte at `address`, recorded in the read log.
    pub fn read_byte_at(&mut self, address: u32) -> (r: u8)
        requires
            old(self).wf(),
            old(self)@.can_read(address, 1),
        ensures
            final(self).wf(),
            r == old(self)@.byte_of(address, 0),
            final(self)@ == old(self)@.logged_reads(address, 1),
    {
        let bytes = self.read_bytes(address, 1, true);
        bytes[0]
    }

    /// The byte at `address`, leaving the read log alone.
    pub fn read_byte_at_silent(&self, address: u32) -> (r: u8)
        requires
            self.wf(),
            self@.can_read(address, 1),
        ensures
            r == self@.byte_of(address, 0),
    {
        let m = self.map(address);
        let d = self.device_of(m);
        assert(self@.readable_in(d, (m + 0) as usize));
        self.read_in(d, m)
    }

    /// The half word at the even `address`, each byte recorded in the read
    /// log.
    pub fn read_half_word_at(&mut self, address: u32) -> (r: u16)
        requires
            old(self).wf(),
            address % 2 == 0,
            old(self)@.can_read(address, 2),
        ensures
            final(self).wf(),
            r == old(self)@.half_word(address),
            final(self)@ == old(self)@.logged_reads(address, 2),
    {
        let bytes = self.read_bytes(address, 2, true);
        le16_exec(bytes[0], bytes[1])
    }

    /// The half word at the even `address`, leaving the read log alone.
    pub fn read_half_word_at_silent(&self, address: u32) -> (r: u16)
        requires
            self.wf(),
            address % 2 == 0,
            self@.can_read(address, 2),
        ensures
            r == self@.half_word(address),
    {
        let m = self.map(address);
        let d = self.device_of(m);
        assert(self@.readable_in(d, (m + 0) as usize));
        assert(self@.readable_in(d, (m + 1) as usize));
        let lo = self.read_in(d, m);
        let hi = self.read_in(d, m + 1);
        le16_exec(lo, hi)
    }

    /// The word at the word-aligned `address`, each byte recorded in the
    /// read log.
    pub fn read_word(&mut self, address: u32) -> (r: u32)
        requires
            old(self).wf(),
            address % 4 == 0,
            old(self)@.can_read(address, 4),
        ensures
            final(self).wf(),
            r == old(self)@.word(address),
            final(self)@ == old(self)@.logged_reads(address, 4),
            final(self)@ == (MemoryView { reads: final(self)@.reads, ..old(self)@ }),
            final(self)@.reads == old(self)@.reads + Seq::new(
                4,
                |i: int| ((mirrored(address as usize) + i) as u32, byte32(r, i as nat)),
            ),
    {
        proof {
            self@.lemma_logged_reads(address, 4);
            let v = self@;
            lemma_bytes_of_le32(v.byte_of(address, 0), v.byte_of(address, 1), v.byte_of(address, 2), v.byte_of(address, 3));
            assert(Seq::new(4, |i: int| ((mirrored(address as usize) + i) as u32, v.byte_of(address, i))) =~= Seq::new(
                4,
                |i: int| ((mirrored(address as usize) + i) as u32, byte32(v.word(address), i as nat)),
            ));
        }
        let bytes = self.read_bytes(address, 4, true);
        le32_exec(bytes[0], bytes[1], bytes[2], bytes[3])
    }

    /// The word at the word-aligned `address`, leaving the read log alone.
    pub fn read_word_silent(&self, address: u32) -> (r: u32)
        requires
            self.wf(),
            address % 4 == 0,
            self@.can_read(address, 4),
        ensures
            r == self@.word(address),
    {
        let m = self.map(address);
        let d = self.device_of(m);
        assert(self@.readable_in(d, (m + 0) as usize));
        assert(self@.readable_in(d, (m + 1) as usize));
        assert(self@.readable_in(d, (m + 2) as usize));
        assert(self@.readable_in(d, (m + 3) as usize));
        let b0 = self.read_in(d, m);
        let b1 = self.read_in(d, m + 1);
        let b2 = self.read_in(d, m + 2);
        let b3 = self.read_in(d, m + 3);
        le32_exec(b0, b1, b2, b3)
    }

    /// Writes `byte` at `address`; writes to the BIOS are dropped.
    pub fn write_byte_to(&mut self, address: u32, byte: u8)
        requires
            old(self).wf(),
            address < u32::MAX,
            !MemoryView::is_read_only(address, 1) ==> old(self)@.can_write(address, seq![byte]),
        ensures
            final(self).wf(),
            final(self)@ == old(self)@.after_write(address, seq![byte]),
    {
        if self.is_read_only(address, 1) {
            return;
        }
        let mut bytes: Vec<u8> = Vec::new();
        bytes.push(byte);
        assert(bytes@ =~= seq![byte]);
        self.write_bytes(address, &bytes);
    }

    /// Writes `half_word` at the even `address`, low byte first; writes to
    /// the BIOS are dropped.
    pub fn write_half_word_to(&mut self, address: u32, half_word: u16)
        requires
            old(self).wf(),
            address <= u32::MAX - 2,
            !MemoryView::is_read_only(address, 2) ==> address % 2 == 0 && old(self)@.can_write(
                address,
                half_bytes(half_word),
            ),
        ensures
            final(self).wf(),
            final(self)@ == old(self)@.after_write(address, half_bytes(half_word)),
    {
        if self.is_read_only(address, 2) {
            return;
        }
        let mut bytes: Vec<u8> = Vec::new();
        bytes.push(byte16_exec(half_word, 0));
        bytes.push(byte16_exec(half_word, 1));
        assert(bytes@ =~= half_bytes(half_word));
        self.write_bytes(address, &bytes);
    }

    /// Writes `word` at the word-aligned `address`, lowest byte first;
    /// writes to the BIOS are dropped.
    pub fn write_word_to(&mut self, address: u32, word: u32)
        requires
            old(self).wf(),
            address <= u32::MAX - 4,
            !MemoryView::is_read_only(address, 4) ==> address % 4 == 0 && old(self)@.can_write(
                address,
                word_bytes(word),
            ),
        ensures
            final(self).wf(),
            final(self)@ == old(self)@.after_write(address, word_bytes(word)),
            !MemoryView::is_read_only(address, 4) && is_ram(old(self)@.device_of(mirrored(address as usize)))
                ==> {
                &&& final(self)@.can_read(address, 4)
                &&& final(self)@.word(address) == word
                &&& final(self)@.reads == old(self)@.reads
                &&& final(self)@.writes == old(self)@.writes + Seq::new(
                    4,
                    |k: int|
                        (
                            (mirrored(address as usize) + k) as u32,
                            old(self)@.byte_of(address, k),
                            word_bytes(word)[k],
                        ),
                )
                &&& forall|d: BusDevice, j: usize|
                    !(d == old(self)@.device_of(mirrored(address as usize)) && mirrored(address as usize)
                        <= j < mirrored(address as usize) + 4) && old(self)@.readable_in(d, j)
                        ==> #[trigger] final(self)@.byte_in(d, j) == old(self)@.byte_in(d, j)
            },
    {
        proof {
            self.lemma_wf();
            if !MemoryView::is_read_only(address, 4) && is_ram(self@.device_of(mirrored(address as usize))) {
                self@.lemma_word_read_after_write(address, word);
            }
        }
        if self.is_read_only(address, 4) {
            return;
        }
        let mut bytes: Vec<u8> = Vec::new();
        bytes.push(byte32_exec(word, 0));
        bytes.push(byte32_exec(word, 1));
        bytes.push(byte32_exec(word, 2));
        bytes.push(byte32_exec(word, 3));
        assert(bytes@ =~= word_bytes(word));
        self.write_bytes(address, &bytes);
    }

    /// The `length` bytes from `at` on, each read on its own, leaving the
    /// read log alone.
    pub fn read_vec(&self, at: u32, length: u32) -> (r: Vec<u8>)
        requires
            self.wf(),
            at + length <= u32::MAX,
            forall|i: int| 0 <= i < length ==> #[trigger] self@.can_read((at + i) as u32, 1),
        ensures
            r@ == Seq::new(length as nat, |i: int| self@.byte_of((at + i) as u32, 0)),
    {
        let mut result: Vec<u8> = Vec::new();
        let mut i: u32 = 0;
        while i < length
            invariant
                self.wf(),
                i <= length,
                at + length <= u32::MAX,
                forall|k: int| 0 <= k < length ==> #[trigger] self@.can_read((at + k) as u32, 1),
                result@ == Seq::new(i as nat, |k: int| self@.byte_of((at + k) as u32, 0)),
            decreases length - i,
        {
            assert(self@.can_read((at + i) as u32, 1));
            let b = self.read_byte_at_silent(at + i);
            result.push(b);
            assert(result@ =~= Seq::new((i + 1) as nat, |k: int| self@.byte_of((at + k) as u32, 0)));
            i = i + 1;
        }
        result
    }
}

impl MemoryView {
    /// Which reads are defined depends only on the devices and the
    /// instruction pointer, not on the logs.
    pub proof fn lemma_can_read_same(self, other: MemoryView, address: u32, n: int)
        requires
            self.io == other.io,
            self.ip == other.ip,
            self.cartridge.len() == other.cartridge.len(),
        ensures
            self.can_read(address, n) == other.can_read(address, n),
    {
        let m = mirrored(address as usize);
        assert forall|i: int| 0 <= i < n implies #[trigger] self.readable_in(self.device_of(m), (m + i) as usize)
            == other.readable_in(other.device_of(m), (m + i) as usize) by {}
        if self.can_read(address, n) {
            assert forall|i: int| 0 <= i < n implies #[trigger] other.readable_in(other.device_of(m), (m + i) as usize) by {
                assert(self.readable_in(self.device_of(m), (m + i) as usize));
            }
        }
        if other.can_read(address, n) {
            assert forall|i: int| 0 <= i < n implies #[trigger] self.readable_in(self.device_of(m), (m + i) as usize) by {
                assert(other.readable_in(other.device_of(m), (m + i) as usize));
            }
        }
    }

}

/// The devices that hold plain memory: the flat memory behind the devices
/// (BIOS and work RAM), palette RAM, video RAM and object attribute memory.
pub open spec fn is_ram(d: BusDevice) -> bool {
    d is Raw || d is ColorRam || d is Vram || d is ObjRam
}

impl MemoryView {
    /// The blocks of memory have the sizes of the hardware.
    pub open spec fn wf(self) -> bool {
        &&& self.raw.len() == RAW_SIZE
        &&& self.color_ram.len() == 0x400
        &&& self.vram.len() == 0x1_8000
        &&& self.obj_ram.len() == 0x400
    }

    /// Writing the first `i` bytes of `new_bytes` to RAM stores them at
    /// their addresses and leaves the rest of the bus as it was.
    proof fn lemma_written_ram(self, address: u32, new_bytes: Seq<u8>, i: int)
        requires
            self.wf(),
            self.can_write(address, new_bytes),
            is_ram(self.device_of(mirrored(address as usize))),
            new_bytes.len() <= 4,
            0 <= i <= new_bytes.len(),
        ensures
            self.written(address, new_bytes, i).wf(),
            self.written(address, new_bytes, i).io == self.io,
            self.written(address, new_bytes, i).ip == self.ip,
            self.written(address, new_bytes, i).cartridge == self.cartridge,
            self.written(address, new_bytes, i).reads == self.reads,
            self.written(address, new_bytes, i).writes == self.written(address, new_bytes, 0).writes,
            forall|d2: BusDevice, j: usize|
                !(d2 == self.device_of(mirrored(address as usize)) && mirrored(address as usize) <= j
                    < mirrored(address as usize) + new_bytes.len()) && self.readable_in(d2, j)
                    ==> #[trigger] self.written(address, new_bytes, i).byte_in(d2, j) == self.byte_in(
                    d2,
                    j,
                ),
            forall|k: int|
                0 <= k < new_bytes.len() ==> #[trigger] self.written(address, new_bytes, i).byte_in(
                    self.device_of(mirrored(address as usize)),
                    (mirrored(address as usize) + k) as usize,
                ) == if k < i {
                    new_bytes[k]
                } else {
                    self.byte_in(
                        self.device_of(mirrored(address as usize)),
                        (mirrored(address as usize) + k) as usize,
                    )
                },
        decreases i,
    {
        let m = mirrored(address as usize);
        let d = self.device_of(m);
        lemma_mirrored_bound(address as usize);
        if i > 0 {
            self.lemma_written_ram(address, new_bytes, i - 1);
            let prev = self.written(address, new_bytes, i - 1);
            let a = (m + i - 1) as usize;
            assert(prev.writable_in(d, a, new_bytes[i - 1]));
            let w = self.written(address, new_bytes, i);
            assert(w == prev.write_in(d, a, new_bytes[i - 1]));
            assert forall|k: int| 0 <= k < new_bytes.len() implies #[trigger] w.byte_in(
                d,
                (m + k) as usize,
            ) == if k < i {
                new_bytes[k]
            } else {
                self.byte_in(d, (m + k) as usize)
            } by {
                assert(prev.byte_in(d, (m + k) as usize) == if k < i - 1 {
                    new_bytes[k]
                } else {
                    self.byte_in(d, (m + k) as usize)
                });
                let b = (m + k) as usize;
                assert(b == a <==> k == i - 1);
                assert(self.readable_in(d, b));
                match d {
                    BusDevice::Raw => {
                        assert(w.raw == prev.raw.update(a as int, new_bytes[i - 1]));
                    },
                    BusDevice::ColorRam => {
                        assert(w.color_ram == prev.color_ram.update(a - 0x500_0000, new_bytes[i - 1]));
                    },
                    BusDevice::Vram => {
                        assert(w.vram == prev.vram.update(a - 0x600_0000, new_bytes[i - 1]));
                    },
                    BusDevice::ObjRam => {
                        assert(w.obj_ram == prev.obj_ram.update(a - 0x700_0000, new_bytes[i - 1]));
                    },
                    _ => {},
                }
            }
            assert forall|d2: BusDevice, j: usize|
                !(d2 == d && m <= j < m + new_bytes.len()) && self.readable_in(d2, j) implies #[trigger] w.byte_in(
                d2,
                j,
            ) == self.byte_in(d2, j) by {
                assert(prev.byte_in(d2, j) == self.byte_in(d2, j));
                match d {
                    BusDevice::Raw => {
                        assert(w.raw == prev.raw.update(a as int, new_bytes[i - 1]));
                    },
                    BusDevice::ColorRam => {
                        assert(w.color_ram == prev.color_ram.update(a - 0x500_0000, new_bytes[i - 1]));
                    },
                    BusDevice::Vram => {
                        assert(w.vram == prev.vram.update(a - 0x600_0000, new_bytes[i - 1]));
                    },
                    BusDevice::ObjRam => {
                        assert(w.obj_ram == prev.obj_ram.update(a - 0x700_0000, new_bytes[i - 1]));
                    },
                    _ => {},
                }
            }
        }
    }

    /// Bytes written to RAM read back as written: after a write of
    /// `new_bytes` at `address` the same addresses can be read, and byte `i`
    /// of them is `new_bytes[i]`.
    pub proof fn lemma_read_after_write(self, address: u32, new_bytes: Seq<u8>)
        requires
            self.wf(),
            !Self::is_read_only(address, new_bytes.len() as u32),
            self.can_write(address, new_bytes),
            is_ram(self.device_of(mirrored(address as usize))),
            new_bytes.len() <= 4,
        ensures
            self.after_write(address, new_bytes).can_read(address, new_bytes.len() as int),
            forall|i: int|
                0 <= i < new_bytes.len() ==> #[trigger] self.after_write(
                    address,
                    new_bytes,
                ).byte_of(address, i) == new_bytes[i],
    {
        let n = new_bytes.len() as int;
        let m = mirrored(address as usize);
        self.lemma_written_ram(address, new_bytes, n);
        let w = self.after_write(address, new_bytes);
        assert(w.device_of(m) == self.device_of(m));
        assert forall|i: int| 0 <= i < n implies #[trigger] w.readable_in(w.device_of(m), (m + i) as usize) by {
            assert(self.readable_in(self.device_of(m), (m + i) as usize));
        }
        assert forall|i: int| 0 <= i < n implies #[trigger] w.byte_of(address, i) == new_bytes[i] by {
            assert(w.byte_in(self.device_of(m), (m + i) as usize) == new_bytes[i]);
        }
    }

    /// A word written to RAM reads back unchanged: the four bytes are logged
    /// as writes with their old and new values, the read log is kept, and
    /// every other byte of the bus keeps its value.
    pub proof fn lemma_word_read_after_write(self, address: u32, word: u32)
        requires
            self.wf(),
            !Self::is_read_only(address, 4),
            self.can_write(address, word_bytes(word)),
            is_ram(self.device_of(mirrored(address as usize))),
        ensures
            self.after_write(address, word_bytes(word)).can_read(address, 4),
            self.after_write(address, word_bytes(word)).word(address) == word,
            self.after_write(address, word_bytes(word)).reads == self.reads,
            self.after_write(address, word_bytes(word)).writes == self.writes + Seq::new(
                4,
                |k: int|
                    (
                        (mirrored(address as usize) + k) as u32,
                        self.byte_of(address, k),
                        word_bytes(word)[k],
                    ),
            ),
            forall|d: BusDevice, j: usize|
                !(d == self.device_of(mirrored(address as usize)) && mirrored(address as usize) <= j
                    < mirrored(address as usize) + 4) && self.readable_in(d, j)
                    ==> #[trigger] self.after_write(address, word_bytes(word)).byte_in(d, j)
                    == self.byte_in(d, j),
    {
        self.lemma_written_ram(address, word_bytes(word), 4);
        self.lemma_read_after_write(address, word_bytes(word));
        let w = self.after_write(address, word_bytes(word));
        assert(w.byte_of(address, 0) == byte32(word, 0));
        assert(w.byte_of(address, 1) == byte32(word, 1));
        assert(w.byte_of(address, 2) == byte32(word, 2));
        assert(w.byte_of(address, 3) == byte32(word, 3));
        lemma_le32_bytes(word);
    }

    /// A half word written to RAM reads back unchanged.
    pub proof fn lemma_half_word_read_after_write(self, address: u32, half_word: u16)
        requires
            self.wf(),
            !Self::is_read_only(address, 2),
            self.can_write(address, half_bytes(half_word)),
            is_ram(self.device_of(mirrored(address as usize))),
        ensures
            self.after_write(address, half_bytes(half_word)).can_read(address, 2),
            self.after_write(address, half_bytes(half_word)).half_word(address) == half_word,
    {
        self.lemma_read_after_write(address, half_bytes(half_word));
        let w = self.after_write(address, half_bytes(half_word));
        assert(w.byte_of(address, 0) == byte16(half_word, 0));
        assert(w.byte_of(address, 1) == byte16(half_word, 1));
        lemma_le16_bytes(half_word);
    }
}

impl Memory {
    /// Copies into `buffer` the lines of the rendered frame `rendered` that
    /// the display drew since the last fetch.
    pub fn swap_buffers(&mut self, rendered: &[u32; 38400], buffer: &mut [u32; 38400])
        requires
            old(self).wf(),
            old(self)@.io.lcd.last_fetched_line > old(self)@.io.lcd.last_rendered_line
                || old(self)@.io.lcd.last_fetched_line <= 160,
        ensures
            final(self).wf(),
            final(self)@ == (MemoryView {
                io: GbaIo {
                    lcd: Lcd { last_fetched_line: old(self)@.io.lcd.fetch_end() as u16, ..old(self)@.io.lcd },
                    ..old(self)@.io
                },
                ..old(self)@
            }),
            forall|i: int|
                0 <= i < 38400 ==> #[trigger] final(buffer)@[i] == if old(self)@.io.lcd.fetches_pixel(i) {
                    rendered@[i]
                } else {
                    old(buffer)@[i]
                },
    {
        self.io.lcd.swap_buffers(rendered, buffer);
    }

    /// The tiles of video memory in `format`, in order.
    pub fn load_tiles(&self, format: PixelFormat) -> (r: Vec<Vec<u8>>)
        ensures
            r@.len() == self@.vram.len() / tile_bytes(format),
            forall|t: int| 0 <= t < r@.len() ==> #[trigger] r@[t]@ == tile_pixels(self@.vram, format, t),
    {
        crate::io_registers::lcd::load_tiles(&self.vram, format)
    }

    /// Runs the I/O devices for one cycle at `tick`.
    pub fn run_io_cycle(&mut self, tick: usize)
        requires
            old(self).wf(),
        ensures
            final(self).wf(),
            final(self)@ == (MemoryView { io: old(self)@.io.after_cycle(tick), ..old(self)@ }),
    {
        self.io.run_cycle(tick);
    }

    /// The interrupt to raise at `ticks`, recorded as raised.
    pub fn next_interrupt(&mut self, ticks: usize) -> (r: Option<Interrupt>)
        requires
            old(self).wf(),
        ensures
            final(self).wf(),
            r == old(self)@.io.interrupt.step(ticks).0,
            final(self)@ == (MemoryView {
                io: GbaIo { interrupt: old(self)@.io.interrupt.step(ticks).1, ..old(self)@.io },
                ..old(self)@
            }),
    {
        self.io.interrupt.next(ticks)
    }

    /// Requests `interrupt` again.
    pub fn queue_interrupt(&mut self, interrupt: Interrupt)
        requires
            old(self).wf(),
        ensures
            final(self).wf(),
            final(self)@ == (MemoryView {
                io: GbaIo {
                    interrupt: crate::io_registers::interrupt_waitstate::InterruptWaitstate {
                        interrupt_request_flags: old(self)@.io.interrupt.interrupt_request_flags
                            | (1u16 << interrupt.bit()),
                        ..old(self)@.io.interrupt
                    },
                    ..old(self)@.io
                },
                ..old(self)@
            }),
    {
        self.io.interrupt.queue(interrupt);
    }

    /// Resets the I/O devices.
    pub fn reset_io(&mut self)
        requires
            old(self).wf(),
        ensures
            final(self).wf(),
            final(self)@.io.was_reset(old(self)@.io),
            final(self)@ == (MemoryView { io: final(self)@.io, ..old(self)@ }),
    {
        self.io.reset();
        assert(self.io.lcd.memory_interface.vertical_count == 0);
    }

    /// Empties the read and write logs, handing out what they held.
    pub fn take_watched_accesses(&mut self) -> (r: (Vec<(u32, u8)>, Vec<(u32, u8, u8)>))
        ensures
            final(self).wf() == old(self).wf(),
            r.0@ == old(self)@.reads,
            r.1@ == old(self)@.writes,
            final(self)@ == (MemoryView { reads: Seq::empty(), writes: Seq::empty(), ..old(self)@ }),
    {
        let mut reads: Vec<(u32, u8)> = Vec::new();
        let mut writes: Vec<(u32, u8, u8)> = Vec::new();
        let ghost original = self.memory_watcher.reads@;
        while self.memory_watcher.reads.len() > 0
            invariant
                original == old(self).memory_watcher.reads@,
                reads@ + self.memory_watcher.reads@ == original,
                self.memory_watcher.writes@ == old(self).memory_watcher.writes@,
                self.raw == old(self).raw,
                self.cartridge == old(self).cartridge,
                self.color_ram == old(self).color_ram,
                self.vram == old(self).vram,
                self.obj_ram == old(self).obj_ram,
                self.io == old(self).io,
                self.ip == old(self).ip,
            decreases self.memory_watcher.reads@.len(),
        {
            let ghost rest = self.memory_watcher.reads@;
            match self.memory_watcher.reads.pop_front() {
                Some(x) => {
                    reads.push(x);
                    assert(reads@ + self.memory_watcher.reads@ =~= original);
                },
                None => {},
            }
        }
        assert(reads@ =~= original);
        let ghost original_writes = self.memory_watcher.writes@;
        while self.memory_watcher.writes.len() > 0
            invariant
                original_writes == old(self).memory_watcher.writes@,
                writes@ + self.memory_watcher.writes@ == original_writes,
                self.memory_watcher.reads@.len() == 0,
                self.raw == old(self).raw,
                self.cartridge == old(self).cartridge,
                self.color_ram == old(self).color_ram,
                self.vram == old(self).vram,
                self.obj_ram == old(self).obj_ram,
                self.io == old(self).io,
                self.ip == old(self).ip,
            decreases self.memory_watcher.writes@.len(),
        {
            match self.memory_watcher.writes.pop_front() {
                Some(x) => {
                    writes.push(x);
                    assert(writes@ + self.memory_watcher.writes@ =~= original_writes);
                },
                None => {},
            }
        }
        assert(writes@ =~= original_writes);
        assert(self@.reads =~= Seq::<(u32, u8)>::empty());
        assert(self@.writes =~= Seq::<(u32, u8, u8)>::empty());
        (reads, writes)
    }

    /// The I/O devices.
    pub fn io(&self) -> (r: &GbaIo)
        ensures
            *r == self@.io,
    {
        &self.io
    }
}

} // verus!
