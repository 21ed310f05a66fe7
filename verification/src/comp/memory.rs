//! Memory for values computed at compile time.
use vstd::prelude::*;

use crate::comp::types::Value;
use crate::memory::{byte16, byte32};

verus! {

/// The stage of a compilation that owns a memory block.
pub trait Stage {
}

/// Memory of the bound program.
#[derive(Debug, Clone, Copy)]
pub struct Bound;

impl Stage for Bound {
}

/// Where an allocation starts and how long it is.
#[derive(Debug, Clone, Copy, PartialEq, Eq, Structural)]
pub struct Metadata {
    pub start: usize,
    pub len: usize,
}

/// A growing byte buffer from which values are allocated.
pub struct Memoryblock<S: Stage> {
    buffer: Vec<u8>,
    metadata: Vec<Metadata>,
    stage: Option<S>,
}

/// The bytes that storing `value` writes, lowest first.
pub open spec fn value_bytes(value: Value) -> Seq<u8> {
    match value {
        Value::UnsignedInteger8(it) => seq![it],
        Value::UnsignedInteger16(it) => seq![byte16(it, 0), byte16(it, 1)],
        Value::UnsignedInteger32(it) => seq![byte32(it, 0), byte32(it, 1), byte32(it, 2), byte32(it, 3)],
        Value::Bool(b) => seq![if b { 1u8 } else { 0u8 }],
        Value::Pointer(p) => {
            let w = p as u32;
            seq![byte32(w, 0), byte32(w, 1), byte32(w, 2), byte32(w, 3)]
        },
        _ => Seq::empty(),
    }
}

impl<S: Stage> Memoryblock<S> {
    pub closed spec fn bytes(&self) -> Seq<u8> {
        self.buffer@
    }

    pub closed spec fn allocations(&self) -> Seq<Metadata> {
        self.metadata@
    }

    pub fn new() -> (r: Self)
        ensures
            r.bytes() == Seq::<u8>::empty(),
            r.allocations() == Seq::<Metadata>::empty(),
    {
        Memoryblock { buffer: Vec::new(), metadata: Vec::new(), stage: None }
    }

    /// Appends `size` zero bytes and returns where they start.
    pub fn allocate(&mut self, size: usize) -> (r: usize)
        requires
            old(self).bytes().len() + size <= usize::MAX,
        ensures
            r == old(self).bytes().len(),
            final(self).bytes() == old(self).bytes() + Seq::new(size as nat, |i: int| 0u8),
            final(self).allocations() == old(self).allocations().push(Metadata { start: r, len: size }),
    {
        let ptr = self.buffer.len();
        let mut i: usize = 0;
        while i < size
            invariant
                ptr == old(self).bytes().len(),
                ptr + size <= usize::MAX,
                i <= size,
                self.buffer@ == old(self).bytes() + Seq::new(i as nat, |k: int| 0u8),
                self.metadata@ == old(self).allocations(),
            decreases size - i,
        {
            self.buffer.push(0);
            i = i + 1;
            assert(self.buffer@ =~= old(self).bytes() + Seq::new(i as nat, |k: int| 0u8));
        }
        self.metadata.push(Metadata { start: ptr, len: size });
        ptr
    }

    /// Stores the bytes of `value` from `ptr` on; values without bytes
    /// change nothing.
    pub fn write_value(&mut self, ptr: usize, value: Value)
        requires
            ptr + value_bytes(value).len() <= old(self).bytes().len(),
        ensures
            final(self).bytes().len() == old(self).bytes().len(),
            forall|i: int|
                0 <= i < old(self).bytes().len() ==> #[trigger] final(self).bytes()[i] == if ptr <= i
                    < ptr + value_bytes(value).len() {
                    value_bytes(value)[i - ptr]
                } else {
                    old(self).bytes()[i]
                },
            final(self).allocations() == old(self).allocations(),
    {
        let bytes: Vec<u8> = match value {
            Value::UnsignedInteger8(it) => vec![it],
            Value::UnsignedInteger16(it) => vec![
                crate::memory::byte16_exec(it, 0),
                crate::memory::byte16_exec(it, 1),
            ],
            Value::UnsignedInteger32(it) => vec![
                crate::memory::byte32_exec(it, 0),
                crate::memory::byte32_exec(it, 1),
                crate::memory::byte32_exec(it, 2),
                crate::memory::byte32_exec(it, 3),
            ],
            Value::Bool(b) => vec![if b { 1u8 } else { 0u8 }],
            Value::Pointer(p) => {
                #[verifier::truncate]
                let w = p as u32;
                vec![
                    crate::memory::byte32_exec(w, 0),
                    crate::memory::byte32_exec(w, 1),
                    crate::memory::byte32_exec(w, 2),
                    crate::memory::byte32_exec(w, 3),
                ]
            },
            _ => Vec::new(),
        };
        assert(bytes@ =~= value_bytes(value));
        let len = self.buffer.len();
        let mut k: usize = 0;
        while k < bytes.len()
            invariant
                bytes@ == value_bytes(value),
                ptr + bytes@.len() <= old(self).bytes().len(),
                k <= bytes@.len(),
                self.buffer@.len() == old(self).bytes().len(),
                len == self.buffer@.len(),
                self.metadata@ == old(self).allocations(),
                forall|i: int|
                    0 <= i < old(self).bytes().len() ==> #[trigger] self.buffer@[i] == if ptr <= i
                        < ptr + k {
                        bytes@[i - ptr]
                    } else {
                        old(self).bytes()[i]
                    },
            decreases bytes@.len() - k,
        {
            self.buffer.set(ptr + k, bytes[k]);
            k = k + 1;
        }
    }

    /// Copies the bytes from `base` on into `buffer`, stopping at the end of
    /// the memory; returns how many were copied.
    pub fn read<const N: usize>(&self, base: usize, buffer: &mut [u8; N]) -> (r: usize)
        requires
            base + N <= usize::MAX,
        ensures
            r == if base + N <= self.bytes().len() {
                N as int
            } else if base <= self.bytes().len() {
                self.bytes().len() - base
            } else {
                0
            },
            forall|i: int| 0 <= i < r ==> #[trigger] final(buffer)@[i] == self.bytes()[base + i],
            forall|i: int| r <= i < N ==> #[trigger] final(buffer)@[i] == old(buffer)@[i],
    {
        let mut offset: usize = 0;
        while offset < N
            invariant
                base + N <= usize::MAX,
                offset <= N,
                base + offset <= self.buffer@.len() || offset == 0,
                forall|i: int| 0 <= i < offset ==> #[trigger] buffer@[i] == self.bytes()[base + i],
                forall|i: int| offset <= i < N ==> #[trigger] buffer@[i] == old(buffer)@[i],
            decreases N - offset,
        {
            if base + offset >= self.buffer.len() {
                return offset;
            }
            buffer[offset] = self.buffer[base + offset];
            offset = offset + 1;
        }
        N
    }
}

} // verus!
