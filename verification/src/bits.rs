//! Bit-level facts shared by the register and decoding code.
use vstd::prelude::*;

verus! {

/// Reading single bits of an unsigned word.
pub trait BitModifications: Sized {
    /// How many bits a value of the type has.
    spec fn bit_width() -> nat;

    /// Whether bit `bit` of the value is set.
    spec fn has_bit(self, bit: nat) -> bool;

    /// Whether bit `bit` is set; `bit` must lie inside the word.
    fn bit(&self, bit: usize) -> (r: bool)
        requires
            bit < Self::bit_width(),
        ensures
            r == self.has_bit(bit as nat),
    ;
}

impl BitModifications for u32 {
    open spec fn bit_width() -> nat {
        32
    }

    open spec fn has_bit(self, bit: nat) -> bool {
        self & (1u32 << bit) != 0
    }

    fn bit(&self, bit: usize) -> (r: bool) {
        (*self & (1u32 << bit)) > 0
    }
}

impl BitModifications for u16 {
    open spec fn bit_width() -> nat {
        16
    }

    open spec fn has_bit(self, bit: nat) -> bool {
        self & (1u16 << bit) != 0
    }

    fn bit(&self, bit: usize) -> (r: bool) {
        (*self & (1u16 << bit)) > 0
    }
}

/// Whether bit `n` of `v` is set.
pub open spec fn bit_of(v: u32, n: u32) -> bool {
    v & (1u32 << n) != 0
}

/// The number of set bits of `v` among its lowest `n` bits.
pub open spec fn ones_below(v: u32, n: nat) -> nat
    decreases n,
{
    if n == 0 {
        0
    } else {
        ones_below(v, (n - 1) as nat) + if bit_of(v, (n - 1) as u32) {
            1nat
        } else {
            0nat
        }
    }
}

/// The number of set bits of `v`.
pub open spec fn popcount(v: u32) -> nat {
    ones_below(v, 32)
}

/// Counts the set bits of a word.
pub fn count_ones(v: u32) -> (r: u32)
    ensures
        r == popcount(v),
        r <= 32,
{
    let mut count: u32 = 0;
    let mut i: u32 = 0;
    while i < 32
        invariant
            i <= 32,
            count == ones_below(v, i as nat),
            count <= i,
        decreases 32 - i,
    {
        if v & (1u32 << i) != 0 {
            count = count + 1;
        }
        i = i + 1;
    }
    count
}

/// The lowest `n` bits of `v` hold at most `n` ones.
pub proof fn lemma_ones_below_bound(v: u32, n: nat)
    ensures
        ones_below(v, n) <= n,
    decreases n,
{
    if n > 0 {
        lemma_ones_below_bound(v, (n - 1) as nat);
    }
}

} // verus!
