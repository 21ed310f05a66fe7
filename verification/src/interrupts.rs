//! The interrupts that the emulated devices raise.
use vstd::prelude::*;

verus! {

/// An interrupt source, named by its bit in the IE and IF registers.
#[derive(Debug, Clone, Copy, PartialEq, Eq, Structural)]
pub enum Interrupt {
    Vblank,
    SerialCom,
}

/// The number of interrupt sources the hardware knows.
pub const INTERRUPT_COUNT: usize = 14;

impl Interrupt {
    /// The interrupt's bit in IE and IF.
    pub open spec fn bit(self) -> u16 {
        match self {
            Interrupt::Vblank => 0,
            Interrupt::SerialCom => 7,
        }
    }

    /// The ticks that must pass before the same request fires again.
    pub open spec fn cooldown(self) -> usize {
        match self {
            Interrupt::Vblank => 1000,
            Interrupt::SerialCom => 1000,
        }
    }

    pub fn to_bit_index(&self) -> (r: u16)
        ensures
            r == self.bit(),
            r < INTERRUPT_COUNT,
    {
        match self {
            Interrupt::Vblank => 0,
            Interrupt::SerialCom => 7,
        }
    }

    pub fn min_fire_cooldown(&self) -> (r: usize)
        ensures
            r == self.cooldown(),
    {
        match self {
            Interrupt::Vblank => 1000,
            Interrupt::SerialCom => 1000,
        }
    }
}

} // verus!
