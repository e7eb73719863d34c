//! Interrupt vectors of the two chained 8259 interrupt controllers.
use vstd::prelude::*;

verus! {

/// First vector of the primary controller.
pub const PIC1_OFFSET: u8 = 0x20;

/// First vector of the secondary controller, right after the primary's eight.
pub const PIC2_OFFSET: u8 = PIC1_OFFSET + 8;

/// Hardware interrupts, named by the line they arrive on.
#[derive(Debug, Clone, Copy, PartialEq, Eq, Structural)]
pub enum InterruptIndex {
    /// The timer, on the primary controller's first line.
    Timer,
}

impl InterruptIndex {
    /// The interrupt vector.
    pub open spec fn vector(self) -> u8 {
        match self {
            InterruptIndex::Timer => PIC1_OFFSET,
        }
    }

    /// The interrupt vector as a byte.
    pub fn as_u8(self) -> (v: u8)
        ensures
            v == self.vector(),
    {
        match self {
            InterruptIndex::Timer => PIC1_OFFSET,
        }
    }

    /// The interrupt vector as an index into a table.
    pub fn as_usize(self) -> (v: usize)
        ensures
            v == self.vector() as usize,
    {
        self.as_u8() as usize
    }
}

} // verus!
