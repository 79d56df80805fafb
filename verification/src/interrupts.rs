//! The interrupt vector numbers of the remapped controller lines. Only
//! the primary ATA disk-completion vector matters to this storage stack;
//! the full dispatch table lives outside the library.

use vstd::prelude::*;

verus! {

/// First vector of the primary interrupt controller after remapping.
pub const PIC_1_OFFSET: u8 = 32;
/// First vector of the secondary interrupt controller after remapping.
pub const PIC_2_OFFSET: u8 = PIC_1_OFFSET + 8;

/// The controller lines, in vector order starting at `PIC_1_OFFSET`.
#[derive(Clone, Copy, Debug, PartialEq, Eq, Structural)]
pub enum InterruptIndex {
    /// Vector 32.
    Timer,
    /// Vector 33.
    Keyboard,
    /// Vector 34.
    Cascade,
    /// Vector 35.
    COM2,
    /// Vector 36.
    COM1,
    /// Vector 37.
    LPT2,
    /// Vector 38.
    FloppyDiskController,
    /// Vector 39.
    LPT1,
    /// Vector 40.
    CMOSRealTimeClock,
    /// Vector 41.
    Free1,
    /// Vector 42.
    Free2,
    /// Vector 43.
    Free3,
    /// Vector 44.
    PS2Mouse,
    /// Vector 45.
    FPU,
    /// Vector 46.
    PrimaryATAHardDisk,
    /// Vector 47.
    SecondaryATAHardDisk,
}

/// The interrupt vector number of a controller line.
pub open spec fn spec_vector_of(line: InterruptIndex) -> u8 {
    match line {
        InterruptIndex::Timer => 32,
        InterruptIndex::Keyboard => 33,
        InterruptIndex::Cascade => 34,
        InterruptIndex::COM2 => 35,
        InterruptIndex::COM1 => 36,
        InterruptIndex::LPT2 => 37,
        InterruptIndex::FloppyDiskController => 38,
        InterruptIndex::LPT1 => 39,
        InterruptIndex::CMOSRealTimeClock => 40,
        InterruptIndex::Free1 => 41,
        InterruptIndex::Free2 => 42,
        InterruptIndex::Free3 => 43,
        InterruptIndex::PS2Mouse => 44,
        InterruptIndex::FPU => 45,
        InterruptIndex::PrimaryATAHardDisk => 46,
        InterruptIndex::SecondaryATAHardDisk => 47,
    }
}

impl InterruptIndex {
    /// The vector number of this line.
    pub fn as_u8(self) -> (v: u8)
        ensures
            v == spec_vector_of(self),
            PIC_1_OFFSET <= v < PIC_1_OFFSET + 16,
    {
        match self {
            InterruptIndex::Timer => 32,
            InterruptIndex::Keyboard => 33,
            InterruptIndex::Cascade => 34,
            InterruptIndex::COM2 => 35,
            InterruptIndex::COM1 => 36,
            InterruptIndex::LPT2 => 37,
            InterruptIndex::FloppyDiskController => 38,
            InterruptIndex::LPT1 => 39,
            InterruptIndex::CMOSRealTimeClock => 40,
            InterruptIndex::Free1 => 41,
            InterruptIndex::Free2 => 42,
            InterruptIndex::Free3 => 43,
            InterruptIndex::PS2Mouse => 44,
            InterruptIndex::FPU => 45,
            InterruptIndex::PrimaryATAHardDisk => 46,
            InterruptIndex::SecondaryATAHardDisk => 47,
        }
    }

    /// The vector number of this line, as a table index.
    pub fn as_usize(self) -> (v: usize)
        ensures
            v == spec_vector_of(self),
    {
        self.as_u8() as usize
    }
}

} // verus!
