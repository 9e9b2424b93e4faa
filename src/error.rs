use vstd::prelude::*;

verus! {

/// The ways in which translating or running a block can fail.
#[derive(Debug, Clone, Copy, PartialEq, Eq, Structural)]
pub enum EmuError {
    /// A guest word has no entry in the decode table, or a CSR address is
    /// beyond the CSR bank.
    UnsupportedInstruction,
    /// An IR operation whose operands the backend does not encode.
    UnsupportedOperandPattern,
    /// A branch refers to a label whose marker never appeared in the block.
    UnresolvedLabel,
    /// An executable region could not be allocated, or cannot hold the block.
    MemoryMapFailure,
    /// No decoded instruction sits at the program counter.
    ProgramCounterOutOfRange,
}

} // verus!
