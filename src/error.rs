use vstd::prelude::*;

verus! {

/// Why a request was rejected. Each variant matches the program error code
/// that the host reports for it.
#[derive(Debug, Clone, Copy, PartialEq, Eq, Structural)]
pub enum CounterError {
    /// Unknown opcode, or a payload of the wrong length.
    InvalidInstructionData,
    /// An account's data is too short to hold a counter record.
    InvalidAccountData,
    /// The counter account is not owned by this program.
    IncorrectProgramId,
    /// The counter account's address does not derive from the owner and bump.
    InvalidSeeds,
    /// A value or balance addition would not fit in a `u64`.
    ArithmeticOverflow,
    /// Fewer accounts were supplied than the operation reads.
    NotEnoughAccountKeys,
}

} // verus!
