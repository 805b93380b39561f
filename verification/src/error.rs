//! Errors returned by the escrow processors.
use vstd::prelude::*;

verus! {

/// Why a borsh-encoded byte string could not be read back or written out.
#[derive(Debug, Clone, Copy, PartialEq, Eq, Structural)]
pub enum BorshError {
    /// The input ended before every field was read.
    UnexpectedLengthOfInput,
    /// Every field was read but bytes were left over.
    NotAllBytesRead,
    /// The bytes did not fit in the buffer they were written into.
    FailedToWriteWholeBuffer,
}

/// The program errors that the processors return.
///
/// Each variant but `Runtime` stands for the variant of the same name of the
/// runtime's program error type; `Runtime` carries the numeric code of an
/// error that came back from the runtime itself (such as a failed sysvar read).
#[derive(Debug, Clone, Copy, PartialEq, Eq, Structural)]
pub enum ProgramError {
    NotEnoughAccountKeys,
    MissingRequiredSignature,
    InvalidAccountOwner,
    IncorrectProgramId,
    InvalidSeeds,
    InvalidAccountData,
    BorshIoError(BorshError),
    Runtime(u64),
}

} // verus!
