//! Errors that the swap-session operations report.
use vstd::prelude::*;

verus! {

/// Why an operation on a swap session was refused.
#[derive(Clone, Copy, Debug, PartialEq, Eq, Structural)]
pub enum CustomError {
    /// The caller is not the owner recorded in the session.
    Unauthorized,
    /// The session's commitment has already been revealed.
    AlreadyRevealed,
    /// The revealed parameters do not hash to the stored commitment.
    CommitmentMismatch,
    /// The external swap router reported a failure.
    ExternalSwapFailed,
    /// A fee was asked for before the swap was revealed.
    SwapNotRevealed,
    /// A serialized call descriptor could not be decoded.
    DeserializeFailed,
    /// A call descriptor names a program other than the allow-listed router.
    InvalidExternalTarget,
}

/// The first error code of this program; each variant adds its position.
pub const ERROR_CODE_OFFSET: u32 = 6000;

impl CustomError {
    /// Position of the variant in the declaration.
    pub open spec fn index(self) -> u32 {
        match self {
            CustomError::Unauthorized => 0,
            CustomError::AlreadyRevealed => 1,
            CustomError::CommitmentMismatch => 2,
            CustomError::ExternalSwapFailed => 3,
            CustomError::SwapNotRevealed => 4,
            CustomError::DeserializeFailed => 5,
            CustomError::InvalidExternalTarget => 6,
        }
    }

    /// The numeric error code reported to clients.
    pub fn code(&self) -> (r: u32)
        ensures
            r == ERROR_CODE_OFFSET + self.index(),
    {
        match self {
            CustomError::Unauthorized => ERROR_CODE_OFFSET,
            CustomError::AlreadyRevealed => ERROR_CODE_OFFSET + 1,
            CustomError::CommitmentMismatch => ERROR_CODE_OFFSET + 2,
            CustomError::ExternalSwapFailed => ERROR_CODE_OFFSET + 3,
            CustomError::SwapNotRevealed => ERROR_CODE_OFFSET + 4,
            CustomError::DeserializeFailed => ERROR_CODE_OFFSET + 5,
            CustomError::InvalidExternalTarget => ERROR_CODE_OFFSET + 6,
        }
    }

    /// The human-readable message reported with the code.
    pub fn message(&self) -> &'static str {
        match self {
            CustomError::Unauthorized => "Unauthorized",
            CustomError::AlreadyRevealed => "Already revealed",
            CustomError::CommitmentMismatch => "Commitment mismatch",
            CustomError::ExternalSwapFailed => "External swap failed",
            CustomError::SwapNotRevealed => "Swap not revealed yet",
            CustomError::DeserializeFailed => "Call descriptor could not be decoded",
            CustomError::InvalidExternalTarget => "Call descriptor targets a program that is not allowed",
        }
    }
}

} // verus!
