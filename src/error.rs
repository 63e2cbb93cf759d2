use vstd::prelude::*;

verus! {

/// Every failure of the ledger; each is plain data and aborts the call that raised it.
#[derive(Clone, Copy, Debug, PartialEq, Eq, Structural)]
pub enum GridError {
    InvalidInstruction,
    NotAdmin,
    NotGridOwner,
    Paused,
    GridCanceled,
    InvalidFee,
    InvalidOrderCount,
    InvalidOrderIndex,
    ZeroAmount,
    MathOverflow,
    InsufficientLiquidity,
    NoProfits,
    AccountDataTooSmall,
    InvalidAccountOwner,
    InvalidTokenProgram,
    InvalidTokenAccount,
}

impl GridError {
    /// The numeric code under which the error is reported to the runtime.
    pub open spec fn spec_code(self) -> u32 {
        match self {
            GridError::InvalidInstruction => 1,
            GridError::NotAdmin => 2,
            GridError::NotGridOwner => 3,
            GridError::Paused => 4,
            GridError::GridCanceled => 5,
            GridError::InvalidFee => 6,
            GridError::InvalidOrderCount => 7,
            GridError::InvalidOrderIndex => 8,
            GridError::ZeroAmount => 9,
            GridError::MathOverflow => 10,
            GridError::InsufficientLiquidity => 11,
            GridError::NoProfits => 12,
            GridError::AccountDataTooSmall => 13,
            GridError::InvalidAccountOwner => 14,
            GridError::InvalidTokenProgram => 15,
            GridError::InvalidTokenAccount => 16,
        }
    }

    pub fn code(&self) -> (r: u32)
        ensures
            r == self.spec_code(),
    {
        match self {
            GridError::InvalidInstruction => 1,
            GridError::NotAdmin => 2,
            GridError::NotGridOwner => 3,
            GridError::Paused => 4,
            GridError::GridCanceled => 5,
            GridError::InvalidFee => 6,
            GridError::InvalidOrderCount => 7,
            GridError::InvalidOrderIndex => 8,
            GridError::ZeroAmount => 9,
            GridError::MathOverflow => 10,
            GridError::InsufficientLiquidity => 11,
            GridError::NoProfits => 12,
            GridError::AccountDataTooSmall => 13,
            GridError::InvalidAccountOwner => 14,
            GridError::InvalidTokenProgram => 15,
            GridError::InvalidTokenAccount => 16,
        }
    }
}

} // verus!
