//! The ways in which an operation is refused.

use vstd::prelude::*;

verus! {

/// Why an operation was refused. A refused operation changes nothing.
#[derive(Clone, Copy, Debug, PartialEq, Eq, Structural)]
pub enum ErrorCode {
    /// The round is currently closed.
    RoundClosed,
    /// The deposit amount is zero.
    InvalidDeposit,
    /// The round holds no deposits.
    NoDeposits,
    /// The caller is not the one the operation is reserved for.
    Unauthorized,
    /// The caller has no prize to claim.
    NoPrize,
    /// The named winner made no deposit in the round.
    InvalidWinner,
    /// The configuration already has an administrator.
    AlreadyInitialized,
    /// An amount would leave the range of 64 bits.
    Overflow,
}

} // verus!
