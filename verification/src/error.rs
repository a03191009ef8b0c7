//! The error kinds that a failed operation reports.

use vstd::prelude::*;

verus! {

/// Why an operation was refused. A refused operation leaves the ledger as it was.
#[derive(Clone, Copy, Debug, PartialEq, Eq, Structural)]
pub enum CustomError {
    /// `initialize` was called on a ledger that is already active.
    AlreadyInitialized,
    /// An operation other than `initialize` was called on a ledger that is not active.
    NotInitialized,
    /// The caller is not an admin, or the signing authority is not the escrow's own.
    Unauthorized,
    /// The amount tendered for a game differs from the price per game.
    IncorrectPaymentAmount,
    /// A withdrawal asked for more than the escrow holds above its reserve.
    InsufficientAvailable,
    /// The score's player is not the beneficiary account handed in with the call.
    InvalidSubject,
    /// Removing the admin would leave the ledger without any.
    LastAdminRemoval,
    /// A counter, a total or the admin count would pass its bound.
    ArithmeticOverflow,
}

} // verus!
