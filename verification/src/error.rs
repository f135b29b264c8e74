//! The ways an escrow operation can be refused.

use vstd::prelude::*;

verus! {

/// Why an operation was refused. A refused operation changes nothing.
#[derive(Clone, Copy, Debug, PartialEq, Eq, Structural)]
pub enum EscrowError {
    /// The caller does not hold the role that the operation asks for.
    Unauthorized,
    /// The buyer cannot cover the amount of a deposit.
    InsufficientFunds,
    /// The vault holds less than a transaction is about to release.
    InsufficientVaultFunds,
    /// The transaction has been executed before.
    AlreadyExecuted,
    /// Buyer and seller have not both confirmed the transaction.
    NotFullyConfirmed,
    /// Buyer and seller of a vault are one and the same identity.
    InvalidParticipants,
}

} // verus!
