//! A disbursement request against a vault, and the steps of its life: opened,
//! confirmed by each party, executed once.

use crate::error::EscrowError;
use crate::identity::Role;
use crate::vault::VaultId;
use vstd::prelude::*;

verus! {

/// The address of a transaction: its vault, and the number of transactions
/// that the vault had opened before it.
#[derive(Clone, Copy, Debug, PartialEq, Eq, Structural)]
pub struct TransactionId {
    pub vault: VaultId,
    pub sequence: u64,
}

/// Where a transaction stands in its life. It only ever moves forward.
#[derive(Clone, Copy, Debug, PartialEq, Eq, Structural)]
pub enum Stage {
    /// At least one party has not confirmed yet.
    Open,
    /// Both parties have confirmed, and the funds are still in the vault.
    Confirmed,
    /// The funds have been released to the seller.
    Executed,
}

impl Stage {
    /// How far a stage is along the life of a transaction.
    pub open spec fn rank(self) -> nat {
        match self {
            Stage::Open => 0,
            Stage::Confirmed => 1,
            Stage::Executed => 2,
        }
    }
}

/// What a transaction is, as a mathematical value.
pub struct TransactionView {
    pub vault: nat,
    pub amount: nat,
    pub confirmed_by_buyer: bool,
    pub confirmed_by_seller: bool,
    pub executed: bool,
}

impl TransactionView {
    /// A transaction as it is opened: nobody has confirmed it, and it has not
    /// been executed.
    pub open spec fn opened(vault: nat, amount: nat) -> TransactionView {
        TransactionView {
            vault,
            amount,
            confirmed_by_buyer: false,
            confirmed_by_seller: false,
            executed: false,
        }
    }

    /// Whether both parties have confirmed.
    pub open spec fn fully_confirmed(self) -> bool {
        self.confirmed_by_buyer && self.confirmed_by_seller
    }

    /// An executed transaction was confirmed by both parties.
    pub open spec fn wf(self) -> bool {
        self.executed ==> self.fully_confirmed()
    }

    /// The stage of the transaction.
    pub open spec fn stage(self) -> Stage {
        if self.executed {
            Stage::Executed
        } else if self.fully_confirmed() {
            Stage::Confirmed
        } else {
            Stage::Open
        }
    }

    /// What the vault still owes on this transaction.
    pub open spec fn pending(self) -> nat {
        if self.executed {
            0
        } else {
            self.amount
        }
    }

    /// The transaction after `role` has confirmed it: the buyer sets the
    /// buyer's flag, the seller sets the seller's, anybody else sets nothing.
    pub open spec fn confirmed(self, role: Role) -> TransactionView {
        match role {
            Role::Buyer => TransactionView { confirmed_by_buyer: true, ..self },
            Role::Seller => TransactionView { confirmed_by_seller: true, ..self },
            Role::Neither => self,
        }
    }

    /// Why `role` may not execute the transaction against a vault that holds
    /// `available`, if anything stands against it. The reasons are looked
    /// for in this order: the caller's role, an earlier execution, a missing
    /// confirmation, the vault's funds.
    pub open spec fn refusal(self, role: Role, available: nat) -> Option<EscrowError> {
        if role == Role::Neither {
            Some(EscrowError::Unauthorized)
        } else if self.executed {
            Some(EscrowError::AlreadyExecuted)
        } else if !self.fully_confirmed() {
            Some(EscrowError::NotFullyConfirmed)
        } else if available < self.amount {
            Some(EscrowError::InsufficientVaultFunds)
        } else {
            None
        }
    }

    /// The transaction after its execution.
    pub open spec fn released(self) -> TransactionView {
        TransactionView { executed: true, ..self }
    }
}

/// One disbursement request: the amount to release, the two confirmations
/// and whether the release has happened.
#[derive(Clone, Copy, Debug, PartialEq, Eq)]
pub struct Transaction {
    vault: VaultId,
    amount: u64,
    confirmed_by_buyer: bool,
    confirmed_by_seller: bool,
    executed: bool,
}

impl View for Transaction {
    type V = TransactionView;

    closed spec fn view(&self) -> TransactionView {
        TransactionView {
            vault: self.vault.0 as nat,
            amount: self.amount as nat,
            confirmed_by_buyer: self.confirmed_by_buyer,
            confirmed_by_seller: self.confirmed_by_seller,
            executed: self.executed,
        }
    }
}

impl Transaction {
    /// Opens a transaction of `amount` against `vault`.
    pub fn open(vault: VaultId, amount: u64) -> (transaction: Transaction)
        ensures
            transaction@ == TransactionView::opened(vault.0 as nat, amount as nat),
    {
        Transaction {
            vault,
            amount,
            confirmed_by_buyer: false,
            confirmed_by_seller: false,
            executed: false,
        }
    }

    /// The transaction of `amount` against `vault` with the given
    /// confirmations, executed or not. There is none that is executed and
    /// lacks a confirmation.
    pub fn from_parts(
        vault: VaultId,
        amount: u64,
        confirmed_by_buyer: bool,
        confirmed_by_seller: bool,
        executed: bool,
    ) -> (found: Option<Transaction>)
        ensures
            match found {
                Some(transaction) => transaction@.wf() && transaction@ == (TransactionView {
                    vault: vault.0 as nat,
                    amount: amount as nat,
                    confirmed_by_buyer,
                    confirmed_by_seller,
                    executed,
                }),
                None => executed && !(confirmed_by_buyer && confirmed_by_seller),
            },
    {
        if executed && !(confirmed_by_buyer && confirmed_by_seller) {
            None
        } else {
            Some(Transaction { vault, amount, confirmed_by_buyer, confirmed_by_seller, executed })
        }
    }

    /// The vault that the transaction belongs to.
    pub fn vault(&self) -> (vault: VaultId)
        ensures
            vault.0 == self@.vault,
    {
        self.vault
    }

    /// The amount that the transaction releases.
    pub fn amount(&self) -> (amount: u64)
        ensures
            amount == self@.amount,
    {
        self.amount
    }

    /// Whether the buyer has confirmed.
    pub fn confirmed_by_buyer(&self) -> (confirmed: bool)
        ensures
            confirmed == self@.confirmed_by_buyer,
    {
        self.confirmed_by_buyer
    }

    /// Whether the seller has confirmed.
    pub fn confirmed_by_seller(&self) -> (confirmed: bool)
        ensures
            confirmed == self@.confirmed_by_seller,
    {
        self.confirmed_by_seller
    }

    /// Whether the funds have been released.
    pub fn is_executed(&self) -> (executed: bool)
        ensures
            executed == self@.executed,
    {
        self.executed
    }

    /// The stage of the transaction.
    pub fn stage(&self) -> (stage: Stage)
        ensures
            stage == self@.stage(),
    {
        if self.executed {
            Stage::Executed
        } else if self.confirmed_by_buyer && self.confirmed_by_seller {
            Stage::Confirmed
        } else {
            Stage::Open
        }
    }

    /// Records the confirmation of the party that holds `role`. An identity
    /// that is neither buyer nor seller is refused.
    pub fn confirm(&mut self, role: Role) -> (result: Result<(), EscrowError>)
        ensures
            final(self)@ == old(self)@.confirmed(role),
            result == if role == Role::Neither {
                Err::<(), EscrowError>(EscrowError::Unauthorized)
            } else {
                Ok::<(), EscrowError>(())
            },
    {
        match role {
            Role::Buyer => {
                self.confirmed_by_buyer = true;
                Ok(())
            },
            Role::Seller => {
                self.confirmed_by_seller = true;
                Ok(())
            },
            Role::Neither => Err(EscrowError::Unauthorized),
        }
    }

    /// Executes the transaction for the party that holds `role`, against a
    /// vault that holds `available`. On success the transaction is marked as
    /// executed, and the amount to move from the vault to the seller is
    /// returned. A refused execution changes nothing.
    pub fn execute(&mut self, role: Role, available: u64) -> (result: Result<u64, EscrowError>)
        ensures
            match old(self)@.refusal(role, available as nat) {
                Some(error) => {
                    &&& result == Err::<u64, EscrowError>(error)
                    &&& final(self)@ == old(self)@
                },
                None => {
                    &&& result matches Ok(amount)
                    &&& amount == old(self)@.amount
                    &&& final(self)@ == old(self)@.released()
                },
            },
    {
        match role {
            Role::Neither => {
                return Err(EscrowError::Unauthorized);
            },
            _ => {},
        }
        if self.executed {
            return Err(EscrowError::AlreadyExecuted);
        }
        if !(self.confirmed_by_buyer && self.confirmed_by_seller) {
            return Err(EscrowError::NotFullyConfirmed);
        }
        if available < self.amount {
            return Err(EscrowError::InsufficientVaultFunds);
        }
        self.executed = true;
        Ok(self.amount)
    }
}

} // verus!
