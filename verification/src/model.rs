//! The escrow as a mathematical state, and its four operations as
//! transitions of that state. Every operation has an outcome, and a state
//! that it leaves behind; a refused operation leaves the state as it was.

use crate::error::EscrowError;
use crate::identity::Role;
use crate::sums::total;
use crate::transaction::TransactionView;
use crate::vault::VaultView;
use vstd::prelude::*;

verus! {

/// The balances outside the vaults, the vaults in the order of their
/// creation, and for each vault its transactions in the order of their
/// opening.
#[verifier::ext_equal]
pub struct EscrowView {
    pub ledger: Map<Seq<u8>, nat>,
    pub vaults: Seq<VaultView>,
    pub transactions: Seq<Seq<TransactionView>>,
}

/// What a vault still owes on each of `transactions`.
pub open spec fn pending_amounts(transactions: Seq<TransactionView>) -> Seq<nat> {
    Seq::new(transactions.len(), |t: int| transactions[t].pending())
}

/// The balance of each of `vaults`.
pub open spec fn balances(vaults: Seq<VaultView>) -> Seq<nat> {
    Seq::new(vaults.len(), |v: int| vaults[v].balance)
}

impl EscrowView {
    /// The state before any vault is created.
    pub open spec fn empty(ledger: Map<Seq<u8>, nat>) -> EscrowView {
        EscrowView { ledger, vaults: Seq::empty(), transactions: Seq::empty() }
    }

    /// Whether `vault` is the address of a vault.
    pub open spec fn has_vault(self, vault: nat) -> bool {
        vault < self.vaults.len()
    }

    /// Whether `sequence` is the address of a transaction of `vault`.
    pub open spec fn has_transaction(self, vault: nat, sequence: nat) -> bool {
        self.has_vault(vault) && vault < self.transactions.len() && sequence
            < self.transactions[vault as int].len()
    }

    /// The role of `actor` toward `vault`. Toward a vault that does not exist
    /// nobody has a role.
    pub open spec fn role(self, vault: nat, actor: Seq<u8>) -> Role {
        if self.has_vault(vault) {
            self.vaults[vault as int].role(actor)
        } else {
            Role::Neither
        }
    }

    /// The funds that all vaults hold together.
    pub open spec fn held(self) -> nat {
        total(balances(self.vaults))
    }

    /// One vault is consistent with its transactions: its parties differ, it
    /// has counted each of its transactions, each of them names it and is
    /// well formed, and it holds exactly what it still owes on them.
    pub open spec fn vault_wf(self, vault: int) -> bool {
        let record = self.vaults[vault];
        let opened = self.transactions[vault];
        &&& record.buyer != record.seller
        &&& record.transaction_count == opened.len()
        &&& record.balance == total(pending_amounts(opened))
        &&& forall|t: int|
            0 <= t < opened.len() ==> (#[trigger] opened[t]).wf() && opened[t].vault == vault
    }

    /// Every vault is consistent with its transactions.
    pub open spec fn wf(self) -> bool {
        &&& self.transactions.len() == self.vaults.len()
        &&& forall|vault: int| 0 <= vault < self.vaults.len() ==> self.vault_wf(vault)
    }

    /// What `caller` is returned for creating a vault for `buyer` and
    /// `seller`: the address of the new vault, which is the number of vaults
    /// so far. The caller must be the buyer, and the seller somebody else.
    pub open spec fn initialize_outcome(
        self,
        caller: Seq<u8>,
        buyer: Seq<u8>,
        seller: Seq<u8>,
    ) -> Result<nat, EscrowError> {
        match VaultView::creation_refusal(caller, buyer, seller) {
            Some(error) => Err(error),
            None => Ok(self.vaults.len()),
        }
    }

    /// The state after `caller` has created a vault for `buyer` and `seller`:
    /// the new vault stands last, empty and without transactions.
    pub open spec fn initialize(self, caller: Seq<u8>, buyer: Seq<u8>, seller: Seq<u8>) -> EscrowView {
        if self.initialize_outcome(caller, buyer, seller) is Ok {
            EscrowView {
                ledger: self.ledger,
                vaults: self.vaults.push(VaultView::created(buyer, seller)),
                transactions: self.transactions.push(Seq::empty()),
            }
        } else {
            self
        }
    }

    /// What opening a transaction of `amount` on `vault` returns to `caller`:
    /// the sequence number of the new transaction, which is the vault's count
    /// of transactions so far. Only the vault's buyer may open one, and only
    /// with funds that cover the amount.
    pub open spec fn initiate_outcome(self, vault: nat, caller: Seq<u8>, amount: nat) -> Result<
        nat,
        EscrowError,
    > {
        if !self.has_vault(vault) {
            Err(EscrowError::Unauthorized)
        } else {
            match self.vaults[vault as int].deposit_refusal(caller, self.ledger[caller], amount) {
                Some(error) => Err(error),
                None => Ok(self.vaults[vault as int].transaction_count),
            }
        }
    }

    /// The state after `caller` has opened a transaction of `amount` on
    /// `vault`: the amount has moved from the buyer to the vault, the
    /// transaction stands last among those of the vault, and the vault has
    /// counted it.
    pub open spec fn initiate(self, vault: nat, caller: Seq<u8>, amount: nat) -> EscrowView {
        if self.initiate_outcome(vault, caller, amount) is Ok {
            EscrowView {
                ledger: self.ledger.insert(caller, (self.ledger[caller] - amount) as nat),
                vaults: self.vaults.update(
                    vault as int,
                    self.vaults[vault as int].deposited(amount),
                ),
                transactions: self.transactions.update(
                    vault as int,
                    self.transactions[vault as int].push(TransactionView::opened(vault, amount)),
                ),
            }
        } else {
            self
        }
    }

    /// What confirming transaction `sequence` of `vault` returns to `caller`:
    /// success for the buyer and for the seller of the vault, and for nobody
    /// else.
    pub open spec fn confirm_outcome(self, vault: nat, sequence: nat, caller: Seq<u8>) -> Result<
        (),
        EscrowError,
    > {
        if !self.has_transaction(vault, sequence) || self.role(vault, caller) == Role::Neither {
            Err(EscrowError::Unauthorized)
        } else {
            Ok(())
        }
    }

    /// The state after `caller` has confirmed transaction `sequence` of
    /// `vault`: the flag of the caller's role is set, and nothing else moved.
    pub open spec fn confirm(self, vault: nat, sequence: nat, caller: Seq<u8>) -> EscrowView {
        if self.confirm_outcome(vault, sequence, caller) is Ok {
            let opened = self.transactions[vault as int];
            EscrowView {
                ledger: self.ledger,
                vaults: self.vaults,
                transactions: self.transactions.update(
                    vault as int,
                    opened.update(
                        sequence as int,
                        opened[sequence as int].confirmed(self.role(vault, caller)),
                    ),
                ),
            }
        } else {
            self
        }
    }

    /// What executing transaction `sequence` of `vault` returns to `caller`.
    /// It succeeds for the buyer or the seller of the vault, once, when both
    /// have confirmed and the vault holds the amount.
    pub open spec fn execute_outcome(self, vault: nat, sequence: nat, caller: Seq<u8>) -> Result<
        (),
        EscrowError,
    > {
        if !self.has_transaction(vault, sequence) {
            Err(EscrowError::Unauthorized)
        } else {
            match self.transactions[vault as int][sequence as int].refusal(
                self.role(vault, caller),
                self.vaults[vault as int].balance,
            ) {
                Some(error) => Err(error),
                None => Ok(()),
            }
        }
    }

    /// The state after `caller` has executed transaction `sequence` of
    /// `vault`: the amount has moved from the vault to the seller, and the
    /// transaction is marked as executed.
    pub open spec fn execute(self, vault: nat, sequence: nat, caller: Seq<u8>) -> EscrowView {
        if self.execute_outcome(vault, sequence, caller) is Ok {
            let record = self.vaults[vault as int];
            let opened = self.transactions[vault as int];
            let amount = opened[sequence as int].amount;
            EscrowView {
                ledger: self.ledger.insert(record.seller, self.ledger[record.seller] + amount),
                vaults: self.vaults.update(vault as int, record.withdrawn(amount)),
                transactions: self.transactions.update(
                    vault as int,
                    opened.update(sequence as int, opened[sequence as int].released()),
                ),
            }
        } else {
            self
        }
    }
}

} // verus!
