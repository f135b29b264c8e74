//! The holding account of one buyer and one seller.

use crate::error::EscrowError;
use crate::identity::{check_role, role_of, Identity, Role};
use vstd::prelude::*;

verus! {

/// The address of a vault: the number of vaults created before it.
#[derive(Clone, Copy, Debug, PartialEq, Eq, Structural)]
pub struct VaultId(pub u64);

/// What a vault is, as a mathematical value.
pub struct VaultView {
    pub buyer: Seq<u8>,
    pub seller: Seq<u8>,
    pub balance: nat,
    pub transaction_count: nat,
}

impl VaultView {
    /// A vault as it is created: empty, with no transaction.
    pub open spec fn created(buyer: Seq<u8>, seller: Seq<u8>) -> VaultView {
        VaultView { buyer, seller, balance: 0, transaction_count: 0 }
    }

    /// Why `caller` may not create a vault for `buyer` and `seller`, if
    /// anything stands against it: only the buyer creates a vault, and the
    /// seller is somebody else.
    pub open spec fn creation_refusal(caller: Seq<u8>, buyer: Seq<u8>, seller: Seq<u8>) -> Option<
        EscrowError,
    > {
        if caller != buyer {
            Some(EscrowError::Unauthorized)
        } else if buyer == seller {
            Some(EscrowError::InvalidParticipants)
        } else {
            None
        }
    }

    /// The role of `actor` toward this vault.
    pub open spec fn role(self, actor: Seq<u8>) -> Role {
        role_of(self.buyer, self.seller, actor)
    }

    /// Why `caller`, who holds `funds`, may not deposit `amount`, if anything
    /// stands against it: only the buyer deposits, and only what the buyer
    /// has.
    pub open spec fn deposit_refusal(self, caller: Seq<u8>, funds: nat, amount: nat) -> Option<
        EscrowError,
    > {
        if self.role(caller) != Role::Buyer {
            Some(EscrowError::Unauthorized)
        } else if funds < amount {
            Some(EscrowError::InsufficientFunds)
        } else {
            None
        }
    }

    /// The vault after a deposit of `amount` has opened one more transaction.
    pub open spec fn deposited(self, amount: nat) -> VaultView {
        VaultView {
            balance: self.balance + amount,
            transaction_count: self.transaction_count + 1,
            ..self
        }
    }

    /// The vault after `amount` has left it.
    pub open spec fn withdrawn(self, amount: nat) -> VaultView {
        VaultView { balance: (self.balance - amount) as nat, ..self }
    }
}

/// The funds that a buyer has locked for a seller, and the number of
/// transactions opened against them.
#[derive(Clone, Copy, Debug, PartialEq, Eq)]
pub struct Vault {
    buyer: Identity,
    seller: Identity,
    balance: u64,
    transaction_count: u64,
}

impl View for Vault {
    type V = VaultView;

    closed spec fn view(&self) -> VaultView {
        VaultView {
            buyer: self.buyer@,
            seller: self.seller@,
            balance: self.balance as nat,
            transaction_count: self.transaction_count as nat,
        }
    }
}

impl Vault {
    /// Creates the vault that `caller` asks for, empty and without
    /// transactions. The caller must be the buyer, and the seller must be
    /// somebody else.
    pub fn create(caller: &Identity, buyer: Identity, seller: Identity) -> (result: Result<
        Vault,
        EscrowError,
    >)
        ensures
            match VaultView::creation_refusal(caller@, buyer@, seller@) {
                Some(error) => result matches Err(refused) && refused == error,
                None => result matches Ok(vault) && vault@ == VaultView::created(buyer@, seller@),
            },
    {
        if !caller.same(&buyer) {
            Err(EscrowError::Unauthorized)
        } else if buyer.same(&seller) {
            Err(EscrowError::InvalidParticipants)
        } else {
            Ok(Vault { buyer, seller, balance: 0, transaction_count: 0 })
        }
    }

    /// The vault that holds `balance` for `buyer` and `seller` and has
    /// counted `transaction_count` transactions. There is none where buyer
    /// and seller are one identity.
    pub fn from_parts(buyer: Identity, seller: Identity, balance: u64, transaction_count: u64) -> (
        result: Result<Vault, EscrowError>
    )
        ensures
            match result {
                Ok(vault) => buyer@ != seller@ && vault@ == (VaultView {
                    buyer: buyer@,
                    seller: seller@,
                    balance: balance as nat,
                    transaction_count: transaction_count as nat,
                }),
                Err(error) => buyer@ == seller@ && error == EscrowError::InvalidParticipants,
            },
    {
        if buyer.same(&seller) {
            Err(EscrowError::InvalidParticipants)
        } else {
            Ok(Vault { buyer, seller, balance, transaction_count })
        }
    }

    /// The identity that funds the vault.
    pub fn buyer(&self) -> (buyer: Identity)
        ensures
            buyer@ == self@.buyer,
    {
        self.buyer
    }

    /// The identity that is paid from the vault.
    pub fn seller(&self) -> (seller: Identity)
        ensures
            seller@ == self@.seller,
    {
        self.seller
    }

    /// The funds that the vault holds.
    pub fn balance(&self) -> (balance: u64)
        ensures
            balance == self@.balance,
    {
        self.balance
    }

    /// The number of transactions ever opened against the vault.
    pub fn transaction_count(&self) -> (count: u64)
        ensures
            count == self@.transaction_count,
    {
        self.transaction_count
    }

    /// The role of `actor` toward this vault.
    pub fn role_of(&self, actor: &Identity) -> (role: Role)
        ensures
            role == self@.role(actor@),
    {
        check_role(&self.buyer, &self.seller, actor)
    }

    /// Decides whether `caller`, who holds `funds`, may deposit `amount`.
    pub fn check_deposit(&self, caller: &Identity, funds: u64, amount: u64) -> (result: Result<
        (),
        EscrowError,
    >)
        ensures
            match self@.deposit_refusal(caller@, funds as nat, amount as nat) {
                Some(error) => result == Err::<(), EscrowError>(error),
                None => result == Ok::<(), EscrowError>(()),
            },
    {
        match self.role_of(caller) {
            Role::Buyer => {
                if funds < amount {
                    Err(EscrowError::InsufficientFunds)
                } else {
                    Ok(())
                }
            },
            _ => Err(EscrowError::Unauthorized),
        }
    }

    /// Takes in a deposit of `amount` and counts the transaction that it
    /// opens. The new balance and the new count must fit in 64 bits.
    pub fn deposit(&mut self, amount: u64)
        requires
            old(self)@.balance + amount <= u64::MAX,
            old(self)@.transaction_count < u64::MAX,
        ensures
            final(self)@ == old(self)@.deposited(amount as nat),
    {
        self.balance = self.balance + amount;
        self.transaction_count = self.transaction_count + 1;
    }

    /// Lets `amount` leave the vault, which must hold it.
    pub fn withdraw(&mut self, amount: u64)
        requires
            amount <= old(self)@.balance,
        ensures
            final(self)@ == old(self)@.withdrawn(amount as nat),
    {
        self.balance = self.balance - amount;
    }
}

} // verus!
