//! The escrow itself: the ledger, the vaults and their transactions, and the
//! four operations on them.

use crate::error::EscrowError;
use crate::identity::Identity;
use crate::invariants::{
    lemma_confirm_wf, lemma_empty_wf, lemma_execute_wf, lemma_initialize_wf, lemma_initiate_wf,
    lemma_vault_covers_pending,
};
use crate::ledger::Ledger;
use crate::model::{balances, EscrowView};
use crate::sums::lemma_total_bounds_each;
use crate::transaction::{Transaction, TransactionId};
use crate::vault::{Vault, VaultId};
use vstd::prelude::*;

verus! {

/// The request of `caller` to create a vault for `buyer` and `seller`.
#[derive(Clone, Copy, Debug)]
pub struct Initialize {
    pub caller: Identity,
    pub buyer: Identity,
    pub seller: Identity,
}

/// The request of `buyer` to deposit `amount` into `vault` and to open a
/// transaction of that amount.
#[derive(Clone, Copy, Debug)]
pub struct InitiateTransaction {
    pub vault: VaultId,
    pub buyer: Identity,
    pub amount: u64,
}

/// The request of `confirmation_by` to confirm `transaction`.
#[derive(Clone, Copy, Debug)]
pub struct ConfirmTransaction {
    pub transaction: TransactionId,
    pub confirmation_by: Identity,
}

/// The request of `execution_by` to release the funds of `transaction`.
#[derive(Clone, Copy, Debug)]
pub struct ExecuteTrasaction {
    pub transaction: TransactionId,
    pub execution_by: Identity,
}

/// The ledger, every vault, and the transactions of every vault, each at
/// the place that its address names.
pub struct Escrow {
    ledger: Ledger,
    vaults: Vec<Vault>,
    transactions: Vec<Vec<Transaction>>,
}

impl View for Escrow {
    type V = EscrowView;

    closed spec fn view(&self) -> EscrowView {
        EscrowView {
            ledger: self.ledger@,
            vaults: Seq::new(self.vaults@.len(), |v: int| self.vaults@[v]@),
            transactions: Seq::new(
                self.transactions@.len(),
                |v: int|
                    Seq::new(self.transactions@[v]@.len(), |t: int| self.transactions@[v]@[t]@),
            ),
        }
    }
}

impl Escrow {
    /// The state is sound: the ledger is, every vault is consistent with its
    /// transactions, and the funds inside and outside the vaults together fit
    /// in 64 bits.
    pub closed spec fn wf(&self) -> bool {
        &&& self.ledger.wf()
        &&& self@.wf()
        &&& self.ledger.total() + self@.held() <= u64::MAX
    }

    /// The sum of the funds inside and outside the vaults.
    pub closed spec fn funds(&self) -> nat {
        self.ledger.total() + self@.held()
    }

    /// No balance outside the vaults, and nothing that the vaults hold,
    /// exceeds the sum of all funds, which fits in 64 bits.
    pub proof fn lemma_within_funds(&self, owner: Seq<u8>, vault: nat)
        requires
            self.wf(),
            self@.has_vault(vault),
        ensures
            self@.ledger[owner] + self@.vaults[vault as int].balance <= self.funds() <= u64::MAX,
    {
        self.ledger.lemma_balance_bounded(owner);
        lemma_total_bounds_each(balances(self@.vaults), vault as int);
    }

    /// An escrow without vaults, over the balances of `ledger`.
    pub fn new(ledger: Ledger) -> (state: Escrow)
        requires
            ledger.wf(),
        ensures
            state.wf(),
            state@ == EscrowView::empty(ledger@),
            state.funds() == ledger.total(),
    {
        let state = Escrow { ledger, vaults: Vec::new(), transactions: Vec::new() };
        proof {
            lemma_empty_wf(ledger@);
            ledger.lemma_balance_bounded(Seq::empty());
            assert(state@ =~~= EscrowView::empty(ledger@));
        }
        state
    }

    /// The balance that `owner` holds outside the vaults.
    pub fn balance(&self, owner: &Identity) -> (amount: u64)
        requires
            self.wf(),
        ensures
            amount == self@.ledger[owner@],
    {
        self.ledger.balance(owner)
    }

    /// The number of vaults.
    pub fn vault_count(&self) -> (count: u64)
        ensures
            count == self@.vaults.len(),
    {
        self.vaults.len() as u64
    }

    /// The vault at `id`, if there is one.
    pub fn vault(&self, id: VaultId) -> (found: Option<Vault>)
        ensures
            match found {
                Some(vault) => self@.has_vault(id.0 as nat) && vault@ == self@.vaults[id.0 as int],
                None => !self@.has_vault(id.0 as nat),
            },
    {
        if id.0 >= self.vaults.len() as u64 {
            return None;
        }
        Some(self.vaults[id.0 as usize])
    }

    /// The transaction at `id`, if there is one.
    pub fn transaction(&self, id: TransactionId) -> (found: Option<Transaction>)
        ensures
            match found {
                Some(transaction) => {
                    &&& self@.has_transaction(id.vault.0 as nat, id.sequence as nat)
                    &&& transaction@ == self@.transactions[id.vault.0 as int][id.sequence as int]
                },
                None => !self@.has_transaction(id.vault.0 as nat, id.sequence as nat),
            },
    {
        if id.vault.0 >= self.vaults.len() as u64 || id.vault.0 >= self.transactions.len() as u64 {
            return None;
        }
        let v: usize = id.vault.0 as usize;
        if id.sequence >= self.transactions[v].len() as u64 {
            return None;
        }
        Some(self.transactions[v][id.sequence as usize])
    }
}

/// Creates a vault for the buyer and the seller of `request`, empty and
/// without transactions, and returns its address. The caller must be the
/// buyer, and the seller must be somebody else.
pub fn initialize(state: &mut Escrow, request: Initialize) -> (result: Result<
    VaultId,
    EscrowError,
>)
    requires
        old(state).wf(),
    ensures
        final(state).wf(),
        final(state).funds() == old(state).funds(),
        final(state)@ == old(state)@.initialize(
            request.caller@,
            request.buyer@,
            request.seller@,
        ),
        match result {
            Ok(id) => old(state)@.initialize_outcome(
                request.caller@,
                request.buyer@,
                request.seller@,
            ) == Ok::<nat, EscrowError>(id.0 as nat),
            Err(error) => old(state)@.initialize_outcome(
                request.caller@,
                request.buyer@,
                request.seller@,
            ) == Err::<nat, EscrowError>(error),
        },
{
    match Vault::create(&request.caller, request.buyer, request.seller) {
        Ok(vault) => {
            let id = VaultId(state.vaults.len() as u64);
            state.vaults.push(vault);
            state.transactions.push(Vec::new());
            proof {
                lemma_initialize_wf(
                    old(state)@,
                    request.caller@,
                    request.buyer@,
                    request.seller@,
                );
                assert(state@ =~~= old(state)@.initialize(
                    request.caller@,
                    request.buyer@,
                    request.seller@,
                ));
            }
            Ok(id)
        },
        Err(error) => Err(error),
    }
}

/// Deposits the amount of `request` from its buyer into the vault and opens
/// a transaction of that amount, which nobody has confirmed. Returns the
/// address of the transaction: the vault, and the vault's count of
/// transactions before this one. Only the buyer of the vault may do this,
/// and only with funds that cover the amount.
pub fn initiate_transaction(state: &mut Escrow, request: InitiateTransaction) -> (result: Result<
    TransactionId,
    EscrowError,
>)
    requires
        old(state).wf(),
    ensures
        final(state).wf(),
        final(state).funds() == old(state).funds(),
        final(state)@ == old(state)@.initiate(
            request.vault.0 as nat,
            request.buyer@,
            request.amount as nat,
        ),
        match result {
            Ok(id) => {
                &&& id.vault == request.vault
                &&& old(state)@.initiate_outcome(
                    request.vault.0 as nat,
                    request.buyer@,
                    request.amount as nat,
                ) == Ok::<nat, EscrowError>(id.sequence as nat)
            },
            Err(error) => old(state)@.initiate_outcome(
                request.vault.0 as nat,
                request.buyer@,
                request.amount as nat,
            ) == Err::<nat, EscrowError>(error),
        },
{
    if request.vault.0 >= state.vaults.len() as u64 {
        return Err(EscrowError::Unauthorized);
    }
    let v: usize = request.vault.0 as usize;
    let funds: u64 = state.ledger.balance(&request.buyer);
    match state.vaults[v].check_deposit(&request.buyer, funds, request.amount) {
        Ok(()) => {},
        Err(error) => {
            return Err(error);
        },
    }
    proof {
        state.ledger.lemma_balance_bounded(request.buyer@);
        lemma_initiate_wf(old(state)@, v as nat, request.buyer@, request.amount as nat);
        assert(old(state)@.vault_wf(v as int));
    }
    let debited = state.ledger.debit(&request.buyer, request.amount);
    assert(debited);
    let sequence: u64 = state.vaults[v].transaction_count();
    state.transactions[v].push(Transaction::open(request.vault, request.amount));
    proof {
        lemma_total_bounds_each(balances(old(state)@.vaults), v as int);
        assert(state.transactions@[v as int].len() == state.transactions@[v as int]@.len());
    }
    state.vaults[v].deposit(request.amount);
    proof {
        assert(state@ =~~= old(state)@.initiate(
            request.vault.0 as nat,
            request.buyer@,
            request.amount as nat,
        ));
    }
    Ok(TransactionId { vault: request.vault, sequence })
}

/// Records that the caller of `request` confirms its transaction: the
/// buyer's flag for the buyer, the seller's flag for the seller. Confirming
/// again changes nothing. Anybody else is refused.
pub fn confirm_transaction(state: &mut Escrow, request: ConfirmTransaction) -> (result: Result<
    (),
    EscrowError,
>)
    requires
        old(state).wf(),
    ensures
        final(state).wf(),
        final(state).funds() == old(state).funds(),
        final(state)@ == old(state)@.confirm(
            request.transaction.vault.0 as nat,
            request.transaction.sequence as nat,
            request.confirmation_by@,
        ),
        result == old(state)@.confirm_outcome(
            request.transaction.vault.0 as nat,
            request.transaction.sequence as nat,
            request.confirmation_by@,
        ),
{
    let id = request.transaction;
    if id.vault.0 >= state.vaults.len() as u64 {
        return Err(EscrowError::Unauthorized);
    }
    let v: usize = id.vault.0 as usize;
    if id.sequence >= state.transactions[v].len() as u64 {
        return Err(EscrowError::Unauthorized);
    }
    let t: usize = id.sequence as usize;
    let role = state.vaults[v].role_of(&request.confirmation_by);
    let result = state.transactions[v][t].confirm(role);
    proof {
        lemma_confirm_wf(old(state)@, v as nat, t as nat, request.confirmation_by@);
        assert(state@ =~~= old(state)@.confirm(v as nat, t as nat, request.confirmation_by@));
    }
    result
}

/// Releases the funds of the transaction of `request` from its vault to the
/// seller, and marks the transaction as executed. The caller must be the
/// buyer or the seller, the transaction must not have been executed before,
/// and both parties must have confirmed it.
pub fn execute_transaction(state: &mut Escrow, request: ExecuteTrasaction) -> (result: Result<
    (),
    EscrowError,
>)
    requires
        old(state).wf(),
    ensures
        final(state).wf(),
        final(state).funds() == old(state).funds(),
        final(state)@ == old(state)@.execute(
            request.transaction.vault.0 as nat,
            request.transaction.sequence as nat,
            request.execution_by@,
        ),
        result == old(state)@.execute_outcome(
            request.transaction.vault.0 as nat,
            request.transaction.sequence as nat,
            request.execution_by@,
        ),
{
    let id = request.transaction;
    if id.vault.0 >= state.vaults.len() as u64 {
        return Err(EscrowError::Unauthorized);
    }
    let v: usize = id.vault.0 as usize;
    if id.sequence >= state.transactions[v].len() as u64 {
        return Err(EscrowError::Unauthorized);
    }
    let t: usize = id.sequence as usize;
    let role = state.vaults[v].role_of(&request.execution_by);
    let available: u64 = state.vaults[v].balance();
    let seller = state.vaults[v].seller();
    match state.transactions[v][t].execute(role, available) {
        Ok(amount) => {
            proof {
                lemma_execute_wf(old(state)@, v as nat, t as nat, request.execution_by@);
                lemma_vault_covers_pending(old(state)@, v as nat, t as nat);
            }
            state.vaults[v].withdraw(amount);
            let credited = state.ledger.credit(&seller, amount);
            proof {
                assert(credited);
                assert(state@ =~~= old(state)@.execute(
                    v as nat,
                    t as nat,
                    request.execution_by@,
                ));
            }
            Ok(())
        },
        Err(error) => {
            proof {
                assert(state@ =~~= old(state)@);
            }
            Err(error)
        },
    }
}

} // verus!
