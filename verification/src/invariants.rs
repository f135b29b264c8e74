//! What every operation keeps: the consistency of each vault with its
//! transactions, and the sum of the funds inside and outside the vaults.

use crate::model::{balances, pending_amounts, EscrowView};
use crate::sums::{lemma_total_bounds_each, lemma_total_push, lemma_total_update, total};
use vstd::prelude::*;

verus! {

/// The state before any vault is created is well formed and holds nothing.
pub proof fn lemma_empty_wf(ledger: Map<Seq<u8>, nat>)
    ensures
        EscrowView::empty(ledger).wf(),
        EscrowView::empty(ledger).held() == 0,
{
}

/// Creating a vault keeps the state well formed and adds nothing to the funds
/// that the vaults hold.
pub proof fn lemma_initialize_wf(
    state: EscrowView,
    caller: Seq<u8>,
    buyer: Seq<u8>,
    seller: Seq<u8>,
)
    requires
        state.wf(),
    ensures
        state.initialize(caller, buyer, seller).wf(),
        state.initialize(caller, buyer, seller).held() == state.held(),
        state.initialize(caller, buyer, seller).ledger == state.ledger,
{
    let after = state.initialize(caller, buyer, seller);
    if state.initialize_outcome(caller, buyer, seller) is Ok {
        assert forall|vault: int| 0 <= vault < after.vaults.len() implies after.vault_wf(
            vault,
        ) by {
            if vault < state.vaults.len() {
                assert(state.vault_wf(vault));
            } else {
                assert(pending_amounts(after.transactions[vault]) =~= Seq::<nat>::empty());
            }
        }
        lemma_total_push(balances(state.vaults), 0);
        assert(balances(after.vaults) =~= balances(state.vaults).push(0));
    }
}

/// Opening a transaction keeps the state well formed and adds its amount to
/// the funds that the vaults hold.
pub proof fn lemma_initiate_wf(state: EscrowView, vault: nat, caller: Seq<u8>, amount: nat)
    requires
        state.wf(),
    ensures
        state.initiate(vault, caller, amount).wf(),
        state.initiate_outcome(vault, caller, amount) is Ok ==> state.initiate(
            vault,
            caller,
            amount,
        ).held() == state.held() + amount,
{
    let after = state.initiate(vault, caller, amount);
    if state.initiate_outcome(vault, caller, amount) is Ok {
        let opened = state.transactions[vault as int];
        assert(state.vault_wf(vault as int));
        assert forall|other: int| 0 <= other < after.vaults.len() implies after.vault_wf(
            other,
        ) by {
            assert(state.vault_wf(other));
            if other == vault {
                lemma_total_push(pending_amounts(opened), amount);
                assert(pending_amounts(after.transactions[other]) =~= pending_amounts(
                    opened,
                ).push(amount));
            }
        }
        lemma_total_update(
            balances(state.vaults),
            vault as int,
            state.vaults[vault as int].balance + amount,
        );
        assert(balances(after.vaults) =~= balances(state.vaults).update(
            vault as int,
            state.vaults[vault as int].balance + amount,
        ));
    }
}

/// Confirming a transaction keeps the state well formed and moves no funds.
pub proof fn lemma_confirm_wf(state: EscrowView, vault: nat, sequence: nat, caller: Seq<u8>)
    requires
        state.wf(),
    ensures
        state.confirm(vault, sequence, caller).wf(),
        state.confirm(vault, sequence, caller).held() == state.held(),
        state.confirm(vault, sequence, caller).ledger == state.ledger,
        state.confirm(vault, sequence, caller).vaults == state.vaults,
{
    let after = state.confirm(vault, sequence, caller);
    if state.confirm_outcome(vault, sequence, caller) is Ok {
        let opened = state.transactions[vault as int];
        assert forall|other: int| 0 <= other < after.vaults.len() implies after.vault_wf(
            other,
        ) by {
            assert(state.vault_wf(other));
            if other == vault {
                assert(opened[sequence as int].wf());
                assert(pending_amounts(after.transactions[other]) =~= pending_amounts(opened));
            }
        }
    }
}

/// In a well-formed state a vault holds at least the amount of each of its
/// transactions that has not been executed.
pub proof fn lemma_vault_covers_pending(state: EscrowView, vault: nat, sequence: nat)
    requires
        state.wf(),
        state.has_transaction(vault, sequence),
    ensures
        state.transactions[vault as int][sequence as int].pending()
            <= state.vaults[vault as int].balance <= state.held(),
{
    assert(state.vault_wf(vault as int));
    lemma_total_bounds_each(pending_amounts(state.transactions[vault as int]), sequence as int);
    lemma_total_bounds_each(balances(state.vaults), vault as int);
}

/// Executing a transaction keeps the state well formed and takes its amount
/// from the funds that the vaults hold.
pub proof fn lemma_execute_wf(state: EscrowView, vault: nat, sequence: nat, caller: Seq<u8>)
    requires
        state.wf(),
    ensures
        state.execute(vault, sequence, caller).wf(),
        state.execute_outcome(vault, sequence, caller) is Ok ==> state.execute(
            vault,
            sequence,
            caller,
        ).held() + state.transactions[vault as int][sequence as int].amount == state.held(),
{
    let after = state.execute(vault, sequence, caller);
    if state.execute_outcome(vault, sequence, caller) is Ok {
        let opened = state.transactions[vault as int];
        let amount = opened[sequence as int].amount;
        lemma_vault_covers_pending(state, vault, sequence);
        assert forall|other: int| 0 <= other < after.vaults.len() implies after.vault_wf(
            other,
        ) by {
            assert(state.vault_wf(other));
            if other == vault {
                lemma_total_update(pending_amounts(opened), sequence as int, 0);
                assert(pending_amounts(after.transactions[other]) =~= pending_amounts(
                    opened,
                ).update(sequence as int, 0));
            }
        }
        lemma_total_update(
            balances(state.vaults),
            vault as int,
            (state.vaults[vault as int].balance - amount) as nat,
        );
        assert(balances(after.vaults) =~= balances(state.vaults).update(
            vault as int,
            (state.vaults[vault as int].balance - amount) as nat,
        ));
    }
}

} // verus!
