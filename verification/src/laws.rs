//! What holds of the escrow in every well-formed state and after every
//! sequence of operations.

use crate::error::EscrowError;
use crate::history::{lemma_apply_keeps, lemma_run_keeps, Operation};
use crate::identity::Role;
use crate::invariants::{lemma_execute_wf, lemma_initialize_wf, lemma_vault_covers_pending};
use crate::model::EscrowView;
use vstd::prelude::*;

verus! {

/// A vault's count of transactions grows by one with each transaction that
/// is opened on it and with nothing else, and every sequence number below
/// the count is the address of a transaction of the vault.
pub proof fn lemma_count_follows_opens(state: EscrowView, operations: Seq<Operation>, vault: nat)
    requires
        state.wf(),
        state.has_vault(vault),
    ensures
        state.run(operations).has_vault(vault),
        state.run(operations).vaults[vault as int].transaction_count
            == state.vaults[vault as int].transaction_count + state.opens(operations, vault),
        forall|sequence: nat|
            sequence < state.run(operations).vaults[vault as int].transaction_count
                <==> #[trigger] state.run(operations).has_transaction(vault, sequence),
    decreases operations.len(),
{
    let end = state.run(operations);
    lemma_run_keeps(state, operations);
    assert(end.vault_wf(vault as int));
    if operations.len() > 0 {
        let earlier = state.run(operations.drop_last());
        lemma_count_follows_opens(state, operations.drop_last(), vault);
        lemma_run_keeps(state, operations.drop_last());
        assert(earlier.vault_wf(vault as int));
    }
}

/// On a vault that has just been created, the count of transactions after
/// any sequence of operations is the number of transactions that these
/// operations opened on it, and the transactions stand at the sequence
/// numbers below that number.
pub proof fn lemma_count_of_new_vault(
    state: EscrowView,
    buyer: Seq<u8>,
    seller: Seq<u8>,
    operations: Seq<Operation>,
)
    requires
        state.wf(),
        buyer != seller,
    ensures
        state.initialize_outcome(buyer, buyer, seller) == Ok::<nat, EscrowError>(
            state.vaults.len(),
        ),
        ({
            let created = state.initialize(buyer, buyer, seller);
            let vault = state.vaults.len();
            let end = created.run(operations);
            &&& created.vaults[vault as int].transaction_count == 0
            &&& end.has_vault(vault)
            &&& end.vaults[vault as int].transaction_count == created.opens(operations, vault)
            &&& forall|sequence: nat|
                sequence < created.opens(operations, vault) <==> #[trigger] end.has_transaction(
                    vault,
                    sequence,
                )
        }),
{
    lemma_initialize_wf(state, buyer, buyer, seller);
    lemma_count_follows_opens(
        state.initialize(buyer, buyer, seller),
        operations,
        state.vaults.len(),
    );
}

/// An execution succeeds only on a transaction that both parties have
/// confirmed. After any sequence of operations that leaves a confirmation
/// missing, the buyer and the seller are told so, and nothing moves.
pub proof fn lemma_execute_needs_both_confirmations(
    state: EscrowView,
    operations: Seq<Operation>,
    vault: nat,
    sequence: nat,
    caller: Seq<u8>,
)
    requires
        state.wf(),
    ensures
        ({
            let end = state.run(operations);
            let transaction = end.transactions[vault as int][sequence as int];
            &&& end.execute_outcome(vault, sequence, caller) is Ok ==> {
                &&& end.has_transaction(vault, sequence)
                &&& transaction.confirmed_by_buyer
                &&& transaction.confirmed_by_seller
                &&& !transaction.executed
            }
            &&& end.has_transaction(vault, sequence) && end.role(vault, caller) != Role::Neither
                && !transaction.fully_confirmed() ==> {
                &&& end.execute_outcome(vault, sequence, caller) == Err::<(), EscrowError>(
                    EscrowError::NotFullyConfirmed,
                )
                &&& end.execute(vault, sequence, caller) == end
            }
        }),
{
    let end = state.run(operations);
    lemma_run_keeps(state, operations);
    if end.has_transaction(vault, sequence) {
        assert(end.vault_wf(vault as int));
        assert(end.transactions[vault as int][sequence as int].wf());
    }
}

/// The funds of a vault always cover an execution: in a well-formed state no
/// execution is refused for want of funds in the vault.
pub proof fn lemma_vault_never_short(
    state: EscrowView,
    vault: nat,
    sequence: nat,
    caller: Seq<u8>,
)
    requires
        state.wf(),
    ensures
        state.execute_outcome(vault, sequence, caller) != Err::<(), EscrowError>(
            EscrowError::InsufficientVaultFunds,
        ),
{
    if state.has_transaction(vault, sequence) {
        lemma_vault_covers_pending(state, vault, sequence);
    }
}

/// A successful execution moves exactly the amount of the transaction from
/// the vault to the seller, and marks the transaction as executed.
pub proof fn lemma_execute_moves_amount(
    state: EscrowView,
    vault: nat,
    sequence: nat,
    caller: Seq<u8>,
)
    requires
        state.wf(),
        state.execute_outcome(vault, sequence, caller) is Ok,
    ensures
        ({
            let after = state.execute(vault, sequence, caller);
            let amount = state.transactions[vault as int][sequence as int].amount;
            let seller = state.vaults[vault as int].seller;
            &&& after.vaults[vault as int].balance + amount == state.vaults[vault as int].balance
            &&& after.ledger[seller] == state.ledger[seller] + amount
            &&& forall|other: Seq<u8>| other != seller ==> after.ledger[other] == state.ledger[other]
            &&& after.transactions[vault as int][sequence as int].executed
        }),
{
    lemma_vault_covers_pending(state, vault, sequence);
}

/// A transaction is executed at most once. After a successful execution,
/// and whatever operations follow it, the buyer and the seller are told that
/// the transaction has been executed, and the state stays as it is: no funds
/// move a second time.
pub proof fn lemma_no_double_execution(
    state: EscrowView,
    vault: nat,
    sequence: nat,
    caller: Seq<u8>,
    operations: Seq<Operation>,
    again: Seq<u8>,
)
    requires
        state.wf(),
        state.execute_outcome(vault, sequence, caller) is Ok,
    ensures
        ({
            let later = state.execute(vault, sequence, caller).run(operations);
            &&& later.execute(vault, sequence, again) == later
            &&& later.execute_outcome(vault, sequence, again) == if later.role(vault, again)
                == Role::Neither {
                Err::<(), EscrowError>(EscrowError::Unauthorized)
            } else {
                Err::<(), EscrowError>(EscrowError::AlreadyExecuted)
            }
            &&& later.role(vault, again) == state.role(vault, again)
        }),
{
    let executed = state.execute(vault, sequence, caller);
    lemma_execute_wf(state, vault, sequence, caller);
    lemma_apply_keeps(state, Operation::Execute { vault, sequence, caller });
    assert(state.has_transaction(vault, sequence));
    assert(executed.has_transaction(vault, sequence));
    assert(executed.transactions[vault as int][sequence as int].executed);
    lemma_run_keeps(executed, operations);
}

/// Confirming twice is confirming once.
pub proof fn lemma_confirm_idempotent(
    state: EscrowView,
    vault: nat,
    sequence: nat,
    caller: Seq<u8>,
)
    ensures
        state.confirm(vault, sequence, caller).confirm(vault, sequence, caller) == state.confirm(
            vault,
            sequence,
            caller,
        ),
        state.confirm(vault, sequence, caller).confirm_outcome(vault, sequence, caller)
            == state.confirm_outcome(vault, sequence, caller),
{
    let once = state.confirm(vault, sequence, caller);
    let twice = once.confirm(vault, sequence, caller);
    assert(twice =~~= once);
}

/// The order of two confirmations does not matter: whoever confirms first,
/// both calls return the same, and the state at the end is the same.
pub proof fn lemma_confirm_commutes(
    state: EscrowView,
    vault: nat,
    sequence: nat,
    first: Seq<u8>,
    second: Seq<u8>,
)
    ensures
        state.confirm(vault, sequence, first).confirm(vault, sequence, second) == state.confirm(
            vault,
            sequence,
            second,
        ).confirm(vault, sequence, first),
        state.confirm(vault, sequence, first).confirm_outcome(vault, sequence, second)
            == state.confirm_outcome(vault, sequence, second),
        state.confirm(vault, sequence, second).confirm_outcome(vault, sequence, first)
            == state.confirm_outcome(vault, sequence, first),
{
    let one_way = state.confirm(vault, sequence, first).confirm(vault, sequence, second);
    let other_way = state.confirm(vault, sequence, second).confirm(vault, sequence, first);
    assert(one_way =~~= other_way);
}

/// Once the buyer and the seller have both confirmed, in either order, the
/// transaction is fully confirmed.
pub proof fn lemma_both_confirmations_suffice(
    state: EscrowView,
    vault: nat,
    sequence: nat,
)
    requires
        state.wf(),
        state.has_transaction(vault, sequence),
    ensures
        ({
            let buyer = state.vaults[vault as int].buyer;
            let seller = state.vaults[vault as int].seller;
            let end = state.confirm(vault, sequence, buyer).confirm(vault, sequence, seller);
            &&& end == state.confirm(vault, sequence, seller).confirm(vault, sequence, buyer)
            &&& end.transactions[vault as int][sequence as int].fully_confirmed()
        }),
{
    let buyer = state.vaults[vault as int].buyer;
    let seller = state.vaults[vault as int].seller;
    assert(state.vault_wf(vault as int));
    lemma_confirm_commutes(state, vault, sequence, buyer, seller);
}

/// Whoever is neither the buyer nor the seller of a vault can neither
/// confirm nor execute its transactions, nor open one: each attempt is
/// refused as unauthorized and changes nothing. Only the buyer can open one.
pub proof fn lemma_third_party_rejected(
    state: EscrowView,
    vault: nat,
    sequence: nat,
    caller: Seq<u8>,
    amount: nat,
)
    ensures
        state.role(vault, caller) == Role::Neither ==> {
            &&& state.confirm_outcome(vault, sequence, caller) == Err::<(), EscrowError>(
                EscrowError::Unauthorized,
            )
            &&& state.confirm(vault, sequence, caller) == state
            &&& state.execute_outcome(vault, sequence, caller) == Err::<(), EscrowError>(
                EscrowError::Unauthorized,
            )
            &&& state.execute(vault, sequence, caller) == state
        },
        state.role(vault, caller) != Role::Buyer ==> {
            &&& state.initiate_outcome(vault, caller, amount) == Err::<nat, EscrowError>(
                EscrowError::Unauthorized,
            )
            &&& state.initiate(vault, caller, amount) == state
        },
        state.confirm_outcome(vault, sequence, caller) is Ok ==> state.role(vault, caller)
            != Role::Neither,
        state.execute_outcome(vault, sequence, caller) is Ok ==> state.role(vault, caller)
            != Role::Neither,
{
}

/// A transaction only moves forward: whatever operations are run, it is
/// never further back in its life than it was, and once executed it stays
/// executed.
pub proof fn lemma_stage_never_goes_back(
    state: EscrowView,
    operations: Seq<Operation>,
    vault: nat,
    sequence: nat,
)
    requires
        state.wf(),
        state.has_transaction(vault, sequence),
    ensures
        state.run(operations).has_transaction(vault, sequence),
        state.transactions[vault as int][sequence as int].stage().rank() <= state.run(
            operations,
        ).transactions[vault as int][sequence as int].stage().rank(),
{
    lemma_run_keeps(state, operations);
    let end = state.run(operations);
    assert(end.has_transaction(vault, sequence));
    assert(state.vault_wf(vault as int));
    assert(end.vault_wf(vault as int));
    assert(state.transactions[vault as int][sequence as int].wf());
    assert(end.transactions[vault as int][sequence as int].wf());
}

} // verus!
