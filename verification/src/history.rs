//! Sequences of operations, and what no sequence of operations can undo.

use crate::invariants::{
    lemma_confirm_wf, lemma_execute_wf, lemma_initialize_wf, lemma_initiate_wf,
};
use crate::model::EscrowView;
use vstd::prelude::*;

verus! {

/// One call of one of the four operations, with its arguments.
pub enum Operation {
    Initialize { caller: Seq<u8>, buyer: Seq<u8>, seller: Seq<u8> },
    Initiate { vault: nat, caller: Seq<u8>, amount: nat },
    Confirm { vault: nat, sequence: nat, caller: Seq<u8> },
    Execute { vault: nat, sequence: nat, caller: Seq<u8> },
}

impl EscrowView {
    /// Whether `operation` succeeds in this state.
    pub open spec fn accepts(self, operation: Operation) -> bool {
        match operation {
            Operation::Initialize { caller, buyer, seller } => self.initialize_outcome(
                caller,
                buyer,
                seller,
            ) is Ok,
            Operation::Initiate { vault, caller, amount } => self.initiate_outcome(
                vault,
                caller,
                amount,
            ) is Ok,
            Operation::Confirm { vault, sequence, caller } => self.confirm_outcome(
                vault,
                sequence,
                caller,
            ) is Ok,
            Operation::Execute { vault, sequence, caller } => self.execute_outcome(
                vault,
                sequence,
                caller,
            ) is Ok,
        }
    }

    /// The state after `operation`.
    pub open spec fn apply(self, operation: Operation) -> EscrowView {
        match operation {
            Operation::Initialize { caller, buyer, seller } => self.initialize(caller, buyer, seller),
            Operation::Initiate { vault, caller, amount } => self.initiate(vault, caller, amount),
            Operation::Confirm { vault, sequence, caller } => self.confirm(
                vault,
                sequence,
                caller,
            ),
            Operation::Execute { vault, sequence, caller } => self.execute(
                vault,
                sequence,
                caller,
            ),
        }
    }

    /// The state after all of `operations`, one after the other.
    pub open spec fn run(self, operations: Seq<Operation>) -> EscrowView
        decreases operations.len(),
    {
        if operations.len() == 0 {
            self
        } else {
            self.run(operations.drop_last()).apply(operations.last())
        }
    }

    /// How many of `operations`, run from this state, opened a transaction
    /// on `vault`.
    pub open spec fn opens(self, operations: Seq<Operation>, vault: nat) -> nat
        decreases operations.len(),
    {
        if operations.len() == 0 {
            0
        } else {
            let earlier = operations.drop_last();
            let opened: nat = if self.run(earlier).accepts(operations.last())
                && operations.last() is Initiate && operations.last()->Initiate_vault == vault {
                1
            } else {
                0
            };
            self.opens(earlier, vault) + opened
        }
    }

    /// Whether `later` may come after this state: every vault is still there
    /// with the same parties and at least as many transactions, and every
    /// transaction is still there with the same vault and amount, every
    /// confirmation it had, and its execution if it had been executed.
    pub open spec fn precedes(self, later: EscrowView) -> bool {
        &&& self.vaults.len() <= later.vaults.len()
        &&& forall|vault: int|
            0 <= vault < self.vaults.len() ==> {
                &&& (#[trigger] later.vaults[vault]).buyer == self.vaults[vault].buyer
                &&& later.vaults[vault].seller == self.vaults[vault].seller
                &&& later.vaults[vault].transaction_count >= self.vaults[vault].transaction_count
            }
        &&& forall|vault: nat, sequence: nat| #[trigger]
            self.has_transaction(vault, sequence) ==> {
                let before = self.transactions[vault as int][sequence as int];
                let after = later.transactions[vault as int][sequence as int];
                &&& later.has_transaction(vault, sequence)
                &&& after.vault == before.vault
                &&& after.amount == before.amount
                &&& before.confirmed_by_buyer ==> after.confirmed_by_buyer
                &&& before.confirmed_by_seller ==> after.confirmed_by_seller
                &&& before.executed ==> after.executed
            }
    }
}

/// One operation keeps the state well formed and takes nothing back.
pub proof fn lemma_apply_keeps(state: EscrowView, operation: Operation)
    requires
        state.wf(),
    ensures
        state.apply(operation).wf(),
        state.precedes(state.apply(operation)),
{
    let after = state.apply(operation);
    match operation {
        Operation::Initialize { caller, buyer, seller } => {
            lemma_initialize_wf(state, caller, buyer, seller);
        },
        Operation::Initiate { vault, caller, amount } => {
            lemma_initiate_wf(state, vault, caller, amount);
        },
        Operation::Confirm { vault, sequence, caller } => {
            lemma_confirm_wf(state, vault, sequence, caller);
        },
        Operation::Execute { vault, sequence, caller } => {
            lemma_execute_wf(state, vault, sequence, caller);
        },
    }
    assert forall|vault: nat, sequence: nat| #[trigger]
        state.has_transaction(vault, sequence) implies {
        let before = state.transactions[vault as int][sequence as int];
        let later = after.transactions[vault as int][sequence as int];
        &&& after.has_transaction(vault, sequence)
        &&& later.vault == before.vault
        &&& later.amount == before.amount
        &&& before.confirmed_by_buyer ==> later.confirmed_by_buyer
        &&& before.confirmed_by_seller ==> later.confirmed_by_seller
        &&& before.executed ==> later.executed
    } by {}
}

/// What may come after a state may be followed in turn.
pub proof fn lemma_precedes_transitive(first: EscrowView, second: EscrowView, third: EscrowView)
    requires
        first.precedes(second),
        second.precedes(third),
    ensures
        first.precedes(third),
{
    assert forall|vault: nat, sequence: nat| #[trigger]
        first.has_transaction(vault, sequence) implies {
        let before = first.transactions[vault as int][sequence as int];
        let after = third.transactions[vault as int][sequence as int];
        &&& third.has_transaction(vault, sequence)
        &&& after.vault == before.vault
        &&& after.amount == before.amount
        &&& before.confirmed_by_buyer ==> after.confirmed_by_buyer
        &&& before.confirmed_by_seller ==> after.confirmed_by_seller
        &&& before.executed ==> after.executed
    } by {
        assert(second.has_transaction(vault, sequence));
    }
}

/// Whatever operations are run from a well-formed state, in whatever order
/// and whether they succeed or not, the state stays well formed and nothing
/// is taken back: no vault and no transaction disappears, no party and no
/// amount changes, no count of transactions goes down, no confirmation is
/// withdrawn and no execution is undone.
pub proof fn lemma_run_keeps(state: EscrowView, operations: Seq<Operation>)
    requires
        state.wf(),
    ensures
        state.run(operations).wf(),
        state.precedes(state.run(operations)),
    decreases operations.len(),
{
    if operations.len() > 0 {
        let earlier = state.run(operations.drop_last());
        lemma_run_keeps(state, operations.drop_last());
        lemma_apply_keeps(earlier, operations.last());
        lemma_precedes_transitive(state, earlier, earlier.apply(operations.last()));
    }
}

} // verus!
