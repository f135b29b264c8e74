use escroww::error::EscrowError;
use escroww::escrow::{
    confirm_transaction, execute_transaction, initialize, initiate_transaction,
    ConfirmTransaction, Escrow, ExecuteTrasaction, Initialize, InitiateTransaction,
};
use escroww::identity::Identity;
use escroww::ledger::Ledger;
use escroww::transaction::{Stage, TransactionId};
use escroww::vault::VaultId;

fn party(tag: u8) -> Identity {
    Identity::new([tag; 32])
}

fn funded(owner: &Identity, amount: u64) -> Escrow {
    let mut ledger = Ledger::new();
    assert!(ledger.credit(owner, amount));
    Escrow::new(ledger)
}

fn create(state: &mut Escrow, buyer: Identity, seller: Identity) -> VaultId {
    initialize(state, Initialize { caller: buyer, buyer, seller }).unwrap()
}

fn open(state: &mut Escrow, vault: VaultId, buyer: Identity, amount: u64) -> TransactionId {
    initiate_transaction(state, InitiateTransaction { vault, buyer, amount }).unwrap()
}

fn confirm(
    state: &mut Escrow,
    transaction: TransactionId,
    by: Identity,
) -> Result<(), EscrowError> {
    confirm_transaction(state, ConfirmTransaction { transaction, confirmation_by: by })
}

fn execute(
    state: &mut Escrow,
    transaction: TransactionId,
    by: Identity,
) -> Result<(), EscrowError> {
    execute_transaction(state, ExecuteTrasaction { transaction, execution_by: by })
}

#[test]
fn deposit_confirm_execute_moves_the_funds_once() {
    let buyer = party(1);
    let seller = party(2);
    let mut state = funded(&buyer, 100);
    let vault = create(&mut state, buyer, seller);
    assert_eq!(vault, VaultId(0));
    assert_eq!(state.vault(vault).unwrap().balance(), 0);
    assert_eq!(state.vault(vault).unwrap().transaction_count(), 0);

    let t0 = open(&mut state, vault, buyer, 100);
    assert_eq!(t0, TransactionId { vault, sequence: 0 });
    assert_eq!(state.vault(vault).unwrap().balance(), 100);
    assert_eq!(state.vault(vault).unwrap().transaction_count(), 1);
    assert_eq!(state.balance(&buyer), 0);

    assert_eq!(confirm(&mut state, t0, buyer), Ok(()));
    assert!(state.transaction(t0).unwrap().confirmed_by_buyer());
    assert!(!state.transaction(t0).unwrap().confirmed_by_seller());

    assert_eq!(confirm(&mut state, t0, seller), Ok(()));
    assert!(state.transaction(t0).unwrap().confirmed_by_seller());
    assert!(!state.transaction(t0).unwrap().is_executed());

    assert_eq!(execute(&mut state, t0, buyer), Ok(()));
    assert_eq!(state.vault(vault).unwrap().balance(), 0);
    assert_eq!(state.balance(&seller), 100);
    assert!(state.transaction(t0).unwrap().is_executed());

    assert_eq!(execute(&mut state, t0, buyer), Err(EscrowError::AlreadyExecuted));
    assert_eq!(state.vault(vault).unwrap().balance(), 0);
    assert_eq!(state.balance(&seller), 100);
    assert_eq!(state.balance(&buyer), 0);
}

#[test]
fn execute_with_only_the_buyer_confirmed_is_refused() {
    let buyer = party(1);
    let seller = party(2);
    let mut state = funded(&buyer, 70);
    let vault = create(&mut state, buyer, seller);
    let t0 = open(&mut state, vault, buyer, 70);
    assert_eq!(confirm(&mut state, t0, buyer), Ok(()));

    assert_eq!(execute(&mut state, t0, buyer), Err(EscrowError::NotFullyConfirmed));
    assert_eq!(execute(&mut state, t0, seller), Err(EscrowError::NotFullyConfirmed));
    assert_eq!(state.vault(vault).unwrap().balance(), 70);
    assert_eq!(state.balance(&seller), 0);
    assert_eq!(state.balance(&buyer), 0);
    assert!(!state.transaction(t0).unwrap().is_executed());
}

#[test]
fn execute_with_only_the_seller_confirmed_is_refused() {
    let buyer = party(1);
    let seller = party(2);
    let mut state = funded(&buyer, 70);
    let vault = create(&mut state, buyer, seller);
    let t0 = open(&mut state, vault, buyer, 70);
    assert_eq!(confirm(&mut state, t0, seller), Ok(()));
    assert_eq!(confirm(&mut state, t0, seller), Ok(()));

    assert_eq!(execute(&mut state, t0, seller), Err(EscrowError::NotFullyConfirmed));
    assert_eq!(state.vault(vault).unwrap().balance(), 70);
    assert_eq!(state.balance(&seller), 0);
}

#[test]
fn execute_without_any_confirmation_is_refused() {
    let buyer = party(1);
    let seller = party(2);
    let mut state = funded(&buyer, 5);
    let vault = create(&mut state, buyer, seller);
    let t0 = open(&mut state, vault, buyer, 5);
    assert_eq!(execute(&mut state, t0, buyer), Err(EscrowError::NotFullyConfirmed));
    assert_eq!(state.transaction(t0).unwrap().stage(), Stage::Open);
}

#[test]
fn vault_of_one_identity_is_refused() {
    let a = party(7);
    let mut state = funded(&a, 10);
    let result = initialize(&mut state, Initialize { caller: a, buyer: a, seller: a });
    assert_eq!(result, Err(EscrowError::InvalidParticipants));
    assert_eq!(state.vault_count(), 0);
    assert!(state.vault(VaultId(0)).is_none());
}

#[test]
fn vault_is_created_by_its_buyer_only() {
    let buyer = party(1);
    let seller = party(2);
    let stranger = party(3);
    let mut state = funded(&buyer, 10);
    let by_stranger = initialize(&mut state, Initialize { caller: stranger, buyer, seller });
    assert_eq!(by_stranger, Err(EscrowError::Unauthorized));
    let by_seller = initialize(&mut state, Initialize { caller: seller, buyer, seller });
    assert_eq!(by_seller, Err(EscrowError::Unauthorized));
    let same_but_foreign =
        initialize(&mut state, Initialize { caller: stranger, buyer, seller: buyer });
    assert_eq!(same_but_foreign, Err(EscrowError::Unauthorized));
    assert_eq!(state.vault_count(), 0);
    let by_buyer = initialize(&mut state, Initialize { caller: buyer, buyer, seller });
    assert_eq!(by_buyer, Ok(VaultId(0)));
    assert_eq!(state.vault_count(), 1);
}

#[test]
fn new_vault_is_empty_and_keeps_its_parties() {
    let buyer = party(1);
    let seller = party(2);
    let mut state = funded(&buyer, 10);
    let first = create(&mut state, buyer, seller);
    let second = create(&mut state, seller, buyer);
    assert_eq!(first, VaultId(0));
    assert_eq!(second, VaultId(1));
    let vault = state.vault(second).unwrap();
    assert_eq!(vault.buyer(), seller);
    assert_eq!(vault.seller(), buyer);
    assert_eq!(vault.balance(), 0);
    assert_eq!(vault.transaction_count(), 0);
    assert!(state.transaction(TransactionId { vault: second, sequence: 0 }).is_none());
    assert_eq!(state.balance(&buyer), 10);
}

#[test]
fn count_is_the_number_of_successful_opens() {
    let buyer = party(1);
    let seller = party(2);
    let mut state = funded(&buyer, 1000);
    let vault = create(&mut state, buyer, seller);
    let n: u64 = 6;
    let mut i: u64 = 0;
    while i < n {
        let id = open(&mut state, vault, buyer, 10 + i);
        assert_eq!(id, TransactionId { vault, sequence: i });
        assert_eq!(state.vault(vault).unwrap().transaction_count(), i + 1);
        i += 1;
    }
    let mut k: u64 = 0;
    while k < n {
        let found = state.transaction(TransactionId { vault, sequence: k }).unwrap();
        assert_eq!(found.amount(), 10 + k);
        assert_eq!(found.vault(), vault);
        k += 1;
    }
    assert!(state.transaction(TransactionId { vault, sequence: n }).is_none());
    assert_eq!(state.vault(vault).unwrap().balance(), 10 + 11 + 12 + 13 + 14 + 15);
    assert_eq!(state.balance(&buyer), 1000 - 75);
}

#[test]
fn refused_opens_are_not_counted() {
    let buyer = party(1);
    let seller = party(2);
    let stranger = party(3);
    let mut state = funded(&buyer, 50);
    let vault = create(&mut state, buyer, seller);
    open(&mut state, vault, buyer, 20);

    let too_much =
        initiate_transaction(&mut state, InitiateTransaction { vault, buyer, amount: 31 });
    assert_eq!(too_much, Err(EscrowError::InsufficientFunds));
    let by_seller =
        initiate_transaction(&mut state, InitiateTransaction { vault, buyer: seller, amount: 0 });
    assert_eq!(by_seller, Err(EscrowError::Unauthorized));
    let by_stranger =
        initiate_transaction(&mut state, InitiateTransaction { vault, buyer: stranger, amount: 1 });
    assert_eq!(by_stranger, Err(EscrowError::Unauthorized));

    assert_eq!(state.vault(vault).unwrap().transaction_count(), 1);
    assert_eq!(state.vault(vault).unwrap().balance(), 20);
    assert_eq!(state.balance(&buyer), 30);
    assert!(state.transaction(TransactionId { vault, sequence: 1 }).is_none());

    let next = open(&mut state, vault, buyer, 30);
    assert_eq!(next.sequence, 1);
    assert_eq!(state.balance(&buyer), 0);
}

#[test]
fn open_on_a_vault_that_does_not_exist_is_unauthorized() {
    let buyer = party(1);
    let mut state = funded(&buyer, 50);
    let result = initiate_transaction(
        &mut state,
        InitiateTransaction { vault: VaultId(0), buyer, amount: 1 },
    );
    assert_eq!(result, Err(EscrowError::Unauthorized));
    assert_eq!(state.balance(&buyer), 50);
}

#[test]
fn open_with_exactly_the_funds_and_with_nothing() {
    let buyer = party(1);
    let seller = party(2);
    let mut state = funded(&buyer, 9);
    let vault = create(&mut state, buyer, seller);
    let all = open(&mut state, vault, buyer, 9);
    assert_eq!(state.balance(&buyer), 0);
    let nothing = open(&mut state, vault, buyer, 0);
    assert_eq!(nothing.sequence, 1);
    assert_eq!(state.vault(vault).unwrap().balance(), 9);
    assert_eq!(confirm(&mut state, nothing, buyer), Ok(()));
    assert_eq!(confirm(&mut state, nothing, seller), Ok(()));
    assert_eq!(execute(&mut state, nothing, seller), Ok(()));
    assert_eq!(state.vault(vault).unwrap().balance(), 9);
    assert_eq!(state.balance(&seller), 0);
    assert!(!state.transaction(all).unwrap().is_executed());
}

#[test]
fn confirming_twice_is_confirming_once() {
    let buyer = party(1);
    let seller = party(2);
    let mut state = funded(&buyer, 40);
    let vault = create(&mut state, buyer, seller);
    let t0 = open(&mut state, vault, buyer, 40);
    assert_eq!(confirm(&mut state, t0, buyer), Ok(()));
    let once = state.transaction(t0).unwrap();
    assert_eq!(confirm(&mut state, t0, buyer), Ok(()));
    let twice = state.transaction(t0).unwrap();
    assert_eq!(once, twice);
    assert!(twice.confirmed_by_buyer());
    assert!(!twice.confirmed_by_seller());
    assert!(!twice.is_executed());
    assert_eq!(twice.stage(), Stage::Open);
    assert_eq!(state.vault(vault).unwrap().balance(), 40);
}

#[test]
fn order_of_confirmations_does_not_matter() {
    let buyer = party(1);
    let seller = party(2);

    let mut one = funded(&buyer, 40);
    let vault = create(&mut one, buyer, seller);
    let t0 = open(&mut one, vault, buyer, 40);
    assert_eq!(confirm(&mut one, t0, buyer), Ok(()));
    assert_eq!(confirm(&mut one, t0, seller), Ok(()));

    let mut other = funded(&buyer, 40);
    let same_vault = create(&mut other, buyer, seller);
    let same = open(&mut other, same_vault, buyer, 40);
    assert_eq!(confirm(&mut other, same, seller), Ok(()));
    assert_eq!(confirm(&mut other, same, buyer), Ok(()));

    assert_eq!(t0, same);
    assert_eq!(one.transaction(t0).unwrap(), other.transaction(same).unwrap());
    assert_eq!(one.vault(vault).unwrap(), other.vault(same_vault).unwrap());
    assert_eq!(one.transaction(t0).unwrap().stage(), Stage::Confirmed);
    assert_eq!(execute(&mut one, t0, seller), Ok(()));
    assert_eq!(execute(&mut other, same, seller), Ok(()));
    assert_eq!(one.balance(&seller), other.balance(&seller));
}

#[test]
fn third_party_can_neither_confirm_nor_execute() {
    let buyer = party(1);
    let seller = party(2);
    let stranger = party(3);
    let mut state = funded(&buyer, 40);
    let vault = create(&mut state, buyer, seller);
    let t0 = open(&mut state, vault, buyer, 40);

    assert_eq!(confirm(&mut state, t0, stranger), Err(EscrowError::Unauthorized));
    let untouched = state.transaction(t0).unwrap();
    assert!(!untouched.confirmed_by_buyer());
    assert!(!untouched.confirmed_by_seller());

    assert_eq!(confirm(&mut state, t0, buyer), Ok(()));
    assert_eq!(confirm(&mut state, t0, seller), Ok(()));
    assert_eq!(execute(&mut state, t0, stranger), Err(EscrowError::Unauthorized));
    assert!(!state.transaction(t0).unwrap().is_executed());
    assert_eq!(state.vault(vault).unwrap().balance(), 40);
    assert_eq!(state.balance(&seller), 0);
    assert_eq!(state.balance(&stranger), 0);

    assert_eq!(execute(&mut state, t0, seller), Ok(()));
    assert_eq!(execute(&mut state, t0, stranger), Err(EscrowError::Unauthorized));
}

#[test]
fn party_of_another_vault_is_a_third_party() {
    let buyer = party(1);
    let seller = party(2);
    let other_seller = party(4);
    let mut state = funded(&buyer, 40);
    let vault = create(&mut state, buyer, seller);
    let other = create(&mut state, buyer, other_seller);
    let t0 = open(&mut state, vault, buyer, 25);
    let u0 = open(&mut state, other, buyer, 15);
    assert_eq!(u0, TransactionId { vault: other, sequence: 0 });

    assert_eq!(confirm(&mut state, t0, other_seller), Err(EscrowError::Unauthorized));
    assert_eq!(confirm(&mut state, u0, seller), Err(EscrowError::Unauthorized));
    assert_eq!(confirm(&mut state, u0, other_seller), Ok(()));
    assert_eq!(confirm(&mut state, u0, buyer), Ok(()));
    assert_eq!(execute(&mut state, u0, seller), Err(EscrowError::Unauthorized));
    assert_eq!(execute(&mut state, u0, other_seller), Ok(()));

    assert_eq!(state.balance(&other_seller), 15);
    assert_eq!(state.balance(&seller), 0);
    assert_eq!(state.vault(vault).unwrap().balance(), 25);
    assert_eq!(state.vault(other).unwrap().balance(), 0);
    assert!(!state.transaction(t0).unwrap().confirmed_by_buyer());
}

#[test]
fn transaction_that_does_not_exist_is_unauthorized() {
    let buyer = party(1);
    let seller = party(2);
    let mut state = funded(&buyer, 40);
    let vault = create(&mut state, buyer, seller);
    open(&mut state, vault, buyer, 40);
    let missing = TransactionId { vault, sequence: 1 };
    let nowhere = TransactionId { vault: VaultId(9), sequence: 0 };
    assert_eq!(confirm(&mut state, missing, buyer), Err(EscrowError::Unauthorized));
    assert_eq!(execute(&mut state, missing, seller), Err(EscrowError::Unauthorized));
    assert_eq!(confirm(&mut state, nowhere, buyer), Err(EscrowError::Unauthorized));
    assert_eq!(execute(&mut state, nowhere, buyer), Err(EscrowError::Unauthorized));
    let far = TransactionId { vault: VaultId(u64::MAX), sequence: u64::MAX };
    assert_eq!(execute(&mut state, far, buyer), Err(EscrowError::Unauthorized));
    assert!(state.transaction(far).is_none());
}

#[test]
fn second_execution_is_refused_whatever_came_between() {
    let buyer = party(1);
    let seller = party(2);
    let mut state = funded(&buyer, 100);
    let vault = create(&mut state, buyer, seller);
    let t0 = open(&mut state, vault, buyer, 60);
    assert_eq!(confirm(&mut state, t0, seller), Ok(()));
    assert_eq!(confirm(&mut state, t0, buyer), Ok(()));
    assert_eq!(execute(&mut state, t0, seller), Ok(()));
    assert_eq!(state.balance(&seller), 60);

    let t1 = open(&mut state, vault, buyer, 40);
    assert_eq!(confirm(&mut state, t0, buyer), Ok(()));
    assert_eq!(confirm(&mut state, t1, buyer), Ok(()));
    assert_eq!(state.vault(vault).unwrap().balance(), 40);

    assert_eq!(execute(&mut state, t0, seller), Err(EscrowError::AlreadyExecuted));
    assert_eq!(execute(&mut state, t0, buyer), Err(EscrowError::AlreadyExecuted));
    assert_eq!(state.balance(&seller), 60);
    assert_eq!(state.vault(vault).unwrap().balance(), 40);
    assert_eq!(state.transaction(t0).unwrap().stage(), Stage::Executed);
    assert!(!state.transaction(t1).unwrap().is_executed());
}

#[test]
fn each_transaction_releases_its_own_amount() {
    let buyer = party(1);
    let seller = party(2);
    let mut state = funded(&buyer, 100);
    let vault = create(&mut state, buyer, seller);
    let t0 = open(&mut state, vault, buyer, 30);
    let t1 = open(&mut state, vault, buyer, 45);
    assert_eq!(state.vault(vault).unwrap().balance(), 75);
    assert_eq!(confirm(&mut state, t1, buyer), Ok(()));
    assert_eq!(confirm(&mut state, t1, seller), Ok(()));
    assert_eq!(execute(&mut state, t1, buyer), Ok(()));
    assert_eq!(state.vault(vault).unwrap().balance(), 30);
    assert_eq!(state.balance(&seller), 45);
    assert_eq!(state.balance(&buyer), 25);
    assert_eq!(state.transaction(t0).unwrap().stage(), Stage::Open);
    assert_eq!(state.transaction(t0).unwrap().amount(), 30);
    assert_eq!(state.vault(vault).unwrap().transaction_count(), 2);
}

#[test]
fn largest_amount_moves_without_loss() {
    let buyer = party(1);
    let seller = party(2);
    let mut state = funded(&buyer, u64::MAX);
    let vault = create(&mut state, buyer, seller);
    let t0 = open(&mut state, vault, buyer, u64::MAX);
    assert_eq!(state.vault(vault).unwrap().balance(), u64::MAX);
    assert_eq!(state.balance(&buyer), 0);
    assert_eq!(confirm(&mut state, t0, buyer), Ok(()));
    assert_eq!(confirm(&mut state, t0, seller), Ok(()));
    assert_eq!(execute(&mut state, t0, buyer), Ok(()));
    assert_eq!(state.balance(&seller), u64::MAX);
    assert_eq!(state.vault(vault).unwrap().balance(), 0);
}
