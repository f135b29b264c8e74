use escroww::error::EscrowError;
use escroww::identity::{check_role, Identity, Role};
use escroww::ledger::Ledger;
use escroww::transaction::{Stage, Transaction};
use escroww::vault::{Vault, VaultId};

fn id(tag: u8) -> Identity {
    Identity::new([tag; 32])
}

#[test]
fn identities_compare_by_their_bytes() {
    let mut bytes = [0u8; 32];
    bytes[31] = 1;
    let a = Identity::new(bytes);
    let b = Identity::new(bytes);
    let c = Identity::new([0u8; 32]);
    assert!(a.same(&b));
    assert!(!a.same(&c));
    assert!(!c.same(&a));
    assert_eq!(a.to_bytes(), bytes);
    let mut first = [0u8; 32];
    first[0] = 1;
    assert!(!Identity::new(first).same(&c));
}

#[test]
fn role_is_buyer_seller_or_neither() {
    let buyer = id(1);
    let seller = id(2);
    assert_eq!(check_role(&buyer, &seller, &id(1)), Role::Buyer);
    assert_eq!(check_role(&buyer, &seller, &id(2)), Role::Seller);
    assert_eq!(check_role(&buyer, &seller, &id(3)), Role::Neither);
    assert_eq!(check_role(&buyer, &buyer, &id(1)), Role::Buyer);
}

#[test]
fn ledger_starts_empty_and_moves_balances() {
    let a = id(1);
    let b = id(2);
    let mut ledger = Ledger::new();
    assert_eq!(ledger.balance(&a), 0);
    assert_eq!(ledger.supply(), 0);
    assert!(ledger.credit(&a, 10));
    assert!(ledger.credit(&b, 5));
    assert!(ledger.credit(&a, 7));
    assert_eq!(ledger.balance(&a), 17);
    assert_eq!(ledger.balance(&b), 5);
    assert_eq!(ledger.supply(), 22);
    assert!(ledger.debit(&a, 17));
    assert_eq!(ledger.balance(&a), 0);
    assert_eq!(ledger.balance(&b), 5);
    assert_eq!(ledger.supply(), 5);
}

#[test]
fn ledger_refuses_a_debit_beyond_the_balance() {
    let a = id(1);
    let stranger = id(9);
    let mut ledger = Ledger::new();
    assert!(ledger.credit(&a, 10));
    assert!(!ledger.debit(&a, 11));
    assert_eq!(ledger.balance(&a), 10);
    assert!(!ledger.debit(&stranger, 1));
    assert!(ledger.debit(&stranger, 0));
    assert_eq!(ledger.balance(&stranger), 0);
    assert_eq!(ledger.supply(), 10);
}

#[test]
fn ledger_refuses_a_credit_beyond_64_bits() {
    let a = id(1);
    let b = id(2);
    let mut ledger = Ledger::new();
    assert!(ledger.credit(&a, u64::MAX - 1));
    assert!(!ledger.credit(&b, 2));
    assert!(!ledger.credit(&a, 2));
    assert_eq!(ledger.balance(&b), 0);
    assert_eq!(ledger.balance(&a), u64::MAX - 1);
    assert!(ledger.credit(&b, 1));
    assert_eq!(ledger.supply(), u64::MAX);
    assert!(!ledger.credit(&b, 1));
    assert!(ledger.credit(&b, 0));
}

#[test]
fn vault_is_created_empty_by_its_buyer() {
    let buyer = id(1);
    let seller = id(2);
    let vault = Vault::create(&buyer, buyer, seller).unwrap();
    assert_eq!(vault.buyer(), buyer);
    assert_eq!(vault.seller(), seller);
    assert_eq!(vault.balance(), 0);
    assert_eq!(vault.transaction_count(), 0);
    assert_eq!(vault.role_of(&buyer), Role::Buyer);
    assert_eq!(vault.role_of(&seller), Role::Seller);
    assert_eq!(vault.role_of(&id(3)), Role::Neither);
    assert_eq!(Vault::create(&seller, buyer, seller), Err(EscrowError::Unauthorized));
    assert_eq!(Vault::create(&buyer, buyer, buyer), Err(EscrowError::InvalidParticipants));
    assert_eq!(Vault::create(&seller, buyer, buyer), Err(EscrowError::Unauthorized));
}

#[test]
fn vault_from_its_parts() {
    let buyer = id(1);
    let seller = id(2);
    let vault = Vault::from_parts(buyer, seller, 12, 3).unwrap();
    assert_eq!(vault.balance(), 12);
    assert_eq!(vault.transaction_count(), 3);
    assert_eq!(vault.buyer(), buyer);
    assert_eq!(vault.seller(), seller);
    assert_eq!(Vault::from_parts(buyer, buyer, 12, 3), Err(EscrowError::InvalidParticipants));
}

#[test]
fn vault_decides_on_a_deposit() {
    let buyer = id(1);
    let seller = id(2);
    let vault = Vault::create(&buyer, buyer, seller).unwrap();
    assert_eq!(vault.check_deposit(&buyer, 10, 10), Ok(()));
    assert_eq!(vault.check_deposit(&buyer, 10, 0), Ok(()));
    assert_eq!(vault.check_deposit(&buyer, 10, 11), Err(EscrowError::InsufficientFunds));
    assert_eq!(vault.check_deposit(&seller, 10, 1), Err(EscrowError::Unauthorized));
    assert_eq!(vault.check_deposit(&id(3), 0, 1), Err(EscrowError::Unauthorized));
}

#[test]
fn vault_counts_deposits_and_lets_funds_leave() {
    let buyer = id(1);
    let seller = id(2);
    let mut vault = Vault::create(&buyer, buyer, seller).unwrap();
    vault.deposit(8);
    vault.deposit(4);
    assert_eq!(vault.balance(), 12);
    assert_eq!(vault.transaction_count(), 2);
    vault.withdraw(8);
    assert_eq!(vault.balance(), 4);
    assert_eq!(vault.transaction_count(), 2);
    vault.withdraw(4);
    assert_eq!(vault.balance(), 0);
}

#[test]
fn transaction_walks_through_its_stages() {
    let mut transaction = Transaction::open(VaultId(3), 25);
    assert_eq!(transaction.vault(), VaultId(3));
    assert_eq!(transaction.amount(), 25);
    assert!(!transaction.confirmed_by_buyer());
    assert!(!transaction.confirmed_by_seller());
    assert!(!transaction.is_executed());
    assert_eq!(transaction.stage(), Stage::Open);

    assert_eq!(transaction.confirm(Role::Seller), Ok(()));
    assert!(transaction.confirmed_by_seller());
    assert!(!transaction.confirmed_by_buyer());
    assert_eq!(transaction.stage(), Stage::Open);

    assert_eq!(transaction.confirm(Role::Buyer), Ok(()));
    assert!(transaction.confirmed_by_buyer());
    assert_eq!(transaction.stage(), Stage::Confirmed);

    assert_eq!(transaction.execute(Role::Buyer, 25), Ok(25));
    assert!(transaction.is_executed());
    assert_eq!(transaction.stage(), Stage::Executed);
    assert_eq!(transaction.amount(), 25);

    assert_eq!(transaction.confirm(Role::Buyer), Ok(()));
    assert_eq!(transaction.stage(), Stage::Executed);
}

#[test]
fn transaction_refuses_a_confirmation_by_neither_party() {
    let mut transaction = Transaction::open(VaultId(0), 25);
    assert_eq!(transaction.confirm(Role::Neither), Err(EscrowError::Unauthorized));
    assert_eq!(transaction, Transaction::open(VaultId(0), 25));
}

#[test]
fn execution_is_refused_for_the_first_reason_that_holds() {
    let open = Transaction::open(VaultId(0), 25);
    let confirmed = Transaction::from_parts(VaultId(0), 25, true, true, false).unwrap();
    let executed = Transaction::from_parts(VaultId(0), 25, true, true, true).unwrap();

    let mut t = open;
    assert_eq!(t.execute(Role::Neither, 0), Err(EscrowError::Unauthorized));
    assert_eq!(t.execute(Role::Seller, 0), Err(EscrowError::NotFullyConfirmed));
    assert_eq!(t, open);

    let mut t = confirmed;
    assert_eq!(t.execute(Role::Neither, 0), Err(EscrowError::Unauthorized));
    assert_eq!(t.execute(Role::Seller, 24), Err(EscrowError::InsufficientVaultFunds));
    assert_eq!(t, confirmed);
    assert_eq!(t.execute(Role::Seller, 26), Ok(25));
    assert_eq!(t, executed);

    let mut t = executed;
    assert_eq!(t.execute(Role::Neither, 100), Err(EscrowError::Unauthorized));
    assert_eq!(t.execute(Role::Buyer, 0), Err(EscrowError::AlreadyExecuted));
    assert_eq!(t.execute(Role::Buyer, 100), Err(EscrowError::AlreadyExecuted));
    assert_eq!(t, executed);
}

#[test]
fn transaction_from_its_parts() {
    let half = Transaction::from_parts(VaultId(5), 9, true, false, false).unwrap();
    assert_eq!(half.vault(), VaultId(5));
    assert_eq!(half.amount(), 9);
    assert!(half.confirmed_by_buyer());
    assert!(!half.confirmed_by_seller());
    assert!(!half.is_executed());
    assert_eq!(half.stage(), Stage::Open);
    assert!(Transaction::from_parts(VaultId(5), 9, true, false, true).is_none());
    assert!(Transaction::from_parts(VaultId(5), 9, false, true, true).is_none());
    assert!(Transaction::from_parts(VaultId(5), 9, false, false, true).is_none());
    let done = Transaction::from_parts(VaultId(5), 9, true, true, true).unwrap();
    assert_eq!(done.stage(), Stage::Executed);
}
