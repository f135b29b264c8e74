//! The ledger of funds that the parties hold outside any vault.

use crate::identity::Identity;
use crate::sums::{lemma_total_bounds_each, lemma_total_push, lemma_total_update, total};
use vstd::prelude::*;

verus! {

/// The funds of one identity.
struct Account {
    owner: Identity,
    amount: u64,
}

/// A mapping from identity to balance. An identity that was never credited
/// has balance zero, and all balances together fit in 64 bits.
pub struct Ledger {
    accounts: Vec<Account>,
    supply: u64,
}

/// The amounts of `accounts`, in order.
spec fn amounts(accounts: Seq<Account>) -> Seq<nat> {
    Seq::new(accounts.len(), |i: int| accounts[i].amount as nat)
}

/// Whether entry `i` of `accounts` belongs to `owner`.
spec fn holds(accounts: Seq<Account>, owner: Seq<u8>, i: int) -> bool {
    0 <= i < accounts.len() && accounts[i].owner@ == owner
}

/// Whether no identity owns two entries of `accounts`.
spec fn distinct(accounts: Seq<Account>) -> bool {
    forall|i: int, j: int|
        0 <= i < accounts.len() && 0 <= j < accounts.len() && i != j
            ==> accounts[i].owner@ != accounts[j].owner@
}

/// What `accounts` records for `owner`: the amount of its entry, or zero.
spec fn recorded(accounts: Seq<Account>, owner: Seq<u8>) -> nat {
    if exists|i: int| holds(accounts, owner, i) {
        accounts[choose|i: int| holds(accounts, owner, i)].amount as nat
    } else {
        0
    }
}

/// With distinct owners, an entry's amount is what is recorded for its owner.
proof fn lemma_recorded_at(accounts: Seq<Account>, i: int)
    requires
        distinct(accounts),
        0 <= i < accounts.len(),
    ensures
        recorded(accounts, accounts[i].owner@) == accounts[i].amount,
{
    assert(holds(accounts, accounts[i].owner@, i));
}

/// Replacing the amount of entry `i` changes what is recorded for its owner
/// and for nobody else, and moves the sum by the difference.
proof fn lemma_amount_replaced(before: Seq<Account>, after: Seq<Account>, i: int)
    requires
        distinct(before),
        0 <= i < before.len(),
        after.len() == before.len(),
        after[i].owner == before[i].owner,
        forall|j: int| 0 <= j < before.len() && j != i ==> after[j] == before[j],
    ensures
        distinct(after),
        recorded(after, before[i].owner@) == after[i].amount,
        forall|other: Seq<u8>|
            other != before[i].owner@ ==> recorded(after, other) == recorded(before, other),
        total(amounts(after)) + before[i].amount == total(amounts(before)) + after[i].amount,
{
    assert forall|j: int| 0 <= j < before.len() implies #[trigger] after[j].owner
        == before[j].owner by {}
    lemma_recorded_at(after, i);
    assert forall|other: Seq<u8>| other != before[i].owner@ implies recorded(after, other)
        == recorded(before, other) by {
        if exists|j: int| holds(before, other, j) {
            let j = choose|j: int| holds(before, other, j);
            assert(holds(after, other, j));
            let k = choose|k: int| holds(after, other, k);
            assert(holds(before, other, k));
            assert(k == j);
        } else {
            assert forall|k: int| !holds(after, other, k) by {
                if holds(after, other, k) {
                    assert(holds(before, other, k));
                }
            }
        }
    }
    lemma_total_update(amounts(before), i, after[i].amount as nat);
    assert(amounts(after) =~= amounts(before).update(i, after[i].amount as nat));
}

/// Appending an entry for an identity that has none records the amount for
/// that identity and changes nothing for the others.
proof fn lemma_account_added(before: Seq<Account>, account: Account)
    requires
        distinct(before),
        forall|i: int| !holds(before, account.owner@, i),
    ensures
        distinct(before.push(account)),
        recorded(before.push(account), account.owner@) == account.amount,
        forall|other: Seq<u8>|
            other != account.owner@ ==> recorded(before.push(account), other) == recorded(
                before,
                other,
            ),
        total(amounts(before.push(account))) == total(amounts(before)) + account.amount,
{
    let after = before.push(account);
    assert forall|i: int, j: int|
        0 <= i < after.len() && 0 <= j < after.len() && i != j implies after[i].owner@
        != after[j].owner@ by {
        if i < before.len() {
            assert(!holds(before, account.owner@, i));
        }
        if j < before.len() {
            assert(!holds(before, account.owner@, j));
        }
    }
    lemma_recorded_at(after, before.len() as int);
    assert forall|other: Seq<u8>| other != account.owner@ implies recorded(after, other)
        == recorded(before, other) by {
        if exists|j: int| holds(before, other, j) {
            let j = choose|j: int| holds(before, other, j);
            assert(holds(after, other, j));
            let k = choose|k: int| holds(after, other, k);
            assert(holds(before, other, k));
            assert(k == j);
        } else {
            assert forall|k: int| !holds(after, other, k) by {
                if holds(after, other, k) {
                    assert(holds(before, other, k));
                }
            }
        }
    }
    lemma_total_push(amounts(before), account.amount as nat);
    assert(amounts(after) =~= amounts(before).push(account.amount as nat));
}

impl View for Ledger {
    type V = Map<Seq<u8>, nat>;

    /// The balance of every identity.
    closed spec fn view(&self) -> Map<Seq<u8>, nat> {
        Map::total(|owner: Seq<u8>| recorded(self.accounts@, owner))
    }
}

impl Ledger {
    /// The representation is sound: one entry per identity, and the kept
    /// supply is the sum of all balances.
    pub closed spec fn wf(&self) -> bool {
        &&& distinct(self.accounts@)
        &&& self.supply as nat == total(amounts(self.accounts@))
    }

    /// The sum of all balances.
    pub closed spec fn total(&self) -> nat {
        self.supply as nat
    }

    /// The view gives a balance to every identity, and no balance exceeds the
    /// sum of all of them.
    pub proof fn lemma_balance_bounded(&self, owner: Seq<u8>)
        requires
            self.wf(),
        ensures
            self@.dom().contains(owner),
            self@[owner] <= self.total(),
            self.total() <= u64::MAX,
    {
        if exists|i: int| holds(self.accounts@, owner, i) {
            let i = choose|i: int| holds(self.accounts@, owner, i);
            lemma_total_bounds_each(amounts(self.accounts@), i);
        }
    }

    /// A ledger on which every balance is zero.
    pub fn new() -> (ledger: Ledger)
        ensures
            ledger.wf(),
            ledger@ == Map::<Seq<u8>, nat>::total(|owner: Seq<u8>| 0nat),
            ledger.total() == 0,
    {
        let ledger = Ledger { accounts: Vec::new(), supply: 0 };
        assert(ledger@ =~= Map::<Seq<u8>, nat>::total(|owner: Seq<u8>| 0nat));
        ledger
    }

    /// Where the entry of `owner` stands, if it has one.
    fn position(&self, owner: &Identity) -> (found: Option<usize>)
        ensures
            match found {
                Some(i) => holds(self.accounts@, owner@, i as int),
                None => forall|i: int| !holds(self.accounts@, owner@, i),
            },
    {
        let mut i: usize = 0;
        while i < self.accounts.len()
            invariant
                i <= self.accounts@.len(),
                forall|j: int| 0 <= j < i ==> !holds(self.accounts@, owner@, j),
            decreases self.accounts@.len() - i,
        {
            if self.accounts[i].owner.same(owner) {
                return Some(i);
            }
            i += 1;
        }
        None
    }

    /// The balance of `owner`.
    pub fn balance(&self, owner: &Identity) -> (amount: u64)
        requires
            self.wf(),
        ensures
            amount == self@[owner@],
    {
        match self.position(owner) {
            Some(i) => {
                proof {
                    lemma_recorded_at(self.accounts@, i as int);
                }
                self.accounts[i].amount
            },
            None => 0,
        }
    }

    /// The sum of all balances.
    pub fn supply(&self) -> (amount: u64)
        ensures
            amount == self.total(),
    {
        self.supply
    }

    /// Adds `amount` to the balance of `owner`, unless the sum of all balances
    /// would no longer fit in 64 bits: then nothing changes.
    pub fn credit(&mut self, owner: &Identity, amount: u64) -> (credited: bool)
        requires
            old(self).wf(),
        ensures
            final(self).wf(),
            credited == (old(self).total() + amount <= u64::MAX),
            credited ==> final(self)@ == old(self)@.insert(
                owner@,
                old(self)@[owner@] + amount as nat,
            ),
            credited ==> final(self).total() == old(self).total() + amount,
            !credited ==> final(self)@ == old(self)@ && final(self).total() == old(self).total(),
    {
        if amount > u64::MAX - self.supply {
            return false;
        }
        let ghost before = self.accounts@;
        match self.position(owner) {
            Some(i) => {
                proof {
                    lemma_total_bounds_each(amounts(before), i as int);
                    lemma_recorded_at(before, i as int);
                }
                let raised: u64 = self.accounts[i].amount + amount;
                self.accounts[i].amount = raised;
                proof {
                    lemma_amount_replaced(before, self.accounts@, i as int);
                }
            },
            None => {
                self.accounts.push(Account { owner: *owner, amount });
                proof {
                    lemma_account_added(before, Account { owner: *owner, amount });
                }
            },
        }
        self.supply = self.supply + amount;
        assert(final(self)@ =~= old(self)@.insert(owner@, old(self)@[owner@] + amount as nat));
        true
    }

    /// Takes `amount` from the balance of `owner`, unless the balance is
    /// smaller: then nothing changes.
    pub fn debit(&mut self, owner: &Identity, amount: u64) -> (debited: bool)
        requires
            old(self).wf(),
        ensures
            final(self).wf(),
            debited == (amount <= old(self)@[owner@]),
            debited ==> final(self)@ == old(self)@.insert(
                owner@,
                (old(self)@[owner@] - amount) as nat,
            ),
            debited ==> final(self).total() == old(self).total() - amount,
            !debited ==> final(self)@ == old(self)@ && final(self).total() == old(self).total(),
    {
        let ghost before = self.accounts@;
        match self.position(owner) {
            Some(i) => {
                proof {
                    lemma_total_bounds_each(amounts(before), i as int);
                    lemma_recorded_at(before, i as int);
                }
                if amount > self.accounts[i].amount {
                    return false;
                }
                let lowered: u64 = self.accounts[i].amount - amount;
                self.accounts[i].amount = lowered;
                proof {
                    lemma_amount_replaced(before, self.accounts@, i as int);
                }
                self.supply = self.supply - amount;
                assert(final(self)@ =~= old(self)@.insert(
                    owner@,
                    (old(self)@[owner@] - amount) as nat,
                ));
                true
            },
            None => {
                if amount > 0 {
                    return false;
                }
                assert(final(self)@ =~= old(self)@.insert(
                    owner@,
                    (old(self)@[owner@] - amount) as nat,
                ));
                true
            },
        }
    }
}

} // verus!
