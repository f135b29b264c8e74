//! Sums of sequences of amounts, and how they move under the edits that the
//! ledger and the vaults make.

use vstd::prelude::*;

verus! {

/// The sum of all amounts in `amounts`.
pub open spec fn total(amounts: Seq<nat>) -> nat
    decreases amounts.len(),
{
    if amounts.len() == 0 {
        0
    } else {
        total(amounts.drop_last()) + amounts.last()
    }
}

/// Appending an amount adds it to the sum.
pub proof fn lemma_total_push(amounts: Seq<nat>, amount: nat)
    ensures
        total(amounts.push(amount)) == total(amounts) + amount,
{
    assert(amounts.push(amount).drop_last() =~= amounts);
}

/// No single amount exceeds the sum.
pub proof fn lemma_total_bounds_each(amounts: Seq<nat>, i: int)
    requires
        0 <= i < amounts.len(),
    ensures
        amounts[i] <= total(amounts),
    decreases amounts.len(),
{
    if i < amounts.len() - 1 {
        lemma_total_bounds_each(amounts.drop_last(), i);
    }
}

/// Replacing one amount moves the sum by the difference.
pub proof fn lemma_total_update(amounts: Seq<nat>, i: int, amount: nat)
    requires
        0 <= i < amounts.len(),
    ensures
        total(amounts.update(i, amount)) + amounts[i] == total(amounts) + amount,
    decreases amounts.len(),
{
    let updated = amounts.update(i, amount);
    if i == amounts.len() - 1 {
        assert(updated.drop_last() =~= amounts.drop_last());
    } else {
        lemma_total_update(amounts.drop_last(), i, amount);
        assert(updated.drop_last() =~= amounts.drop_last().update(i, amount));
    }
}

} // verus!
