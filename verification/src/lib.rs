//! A two-party escrow: a buyer locks funds in a vault, both parties confirm a
//! transaction, and a confirmed transaction releases its amount to the seller.
//!
//! The records and their rules are in `identity`, `vault` and `transaction`,
//! the balances outside the vaults in `ledger`. `escrow` holds them together
//! and offers the four operations; `model` says what each operation does as
//! a transition of a mathematical state, and `invariants`, `history` and
//! `laws` prove what holds of these transitions.

pub mod error;
pub mod escrow;
pub mod history;
pub mod identity;
pub mod invariants;
pub mod laws;
pub mod ledger;
pub mod model;
pub mod sums;
pub mod transaction;
pub mod vault;
