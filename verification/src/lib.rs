//! A ledger of client accounts driven by an ordered stream of transactions.
//!
//! Each transaction (deposit, withdrawal, dispute, resolve, chargeback) is
//! applied to one account at a time. A transaction that breaks a rule is
//! rejected and leaves the ledger exactly as it was.
//!
//! The rules are proved. The sums and differences of amounts are computed by
//! `rust_decimal` and taken as they come: the contracts name them
//! (`amount::decimal_sum`, `amount::decimal_difference`) and say nothing of
//! their value. The functions of `account::ClientState` that take a new
//! balance as an argument state each rule without them.

pub mod account;
pub mod amount;
pub mod error;
pub mod laws;
pub mod ledger;
pub mod names;
pub mod transaction;
