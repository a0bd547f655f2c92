//! Why a record or a transaction is turned down.

use vstd::prelude::*;

verus! {

/// Why a record yields no transaction.
#[derive(Clone, Copy, Debug, PartialEq, Eq, Structural)]
pub enum RecordError {
    /// A deposit or withdrawal record without an amount.
    MissingAmount,
    /// A deposit or withdrawal record with an amount below zero.
    NegativeAmount,
}

/// Why the ledger rejects a transaction. A rejected transaction changes
/// nothing.
#[derive(Clone, Copy, Debug, PartialEq, Eq, Structural)]
pub enum LedgerError {
    /// The amount of a deposit or withdrawal is below zero.
    NegativeAmount,
    /// The client has no account.
    UnknownAccount,
    /// The account is locked.
    LockedAccount,
    /// The account already holds a deposit with this transaction id.
    DuplicateTransaction,
    /// The withdrawal asks for more than is available.
    InsufficientFunds,
    /// The account holds no deposit with this transaction id.
    UnknownTransaction,
    /// The deposit is already under dispute.
    AlreadyDisputed,
    /// The deposit is not under dispute.
    NotDisputed,
    /// A new balance is beyond what an amount can hold.
    AmountOverflow,
}

} // verus!
