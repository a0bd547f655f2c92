//! Transactions, and the records they are decoded from.

use vstd::prelude::*;
use crate::amount::Amount;
use crate::error::RecordError;

verus! {

/// Identifies a client, and with it an account.
#[derive(Clone, Copy, Debug, PartialEq, Eq, Hash, Structural)]
pub struct ClientId(pub u16);

/// Identifies a transaction. Later disputes refer to a deposit by it.
#[derive(Clone, Copy, Debug, PartialEq, Eq, Hash, Structural)]
pub struct TransactionId(pub u32);

/// One command to the ledger.
#[derive(Clone, Copy, Debug)]
pub enum Transaction {
    Deposit { client: ClientId, tx: TransactionId, amount: Amount },
    Withdrawal { client: ClientId, amount: Amount },
    Dispute { client: ClientId, tx: TransactionId },
    Resolve { client: ClientId, tx: TransactionId },
    Chargeback { client: ClientId, tx: TransactionId },
}

/// The kind of a record.
#[derive(Clone, Copy, Debug, PartialEq, Eq, Structural)]
pub enum TransactionType {
    Deposit,
    Withdrawal,
    Dispute,
    Resolve,
    Chargeback,
}

/// One decoded input row.
#[derive(Clone, Copy, Debug)]
pub struct TransactionRecord {
    pub tx_type: TransactionType,
    pub client: ClientId,
    pub tx: TransactionId,
    pub amount: Option<Amount>,
}

/// The amount of a deposit or withdrawal record: it must be there and must
/// not be below zero.
pub open spec fn validated(amount: Option<Amount>) -> Result<Amount, RecordError> {
    match amount {
        None => Err(RecordError::MissingAmount),
        Some(a) => if a@.mantissa < 0 {
            Err(RecordError::NegativeAmount)
        } else {
            Ok(a)
        },
    }
}

/// The transaction that a record stands for. A dispute, resolve or
/// chargeback record needs no amount, and one that is there is ignored.
pub open spec fn transaction_of(record: TransactionRecord) -> Result<Transaction, RecordError> {
    let client = record.client;
    let tx = record.tx;
    match record.tx_type {
        TransactionType::Deposit => match validated(record.amount) {
            Ok(amount) => Ok(Transaction::Deposit { client, tx, amount }),
            Err(e) => Err(e),
        },
        TransactionType::Withdrawal => match validated(record.amount) {
            Ok(amount) => Ok(Transaction::Withdrawal { client, amount }),
            Err(e) => Err(e),
        },
        TransactionType::Dispute => Ok(Transaction::Dispute { client, tx }),
        TransactionType::Resolve => Ok(Transaction::Resolve { client, tx }),
        TransactionType::Chargeback => Ok(Transaction::Chargeback { client, tx }),
    }
}

impl TransactionRecord {
    /// The amount of a deposit or withdrawal record, checked.
    pub fn validated_amount(&self) -> (r: Result<Amount, RecordError>)
        ensures
            r == validated(self.amount),
    {
        match self.amount {
            None => Err(RecordError::MissingAmount),
            Some(amount) => {
                if amount.is_negative() {
                    Err(RecordError::NegativeAmount)
                } else {
                    Ok(amount)
                }
            },
        }
    }
}

impl Transaction {
    /// The number of the client whose account the transaction is for.
    pub open spec fn spec_client(self) -> u16 {
        match self {
            Transaction::Deposit { client, .. } => client.0,
            Transaction::Withdrawal { client, .. } => client.0,
            Transaction::Dispute { client, .. } => client.0,
            Transaction::Resolve { client, .. } => client.0,
            Transaction::Chargeback { client, .. } => client.0,
        }
    }

    /// The client whose account the transaction is for.
    pub fn client(&self) -> (r: ClientId)
        ensures
            r.0 == self.spec_client(),
    {
        match self {
            Transaction::Deposit { client, .. } => *client,
            Transaction::Withdrawal { client, .. } => *client,
            Transaction::Dispute { client, .. } => *client,
            Transaction::Resolve { client, .. } => *client,
            Transaction::Chargeback { client, .. } => *client,
        }
    }

    /// Decodes a record into the transaction it stands for.
    pub fn try_from(record: &TransactionRecord) -> (r: Result<Transaction, RecordError>)
        ensures
            r == transaction_of(*record),
    {
        let client = record.client;
        let tx = record.tx;
        match record.tx_type {
            TransactionType::Deposit => {
                match record.validated_amount() {
                    Ok(amount) => Ok(Transaction::Deposit { client, tx, amount }),
                    Err(e) => Err(e),
                }
            },
            TransactionType::Withdrawal => {
                match record.validated_amount() {
                    Ok(amount) => Ok(Transaction::Withdrawal { client, amount }),
                    Err(e) => Err(e),
                }
            },
            TransactionType::Dispute => Ok(Transaction::Dispute { client, tx }),
            TransactionType::Resolve => Ok(Transaction::Resolve { client, tx }),
            TransactionType::Chargeback => Ok(Transaction::Chargeback { client, tx }),
        }
    }
}

} // verus!
