//! The ledger: every client's account, and the transactions applied to it.

use std::collections::hash_map::Entry;
use std::collections::HashMap;
use vstd::prelude::*;
use vstd::std_specs::hash::*;
use vstd::std_specs::iter::IteratorSpec;
use crate::account::{AccountView, ClientRecord, ClientState};
use crate::amount::{
    decimal_checked_add, decimal_checked_sub, decimal_sum, Amount, DecimalNumber,
};
use crate::error::LedgerError;
use crate::transaction::{ClientId, Transaction, TransactionId};

verus! {

broadcast use vstd::std_specs::hash::group_hash_axioms;

/// The accounts of all clients, by client id. A client has an account from
/// its first accepted deposit on.
pub struct Ledger {
    accounts: HashMap<u16, ClientState>,
}

impl View for Ledger {
    type V = Map<u16, AccountView>;

    closed spec fn view(&self) -> Map<u16, AccountView> {
        Map::new(
            |client: u16| self.accounts@.contains_key(client),
            |client: u16| self.accounts@[client]@,
        )
    }
}

/// The ledger after a deposit. The first deposit of a client opens its
/// account.
pub open spec fn deposit_outcome(
    ledger: Map<u16, AccountView>,
    client: u16,
    tx: u32,
    amount: DecimalNumber,
) -> Result<Map<u16, AccountView>, LedgerError> {
    let account = if ledger.contains_key(client) {
        ledger[client]
    } else {
        AccountView::empty()
    };
    match account.after_deposit(tx, amount) {
        Ok(account) => Ok(ledger.insert(client, account)),
        Err(e) => Err(e),
    }
}

/// The ledger after a change to the account of `client`, which must
/// exist.
pub open spec fn account_outcome(
    ledger: Map<u16, AccountView>,
    client: u16,
    account: Result<AccountView, LedgerError>,
) -> Result<Map<u16, AccountView>, LedgerError> {
    if !ledger.contains_key(client) {
        Err(LedgerError::UnknownAccount)
    } else {
        match account {
            Ok(account) => Ok(ledger.insert(client, account)),
            Err(e) => Err(e),
        }
    }
}

/// The ledger after a withdrawal.
pub open spec fn withdrawal_outcome(
    ledger: Map<u16, AccountView>,
    client: u16,
    amount: DecimalNumber,
) -> Result<Map<u16, AccountView>, LedgerError> {
    account_outcome(ledger, client, ledger[client].after_withdrawal(amount))
}

/// The ledger after a dispute.
pub open spec fn dispute_outcome(ledger: Map<u16, AccountView>, client: u16, tx: u32) -> Result<
    Map<u16, AccountView>,
    LedgerError,
> {
    account_outcome(ledger, client, ledger[client].after_dispute(tx))
}

/// The ledger after a resolve.
pub open spec fn resolve_outcome(ledger: Map<u16, AccountView>, client: u16, tx: u32) -> Result<
    Map<u16, AccountView>,
    LedgerError,
> {
    account_outcome(ledger, client, ledger[client].after_resolve(tx))
}

/// The ledger after a chargeback.
pub open spec fn chargeback_outcome(ledger: Map<u16, AccountView>, client: u16, tx: u32) -> Result<
    Map<u16, AccountView>,
    LedgerError,
> {
    account_outcome(ledger, client, ledger[client].after_chargeback(tx))
}

/// The ledger after one transaction, or why the transaction is rejected.
pub open spec fn outcome(ledger: Map<u16, AccountView>, transaction: Transaction) -> Result<
    Map<u16, AccountView>,
    LedgerError,
> {
    match transaction {
        Transaction::Deposit { client, tx, amount } => deposit_outcome(
            ledger,
            client.0,
            tx.0,
            amount@,
        ),
        Transaction::Withdrawal { client, amount } => withdrawal_outcome(
            ledger,
            client.0,
            amount@,
        ),
        Transaction::Dispute { client, tx } => dispute_outcome(ledger, client.0, tx.0),
        Transaction::Resolve { client, tx } => resolve_outcome(ledger, client.0, tx.0),
        Transaction::Chargeback { client, tx } => chargeback_outcome(ledger, client.0, tx.0),
    }
}

/// The ledger after one transaction of the stream: a rejected transaction
/// leaves it as it was.
pub open spec fn step(ledger: Map<u16, AccountView>, transaction: Transaction) -> Map<
    u16,
    AccountView,
> {
    match outcome(ledger, transaction) {
        Ok(after) => after,
        Err(_) => ledger,
    }
}

/// The ledger after a stream of transactions, applied one by one in their
/// order.
pub open spec fn run(ledger: Map<u16, AccountView>, transactions: Seq<Transaction>) -> Map<
    u16,
    AccountView,
>
    decreases transactions.len(),
{
    if transactions.len() == 0 {
        ledger
    } else {
        step(run(ledger, transactions.drop_last()), transactions.last())
    }
}

/// Whether a transaction is accepted, and if not, why.
pub open spec fn verdict(outcome: Result<Map<u16, AccountView>, LedgerError>) -> Result<
    (),
    LedgerError,
> {
    match outcome {
        Ok(_) => Ok(()),
        Err(e) => Err(e),
    }
}

/// What a transaction made of the ledger `before`: on success the ledger
/// is the new one, on rejection it is the old one and the error is handed
/// out.
pub open spec fn applied(
    before: Map<u16, AccountView>,
    outcome: Result<Map<u16, AccountView>, LedgerError>,
    after: Map<u16, AccountView>,
    result: Result<(), LedgerError>,
) -> bool {
    match outcome {
        Ok(ledger) => result == Ok::<(), LedgerError>(()) && after == ledger,
        Err(e) => result == Err::<(), LedgerError>(e) && after == before,
    }
}

impl Ledger {
    /// A ledger without accounts.
    pub fn new() -> (r: Ledger)
        ensures
            r@ == Map::<u16, AccountView>::empty(),
    {
        let r = Ledger { accounts: HashMap::new() };
        assert(r@ =~= Map::empty());
        r
    }

    /// The account of a client, if it has one.
    pub fn account(&self, client: ClientId) -> (r: Option<&ClientState>)
        ensures
            match r {
                Some(account) => self@.contains_key(client.0) && account@ == self@[client.0],
                None => !self@.contains_key(client.0),
            },
    {
        self.accounts.get(&client.0)
    }

    /// The output rows: one for each account, in no particular order. No
    /// rows are given where the total of some account is beyond what an
    /// amount can hold.
    pub fn to_client_records(&self) -> (r: Option<Vec<ClientRecord>>)
        ensures
            r is None <==> exists|client: u16|
                self@.contains_key(client) && #[trigger] self@[client].to_record(client) is None,
            r matches Some(rows) ==> {
                &&& rows@.len() == self@.dom().len()
                &&& forall|i: int|
                    0 <= i < rows@.len() ==> self@.contains_key(#[trigger] rows@[i]@.client)
                        && self@[rows@[i]@.client].to_record(rows@[i]@.client) == Some(
                        rows@[i]@,
                    )
                &&& forall|i: int|
                    0 <= i < rows@.len() ==> decimal_sum(
                        (#[trigger] rows@[i])@.available,
                        rows@[i]@.held,
                    ) == Some(rows@[i]@.total)
                &&& forall|i: int, j: int|
                    0 <= i < j < rows@.len() ==> rows@[i]@.client != rows@[j]@.client
                &&& forall|client: u16|
                    self@.contains_key(client) ==> exists|i: int|
                        0 <= i < rows@.len() && #[trigger] rows@[i]@.client == client
            },
    {
        let mut rows: Vec<ClientRecord> = Vec::new();
        let ghost all = spec_hash_map_iter(&self.accounts).remaining();
        for entry in it: self.accounts.iter()
            invariant
                it.seq() == all,
                all.no_duplicates(),
                rows@.len() == it.index(),
                forall|i: int|
                    0 <= i < rows@.len() ==> (#[trigger] rows@[i])@.client == *all[i].0
                        && (*all[i].1)@.to_record(*all[i].0) == Some(rows@[i]@),
        {
            let (client, account) = entry;
            match account.to_client_record(ClientId(*client)) {
                Some(row) => {
                    rows.push(row);
                },
                None => {
                    assert(self@.contains_key(*client));
                    assert(self@[*client].to_record(*client) is None);
                    return None;
                },
            }
        }
        proof {
            assert(self@.dom() =~= self.accounts@.dom());
            assert forall|i: int, j: int| 0 <= i < j < rows@.len() implies rows@[i]@.client
                != rows@[j]@.client by {
                if *all[i].0 == *all[j].0 {
                    assert(self.accounts@[*all[i].0] == *all[i].1);
                    assert(self.accounts@[*all[j].0] == *all[j].1);
                    assert(all[i] == all[j]);
                }
            }
            assert forall|client: u16| self@.contains_key(client) implies exists|i: int|
                0 <= i < rows@.len() && #[trigger] rows@[i]@.client == client by {
                let pair = (&client, &self.accounts@[client]);
                assert(all.contains(pair));
                let i = choose|i: int| 0 <= i < all.len() && all[i] == pair;
                assert(rows@[i]@.client == client);
            }
            assert forall|client: u16| self@.contains_key(client) implies !(
            #[trigger] self@[client].to_record(client) is None) by {
                let pair = (&client, &self.accounts@[client]);
                assert(all.contains(pair));
                let i = choose|i: int| 0 <= i < all.len() && all[i] == pair;
                assert(rows@[i]@.client == client);
            }
        }
        Some(rows)
    }
}

/// Credits a deposit to the client's account and remembers it under its
/// transaction id. The first deposit of a client opens its account.
/// Rejected where the amount is below zero, the account is locked, the
/// account already holds a deposit with this id, or the new balance is
/// beyond what an amount can hold.
pub fn process_deposit(
    ledger: &mut Ledger,
    client: ClientId,
    tx: TransactionId,
    amount: Amount,
) -> (r: Result<(), LedgerError>)
    ensures
        applied(
            old(ledger)@,
            deposit_outcome(old(ledger)@, client.0, tx.0, amount@),
            final(ledger)@,
            r,
        ),
{
    let r = match ledger.accounts.entry(client.0) {
        Entry::Occupied(mut entry) => {
            let account = entry.get_mut();
            let credited = decimal_checked_add(account.available(), amount);
            account.deposit(tx, amount, credited)
        },
        Entry::Vacant(entry) => {
            let mut account = ClientState::new();
            let credited = decimal_checked_add(account.available(), amount);
            match account.deposit(tx, amount, credited) {
                Ok(()) => {
                    entry.insert(account);
                    Ok(())
                },
                Err(e) => Err(e),
            }
        },
    };
    proof {
        match deposit_outcome(old(ledger)@, client.0, tx.0, amount@) {
            Ok(after) => {
                assert(ledger@ =~= after);
            },
            Err(_) => {
                assert(ledger@ =~= old(ledger)@);
            },
        }
    }
    r
}

/// Takes a withdrawal from the available funds of the client's account.
/// Rejected where the client has no account, the amount is below zero, the
/// account is locked, or the available funds are less than the amount.
pub fn process_withdrawal(ledger: &mut Ledger, client: ClientId, amount: Amount) -> (r: Result<
    (),
    LedgerError,
>)
    ensures
        applied(
            old(ledger)@,
            withdrawal_outcome(old(ledger)@, client.0, amount@),
            final(ledger)@,
            r,
        ),
{
    let r = match ledger.accounts.entry(client.0) {
        Entry::Occupied(mut entry) => {
            let account = entry.get_mut();
            let debited = decimal_checked_sub(account.available(), amount);
            account.withdraw(amount, debited)
        },
        Entry::Vacant(_) => Err(LedgerError::UnknownAccount),
    };
    proof {
        match withdrawal_outcome(old(ledger)@, client.0, amount@) {
            Ok(after) => {
                assert(ledger@ =~= after);
            },
            Err(_) => {
                assert(ledger@ =~= old(ledger)@);
            },
        }
    }
    r
}

/// Puts a deposit under dispute: its amount moves from the available to
/// the held funds, whatever has been withdrawn since. Rejected where the
/// client has no account, the account is locked, the account holds no
/// deposit with this id, or the deposit is already under dispute.
pub fn process_dispute(ledger: &mut Ledger, client: ClientId, tx: TransactionId) -> (r: Result<
    (),
    LedgerError,
>)
    ensures
        applied(old(ledger)@, dispute_outcome(old(ledger)@, client.0, tx.0), final(ledger)@, r),
{
    let r = match ledger.accounts.entry(client.0) {
        Entry::Occupied(mut entry) => {
            let account = entry.get_mut();
            match account.get_deposit(tx) {
                Ok(deposit) => {
                    let held = decimal_checked_add(account.held(), deposit.amount);
                    let available = decimal_checked_sub(account.available(), deposit.amount);
                    account.dispute(tx, held, available)
                },
                Err(_) => account.dispute(tx, None, None),
            }
        },
        Entry::Vacant(_) => Err(LedgerError::UnknownAccount),
    };
    proof {
        match dispute_outcome(old(ledger)@, client.0, tx.0) {
            Ok(after) => {
                assert(ledger@ =~= after);
            },
            Err(_) => {
                assert(ledger@ =~= old(ledger)@);
            },
        }
    }
    r
}

/// Ends the dispute of a deposit: its amount moves back from the held to
/// the available funds. Rejected where the client has no account, the
/// account is locked, the account holds no deposit with this id, or the
/// deposit is not under dispute.
pub fn process_resolve(ledger: &mut Ledger, client: ClientId, tx: TransactionId) -> (r: Result<
    (),
    LedgerError,
>)
    ensures
        applied(old(ledger)@, resolve_outcome(old(ledger)@, client.0, tx.0), final(ledger)@, r),
{
    let r = match ledger.accounts.entry(client.0) {
        Entry::Occupied(mut entry) => {
            let account = entry.get_mut();
            match account.get_deposit(tx) {
                Ok(deposit) => {
                    let held = decimal_checked_sub(account.held(), deposit.amount);
                    let available = decimal_checked_add(account.available(), deposit.amount);
                    account.resolve(tx, held, available)
                },
                Err(_) => account.resolve(tx, None, None),
            }
        },
        Entry::Vacant(_) => Err(LedgerError::UnknownAccount),
    };
    proof {
        match resolve_outcome(old(ledger)@, client.0, tx.0) {
            Ok(after) => {
                assert(ledger@ =~= after);
            },
            Err(_) => {
                assert(ledger@ =~= old(ledger)@);
            },
        }
    }
    r
}

/// Charges a disputed deposit back: its amount leaves the held funds for
/// good and the account is locked. Rejected where the client has no
/// account, the account is locked, the account holds no deposit with this
/// id, or the deposit is not under dispute.
pub fn process_chargeback(ledger: &mut Ledger, client: ClientId, tx: TransactionId) -> (r: Result<
    (),
    LedgerError,
>)
    ensures
        applied(
            old(ledger)@,
            chargeback_outcome(old(ledger)@, client.0, tx.0),
            final(ledger)@,
            r,
        ),
{
    let r = match ledger.accounts.entry(client.0) {
        Entry::Occupied(mut entry) => {
            let account = entry.get_mut();
            match account.get_deposit(tx) {
                Ok(deposit) => {
                    let held = decimal_checked_sub(account.held(), deposit.amount);
                    account.chargeback(tx, held)
                },
                Err(_) => account.chargeback(tx, None),
            }
        },
        Entry::Vacant(_) => Err(LedgerError::UnknownAccount),
    };
    proof {
        match chargeback_outcome(old(ledger)@, client.0, tx.0) {
            Ok(after) => {
                assert(ledger@ =~= after);
            },
            Err(_) => {
                assert(ledger@ =~= old(ledger)@);
            },
        }
    }
    r
}

/// Applies one transaction to the ledger, or rejects it and leaves the
/// ledger as it was.
pub fn process_transaction(ledger: &mut Ledger, transaction: Transaction) -> (r: Result<
    (),
    LedgerError,
>)
    ensures
        applied(old(ledger)@, outcome(old(ledger)@, transaction), final(ledger)@, r),
{
    match transaction {
        Transaction::Deposit { client, tx, amount } => process_deposit(ledger, client, tx, amount),
        Transaction::Withdrawal { client, amount } => process_withdrawal(ledger, client, amount),
        Transaction::Dispute { client, tx } => process_dispute(ledger, client, tx),
        Transaction::Resolve { client, tx } => process_resolve(ledger, client, tx),
        Transaction::Chargeback { client, tx } => process_chargeback(ledger, client, tx),
    }
}

/// Applies a stream of transactions in order. A rejected transaction
/// changes nothing and does not stop the stream; the result tells for each
/// transaction whether it was accepted.
pub fn process_all(ledger: &mut Ledger, transactions: &Vec<Transaction>) -> (results: Vec<
    Result<(), LedgerError>,
>)
    ensures
        final(ledger)@ == run(old(ledger)@, transactions@),
        results@.len() == transactions@.len(),
        forall|i: int|
            0 <= i < results@.len() ==> #[trigger] results@[i] == verdict(
                outcome(run(old(ledger)@, transactions@.take(i)), transactions@[i]),
            ),
{
    let mut results: Vec<Result<(), LedgerError>> = Vec::new();
    let mut i: usize = 0;
    assert(transactions@.take(0) =~= Seq::empty());
    while i < transactions.len()
        invariant
            i <= transactions@.len(),
            ledger@ == run(old(ledger)@, transactions@.take(i as int)),
            results@.len() == i,
            forall|k: int|
                0 <= k < results@.len() ==> #[trigger] results@[k] == verdict(
                    outcome(run(old(ledger)@, transactions@.take(k)), transactions@[k]),
                ),
        decreases transactions@.len() - i,
    {
        let result = process_transaction(ledger, transactions[i]);
        proof {
            let next = transactions@.take(i + 1);
            assert(next.drop_last() =~= transactions@.take(i as int));
            assert(next.last() == transactions@[i as int]);
        }
        results.push(result);
        i += 1;
    }
    assert(transactions@.take(i as int) =~= transactions@);
    results
}

} // verus!
