//! What holds of the ledger whatever the transactions are.

use vstd::prelude::*;
use crate::account::{AccountView, RecordView};
use crate::amount::{decimal_difference, decimal_sum};
use crate::error::LedgerError;
use crate::ledger::{outcome, run, step};
use crate::transaction::{ClientId, Transaction, TransactionId};

verus! {

/// Two ledgers agree on a client: both have no account for it, or both
/// have the same account.
pub open spec fn same_account(
    a: Map<u16, AccountView>,
    b: Map<u16, AccountView>,
    client: u16,
) -> bool {
    &&& a.contains_key(client) == b.contains_key(client)
    &&& a.contains_key(client) ==> a[client] == b[client]
}

/// The transactions of a stream that are for one client, in their order.
pub open spec fn of_client(transactions: Seq<Transaction>, client: u16) -> Seq<Transaction>
    decreases transactions.len(),
{
    if transactions.len() == 0 {
        Seq::empty()
    } else if transactions.last().spec_client() == client {
        of_client(transactions.drop_last(), client).push(transactions.last())
    } else {
        of_client(transactions.drop_last(), client)
    }
}

/// In every output row the total is the sum of the available and the held
/// funds of the account, and the other columns are the account's own.
pub proof fn lemma_total_is_available_plus_held(account: AccountView, client: u16, row: RecordView)
    requires
        account.to_record(client) == Some(row),
    ensures
        decimal_sum(row.available, row.held) == Some(row.total),
        row.client == client,
        row.available == account.available,
        row.held == account.held,
        row.locked == account.locked,
{
}

/// A rejected transaction changes nothing. Applied once more it is
/// rejected for the same reason, and again changes nothing.
pub proof fn lemma_rejection_repeats(ledger: Map<u16, AccountView>, transaction: Transaction)
    requires
        outcome(ledger, transaction) is Err,
    ensures
        step(ledger, transaction) == ledger,
        outcome(step(ledger, transaction), transaction) == outcome(ledger, transaction),
        run(ledger, seq![transaction, transaction]) == ledger,
{
    let twice = seq![transaction, transaction];
    let once = twice.drop_last();
    assert(once.drop_last() =~= Seq::empty());
    assert(run(ledger, once.drop_last()) == ledger);
    assert(run(ledger, once) == ledger);
}

/// Every transaction for a client whose account is locked is rejected and
/// changes nothing.
pub proof fn lemma_locked_account_rejects(ledger: Map<u16, AccountView>, transaction: Transaction)
    requires
        ledger.contains_key(transaction.spec_client()),
        ledger[transaction.spec_client()].locked,
    ensures
        outcome(ledger, transaction) is Err,
        step(ledger, transaction) == ledger,
{
}

/// A transaction leaves the accounts of all other clients as they were: it
/// neither changes nor opens nor closes them.
pub proof fn lemma_step_keeps_other_accounts(
    ledger: Map<u16, AccountView>,
    transaction: Transaction,
    client: u16,
)
    requires
        client != transaction.spec_client(),
    ensures
        same_account(step(ledger, transaction), ledger, client),
{
}

/// What a transaction makes of its client's account depends on that
/// account alone.
pub proof fn lemma_step_is_local(
    a: Map<u16, AccountView>,
    b: Map<u16, AccountView>,
    transaction: Transaction,
)
    requires
        same_account(a, b, transaction.spec_client()),
    ensures
        same_account(step(a, transaction), step(b, transaction), transaction.spec_client()),
        outcome(a, transaction) is Err <==> outcome(b, transaction) is Err,
        outcome(a, transaction) matches Err(e) ==> outcome(b, transaction) == Err::<
            Map<u16, AccountView>,
            LedgerError,
        >(e),
{
}

/// No transaction closes an account, forgets a deposit or changes the
/// amount of a deposit: the deposits of an account are only added to.
pub proof fn lemma_deposits_are_kept(
    ledger: Map<u16, AccountView>,
    transaction: Transaction,
    client: u16,
    tx: u32,
)
    requires
        ledger.contains_key(client),
        ledger[client].deposits.contains_key(tx),
    ensures
        step(ledger, transaction).contains_key(client),
        step(ledger, transaction)[client].deposits.contains_key(tx),
        step(ledger, transaction)[client].deposits[tx].amount
            == ledger[client].deposits[tx].amount,
{
}

/// A deposit goes from normal to disputed by a dispute of it, and from
/// disputed back to normal by a resolve or a chargeback of it; nothing else
/// changes whether it is under dispute.
pub proof fn lemma_dispute_flag_follows_its_transactions(
    ledger: Map<u16, AccountView>,
    transaction: Transaction,
    client: u16,
    tx: u32,
)
    requires
        ledger.contains_key(client),
        ledger[client].deposits.contains_key(tx),
        step(ledger, transaction)[client].deposits[tx].under_dispute
            != ledger[client].deposits[tx].under_dispute,
    ensures
        outcome(ledger, transaction) is Ok,
        if ledger[client].deposits[tx].under_dispute {
            ||| transaction == (Transaction::Resolve {
                client: ClientId(client),
                tx: TransactionId(tx),
            })
            ||| transaction == (Transaction::Chargeback {
                client: ClientId(client),
                tx: TransactionId(tx),
            })
        } else {
            transaction == (Transaction::Dispute {
                client: ClientId(client),
                tx: TransactionId(tx),
            })
        },
{
}

/// A dispute followed by its resolve leaves the deposits and the lock of
/// the account as they were. The held funds are what `rust_decimal` makes
/// of adding the deposit's amount and taking it off again, and the
/// available funds of taking it off and adding it again.
pub proof fn lemma_resolve_undoes_dispute(account: AccountView, tx: u32)
    requires
        account.after_dispute(tx) is Ok,
        account.after_dispute(tx)->Ok_0.after_resolve(tx) is Ok,
    ensures
        ({
            let amount = account.deposits[tx].amount;
            let disputed = account.after_dispute(tx)->Ok_0;
            let resolved = disputed.after_resolve(tx)->Ok_0;
            &&& resolved.deposits == account.deposits
            &&& resolved.locked == account.locked
            &&& decimal_sum(account.held, amount) == Some(disputed.held)
            &&& decimal_difference(disputed.held, amount) == Some(resolved.held)
            &&& decimal_difference(account.available, amount) == Some(disputed.available)
            &&& decimal_sum(disputed.available, amount) == Some(resolved.available)
        }),
{
    let disputed = account.after_dispute(tx)->Ok_0;
    let resolved = disputed.after_resolve(tx)->Ok_0;
    assert(resolved.deposits =~= account.deposits);
}

/// Only an accepted chargeback locks an account, and nothing unlocks one.
pub proof fn lemma_only_chargeback_locks(
    ledger: Map<u16, AccountView>,
    transaction: Transaction,
    client: u16,
)
    requires
        ledger.contains_key(client),
    ensures
        ledger[client].locked ==> step(ledger, transaction)[client].locked,
        step(ledger, transaction)[client].locked && !ledger[client].locked ==> transaction
            is Chargeback && transaction.spec_client() == client && outcome(
            ledger,
            transaction,
        ) is Ok,
        transaction is Chargeback && transaction.spec_client() == client && outcome(
            ledger,
            transaction,
        ) is Ok ==> step(ledger, transaction)[client].locked,
{
}

/// A withdrawal, dispute, resolve or chargeback for a client without an
/// account is rejected and opens no account.
pub proof fn lemma_unknown_client_is_rejected(
    ledger: Map<u16, AccountView>,
    transaction: Transaction,
)
    requires
        !(transaction is Deposit),
        !ledger.contains_key(transaction.spec_client()),
    ensures
        outcome(ledger, transaction) == Err::<Map<u16, AccountView>, LedgerError>(
            LedgerError::UnknownAccount,
        ),
        step(ledger, transaction) == ledger,
{
}

/// Only an accepted deposit opens an account: a transaction that is not a
/// deposit, or that is rejected, leaves the set of accounts as it was, and
/// an accepted deposit adds at most its own client.
pub proof fn lemma_only_deposits_open_accounts(
    ledger: Map<u16, AccountView>,
    transaction: Transaction,
)
    ensures
        !(transaction is Deposit) || outcome(ledger, transaction) is Err ==> step(
            ledger,
            transaction,
        ).dom() == ledger.dom(),
        step(ledger, transaction).dom() == ledger.dom().insert(transaction.spec_client())
            || step(ledger, transaction).dom() == ledger.dom(),
{
    let after = step(ledger, transaction);
    let client = transaction.spec_client();
    if outcome(ledger, transaction) is Ok {
        assert(after.dom() =~= ledger.dom().insert(client));
        if !(transaction is Deposit) {
            assert(ledger.dom().insert(client) =~= ledger.dom());
        }
    }
}

/// A client has no account at the end of a stream unless it had one at
/// the start or one of its deposits was accepted on the way: whatever else
/// the stream holds for it opens none.
pub proof fn lemma_no_account_without_deposit(
    ledger: Map<u16, AccountView>,
    transactions: Seq<Transaction>,
    client: u16,
)
    requires
        !ledger.contains_key(client),
        forall|i: int|
            0 <= i < transactions.len() && (#[trigger] transactions[i]) is Deposit
                && transactions[i].spec_client() == client ==> outcome(
                run(ledger, transactions.take(i)),
                transactions[i],
            ) is Err,
    ensures
        !run(ledger, transactions).contains_key(client),
    decreases transactions.len(),
{
    if transactions.len() > 0 {
        let earlier = transactions.drop_last();
        let before = run(ledger, earlier);
        let last = transactions.last();
        assert forall|i: int|
            0 <= i < earlier.len() && (#[trigger] earlier[i]) is Deposit && earlier[i].spec_client()
                == client implies outcome(run(ledger, earlier.take(i)), earlier[i]) is Err by {
            assert(earlier[i] == transactions[i]);
            assert(earlier.take(i) =~= transactions.take(i));
        }
        lemma_no_account_without_deposit(ledger, earlier, client);
        if last.spec_client() != client {
            lemma_step_keeps_other_accounts(before, last, client);
        } else if last is Deposit {
            assert(transactions.take(transactions.len() - 1) =~= earlier);
            assert(last == transactions[transactions.len() - 1]);
        } else {
            lemma_unknown_client_is_rejected(before, last);
        }
    }
}

/// Once an account is locked, no later transaction of the stream changes
/// its funds, its deposits or its lock.
pub proof fn lemma_locked_account_is_frozen(
    ledger: Map<u16, AccountView>,
    transactions: Seq<Transaction>,
    client: u16,
)
    requires
        ledger.contains_key(client),
        ledger[client].locked,
    ensures
        same_account(run(ledger, transactions), ledger, client),
    decreases transactions.len(),
{
    if transactions.len() > 0 {
        let before = run(ledger, transactions.drop_last());
        let last = transactions.last();
        lemma_locked_account_is_frozen(ledger, transactions.drop_last(), client);
        if last.spec_client() == client {
            lemma_locked_account_rejects(before, last);
        } else {
            lemma_step_keeps_other_accounts(before, last, client);
        }
    }
}

/// A stream in which no transaction is for a client leaves that client's
/// account as it was.
pub proof fn lemma_stream_keeps_other_accounts(
    ledger: Map<u16, AccountView>,
    transactions: Seq<Transaction>,
    client: u16,
)
    requires
        forall|i: int|
            0 <= i < transactions.len() ==> (#[trigger] transactions[i]).spec_client() != client,
    ensures
        same_account(run(ledger, transactions), ledger, client),
    decreases transactions.len(),
{
    if transactions.len() > 0 {
        let before = run(ledger, transactions.drop_last());
        assert forall|i: int| 0 <= i < transactions.drop_last().len() implies (
        #[trigger] transactions.drop_last()[i]).spec_client() != client by {
            assert(transactions.drop_last()[i] == transactions[i]);
        }
        lemma_stream_keeps_other_accounts(ledger, transactions.drop_last(), client);
        lemma_step_keeps_other_accounts(before, transactions.last(), client);
    }
}

/// The clients are independent: at the end of a stream a client's account
/// is what its own transactions alone, in their order, would have made of
/// it. The transactions of other clients, wherever they stand in between,
/// make no difference.
pub proof fn lemma_clients_are_independent(
    ledger: Map<u16, AccountView>,
    transactions: Seq<Transaction>,
    client: u16,
)
    ensures
        same_account(
            run(ledger, transactions),
            run(ledger, of_client(transactions, client)),
            client,
        ),
    decreases transactions.len(),
{
    if transactions.len() > 0 {
        let last = transactions.last();
        let before = run(ledger, transactions.drop_last());
        let own = of_client(transactions.drop_last(), client);
        lemma_clients_are_independent(ledger, transactions.drop_last(), client);
        if last.spec_client() == client {
            assert(of_client(transactions, client).drop_last() =~= own);
            assert(of_client(transactions, client).last() == last);
            lemma_step_is_local(before, run(ledger, own), last);
        } else {
            lemma_step_keeps_other_accounts(before, last, client);
        }
    }
}

} // verus!
