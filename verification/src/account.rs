//! One client's account and the rules by which a transaction changes it.

use std::collections::HashMap;
use vstd::prelude::*;
use vstd::std_specs::hash::*;
use crate::amount::{
    decimal_checked_add, decimal_difference, decimal_lt, decimal_sum, less_than, value_of, Amount,
    DecimalNumber,
};
use crate::error::LedgerError;
use crate::transaction::{ClientId, TransactionId};

verus! {

broadcast use vstd::std_specs::hash::group_hash_axioms;

/// A deposit as the account remembers it.
#[derive(Clone, Copy, Debug)]
pub struct StoredDeposit {
    /// The amount that was deposited. It never changes.
    pub amount: Amount,
    /// Whether the amount is held back by a dispute.
    pub under_dispute: bool,
}

/// A remembered deposit, as a mathematical value.
pub struct DepositView {
    pub amount: DecimalNumber,
    pub under_dispute: bool,
}

impl View for StoredDeposit {
    type V = DepositView;

    open spec fn view(&self) -> DepositView {
        DepositView { amount: self.amount@, under_dispute: self.under_dispute }
    }
}

/// An account, as a mathematical value.
pub struct AccountView {
    /// Every deposit that was accepted, by transaction id.
    pub deposits: Map<u32, DepositView>,
    /// Funds that can be withdrawn.
    pub available: DecimalNumber,
    /// Funds held back by disputes.
    pub held: DecimalNumber,
    /// Set by a chargeback, for good.
    pub locked: bool,
}

impl AccountView {
    /// A new account: nothing deposited, zero balances, not locked.
    pub open spec fn empty() -> AccountView {
        AccountView {
            deposits: Map::empty(),
            available: DecimalNumber { mantissa: 0, scale: 0 },
            held: DecimalNumber { mantissa: 0, scale: 0 },
            locked: false,
        }
    }

    /// The rule for a deposit of `amount` under the id `tx`, where
    /// `credited` is the available balance plus the amount.
    pub open spec fn deposit(
        self,
        tx: u32,
        amount: DecimalNumber,
        credited: Option<DecimalNumber>,
    ) -> Result<AccountView, LedgerError> {
        if amount.mantissa < 0 {
            Err(LedgerError::NegativeAmount)
        } else if self.locked {
            Err(LedgerError::LockedAccount)
        } else if self.deposits.contains_key(tx) {
            Err(LedgerError::DuplicateTransaction)
        } else {
            match credited {
                None => Err(LedgerError::AmountOverflow),
                Some(available) => Ok(
                    AccountView {
                        deposits: self.deposits.insert(
                            tx,
                            DepositView { amount, under_dispute: false },
                        ),
                        available,
                        ..self
                    },
                ),
            }
        }
    }

    /// The rule for a withdrawal of `amount`, where `debited` is the
    /// available balance minus the amount.
    pub open spec fn withdraw(
        self,
        amount: DecimalNumber,
        debited: Option<DecimalNumber>,
    ) -> Result<AccountView, LedgerError> {
        if amount.mantissa < 0 {
            Err(LedgerError::NegativeAmount)
        } else if self.locked {
            Err(LedgerError::LockedAccount)
        } else if less_than(self.available, amount) {
            Err(LedgerError::InsufficientFunds)
        } else {
            match debited {
                None => Err(LedgerError::AmountOverflow),
                Some(available) => Ok(AccountView { available, ..self }),
            }
        }
    }

    /// The rule for a dispute of the deposit `tx`, where `held` is the held
    /// balance plus the deposit's amount and `available` is the available
    /// balance minus it. The available balance may fall below zero.
    pub open spec fn dispute(
        self,
        tx: u32,
        held: Option<DecimalNumber>,
        available: Option<DecimalNumber>,
    ) -> Result<AccountView, LedgerError> {
        if self.locked {
            Err(LedgerError::LockedAccount)
        } else if !self.deposits.contains_key(tx) {
            Err(LedgerError::UnknownTransaction)
        } else if self.deposits[tx].under_dispute {
            Err(LedgerError::AlreadyDisputed)
        } else {
            match (held, available) {
                (Some(held), Some(available)) => Ok(
                    AccountView {
                        deposits: self.deposits.insert(
                            tx,
                            DepositView { under_dispute: true, ..self.deposits[tx] },
                        ),
                        available,
                        held,
                        ..self
                    },
                ),
                _ => Err(LedgerError::AmountOverflow),
            }
        }
    }

    /// The rule for resolving the dispute of the deposit `tx`, where `held`
    /// is the held balance minus the deposit's amount and `available` is
    /// the available balance plus it.
    pub open spec fn resolve(
        self,
        tx: u32,
        held: Option<DecimalNumber>,
        available: Option<DecimalNumber>,
    ) -> Result<AccountView, LedgerError> {
        if self.locked {
            Err(LedgerError::LockedAccount)
        } else if !self.deposits.contains_key(tx) {
            Err(LedgerError::UnknownTransaction)
        } else if !self.deposits[tx].under_dispute {
            Err(LedgerError::NotDisputed)
        } else {
            match (held, available) {
                (Some(held), Some(available)) => Ok(
                    AccountView {
                        deposits: self.deposits.insert(
                            tx,
                            DepositView { under_dispute: false, ..self.deposits[tx] },
                        ),
                        available,
                        held,
                        ..self
                    },
                ),
                _ => Err(LedgerError::AmountOverflow),
            }
        }
    }

    /// The rule for charging back the disputed deposit `tx`, where `held`
    /// is the held balance minus the deposit's amount. The amount leaves
    /// the account and the account is locked.
    pub open spec fn chargeback(self, tx: u32, held: Option<DecimalNumber>) -> Result<
        AccountView,
        LedgerError,
    > {
        if self.locked {
            Err(LedgerError::LockedAccount)
        } else if !self.deposits.contains_key(tx) {
            Err(LedgerError::UnknownTransaction)
        } else if !self.deposits[tx].under_dispute {
            Err(LedgerError::NotDisputed)
        } else {
            match held {
                Some(held) => Ok(
                    AccountView {
                        deposits: self.deposits.insert(
                            tx,
                            DepositView { under_dispute: false, ..self.deposits[tx] },
                        ),
                        held,
                        locked: true,
                        ..self
                    },
                ),
                None => Err(LedgerError::AmountOverflow),
            }
        }
    }

    /// The account after a deposit, with the new balance that
    /// `rust_decimal` computes.
    pub open spec fn after_deposit(self, tx: u32, amount: DecimalNumber) -> Result<
        AccountView,
        LedgerError,
    > {
        self.deposit(tx, amount, decimal_sum(self.available, amount))
    }

    /// The account after a withdrawal, with the new balance that
    /// `rust_decimal` computes.
    pub open spec fn after_withdrawal(self, amount: DecimalNumber) -> Result<
        AccountView,
        LedgerError,
    > {
        self.withdraw(amount, decimal_difference(self.available, amount))
    }

    /// The account after a dispute of the deposit `tx`: its amount moves
    /// from available to held.
    pub open spec fn after_dispute(self, tx: u32) -> Result<AccountView, LedgerError> {
        let amount = self.deposits[tx].amount;
        self.dispute(
            tx,
            decimal_sum(self.held, amount),
            decimal_difference(self.available, amount),
        )
    }

    /// The account after the dispute of the deposit `tx` is resolved: its
    /// amount moves back from held to available.
    pub open spec fn after_resolve(self, tx: u32) -> Result<AccountView, LedgerError> {
        let amount = self.deposits[tx].amount;
        self.resolve(
            tx,
            decimal_difference(self.held, amount),
            decimal_sum(self.available, amount),
        )
    }

    /// The account after the disputed deposit `tx` is charged back: its
    /// amount leaves the held funds.
    pub open spec fn after_chargeback(self, tx: u32) -> Result<AccountView, LedgerError> {
        let amount = self.deposits[tx].amount;
        self.chargeback(tx, decimal_difference(self.held, amount))
    }

    /// The output row of the account, given as `total` the sum of its
    /// available and held funds.
    pub open spec fn record(self, client: u16, total: DecimalNumber) -> RecordView {
        RecordView {
            client,
            available: self.available,
            held: self.held,
            total,
            locked: self.locked,
        }
    }

    /// The output row of the account, with the total that `rust_decimal`
    /// computes; none where the total is beyond what an amount can hold.
    pub open spec fn to_record(self, client: u16) -> Option<RecordView> {
        match decimal_sum(self.available, self.held) {
            Some(total) => Some(self.record(client, total)),
            None => None,
        }
    }
}

/// One row of the output: a client's funds and whether the account is
/// locked.
#[derive(Clone, Copy, Debug)]
pub struct ClientRecord {
    pub client: ClientId,
    pub available: Amount,
    pub held: Amount,
    pub total: Amount,
    pub locked: bool,
}

/// An output row, as a mathematical value.
pub struct RecordView {
    pub client: u16,
    pub available: DecimalNumber,
    pub held: DecimalNumber,
    pub total: DecimalNumber,
    pub locked: bool,
}

impl View for ClientRecord {
    type V = RecordView;

    open spec fn view(&self) -> RecordView {
        RecordView {
            client: self.client.0,
            available: self.available@,
            held: self.held@,
            total: self.total@,
            locked: self.locked,
        }
    }
}

/// The views of an optional output row.
pub open spec fn record_of(r: Option<ClientRecord>) -> Option<RecordView> {
    match r {
        Some(x) => Some(x@),
        None => None,
    }
}

/// What a rule made of the account `before`: on success the account is the
/// new one, on rejection it is the old one and the error is handed out.
pub open spec fn settled(
    before: AccountView,
    outcome: Result<AccountView, LedgerError>,
    after: AccountView,
    result: Result<(), LedgerError>,
) -> bool {
    match outcome {
        Ok(account) => result == Ok::<(), LedgerError>(()) && after == account,
        Err(e) => result == Err::<(), LedgerError>(e) && after == before,
    }
}

/// The state of one client's account.
#[derive(Debug)]
pub struct ClientState {
    deposits: HashMap<u32, StoredDeposit>,
    available: Amount,
    held: Amount,
    locked: bool,
}

impl View for ClientState {
    type V = AccountView;

    closed spec fn view(&self) -> AccountView {
        AccountView {
            deposits: Map::new(
                |tx: u32| self.deposits@.contains_key(tx),
                |tx: u32| self.deposits@[tx]@,
            ),
            available: self.available@,
            held: self.held@,
            locked: self.locked,
        }
    }
}

impl Default for ClientState {
    fn default() -> (r: ClientState)
        ensures
            r@ == AccountView::empty(),
    {
        ClientState::new()
    }
}

impl ClientState {
    /// A new account: nothing deposited, zero balances, not locked.
    pub fn new() -> (r: ClientState)
        ensures
            r@ == AccountView::empty(),
    {
        let r = ClientState {
            deposits: HashMap::new(),
            available: Amount::zero(),
            held: Amount::zero(),
            locked: false,
        };
        assert(r@.deposits =~= Map::empty());
        r
    }

    /// The funds that can be withdrawn.
    pub fn available(&self) -> (r: Amount)
        ensures
            r@ == self@.available,
    {
        self.available
    }

    /// The funds held back by disputes.
    pub fn held(&self) -> (r: Amount)
        ensures
            r@ == self@.held,
    {
        self.held
    }

    /// Whether a chargeback has locked the account.
    pub fn locked(&self) -> (r: bool)
        ensures
            r == self@.locked,
    {
        self.locked
    }

    /// Rejects every operation on a locked account.
    pub fn check_unlocked(&self) -> (r: Result<(), LedgerError>)
        ensures
            r == (if self@.locked {
                Err::<(), LedgerError>(LedgerError::LockedAccount)
            } else {
                Ok(())
            }),
    {
        if self.locked {
            Err(LedgerError::LockedAccount)
        } else {
            Ok(())
        }
    }

    /// The deposit that the account remembers under `tx`.
    pub fn get_deposit(&self, tx: TransactionId) -> (r: Result<StoredDeposit, LedgerError>)
        ensures
            match r {
                Ok(deposit) => self@.deposits.contains_key(tx.0) && deposit@
                    == self@.deposits[tx.0],
                Err(e) => e == LedgerError::UnknownTransaction && !self@.deposits.contains_key(
                    tx.0,
                ),
            },
    {
        match self.deposits.get(&tx.0) {
            Some(deposit) => Ok(*deposit),
            None => Err(LedgerError::UnknownTransaction),
        }
    }

    /// Applies the deposit rule, given as `credited` the available balance
    /// plus the amount.
    pub fn deposit(&mut self, tx: TransactionId, amount: Amount, credited: Option<Amount>) -> (r:
        Result<(), LedgerError>)
        ensures
            settled(
                old(self)@,
                old(self)@.deposit(tx.0, amount@, value_of(credited)),
                final(self)@,
                r,
            ),
    {
        if amount.is_negative() {
            return Err(LedgerError::NegativeAmount);
        }
        self.check_unlocked()?;
        if self.deposits.contains_key(&tx.0) {
            return Err(LedgerError::DuplicateTransaction);
        }
        match credited {
            None => Err(LedgerError::AmountOverflow),
            Some(available) => {
                self.available = available;
                self.deposits.insert(tx.0, StoredDeposit { amount, under_dispute: false });
                assert(self@.deposits =~= old(self)@.deposits.insert(
                    tx.0,
                    DepositView { amount: amount@, under_dispute: false },
                ));
                Ok(())
            },
        }
    }

    /// Applies the withdrawal rule, given as `debited` the available
    /// balance minus the amount.
    pub fn withdraw(&mut self, amount: Amount, debited: Option<Amount>) -> (r: Result<
        (),
        LedgerError,
    >)
        ensures
            settled(
                old(self)@,
                old(self)@.withdraw(amount@, value_of(debited)),
                final(self)@,
                r,
            ),
    {
        if amount.is_negative() {
            return Err(LedgerError::NegativeAmount);
        }
        self.check_unlocked()?;
        if decimal_lt(self.available, amount) {
            return Err(LedgerError::InsufficientFunds);
        }
        match debited {
            None => Err(LedgerError::AmountOverflow),
            Some(available) => {
                self.available = available;
                Ok(())
            },
        }
    }

    /// Applies the dispute rule, given as `held` the held balance plus the
    /// deposit's amount and as `available` the available balance minus it.
    pub fn dispute(
        &mut self,
        tx: TransactionId,
        held: Option<Amount>,
        available: Option<Amount>,
    ) -> (r: Result<(), LedgerError>)
        ensures
            settled(
                old(self)@,
                old(self)@.dispute(tx.0, value_of(held), value_of(available)),
                final(self)@,
                r,
            ),
    {
        self.check_unlocked()?;
        let deposit = self.get_deposit(tx)?;
        if deposit.under_dispute {
            return Err(LedgerError::AlreadyDisputed);
        }
        match (held, available) {
            (Some(held), Some(available)) => {
                self.deposits.insert(
                    tx.0,
                    StoredDeposit { amount: deposit.amount, under_dispute: true },
                );
                self.held = held;
                self.available = available;
                assert(self@.deposits =~= old(self)@.deposits.insert(
                    tx.0,
                    DepositView { under_dispute: true, ..old(self)@.deposits[tx.0] },
                ));
                Ok(())
            },
            _ => Err(LedgerError::AmountOverflow),
        }
    }

    /// Applies the resolve rule, given as `held` the held balance minus the
    /// deposit's amount and as `available` the available balance plus it.
    pub fn resolve(
        &mut self,
        tx: TransactionId,
        held: Option<Amount>,
        available: Option<Amount>,
    ) -> (r: Result<(), LedgerError>)
        ensures
            settled(
                old(self)@,
                old(self)@.resolve(tx.0, value_of(held), value_of(available)),
                final(self)@,
                r,
            ),
    {
        self.check_unlocked()?;
        let deposit = self.get_deposit(tx)?;
        if !deposit.under_dispute {
            return Err(LedgerError::NotDisputed);
        }
        match (held, available) {
            (Some(held), Some(available)) => {
                self.deposits.insert(
                    tx.0,
                    StoredDeposit { amount: deposit.amount, under_dispute: false },
                );
                self.held = held;
                self.available = available;
                assert(self@.deposits =~= old(self)@.deposits.insert(
                    tx.0,
                    DepositView { under_dispute: false, ..old(self)@.deposits[tx.0] },
                ));
                Ok(())
            },
            _ => Err(LedgerError::AmountOverflow),
        }
    }

    /// Applies the chargeback rule, given as `held` the held balance minus
    /// the deposit's amount.
    pub fn chargeback(&mut self, tx: TransactionId, held: Option<Amount>) -> (r: Result<
        (),
        LedgerError,
    >)
        ensures
            settled(old(self)@, old(self)@.chargeback(tx.0, value_of(held)), final(self)@, r),
    {
        self.check_unlocked()?;
        let deposit = self.get_deposit(tx)?;
        if !deposit.under_dispute {
            return Err(LedgerError::NotDisputed);
        }
        match held {
            Some(held) => {
                self.deposits.insert(
                    tx.0,
                    StoredDeposit { amount: deposit.amount, under_dispute: false },
                );
                self.held = held;
                self.locked = true;
                assert(self@.deposits =~= old(self)@.deposits.insert(
                    tx.0,
                    DepositView { under_dispute: false, ..old(self)@.deposits[tx.0] },
                ));
                Ok(())
            },
            None => Err(LedgerError::AmountOverflow),
        }
    }

    /// The output row of the account, given as `total` the sum of its
    /// available and held funds.
    pub fn client_record(&self, client: ClientId, total: Amount) -> (r: ClientRecord)
        ensures
            r@ == self@.record(client.0, total@),
    {
        ClientRecord {
            client,
            available: self.available,
            held: self.held,
            total,
            locked: self.locked,
        }
    }

    /// The output row of the account. Its total is the sum of the available
    /// and the held funds; where that sum is beyond what an amount can hold
    /// there is no row.
    pub fn to_client_record(&self, client: ClientId) -> (r: Option<ClientRecord>)
        ensures
            record_of(r) == self@.to_record(client.0),
            r matches Some(row) ==> decimal_sum(row@.available, row@.held) == Some(row@.total),
    {
        match decimal_checked_add(self.available, self.held) {
            Some(total) => Some(self.client_record(client, total)),
            None => None,
        }
    }
}

} // verus!
