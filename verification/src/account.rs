//! One client's account: its balances and the dispute state of its
//! transactions.

use crate::amount::{fixed_text, representable, Amount};
use crate::error::Error;
use crate::reader::{TransactionRecord, TransactionType};
use std::collections::HashMap;
use vstd::prelude::*;

verus! {

broadcast use vstd::std_specs::hash::group_hash_axioms;

/// Why a dispute, a resolution or a chargeback was refused.
#[derive(Clone, Copy, Debug, PartialEq, Eq, Structural)]
pub enum AccountError {
    /// The transaction is not open to dispute.
    NoTransaction(u64),
    /// The transaction is not under dispute.
    NoDispute(u64),
}

pub type AccountResult<T> = Result<T, AccountError>;

/// The mathematical state of an account. Balances are unbounded integers,
/// counted in ten-thousandths.
pub struct AccountView {
    pub client: u16,
    pub available: int,
    pub held: int,
    pub locked: bool,
    /// The amount of each transaction that may be disputed.
    pub disputable: Map<u64, int>,
    /// The amount of each transaction under dispute.
    pub disputes: Map<u64, int>,
}

impl AccountView {
    /// A fresh account: no funds, not locked, no transactions.
    pub open spec fn new(client: u16) -> AccountView {
        AccountView {
            client,
            available: 0,
            held: 0,
            locked: false,
            disputable: Map::empty(),
            disputes: Map::empty(),
        }
    }

    /// The funds of the account, available and held.
    pub open spec fn total(self) -> int {
        self.available + self.held
    }

    /// No transaction is both open to dispute and under dispute.
    pub open spec fn ids_disjoint(self) -> bool {
        forall|id: u64| !(self.disputable.contains_key(id) && self.disputes.contains_key(id))
    }

    /// The account after a deposit. The latest amount recorded under an id is
    /// the one that a later dispute moves.
    pub open spec fn deposit(self, id: u64, amount: int) -> AccountView {
        AccountView {
            available: self.available + amount,
            disputable: self.disputable.insert(id, amount),
            ..self
        }
    }

    /// The account after a withdrawal. Funds may go below zero.
    pub open spec fn withdraw(self, id: u64, amount: int) -> AccountView {
        AccountView {
            available: self.available - amount,
            disputable: self.disputable.insert(id, amount),
            ..self
        }
    }

    /// The account after a dispute of `id`, which is open to dispute: its
    /// amount moves from the available funds to the held funds.
    pub open spec fn dispute(self, id: u64) -> AccountView
        recommends
            self.disputable.contains_key(id),
    {
        let amount = self.disputable[id];
        AccountView {
            available: self.available - amount,
            held: self.held + amount,
            disputable: self.disputable.remove(id),
            disputes: self.disputes.insert(id, amount),
            ..self
        }
    }

    /// The account after the dispute of `id` is resolved: its amount moves
    /// back, and the transaction is open to dispute again.
    pub open spec fn resolve(self, id: u64) -> AccountView
        recommends
            self.disputes.contains_key(id),
    {
        let amount = self.disputes[id];
        AccountView {
            available: self.available + amount,
            held: self.held - amount,
            disputable: self.disputable.insert(id, amount),
            disputes: self.disputes.remove(id),
            ..self
        }
    }

    /// The account after the disputed `id` is charged back: its amount leaves
    /// the held funds and the account is locked.
    pub open spec fn chargeback(self, id: u64) -> AccountView
        recommends
            self.disputes.contains_key(id),
    {
        let amount = self.disputes[id];
        AccountView {
            held: self.held - amount,
            locked: true,
            disputes: self.disputes.remove(id),
            ..self
        }
    }

    /// A deposit keeps the available funds representable.
    pub open spec fn deposit_fits(self, amount: int) -> bool {
        representable(self.available + amount)
    }

    /// A withdrawal keeps the available funds representable.
    pub open spec fn withdraw_fits(self, amount: int) -> bool {
        representable(self.available - amount)
    }

    /// A dispute of `id`, where it is accepted, keeps both balances
    /// representable.
    pub open spec fn dispute_fits(self, id: u64) -> bool {
        self.disputable.contains_key(id) ==> representable(self.available - self.disputable[id])
            && representable(self.held + self.disputable[id])
    }

    /// A resolution of `id`, where it is accepted, keeps both balances
    /// representable.
    pub open spec fn resolve_fits(self, id: u64) -> bool {
        self.disputes.contains_key(id) ==> representable(self.available + self.disputes[id])
            && representable(self.held - self.disputes[id])
    }

    /// A chargeback of `id`, where it is accepted, keeps the held funds
    /// representable.
    pub open spec fn chargeback_fits(self, id: u64) -> bool {
        self.disputes.contains_key(id) ==> representable(self.held - self.disputes[id])
    }
}

/// What is reported of an account, as texts.
pub struct AccountRecordView {
    pub client: u16,
    pub available: Seq<char>,
    pub held: Seq<char>,
    pub total: Seq<char>,
    pub locked: bool,
}

impl AccountView {
    /// What is reported of the account: its balances and their sum, each as
    /// a decimal with four fractional digits.
    pub open spec fn snapshot(self) -> AccountRecordView {
        AccountRecordView {
            client: self.client,
            available: fixed_text(self.available),
            held: fixed_text(self.held),
            total: fixed_text(self.total()),
            locked: self.locked,
        }
    }
}

/// One row of the output: an account as it is reported.
#[derive(Clone, Debug, PartialEq, Eq)]
pub struct AccountRecord {
    pub client: u16,
    pub available: String,
    pub held: String,
    pub total: String,
    pub locked: bool,
}

impl View for AccountRecord {
    type V = AccountRecordView;

    open spec fn view(&self) -> AccountRecordView {
        AccountRecordView {
            client: self.client,
            available: self.available@,
            held: self.held@,
            total: self.total@,
            locked: self.locked,
        }
    }
}

impl AccountRecord {
    /// The row that reports an account.
    pub fn from(account: Account) -> (r: AccountRecord)
        requires
            representable(account@.total()),
        ensures
            r@ == account@.snapshot(),
    {
        account.snapshot()
    }
}

/// What a record does to the account of its client: the account after it, or
/// the failure. A deposit or withdrawal fails only for want of an amount; the
/// other kinds fail where the transaction is not in the state they need.
pub open spec fn outcome(account: AccountView, record: TransactionRecord) -> Result<
    AccountView,
    Error,
> {
    let id = record.transaction_id;
    match record.kind {
        TransactionType::Deposit => match record.amount {
            Some(amount) => Ok(account.deposit(id, amount@)),
            None => Err(Error::MissingAmount(record.line)),
        },
        TransactionType::Withdrawal => match record.amount {
            Some(amount) => Ok(account.withdraw(id, amount@)),
            None => Err(Error::MissingAmount(record.line)),
        },
        TransactionType::Dispute => if account.disputable.contains_key(id) {
            Ok(account.dispute(id))
        } else {
            Err(Error::NoTransaction(id, record.line))
        },
        TransactionType::Resolve => if account.disputes.contains_key(id) {
            Ok(account.resolve(id))
        } else {
            Err(Error::NoDispute(id, record.line))
        },
        TransactionType::Chargeback => if account.disputes.contains_key(id) {
            Ok(account.chargeback(id))
        } else {
            Err(Error::NoDispute(id, record.line))
        },
    }
}

/// Whether the balances that a record leaves in an account are
/// representable.
pub open spec fn fits(account: AccountView, record: TransactionRecord) -> bool {
    let id = record.transaction_id;
    match record.kind {
        TransactionType::Deposit => record.amount matches Some(amount) ==> account.deposit_fits(
            amount@,
        ),
        TransactionType::Withdrawal => record.amount matches Some(amount)
            ==> account.withdraw_fits(amount@),
        TransactionType::Dispute => account.dispute_fits(id),
        TransactionType::Resolve => account.resolve_fits(id),
        TransactionType::Chargeback => account.chargeback_fits(id),
    }
}

/// The amounts of a table of transactions, as integers.
pub open spec fn amounts(table: Map<u64, Amount>) -> Map<u64, int> {
    table.map_values(|amount: Amount| amount@)
}

/// One client's account.
#[derive(Debug)]
pub struct Account {
    pub client: u16,
    pub funds_available: Amount,
    pub funds_held: Amount,
    disputes: HashMap<u64, Amount>,
    disputable_transactions: HashMap<u64, Amount>,
    pub locked: bool,
}

impl View for Account {
    type V = AccountView;

    closed spec fn view(&self) -> AccountView {
        AccountView {
            client: self.client,
            available: self.funds_available@,
            held: self.funds_held@,
            locked: self.locked,
            disputable: amounts(self.disputable_transactions@),
            disputes: amounts(self.disputes@),
        }
    }
}

impl Default for Account {
    /// A fresh account for client 0.
    fn default() -> (r: Account)
        ensures
            r@ == AccountView::new(0),
    {
        Account::new(0)
    }
}

impl Account {
    /// The client that owns the account.
    pub fn client(&self) -> (r: u16)
        ensures
            r == self@.client,
    {
        self.client
    }

    /// The funds that the client may withdraw or have disputed.
    pub fn available(&self) -> (r: Amount)
        ensures
            r@ == self@.available,
    {
        self.funds_available
    }

    /// The funds frozen by disputes.
    pub fn held(&self) -> (r: Amount)
        ensures
            r@ == self@.held,
    {
        self.funds_held
    }

    /// Whether a chargeback has locked the account.
    pub fn is_locked(&self) -> (r: bool)
        ensures
            r == self@.locked,
    {
        self.locked
    }

    /// The funds of the account, available and held.
    pub fn total(&self) -> (r: Amount)
        requires
            representable(self@.total()),
        ensures
            r@ == self@.total(),
    {
        self.funds_held.plus(self.funds_available)
    }

    /// What is reported of the account.
    pub fn snapshot(&self) -> (r: AccountRecord)
        requires
            representable(self@.total()),
        ensures
            r@ == self@.snapshot(),
    {
        AccountRecord {
            client: self.client,
            available: self.funds_available.to_fixed_string(),
            held: self.funds_held.to_fixed_string(),
            total: self.total().to_fixed_string(),
            locked: self.locked,
        }
    }

    /// Whether the transaction is open to dispute.
    pub fn is_disputable(&self, transaction_id: u64) -> (r: bool)
        ensures
            r == self@.disputable.contains_key(transaction_id),
    {
        self.disputable_transactions.contains_key(&transaction_id)
    }

    /// Whether the transaction is under dispute.
    pub fn is_disputed(&self, transaction_id: u64) -> (r: bool)
        ensures
            r == self@.disputes.contains_key(transaction_id),
    {
        self.disputes.contains_key(&transaction_id)
    }

    /// A fresh account for `client`.
    pub fn new(client: u16) -> (r: Account)
        ensures
            r@ == AccountView::new(client),
    {
        let r = Account {
            client,
            funds_available: Amount::zero(),
            funds_held: Amount::zero(),
            disputes: HashMap::new(),
            disputable_transactions: HashMap::new(),
            locked: false,
        };
        assert(r@.disputable =~= Map::empty());
        assert(r@.disputes =~= Map::empty());
        r
    }

    /// Adds `amount` to the available funds and records the transaction as
    /// open to dispute, in place of any earlier one with the same id.
    pub fn deposit(&mut self, transaction_id: u64, amount: Amount)
        requires
            old(self)@.deposit_fits(amount@),
        ensures
            final(self)@ == old(self)@.deposit(transaction_id, amount@),
    {
        self.funds_available = self.funds_available.plus(amount);
        self.disputable_transactions.insert(transaction_id, amount);
        assert(self@.disputable =~= old(self)@.disputable.insert(transaction_id, amount@));
    }

    /// Takes `amount` from the available funds, which may go below zero, and
    /// records the transaction as open to dispute.
    pub fn withdraw(&mut self, transaction_id: u64, amount: Amount)
        requires
            old(self)@.withdraw_fits(amount@),
        ensures
            final(self)@ == old(self)@.withdraw(transaction_id, amount@),
    {
        self.funds_available = self.funds_available.minus(amount);
        self.disputable_transactions.insert(transaction_id, amount);
        assert(self@.disputable =~= old(self)@.disputable.insert(transaction_id, amount@));
    }

    /// Puts a transaction under dispute: its amount moves from the available
    /// to the held funds. Refused, with nothing changed, where the
    /// transaction is not open to dispute.
    pub fn dispute(&mut self, transaction_id: u64) -> (r: AccountResult<()>)
        requires
            old(self)@.dispute_fits(transaction_id),
        ensures
            r is Ok <==> old(self)@.disputable.contains_key(transaction_id),
            r is Ok ==> final(self)@ == old(self)@.dispute(transaction_id),
            r is Err ==> r == Err::<(), AccountError>(AccountError::NoTransaction(transaction_id))
                && final(self)@ == old(self)@,
    {
        match self.disputable_transactions.remove(&transaction_id) {
            Some(disputed_amount) => {
                self.funds_available = self.funds_available.minus(disputed_amount);
                self.funds_held = self.funds_held.plus(disputed_amount);
                self.disputes.insert(transaction_id, disputed_amount);
                assert(self@.disputable =~= old(self)@.disputable.remove(transaction_id));
                assert(self@.disputes =~= old(self)@.disputes.insert(
                    transaction_id,
                    disputed_amount@,
                ));
                Ok(())
            },
            None => {
                assert(self@.disputable =~= old(self)@.disputable);
                Err(AccountError::NoTransaction(transaction_id))
            },
        }
    }

    /// Ends a dispute in the client's favour: the amount moves back to the
    /// available funds and the transaction is open to dispute again.
    /// Refused, with nothing changed, where the transaction is not under
    /// dispute.
    pub fn resolve(&mut self, transaction_id: u64) -> (r: AccountResult<()>)
        requires
            old(self)@.resolve_fits(transaction_id),
        ensures
            r is Ok <==> old(self)@.disputes.contains_key(transaction_id),
            r is Ok ==> final(self)@ == old(self)@.resolve(transaction_id),
            r is Err ==> r == Err::<(), AccountError>(AccountError::NoDispute(transaction_id))
                && final(self)@ == old(self)@,
    {
        match self.disputes.remove(&transaction_id) {
            Some(disputed_amount) => {
                self.funds_available = self.funds_available.plus(disputed_amount);
                self.funds_held = self.funds_held.minus(disputed_amount);
                self.disputable_transactions.insert(transaction_id, disputed_amount);
                assert(self@.disputes =~= old(self)@.disputes.remove(transaction_id));
                assert(self@.disputable =~= old(self)@.disputable.insert(
                    transaction_id,
                    disputed_amount@,
                ));
                Ok(())
            },
            None => {
                assert(self@.disputes =~= old(self)@.disputes);
                Err(AccountError::NoDispute(transaction_id))
            },
        }
    }

    /// Ends a dispute against the client: the amount leaves the held funds
    /// for good and the account is locked. Refused, with nothing changed,
    /// where the transaction is not under dispute.
    pub fn chargeback(&mut self, transaction_id: u64) -> (r: AccountResult<()>)
        requires
            old(self)@.chargeback_fits(transaction_id),
        ensures
            r is Ok <==> old(self)@.disputes.contains_key(transaction_id),
            r is Ok ==> final(self)@ == old(self)@.chargeback(transaction_id),
            r is Err ==> r == Err::<(), AccountError>(AccountError::NoDispute(transaction_id))
                && final(self)@ == old(self)@,
    {
        match self.disputes.remove(&transaction_id) {
            Some(disputed_amount) => {
                self.funds_held = self.funds_held.minus(disputed_amount);
                self.locked = true;
                assert(self@.disputes =~= old(self)@.disputes.remove(transaction_id));
                Ok(())
            },
            None => {
                assert(self@.disputes =~= old(self)@.disputes);
                Err(AccountError::NoDispute(transaction_id))
            },
        }
    }

    /// Whether a record leaves representable balances in this account.
    pub fn in_range(&self, record: &TransactionRecord) -> (r: bool)
        ensures
            r == fits(self@, *record),
    {
        let id = record.transaction_id;
        match record.kind {
            TransactionType::Deposit => match record.amount {
                Some(amount) => self.funds_available.checked_add(amount).is_some(),
                None => true,
            },
            TransactionType::Withdrawal => match record.amount {
                Some(amount) => self.funds_available.checked_sub(amount).is_some(),
                None => true,
            },
            TransactionType::Dispute => match self.disputable_transactions.get(&id) {
                Some(amount) => self.funds_available.checked_sub(*amount).is_some()
                    && self.funds_held.checked_add(*amount).is_some(),
                None => true,
            },
            TransactionType::Resolve => match self.disputes.get(&id) {
                Some(amount) => self.funds_available.checked_add(*amount).is_some()
                    && self.funds_held.checked_sub(*amount).is_some(),
                None => true,
            },
            TransactionType::Chargeback => match self.disputes.get(&id) {
                Some(amount) => self.funds_held.checked_sub(*amount).is_some(),
                None => true,
            },
        }
    }

    /// Hands a record to the operation of its kind. A deposit or withdrawal
    /// without an amount is refused; a refusal of the account gets the line
    /// of the record.
    pub fn apply(&mut self, record: &TransactionRecord) -> (r: Result<(), Error>)
        requires
            fits(old(self)@, *record),
        ensures
            match outcome(old(self)@, *record) {
                Ok(after) => r == Ok::<(), Error>(()) && final(self)@ == after,
                Err(error) => r == Err::<(), Error>(error) && final(self)@ == old(self)@,
            },
    {
        let id = record.transaction_id;
        match record.kind {
            TransactionType::Deposit => match record.amount {
                Some(amount) => {
                    self.deposit(id, amount);
                    Ok(())
                },
                None => Err(Error::MissingAmount(record.line)),
            },
            TransactionType::Withdrawal => match record.amount {
                Some(amount) => {
                    self.withdraw(id, amount);
                    Ok(())
                },
                None => Err(Error::MissingAmount(record.line)),
            },
            TransactionType::Dispute => match self.dispute(id) {
                Ok(()) => Ok(()),
                Err(error) => Err(Error::from_account(error, record.line)),
            },
            TransactionType::Resolve => match self.resolve(id) {
                Ok(()) => Ok(()),
                Err(error) => Err(Error::from_account(error, record.line)),
            },
            TransactionType::Chargeback => match self.chargeback(id) {
                Ok(()) => Ok(()),
                Err(error) => Err(Error::from_account(error, record.line)),
            },
        }
    }
}

} // verus!
