//! The processor: it owns the accounts and applies records to them in the
//! order of the input, stopping at the first failure.

use crate::account::{fits, outcome, Account, AccountRecord, AccountRecordView, AccountView};
use crate::amount::representable;
use crate::error::Error;
use crate::history::{
    net_deposits, total_is_net_less_chargebacks, undisputed_balance, Request,
};
use crate::reader::{parse_record, record_of, TransactionRecord, TransactionType};
use std::collections::HashMap;
use vstd::prelude::*;
use vstd::std_specs::iter::IteratorSpec;

verus! {

broadcast use vstd::std_specs::hash::group_hash_axioms;

/// The accounts with one for `client`: a fresh account where there was none.
pub open spec fn with_account(accounts: Map<u16, AccountView>, client: u16) -> Map<
    u16,
    AccountView,
> {
    if accounts.contains_key(client) {
        accounts
    } else {
        accounts.insert(client, AccountView::new(client))
    }
}

/// The accounts after one record, and whether it was accepted. The account
/// of the record's client is there afterwards in either case; a record that
/// fails changes nothing else.
pub open spec fn step(accounts: Map<u16, AccountView>, record: TransactionRecord) -> (
    Map<u16, AccountView>,
    Result<(), Error>,
) {
    let opened = with_account(accounts, record.client);
    match outcome(opened[record.client], record) {
        Ok(account) => (opened.insert(record.client, account), Ok(())),
        Err(error) => (opened, Err(error)),
    }
}

/// Whether one record leaves representable balances.
pub open spec fn step_fits(accounts: Map<u16, AccountView>, record: TransactionRecord) -> bool {
    fits(with_account(accounts, record.client)[record.client], record)
}

/// The accounts after the records, applied in order up to and with the first
/// that fails, and that failure.
pub open spec fn run(accounts: Map<u16, AccountView>, records: Seq<TransactionRecord>) -> (
    Map<u16, AccountView>,
    Result<(), Error>,
)
    decreases records.len(),
{
    if records.len() == 0 {
        (accounts, Ok(()))
    } else {
        let (after, result) = step(accounts, records.first());
        if result is Err {
            (after, result)
        } else {
            run(after, records.drop_first())
        }
    }
}

/// Whether every record that a run applies leaves representable balances.
pub open spec fn run_fits(accounts: Map<u16, AccountView>, records: Seq<TransactionRecord>) -> bool
    decreases records.len(),
{
    records.len() == 0 || (step_fits(accounts, records.first()) && (step(
        accounts,
        records.first(),
    ).1 is Ok ==> run_fits(step(accounts, records.first()).0, records.drop_first())))
}

/// The accounts after one row of fields, read on `line`, and what became of
/// the row: `None` where it reads as a record that would take a balance out
/// of the representable range, and then nothing is changed. A row that does
/// not read as a record changes nothing either.
pub open spec fn fed(accounts: Map<u16, AccountView>, fields: Seq<&[u8]>, line: u64) -> (
    Map<u16, AccountView>,
    Option<Result<(), Error>>,
) {
    match record_of(fields, line) {
        Err(error) => (accounts, Some(Err(error))),
        Ok(record) => if step_fits(accounts, record) {
            (step(accounts, record).0, Some(step(accounts, record).1))
        } else {
            (accounts, None)
        },
    }
}

/// Whether the funds of every account, available and held, are
/// representable.
pub open spec fn totals_fit(accounts: Map<u16, AccountView>) -> bool {
    forall|client: u16| #[trigger]
        accounts.contains_key(client) ==> representable(accounts[client].total())
}

/// Whether a row reports one of the accounts.
pub open spec fn is_row_of(row: AccountRecordView, accounts: Map<u16, AccountView>) -> bool {
    exists|client: u16| #[trigger]
        accounts.contains_key(client) && row == accounts[client].snapshot()
}

/// Whether one of the rows reports the account.
pub open spec fn has_row(rows: Seq<AccountRecord>, account: AccountView) -> bool {
    exists|i: int| 0 <= i < rows.len() && (#[trigger] rows[i])@ == account.snapshot()
}

/// The state of each account of a table.
pub open spec fn views(table: Map<u16, Account>) -> Map<u16, AccountView> {
    table.map_values(|account: Account| account@)
}

/// The accounts of all clients seen so far, each under its client's id.
#[derive(Debug)]
pub struct TransactionProcessor {
    accounts: HashMap<u16, Account>,
}

impl View for TransactionProcessor {
    type V = Map<u16, AccountView>;

    closed spec fn view(&self) -> Map<u16, AccountView> {
        views(self.accounts@)
    }
}

impl TransactionProcessor {
    /// Every account is held under the id of its client. A new processor is
    /// well formed and stays so.
    pub open spec fn wf(&self) -> bool {
        keyed_by_client(self@)
    }

    /// A processor with no accounts.
    pub fn new() -> (r: TransactionProcessor)
        ensures
            r.wf(),
            r@ == Map::<u16, AccountView>::empty(),
    {
        let r = TransactionProcessor { accounts: HashMap::new() };
        assert(r@ =~= Map::<u16, AccountView>::empty());
        r
    }

    /// The number of accounts.
    pub fn len(&self) -> (r: usize)
        ensures
            r == self@.len(),
    {
        assert(self@.dom() =~= self.accounts@.dom());
        self.accounts.len()
    }

    /// The account of a client, where the client has been seen.
    pub fn get(&self, client: u16) -> (r: Option<&Account>)
        ensures
            r is Some <==> self@.contains_key(client),
            r matches Some(account) ==> account@ == self@[client],
            self.wf() ==> (r matches Some(account) ==> account@.client == client),
    {
        self.accounts.get(&client)
    }

    /// The clients that have an account, each once, in no particular order.
    pub fn clients(&self) -> (r: Vec<u16>)
        ensures
            r@.no_duplicates(),
            r@.to_set() == self@.dom(),
    {
        let mut r: Vec<u16> = Vec::new();
        let ghost keys = self.accounts.keys().remaining().unref();
        for client in iter: self.accounts.keys()
            invariant
                iter.seq().unref() == keys,
                r@.len() == iter.index(),
                r@ == keys.take(iter.index()),
        {
            r.push(*client);
            assert(keys.take(iter.index() + 1) =~= keys.take(iter.index()).push(*client));
        }
        proof {
            assert(r@ =~= keys);
            assert(self@.dom() =~= self.accounts@.dom());
        }
        r
    }

    /// Whether the funds of every account, available and held, are
    /// representable.
    pub fn totals_in_range(&self) -> (r: bool)
        ensures
            r == totals_fit(self@),
    {
        let clients = self.clients();
        let mut i: usize = 0;
        while i < clients.len()
            invariant
                i <= clients@.len(),
                clients@.to_set() == self@.dom(),
                forall|j: int| 0 <= j < i ==> representable(self@[#[trigger] clients@[j]].total()),
            decreases clients@.len() - i,
        {
            let client = clients[i];
            assert(clients@.to_set().contains(client));
            match self.accounts.get(&client) {
                Some(account) => {
                    if account.held().checked_add(account.available()).is_none() {
                        return false;
                    }
                },
                None => {},
            }
            i += 1;
        }
        proof {
            assert forall|client: u16| #[trigger] self@.contains_key(client) implies representable(
                self@[client].total(),
            ) by {
                assert(clients@.to_set().contains(client));
                let j = choose|j: int| 0 <= j < clients@.len() && clients@[j] == client;
                assert(representable(self@[clients@[j]].total()));
            }
        }
        true
    }

    /// What is reported of the accounts: one row for each account, in no
    /// particular order.
    pub fn snapshots(&self) -> (r: Vec<AccountRecord>)
        requires
            totals_fit(self@),
        ensures
            r@.len() == self@.len(),
            forall|client: u16| #[trigger]
                self@.contains_key(client) ==> has_row(r@, self@[client]),
            forall|i: int| 0 <= i < r@.len() ==> is_row_of((#[trigger] r@[i])@, self@),
            self.wf() ==> forall|i: int, j: int|
                0 <= i < j < r@.len() ==> (#[trigger] r@[i]).client != (#[trigger] r@[j]).client,
    {
        let clients = self.clients();
        let mut rows: Vec<AccountRecord> = Vec::new();
        let mut i: usize = 0;
        while i < clients.len()
            invariant
                i <= clients@.len(),
                rows@.len() == i,
                totals_fit(self@),
                clients@.to_set() == self@.dom(),
                forall|j: int|
                    0 <= j < i ==> (#[trigger] rows@[j])@ == self@[clients@[j]].snapshot(),
            decreases clients@.len() - i,
        {
            let client = clients[i];
            assert(clients@.to_set().contains(client));
            match self.accounts.get(&client) {
                Some(account) => {
                    rows.push(account.snapshot());
                },
                None => {},
            }
            i += 1;
        }
        proof {
            clients@.unique_seq_to_set();
            assert forall|client: u16| #[trigger] self@.contains_key(client) implies has_row(
                rows@,
                self@[client],
            ) by {
                assert(clients@.to_set().contains(client));
                let j = choose|j: int| 0 <= j < clients@.len() && clients@[j] == client;
                assert(rows@[j]@ == self@[client].snapshot());
            }
            assert forall|i: int| 0 <= i < rows@.len() implies is_row_of(
                (#[trigger] rows@[i])@,
                self@,
            ) by {
                assert(clients@.to_set().contains(clients@[i]));
                assert(self@.contains_key(clients@[i]));
            }
            if self.wf() {
                assert forall|i: int, j: int| 0 <= i < j < rows@.len() implies (
                #[trigger] rows@[i]).client != (#[trigger] rows@[j]).client by {
                    assert(clients@.to_set().contains(clients@[i]));
                    assert(clients@.to_set().contains(clients@[j]));
                    assert(rows@[i]@.client == clients@[i]);
                    assert(rows@[j]@.client == clients@[j]);
                }
            }
        }
        rows
    }

    /// Gives up the accounts, each under the id of its client.
    pub fn into_accounts(self) -> (r: HashMap<u16, Account>)
        ensures
            views(r@) == self@,
    {
        self.accounts
    }

    /// Whether a record leaves representable balances.
    pub fn in_range(&self, record: &TransactionRecord) -> (r: bool)
        ensures
            r == step_fits(self@, *record),
    {
        match self.accounts.get(&record.client) {
            Some(account) => account.in_range(record),
            None => {
                let account = Account::new(record.client);
                account.in_range(record)
            },
        }
    }

    /// Applies one record: opens the account of its client where there is
    /// none, then hands the record to that account.
    pub fn apply(&mut self, record: &TransactionRecord) -> (r: Result<(), Error>)
        requires
            step_fits(old(self)@, *record),
        ensures
            (final(self)@, r) == step(old(self)@, *record),
            old(self).wf() ==> final(self).wf(),
    {
        let client = record.client;
        let mut account = match self.accounts.remove(&client) {
            Some(account) => account,
            None => Account::new(client),
        };
        let ghost opened = with_account(old(self)@, client);
        assert(account@ == opened[client]);
        let r = account.apply(record);
        self.accounts.insert(client, account);
        proof {
            let expected = step(old(self)@, *record);
            if r is Ok {
                assert(self@ =~= opened.insert(client, account@));
                assert(r == Ok::<(), Error>(()));
            } else {
                assert(self@ =~= opened);
            }
            assert(self@ == expected.0);
            assert(r == expected.1);
            if old(self).wf() {
                step_keeps_accounts_keyed(old(self)@, *record);
            }
        }
        r
    }

    /// Reads one row of fields and applies it, unless a balance would leave
    /// the representable range.
    pub fn feed(&mut self, fields: &[&[u8]], line_number: u64) -> (r: Option<Result<(), Error>>)
        ensures
            (final(self)@, r) == fed(old(self)@, fields@, line_number),
            old(self).wf() ==> final(self).wf(),
    {
        match parse_record(fields, line_number) {
            Err(error) => Some(Err(error)),
            Ok(record) => if self.in_range(&record) {
                Some(self.apply(&record))
            } else {
                None
            },
        }
    }

    /// Applies the records in order to a processor with no accounts. The
    /// run fails fast: the first record that fails, be it for want of an
    /// amount or because its account refuses it, ends the run with its
    /// failure, and no accounts are handed out.
    pub fn process(records: &Vec<TransactionRecord>) -> (r: Result<TransactionProcessor, Error>)
        requires
            run_fits(Map::<u16, AccountView>::empty(), records@),
        ensures
            match r {
                Ok(processor) => processor.wf() && run(Map::<u16, AccountView>::empty(), records@)
                    == (processor@, Ok::<(), Error>(())),
                Err(error) => run(Map::<u16, AccountView>::empty(), records@).1 == Err::<
                    (),
                    Error,
                >(error),
            },
    {
        let mut processor = TransactionProcessor::new();
        let mut i: usize = 0;
        assert(records@.subrange(0, records@.len() as int) =~= records@);
        while i < records.len()
            invariant
                i <= records@.len(),
                processor.wf(),
                run(Map::<u16, AccountView>::empty(), records@) == run(
                    processor@,
                    records@.subrange(i as int, records@.len() as int),
                ),
                run_fits(processor@, records@.subrange(i as int, records@.len() as int)),
            decreases records@.len() - i,
        {
            let ghost rest = records@.subrange(i as int, records@.len() as int);
            assert(rest.first() == records@[i as int]);
            assert(rest.drop_first() =~= records@.subrange(i + 1, records@.len() as int));
            match processor.apply(&records[i]) {
                Ok(()) => {},
                Err(error) => {
                    return Err(error);
                },
            }
            i += 1;
        }
        Ok(processor)
    }
}

/// Every account is held under the id of its client.
pub open spec fn keyed_by_client(accounts: Map<u16, AccountView>) -> bool {
    forall|client: u16| #[trigger]
        accounts.contains_key(client) ==> accounts[client].client == client
}

/// A record touches the account of its own client and no other: every other
/// client has the account it had, or still none. The client of the record
/// has an account afterwards, whether the record was accepted or not.
pub proof fn accounts_do_not_interact(
    accounts: Map<u16, AccountView>,
    record: TransactionRecord,
    other: u16,
)
    requires
        other != record.client,
    ensures
        step(accounts, record).0.contains_key(record.client),
        step(accounts, record).0.contains_key(other) == accounts.contains_key(other),
        accounts.contains_key(other) ==> step(accounts, record).0[other] == accounts[other],
{
}

/// A record that fails leaves every account that was there as it was.
pub proof fn failed_record_changes_no_account(
    accounts: Map<u16, AccountView>,
    record: TransactionRecord,
    client: u16,
)
    requires
        step(accounts, record).1 is Err,
        accounts.contains_key(client),
    ensures
        step(accounts, record).0[client] == accounts[client],
{
}

/// A record never changes which client an account belongs to, and a new
/// account belongs to the client of the record that opened it.
pub proof fn step_keeps_accounts_keyed(accounts: Map<u16, AccountView>, record: TransactionRecord)
    requires
        keyed_by_client(accounts),
    ensures
        keyed_by_client(step(accounts, record).0),
{
    let after = step(accounts, record).0;
    assert forall|client: u16| #[trigger] after.contains_key(client) implies after[client].client
        == client by {
        if client != record.client {
            assert(accounts.contains_key(client));
        }
    }
}

/// A run keeps every account under the id of its client.
pub proof fn run_keeps_accounts_keyed(
    accounts: Map<u16, AccountView>,
    records: Seq<TransactionRecord>,
)
    requires
        keyed_by_client(accounts),
    ensures
        keyed_by_client(run(accounts, records).0),
    decreases records.len(),
{
    if records.len() > 0 {
        let after = step(accounts, records.first()).0;
        step_keeps_accounts_keyed(accounts, records.first());
        if step(accounts, records.first()).1 is Ok {
            run_keeps_accounts_keyed(after, records.drop_first());
        }
    }
}

/// A run stops at the first record that fails: the failure of a run is the
/// failure of that record, and no later record is looked at.
pub proof fn run_stops_at_first_failure(
    accounts: Map<u16, AccountView>,
    records: Seq<TransactionRecord>,
    more: Seq<TransactionRecord>,
)
    requires
        run(accounts, records).1 is Err,
    ensures
        run(accounts, records + more) == run(accounts, records),
    decreases records.len(),
{
    let all = records + more;
    assert(records.len() > 0);
    assert(all.first() == records.first());
    assert(all.drop_first() =~= records.drop_first() + more);
    if step(accounts, records.first()).1 is Ok {
        run_stops_at_first_failure(step(accounts, records.first()).0, records.drop_first(), more);
    }
}

/// The request that a record makes of the account of its client. A deposit
/// or withdrawal without an amount makes none.
pub open spec fn request_of(record: TransactionRecord) -> Option<Request> {
    let id = record.transaction_id;
    match record.kind {
        TransactionType::Deposit => match record.amount {
            Some(amount) => Some(Request::Deposit { id, amount: amount@ }),
            None => None,
        },
        TransactionType::Withdrawal => match record.amount {
            Some(amount) => Some(Request::Withdraw { id, amount: amount@ }),
            None => None,
        },
        TransactionType::Dispute => Some(Request::Dispute { id }),
        TransactionType::Resolve => Some(Request::Resolve { id }),
        TransactionType::Chargeback => Some(Request::Chargeback { id }),
    }
}

/// The requests that the records make of the account of one client, in the
/// order of the records.
pub open spec fn history_of(records: Seq<TransactionRecord>, client: u16) -> Seq<Request>
    decreases records.len(),
{
    if records.len() == 0 {
        Seq::empty()
    } else if records.last().client == client && request_of(records.last()) is Some {
        history_of(records.drop_last(), client).push(request_of(records.last())->Some_0)
    } else {
        history_of(records.drop_last(), client)
    }
}

/// A record is accepted exactly when it makes a request that the account
/// accepts, and the account is then the one that the request leaves.
pub proof fn outcome_is_the_request_applied(account: AccountView, record: TransactionRecord)
    ensures
        outcome(account, record) is Ok <==> request_of(record) is Some && account.accepts(
            request_of(record)->Some_0,
        ),
        outcome(account, record) is Ok ==> outcome(account, record)->Ok_0 == account.apply(
            request_of(record)->Some_0,
        ),
{
}

/// A run goes record by record: the run of the records is the run of all
/// but the last, and then, unless that failed, the step of the last.
pub proof fn run_ends_with_last_step(
    accounts: Map<u16, AccountView>,
    records: Seq<TransactionRecord>,
)
    requires
        records.len() > 0,
    ensures
        run(accounts, records) == if run(accounts, records.drop_last()).1 is Err {
            run(accounts, records.drop_last())
        } else {
            step(run(accounts, records.drop_last()).0, records.last())
        },
    decreases records.len(),
{
    let earlier = records.drop_last();
    if records.len() == 1 {
        assert(earlier =~= Seq::<TransactionRecord>::empty());
        assert(records.drop_first() =~= Seq::<TransactionRecord>::empty());
        assert(records.first() == records.last());
        let (after, result) = step(accounts, records.first());
        assert(run(after, records.drop_first()) == (after, Ok::<(), Error>(())));
        if result is Ok {
            assert(result == Ok::<(), Error>(()));
        }
    } else {
        assert(earlier.first() == records.first());
        assert(earlier.drop_first() =~= records.drop_first().drop_last());
        assert(records.drop_first().last() == records.last());
        let (after, result) = step(accounts, records.first());
        if result is Ok {
            run_ends_with_last_step(after, records.drop_first());
        }
    }
}

/// Where no record of a run failed, no record of a shorter run of the same
/// records failed either.
pub proof fn shorter_run_succeeds(
    accounts: Map<u16, AccountView>,
    records: Seq<TransactionRecord>,
    n: int,
)
    requires
        run(accounts, records).1 is Ok,
        0 <= n <= records.len(),
    ensures
        run(accounts, records.take(n)).1 is Ok,
    decreases records.len() - n,
{
    if n == records.len() {
        assert(records.take(n) =~= records);
    } else {
        shorter_run_succeeds(accounts, records, n + 1);
        let longer = records.take(n + 1);
        assert(longer.drop_last() =~= records.take(n));
        run_ends_with_last_step(accounts, longer);
    }
}

/// After a run that no record failed, the account of each client is a fresh
/// account to which the requests of that client's records were applied in
/// order; a client without an account has made no request.
pub proof fn accounts_follow_their_histories(records: Seq<TransactionRecord>, client: u16)
    requires
        run(Map::<u16, AccountView>::empty(), records).1 is Ok,
    ensures
        ({
            let accounts = run(Map::<u16, AccountView>::empty(), records).0;
            let history = history_of(records, client);
            &&& accounts.contains_key(client) ==> accounts[client] == AccountView::new(client).run(
                history,
            )
            &&& !accounts.contains_key(client) ==> history.len() == 0
        }),
    decreases records.len(),
{
    if records.len() > 0 {
        let start = Map::<u16, AccountView>::empty();
        let earlier = records.drop_last();
        let last = records.last();
        run_ends_with_last_step(start, records);
        accounts_follow_their_histories(earlier, client);
        let before = run(start, earlier).0;
        let opened = with_account(before, last.client);
        outcome_is_the_request_applied(opened[last.client], last);
        if last.client == client {
            let request = request_of(last)->Some_0;
            let history = history_of(earlier, client);
            assert(history.push(request).drop_last() =~= history);
            assert(history.push(request).last() == request);
            if !before.contains_key(client) {
                assert(AccountView::new(client).run(history) == AccountView::new(client));
            }
        }
    }
}

/// At every point of a run that no record failed, the funds of each account,
/// available and held, are the deposits of its client so far less the
/// withdrawals, less what was charged back. Disputes and resolutions do not
/// change them.
pub proof fn funds_follow_the_records(records: Seq<TransactionRecord>, n: int, client: u16)
    requires
        run(Map::<u16, AccountView>::empty(), records).1 is Ok,
        0 <= n <= records.len(),
        run(Map::<u16, AccountView>::empty(), records.take(n)).0.contains_key(client),
    ensures
        run(Map::<u16, AccountView>::empty(), records.take(n)).0[client].total() == net_deposits(
            history_of(records.take(n), client),
        ) - AccountView::new(client).charged_back(history_of(records.take(n), client)),
{
    shorter_run_succeeds(Map::<u16, AccountView>::empty(), records, n);
    accounts_follow_their_histories(records.take(n), client);
    total_is_net_less_chargebacks(client, history_of(records.take(n), client));
}

/// Whether every record of the client is a deposit or a withdrawal.
pub open spec fn only_moves_funds(records: Seq<TransactionRecord>, client: u16) -> bool {
    forall|i: int|
        0 <= i < records.len() && (#[trigger] records[i]).client == client ==> records[i].kind
            is Deposit || records[i].kind is Withdrawal
}

/// The requests of a client whose records are all deposits and withdrawals
/// are all deposits and withdrawals.
pub proof fn history_only_moves_funds(records: Seq<TransactionRecord>, client: u16)
    requires
        only_moves_funds(records, client),
    ensures
        forall|i: int|
            0 <= i < history_of(records, client).len() ==> (#[trigger] history_of(
                records,
                client,
            )[i]).moves_funds(),
    decreases records.len(),
{
    if records.len() > 0 {
        let earlier = records.drop_last();
        assert forall|i: int| 0 <= i < earlier.len() && (#[trigger] earlier[i]).client
            == client implies earlier[i].kind is Deposit || earlier[i].kind is Withdrawal by {
            assert(records[i].client == client);
        }
        history_only_moves_funds(earlier, client);
        let last = records.last();
        assert(records[records.len() - 1] == last);
        let history = history_of(records, client);
        assert forall|i: int| 0 <= i < history.len() implies (#[trigger] history[i]).moves_funds() by {
            if i < history_of(earlier, client).len() {
                assert(history[i] == history_of(earlier, client)[i]);
            } else {
                assert(last.client == client && request_of(last) is Some);
                assert(history[i] == request_of(last)->Some_0);
            }
        }
    }
}

/// After a run that no record failed, the available funds of a client with
/// no records but deposits and withdrawals are the deposits less the
/// withdrawals, and nothing is held.
pub proof fn undisputed_funds_follow_the_records(records: Seq<TransactionRecord>, client: u16)
    requires
        run(Map::<u16, AccountView>::empty(), records).1 is Ok,
        run(Map::<u16, AccountView>::empty(), records).0.contains_key(client),
        only_moves_funds(records, client),
    ensures
        run(Map::<u16, AccountView>::empty(), records).0[client].available == net_deposits(
            history_of(records, client),
        ),
        run(Map::<u16, AccountView>::empty(), records).0[client].held == 0,
{
    accounts_follow_their_histories(records, client);
    history_only_moves_funds(records, client);
    undisputed_balance(client, history_of(records, client));
}

} // verus!
