//! Histories of requests on one account, and what holds of every history.

use crate::account::AccountView;
use vstd::prelude::*;

verus! {

/// A request on an account. Amounts are counted in ten-thousandths.
pub enum Request {
    Deposit { id: u64, amount: int },
    Withdraw { id: u64, amount: int },
    Dispute { id: u64 },
    Resolve { id: u64 },
    Chargeback { id: u64 },
}

impl Request {
    /// Whether the request is a deposit or a withdrawal.
    pub open spec fn moves_funds(self) -> bool {
        self is Deposit || self is Withdraw
    }

    /// The id of the transaction that the request is about.
    pub open spec fn id(self) -> u64 {
        match self {
            Request::Deposit { id, .. } => id,
            Request::Withdraw { id, .. } => id,
            Request::Dispute { id } => id,
            Request::Resolve { id } => id,
            Request::Chargeback { id } => id,
        }
    }

    /// Whether the request is a deposit or a withdrawal under this id.
    pub open spec fn records(self, id: u64) -> bool {
        self.moves_funds() && self.id() == id
    }

    /// What the request adds to the deposits less the withdrawals.
    pub open spec fn net(self) -> int {
        match self {
            Request::Deposit { amount, .. } => amount,
            Request::Withdraw { amount, .. } => -amount,
            _ => 0,
        }
    }
}

impl AccountView {
    /// Whether the account accepts the request. Deposits and withdrawals are
    /// always accepted.
    pub open spec fn accepts(self, request: Request) -> bool {
        match request {
            Request::Deposit { .. } => true,
            Request::Withdraw { .. } => true,
            Request::Dispute { id } => self.disputable.contains_key(id),
            Request::Resolve { id } => self.disputes.contains_key(id),
            Request::Chargeback { id } => self.disputes.contains_key(id),
        }
    }

    /// The account after a request. A refused request changes nothing.
    pub open spec fn apply(self, request: Request) -> AccountView {
        if !self.accepts(request) {
            self
        } else {
            match request {
                Request::Deposit { id, amount } => self.deposit(id, amount),
                Request::Withdraw { id, amount } => self.withdraw(id, amount),
                Request::Dispute { id } => self.dispute(id),
                Request::Resolve { id } => self.resolve(id),
                Request::Chargeback { id } => self.chargeback(id),
            }
        }
    }

    /// What an accepted chargeback takes out of the account; zero for every
    /// other request.
    pub open spec fn charged_back_by(self, request: Request) -> int {
        match request {
            Request::Chargeback { id } => if self.disputes.contains_key(id) {
                self.disputes[id]
            } else {
                0
            },
            _ => 0,
        }
    }

    /// The account after a history of requests, applied in order.
    pub open spec fn run(self, history: Seq<Request>) -> AccountView
        decreases history.len(),
    {
        if history.len() == 0 {
            self
        } else {
            self.run(history.drop_last()).apply(history.last())
        }
    }

    /// The sum of what the accepted chargebacks of a history take out.
    pub open spec fn charged_back(self, history: Seq<Request>) -> int
        decreases history.len(),
    {
        if history.len() == 0 {
            0
        } else {
            self.charged_back(history.drop_last()) + self.run(
                history.drop_last(),
            ).charged_back_by(history.last())
        }
    }
}

/// The deposits of a history less its withdrawals.
pub open spec fn net_deposits(history: Seq<Request>) -> int
    decreases history.len(),
{
    if history.len() == 0 {
        0
    } else {
        net_deposits(history.drop_last()) + history.last().net()
    }
}

/// After deposits and withdrawals alone, the available funds of a fresh
/// account are the deposits less the withdrawals, and nothing is held.
pub proof fn undisputed_balance(client: u16, history: Seq<Request>)
    requires
        forall|i: int| 0 <= i < history.len() ==> (#[trigger] history[i]).moves_funds(),
    ensures
        AccountView::new(client).run(history).available == net_deposits(history),
        AccountView::new(client).run(history).held == 0,
    decreases history.len(),
{
    if history.len() > 0 {
        undisputed_balance(client, history.drop_last());
        assert(history.last().moves_funds());
    }
}

/// After any history, the funds of a fresh account, available and held, are
/// the deposits less the withdrawals less what was charged back. Disputes and
/// resolutions do not change the sum.
pub proof fn total_is_net_less_chargebacks(client: u16, history: Seq<Request>)
    ensures
        AccountView::new(client).run(history).total() == net_deposits(history)
            - AccountView::new(client).charged_back(history),
    decreases history.len(),
{
    if history.len() > 0 {
        total_is_net_less_chargebacks(client, history.drop_last());
    }
}

/// While nothing has been charged back, the funds of a fresh account,
/// available and held, are the deposits less the withdrawals.
pub proof fn total_is_net_deposits(client: u16, history: Seq<Request>)
    requires
        AccountView::new(client).charged_back(history) == 0,
    ensures
        AccountView::new(client).run(history).total() == net_deposits(history),
{
    total_is_net_less_chargebacks(client, history);
}

/// A dispute that is resolved and raised again leaves the account as the
/// first dispute left it.
pub proof fn dispute_again_after_resolve(account: AccountView, id: u64)
    requires
        account.disputable.contains_key(id),
    ensures
        account.dispute(id).disputes.contains_key(id),
        account.dispute(id).resolve(id).disputable.contains_key(id),
        account.dispute(id).resolve(id).dispute(id) == account.dispute(id),
{
    let first = account.dispute(id);
    let again = first.resolve(id).dispute(id);
    assert(again.disputable =~= first.disputable);
    assert(again.disputes =~= first.disputes);
}

/// A dispute and its resolution give back the balances as they were.
pub proof fn resolve_undoes_dispute(account: AccountView, id: u64)
    requires
        account.disputable.contains_key(id),
    ensures
        account.dispute(id).resolve(id).available == account.available,
        account.dispute(id).resolve(id).held == account.held,
        account.dispute(id).resolve(id).disputable == account.disputable,
        account.dispute(id).resolve(id).locked == account.locked,
{
    assert(account.dispute(id).resolve(id).disputable =~= account.disputable);
}

/// A refused request changes nothing, and a request is refused exactly when
/// it is a dispute of a transaction not open to dispute, or a resolution or
/// chargeback of a transaction not under dispute.
pub proof fn refused_request_changes_nothing(account: AccountView, request: Request)
    ensures
        !account.accepts(request) ==> account.apply(request) == account,
        !account.accepts(request) <==> match request {
            Request::Dispute { id } => !account.disputable.contains_key(id),
            Request::Resolve { id } => !account.disputes.contains_key(id),
            Request::Chargeback { id } => !account.disputes.contains_key(id),
            _ => false,
        },
{
}

/// No request unlocks an account.
pub proof fn lock_is_permanent(account: AccountView, history: Seq<Request>)
    requires
        account.locked,
    ensures
        account.run(history).locked,
    decreases history.len(),
{
    if history.len() > 0 {
        lock_is_permanent(account, history.drop_last());
    }
}

/// Requests that record no transaction under `id` leave a transaction that
/// is neither open to dispute nor under dispute in that state.
pub proof fn closed_id_stays_closed(account: AccountView, id: u64, history: Seq<Request>)
    requires
        !account.disputable.contains_key(id),
        !account.disputes.contains_key(id),
        forall|i: int| 0 <= i < history.len() ==> !(#[trigger] history[i]).records(id),
    ensures
        !account.run(history).disputable.contains_key(id),
        !account.run(history).disputes.contains_key(id),
    decreases history.len(),
{
    if history.len() > 0 {
        closed_id_stays_closed(account, id, history.drop_last());
        assert(!history.last().records(id));
    }
}

/// After a chargeback of `id` the account is locked for good, and no
/// dispute, resolution or chargeback of `id` is accepted again, whatever
/// requests follow, as long as none of them records a new transaction under
/// `id`.
pub proof fn chargeback_is_final(account: AccountView, id: u64, history: Seq<Request>)
    requires
        account.disputes.contains_key(id),
        !account.disputable.contains_key(id),
        forall|i: int| 0 <= i < history.len() ==> !(#[trigger] history[i]).records(id),
    ensures
        account.chargeback(id).run(history).locked,
        !account.chargeback(id).run(history).accepts(Request::Dispute { id }),
        !account.chargeback(id).run(history).accepts(Request::Resolve { id }),
        !account.chargeback(id).run(history).accepts(Request::Chargeback { id }),
{
    lock_is_permanent(account.chargeback(id), history);
    closed_id_stays_closed(account.chargeback(id), id, history);
}

/// A request keeps the transactions open to dispute apart from those under
/// dispute, unless it records a transaction under an id that is under
/// dispute.
pub proof fn ids_stay_disjoint(account: AccountView, request: Request)
    requires
        account.ids_disjoint(),
        request.moves_funds() ==> !account.disputes.contains_key(request.id()),
    ensures
        account.apply(request).ids_disjoint(),
{
}

/// Whether no deposit or withdrawal of a history, applied to a fresh account,
/// reuses the id of a transaction that is under dispute at that point.
pub open spec fn reuses_no_disputed_id(client: u16, history: Seq<Request>) -> bool {
    forall|i: int|
        0 <= i < history.len() && (#[trigger] history[i]).moves_funds() ==> !AccountView::new(
            client,
        ).run(history.take(i)).disputes.contains_key(history[i].id())
}

/// In a fresh account built up by requests of which none reuses the id of a
/// transaction under dispute, no transaction is ever both open to dispute
/// and under dispute.
pub proof fn fresh_ids_stay_disjoint(client: u16, history: Seq<Request>)
    requires
        reuses_no_disputed_id(client, history),
    ensures
        AccountView::new(client).run(history).ids_disjoint(),
    decreases history.len(),
{
    if history.len() > 0 {
        let earlier = history.drop_last();
        let last = history.len() - 1;
        assert forall|i: int| 0 <= i < earlier.len() && (#[trigger] earlier[i]).moves_funds() implies
            !AccountView::new(client).run(earlier.take(i)).disputes.contains_key(earlier[i].id()) by {
            assert(earlier.take(i) =~= history.take(i));
            assert(history[i].moves_funds());
        }
        fresh_ids_stay_disjoint(client, earlier);
        assert(history.take(last) =~= earlier);
        assert(history[last] == history.last());
        ids_stay_disjoint(AccountView::new(client).run(earlier), history.last());
    }
}

} // verus!
