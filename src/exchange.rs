use std::collections::HashMap;
use vstd::prelude::*;

use crate::account::{claim_spec, monetary_spec, ClaimState, Client, ClientView};
use crate::error::ProcessTransactionError;
use crate::io::OutputCsvRecord;
use crate::types::{ClaimType, ClientId, RequestType, TransactionRequest};

verus! {

/// The ledger: every client's account, and which client owns each accepted
/// monetary transaction.
pub struct Exchange {
    clients: HashMap<u16, Client>,
    transactions: HashMap<u32, u16>,
}

/// The mathematical state of an [`Exchange`].
pub struct ExchangeView {
    pub clients: Map<u16, ClientView>,
    pub owners: Map<u32, u16>,
}

/// The accounts of a table of clients, as views.
pub open spec fn client_views(m: Map<u16, Client>) -> Map<u16, ClientView> {
    m.map_values(|c: Client| c@)
}

impl View for Exchange {
    type V = ExchangeView;

    closed spec fn view(&self) -> ExchangeView {
        ExchangeView { clients: client_views(self.clients@), owners: self.transactions@ }
    }
}

impl ExchangeView {
    /// A ledger with no account and no transaction.
    pub open spec fn empty() -> ExchangeView {
        ExchangeView { clients: Map::empty(), owners: Map::empty() }
    }

    /// Every account is well formed; a transaction is recorded by an account
    /// exactly when the ownership index names that account's client for it.
    pub open spec fn wf(self) -> bool {
        &&& forall|c: u16| #[trigger] self.clients.contains_key(c) ==> self.clients[c].wf()
        &&& forall|c: u16, t: u32|
            self.clients.contains_key(c) && #[trigger] self.clients[c].transactions.contains_key(t)
                ==> self.owners.contains_key(t) && self.owners[t] == c
        &&& forall|t: u32| #[trigger]
            self.owners.contains_key(t) ==> self.clients.contains_key(self.owners[t])
                && self.clients[self.owners[t]].transactions.contains_key(t)
    }
}

/// The outcome of a request on the ledger.
pub open spec fn apply_spec(e: ExchangeView, request: TransactionRequest) -> Result<
    ExchangeView,
    ProcessTransactionError,
> {
    let cid = request.client.0;
    let tid = request.transaction.0;
    match request.request_type {
        RequestType::Monetary(tx) => {
            if e.owners.contains_key(tid) {
                Err(ProcessTransactionError::DuplicateTransaction)
            } else {
                let c = if e.clients.contains_key(cid) {
                    e.clients[cid]
                } else {
                    ClientView::fresh()
                };
                match monetary_spec(c, tid, tx) {
                    Ok(c2) => Ok(
                        ExchangeView {
                            clients: e.clients.insert(cid, c2),
                            owners: e.owners.insert(tid, cid),
                        },
                    ),
                    Err(err) => Err(err),
                }
            }
        },
        RequestType::Claim(ct) => {
            if !e.owners.contains_key(tid) {
                Err(ProcessTransactionError::TransactionNotFound)
            } else if e.owners[tid] != cid {
                Err(ProcessTransactionError::Unauthorized)
            } else if !e.clients.contains_key(cid) {
                Err(ProcessTransactionError::ClientNotFound)
            } else {
                match claim_spec(e.clients[cid], tid, ct) {
                    Ok(c2) => Ok(ExchangeView { clients: e.clients.insert(cid, c2), owners: e.owners }),
                    Err(err) => Err(err),
                }
            }
        },
    }
}

/// The ledger after a request: the new state, or the old one where the request failed.
pub open spec fn after(e: ExchangeView, request: TransactionRequest) -> ExchangeView {
    match apply_spec(e, request) {
        Ok(e2) => e2,
        Err(_) => e,
    }
}

proof fn lemma_views_replace(m: Map<u16, Client>, k: u16, v: Client)
    ensures
        client_views(m.remove(k).insert(k, v)) == client_views(m).insert(k, v@),
{
    assert(client_views(m.remove(k).insert(k, v)) =~= client_views(m).insert(k, v@));
}

proof fn lemma_views_remove_absent(m: Map<u16, Client>, k: u16)
    requires
        !m.contains_key(k),
    ensures
        m.remove(k) == m,
{
    assert(m.remove(k) =~= m);
}

proof fn lemma_views_restore(m: Map<u16, Client>, k: u16, v: Client)
    requires
        m.contains_key(k),
        v@ == m[k]@,
    ensures
        client_views(m.remove(k).insert(k, v)) == client_views(m),
{
    lemma_views_replace(m, k, v);
    assert(client_views(m).insert(k, v@) =~= client_views(m));
}

/// A request keeps the ledger well formed.
pub proof fn lemma_apply_keeps_wf(e: ExchangeView, request: TransactionRequest)
    requires
        e.wf(),
        request.wf(),
    ensures
        after(e, request).wf(),
{
    let cid = request.client.0;
    let tid = request.transaction.0;
    match apply_spec(e, request) {
        Ok(e2) => {
            match request.request_type {
                RequestType::Monetary(tx) => {
                    let c = if e.clients.contains_key(cid) {
                        e.clients[cid]
                    } else {
                        ClientView::fresh()
                    };
                    assert(c.wf());
                    let c2 = e2.clients[cid];
                    assert(c2.wf());
                    assert forall|c0: u16, t: u32|
                        e2.clients.contains_key(c0) && #[trigger] e2.clients[c0].transactions.contains_key(t)
                            implies e2.owners.contains_key(t) && e2.owners[t] == c0 by {
                        if c0 != cid && t == tid {
                            assert(e.clients[c0].transactions.contains_key(t));
                        }
                    }
                },
                RequestType::Claim(ct) => {
                    let c = e.clients[cid];
                    let c2 = e2.clients[cid];
                    assert(c2.transactions.dom() =~= c.transactions.dom());
                    assert(c2.wf());
                    assert forall|c0: u16, t: u32|
                        e2.clients.contains_key(c0) && #[trigger] e2.clients[c0].transactions.contains_key(t)
                            implies e2.owners.contains_key(t) && e2.owners[t] == c0 by {
                        if c0 == cid {
                            assert(c.transactions.contains_key(t));
                        }
                    }
                },
            }
        },
        Err(_) => {},
    }
}

/// Whether `row` shows the balances of an account of the ledger.
pub open spec fn row_of(e: ExchangeView, row: OutputCsvRecord) -> bool {
    let c = row.client_id.0;
    &&& e.clients.contains_key(c)
    &&& row.available.units() == e.clients[c].available
    &&& row.held.units() == e.clients[c].held
    &&& row.total.units() == e.clients[c].available + e.clients[c].held
    &&& row.locked == e.clients[c].locked
}

/// Whether `request` disputes a deposit of the client that owns it.
pub open spec fn disputes_deposit(e: ExchangeView, request: TransactionRequest) -> bool {
    let tid = request.transaction.0;
    &&& request.request_type == RequestType::Claim(ClaimType::Dispute)
    &&& e.owners.contains_key(tid)
    &&& e.clients.contains_key(e.owners[tid])
    &&& e.clients[e.owners[tid]].transactions[tid].request is Deposit
}

/// Conservation: after any request, the funds of every account (available
/// plus held) are its accepted deposits, less its accepted withdrawals, less
/// the deposits forfeited by a chargeback, plus the withdrawals refunded by
/// one. Where no withdrawal was refunded, they are the deposits less the
/// withdrawals and the forfeited deposits.
pub proof fn lemma_conservation(e: ExchangeView, request: TransactionRequest)
    requires
        e.wf(),
        request.wf(),
    ensures
        forall|c: u16| #[trigger]
            after(e, request).clients.contains_key(c) ==> {
                let a = after(e, request).clients[c];
                &&& a.available + a.held == a.deposited - a.withdrawn - a.forfeited + a.refunded
                &&& a.refunded == 0 ==> a.available + a.held == a.deposited - a.withdrawn
                    - a.forfeited
            },
{
    lemma_apply_keeps_wf(e, request);
}

/// Non-negativity: after any request every held balance is at least zero,
/// and an available balance that was at least zero stays so, unless the
/// request disputes a deposit (a dispute moves the deposit's amount to held
/// without asking whether it is still available).
pub proof fn lemma_non_negativity(e: ExchangeView, request: TransactionRequest)
    requires
        e.wf(),
        request.wf(),
    ensures
        forall|c: u16| #[trigger]
            after(e, request).clients.contains_key(c) ==> after(e, request).clients[c].held >= 0,
        forall|c: u16| #[trigger]
            after(e, request).clients.contains_key(c) && (!e.clients.contains_key(c)
                || e.clients[c].available >= 0) && !disputes_deposit(e, request)
                ==> after(e, request).clients[c].available >= 0,
{
    lemma_apply_keeps_wf(e, request);
}

/// At most one open dispute: a dispute on a transaction that is already
/// disputed fails with `InvalidOperation`, so the ledger stays as it was.
pub proof fn lemma_second_dispute_fails(e: ExchangeView, request: TransactionRequest)
    requires
        e.wf(),
        request.request_type == RequestType::Claim(ClaimType::Dispute),
        e.owners.contains_key(request.transaction.0),
        e.owners[request.transaction.0] == request.client.0,
        !e.clients[request.client.0].locked,
        e.clients[request.client.0].transactions[request.transaction.0].claim == Some(
            ClaimState::Disputed,
        ),
    ensures
        apply_spec(e, request) == Err::<ExchangeView, ProcessTransactionError>(
            ProcessTransactionError::InvalidOperation("Transaction already disputed"),
        ),
        after(e, request) == e,
{
}

/// An accepted transaction id keeps its owner for good: no request removes it
/// from the ownership index or hands it to another client, and a monetary
/// request with that id fails with `DuplicateTransaction`.
pub proof fn lemma_ownership_is_permanent(e: ExchangeView, request: TransactionRequest, t: u32)
    requires
        e.owners.contains_key(t),
    ensures
        after(e, request).owners.contains_key(t),
        after(e, request).owners[t] == e.owners[t],
        request.transaction.0 == t && request.request_type is Monetary ==> apply_spec(e, request)
            == Err::<ExchangeView, ProcessTransactionError>(
            ProcessTransactionError::DuplicateTransaction,
        ),
{
}

/// Lock terminality: a chargeback that succeeds locks its client; a locked
/// client stays locked whatever the request; and every request for it that
/// passes the ledger's own checks (a new transaction id for a monetary
/// request, a transaction of its own for a claim) fails with `ClientLocked`.
pub proof fn lemma_lock_is_terminal(e: ExchangeView, request: TransactionRequest, c: u16)
    requires
        e.wf(),
    ensures
        request.request_type == RequestType::Claim(ClaimType::Chargeback) && apply_spec(
            e,
            request,
        ) is Ok ==> after(e, request).clients[request.client.0].locked,
        e.clients.contains_key(c) && e.clients[c].locked ==> after(e, request).clients[c].locked,
        e.clients.contains_key(c) && e.clients[c].locked && request.client.0 == c && (match request.request_type {
            RequestType::Monetary(_) => !e.owners.contains_key(request.transaction.0),
            RequestType::Claim(_) => e.owners.contains_key(request.transaction.0)
                && e.owners[request.transaction.0] == c,
        }) ==> apply_spec(e, request) == Err::<ExchangeView, ProcessTransactionError>(
            ProcessTransactionError::ClientLocked,
        ),
{
}

impl Exchange {
    pub fn new() -> (r: Exchange)
        ensures
            r@ == ExchangeView::empty(),
            r@.wf(),
    {
        let r = Exchange { clients: HashMap::new(), transactions: HashMap::new() };
        assert(r@.clients =~= Map::empty());
        r
    }

    /// Applies one request. A request that fails changes nothing.
    pub fn process_transaction(&mut self, request: TransactionRequest) -> (r: Result<
        (),
        ProcessTransactionError,
    >)
        requires
            old(self)@.wf(),
            request.wf(),
        ensures
            match apply_spec(old(self)@, request) {
                Ok(v) => r == Ok::<(), ProcessTransactionError>(()) && final(self)@ == v,
                Err(e) => r == Err::<(), ProcessTransactionError>(e) && final(self)@ == old(self)@,
            },
            final(self)@.wf(),
    {
        proof {
            lemma_apply_keeps_wf(self@, request);
        }
        let cid = request.client.0;
        let tid = request.transaction.0;
        match request.request_type {
            RequestType::Monetary(transaction) => {
                if self.transactions.contains_key(&tid) {
                    return Err(ProcessTransactionError::DuplicateTransaction);
                }
                let ghost old_clients = self.clients@;
                let (mut client, existed) = match self.clients.remove(&cid) {
                    Some(c) => (c, true),
                    None => (Client::new(), false),
                };
                let r = client.process_monetary_request(request.transaction, transaction);
                match r {
                    Ok(()) => {
                        self.clients.insert(cid, client);
                        self.transactions.insert(tid, cid);
                        proof {
                            lemma_views_replace(old_clients, cid, client);
                        }
                        Ok(())
                    },
                    Err(e) => {
                        if existed {
                            self.clients.insert(cid, client);
                            proof {
                                lemma_views_restore(old_clients, cid, client);
                            }
                        } else {
                            proof {
                                lemma_views_remove_absent(old_clients, cid);
                            }
                        }
                        Err(e)
                    },
                }
            },
            RequestType::Claim(claim_type) => {
                let owner = match self.transactions.get(&tid) {
                    Some(o) => *o,
                    None => {
                        return Err(ProcessTransactionError::TransactionNotFound);
                    },
                };
                if owner != cid {
                    return Err(ProcessTransactionError::Unauthorized);
                }
                let ghost old_clients = self.clients@;
                let mut client = match self.clients.remove(&cid) {
                    Some(c) => c,
                    None => {
                        proof {
                            lemma_views_remove_absent(old_clients, cid);
                        }
                        return Err(ProcessTransactionError::ClientNotFound);
                    },
                };
                let r = client.process_claim(request.transaction, claim_type);
                self.clients.insert(cid, client);
                proof {
                    lemma_views_replace(old_clients, cid, client);
                    if r.is_err() {
                        lemma_views_restore(old_clients, cid, client);
                    }
                }
                r
            },
        }
    }

    /// The table of accounts, keyed by client id.
    pub fn get_clients(&self) -> (r: &HashMap<u16, Client>)
        ensures
            client_views(r@) == self@.clients,
    {
        &self.clients
    }

    /// The account of a client, if it has one.
    pub fn client(&self, client_id: ClientId) -> (r: Option<&Client>)
        ensures
            match r {
                Some(c) => self@.clients.contains_key(client_id.0) && c@ == self@.clients[client_id.0],
                None => !self@.clients.contains_key(client_id.0),
            },
    {
        self.clients.get(&client_id.0)
    }

    /// The balances of every account, in increasing order of client id.
    pub fn report(&self) -> (r: Vec<OutputCsvRecord>)
        requires
            self@.wf(),
        ensures
            forall|i: int, j: int| 0 <= i < j < r.len() ==> r[i].client_id.0 < r[j].client_id.0,
            forall|i: int| 0 <= i < r.len() ==> #[trigger] row_of(self@, r[i]),
            forall|c: u16| #[trigger]
                self@.clients.contains_key(c) ==> exists|i: int| 0 <= i < r.len() && r[i].client_id.0 == c,
    {
        let mut r: Vec<OutputCsvRecord> = Vec::new();
        let mut k: u32 = 0;
        while k <= 65535
            invariant
                k <= 65536,
                self@.wf(),
                forall|i: int, j: int| 0 <= i < j < r.len() ==> r[i].client_id.0 < r[j].client_id.0,
                forall|i: int| 0 <= i < r.len() ==> r[i].client_id.0 < k,
                forall|i: int| 0 <= i < r.len() ==> #[trigger] row_of(self@, r[i]),
                forall|c: u16| #[trigger]
                    self@.clients.contains_key(c) && c < k ==> exists|i: int|
                        0 <= i < r.len() && r[i].client_id.0 == c,
            decreases 65536 - k,
        {
            let id = ClientId(k as u16);
            match self.clients.get(&id.0) {
                Some(client) => {
                    assert(self@.clients.contains_key(id.0));
                    let row = OutputCsvRecord::from_client(id, client);
                    let ghost before = r@;
                    r.push(row);
                    assert forall|c: u16| #[trigger]
                        self@.clients.contains_key(c) && c < k + 1 implies exists|i: int|
                            0 <= i < r.len() && r[i].client_id.0 == c by {
                        if c < k {
                            let i = choose|i: int| 0 <= i < before.len() && before[i].client_id.0 == c;
                            assert(r[i] == before[i]);
                        } else {
                            assert(r[before.len() as int].client_id.0 == c);
                        }
                    }
                },
                None => {},
            }
            k = k + 1;
        }
        r
    }
}

} // verus!
