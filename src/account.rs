use std::collections::HashMap;
use vstd::prelude::*;

use crate::error::ProcessTransactionError;
use crate::types::{
    representable, ClaimType, MonetaryAmount, MonetaryTransaction, TransactionId, MAX_UNITS,
};

verus! {

/// Where a claim on a transaction stands. No state at all is the rest state:
/// before any dispute and after a resolve.
#[derive(Debug, Clone, Copy, PartialEq, Eq, Structural)]
pub enum ClaimState {
    Disputed,
    Chargebacked,
}

/// What an account keeps of a monetary transaction that it accepted.
#[derive(Debug, Clone, Copy, PartialEq, Eq, Structural)]
pub struct TransactionInformation {
    pub request: MonetaryTransaction,
    pub claim: Option<ClaimState>,
}

/// One client's balances, lock, and the monetary transactions it accepted.
///
/// The ghost counters record, in ten-thousandths, everything that moved money
/// in or out: accepted deposits and withdrawals, deposits forfeited by a
/// chargeback and withdrawals refunded by one.
pub struct Client {
    pub available: MonetaryAmount,
    pub held: MonetaryAmount,
    pub locked: bool,
    pub transactions: HashMap<u32, TransactionInformation>,
    pub deposited: Ghost<int>,
    pub withdrawn: Ghost<int>,
    pub forfeited: Ghost<int>,
    pub refunded: Ghost<int>,
}

/// The mathematical state of a [`Client`].
pub struct ClientView {
    pub available: int,
    pub held: int,
    pub locked: bool,
    pub transactions: Map<u32, TransactionInformation>,
    pub deposited: int,
    pub withdrawn: int,
    pub forfeited: int,
    pub refunded: int,
}

impl View for Client {
    type V = ClientView;

    open spec fn view(&self) -> ClientView {
        ClientView {
            available: self.available.units(),
            held: self.held.units(),
            locked: self.locked,
            transactions: self.transactions@,
            deposited: self.deposited@,
            withdrawn: self.withdrawn@,
            forfeited: self.forfeited@,
            refunded: self.refunded@,
        }
    }
}

/// Whether a held balance can be stored: it is never negative.
pub open spec fn held_representable(v: int) -> bool {
    0 <= v <= MAX_UNITS
}

impl ClientView {
    /// A new account: nothing in it, unlocked.
    pub open spec fn fresh() -> ClientView {
        ClientView {
            available: 0,
            held: 0,
            locked: false,
            transactions: Map::empty(),
            deposited: 0,
            withdrawn: 0,
            forfeited: 0,
            refunded: 0,
        }
    }

    /// Both balances are representable, and the held one is not negative.
    pub open spec fn balances_ok(self) -> bool {
        &&& representable(self.available)
        &&& held_representable(self.held)
    }

    /// Every accepted transaction carries a valid amount.
    pub open spec fn amounts_valid(self) -> bool {
        forall|t: u32| #[trigger]
            self.transactions.contains_key(t) ==> self.transactions[t].request.amount().is_valid_amount()
    }

    /// The funds of the account are what came in, less what went out, less
    /// what was forfeited, plus what was refunded.
    pub open spec fn conserved(self) -> bool {
        self.available + self.held == self.deposited - self.withdrawn - self.forfeited
            + self.refunded
    }

    pub open spec fn wf(self) -> bool {
        &&& self.balances_ok()
        &&& self.amounts_valid()
        &&& self.conserved()
    }
}

/// The outcome of a monetary transaction `tx`, under the id `id`, on an account.
pub open spec fn monetary_spec(c: ClientView, id: u32, tx: MonetaryTransaction) -> Result<
    ClientView,
    ProcessTransactionError,
> {
    let record = TransactionInformation { request: tx, claim: None };
    if c.locked {
        Err(ProcessTransactionError::ClientLocked)
    } else {
        match tx {
            MonetaryTransaction::Deposit(a) => {
                if representable(c.available + a.units()) {
                    Ok(
                        ClientView {
                            available: c.available + a.units(),
                            transactions: c.transactions.insert(id, record),
                            deposited: c.deposited + a.units(),
                            ..c
                        },
                    )
                } else {
                    Err(ProcessTransactionError::Overflow)
                }
            },
            MonetaryTransaction::Withdrawal(a) => {
                if c.available < a.units() {
                    Err(ProcessTransactionError::InsufficientFunds)
                } else if representable(c.available - a.units()) {
                    Ok(
                        ClientView {
                            available: c.available - a.units(),
                            transactions: c.transactions.insert(id, record),
                            withdrawn: c.withdrawn + a.units(),
                            ..c
                        },
                    )
                } else {
                    Err(ProcessTransactionError::Overflow)
                }
            },
        }
    }
}

/// The outcome of a claim of kind `ct` on the transaction `id` of an account.
pub open spec fn claim_spec(c: ClientView, id: u32, ct: ClaimType) -> Result<
    ClientView,
    ProcessTransactionError,
> {
    if c.locked {
        Err(ProcessTransactionError::ClientLocked)
    } else if !c.transactions.contains_key(id) {
        Err(ProcessTransactionError::TransactionNotFound)
    } else {
        let info = c.transactions[id];
        match ct {
            ClaimType::Dispute => {
                let record = TransactionInformation {
                    claim: Some(ClaimState::Disputed),
                    ..info
                };
                if info.claim.is_some() {
                    Err(ProcessTransactionError::InvalidOperation("Transaction already disputed"))
                } else {
                    match info.request {
                        MonetaryTransaction::Deposit(a) => {
                            if held_representable(c.held + a.units()) && representable(
                                c.available - a.units(),
                            ) {
                                Ok(
                                    ClientView {
                                        available: c.available - a.units(),
                                        held: c.held + a.units(),
                                        transactions: c.transactions.insert(id, record),
                                        ..c
                                    },
                                )
                            } else {
                                Err(ProcessTransactionError::Overflow)
                            }
                        },
                        MonetaryTransaction::Withdrawal(_) => Ok(
                            ClientView { transactions: c.transactions.insert(id, record), ..c },
                        ),
                    }
                }
            },
            ClaimType::Resolve => {
                let record = TransactionInformation { claim: None, ..info };
                if info.claim != Some(ClaimState::Disputed) {
                    Err(ProcessTransactionError::InvalidOperation("No dispute to resolve"))
                } else {
                    match info.request {
                        MonetaryTransaction::Deposit(a) => {
                            if held_representable(c.held - a.units()) && representable(
                                c.available + a.units(),
                            ) {
                                Ok(
                                    ClientView {
                                        available: c.available + a.units(),
                                        held: c.held - a.units(),
                                        transactions: c.transactions.insert(id, record),
                                        ..c
                                    },
                                )
                            } else {
                                Err(ProcessTransactionError::Overflow)
                            }
                        },
                        MonetaryTransaction::Withdrawal(_) => Ok(
                            ClientView { transactions: c.transactions.insert(id, record), ..c },
                        ),
                    }
                }
            },
            ClaimType::Chargeback => {
                let record = TransactionInformation {
                    claim: Some(ClaimState::Chargebacked),
                    ..info
                };
                if info.claim != Some(ClaimState::Disputed) {
                    Err(ProcessTransactionError::InvalidOperation("No dispute to chargeback"))
                } else {
                    match info.request {
                        MonetaryTransaction::Deposit(a) => {
                            if held_representable(c.held - a.units()) {
                                Ok(
                                    ClientView {
                                        held: c.held - a.units(),
                                        locked: true,
                                        transactions: c.transactions.insert(id, record),
                                        forfeited: c.forfeited + a.units(),
                                        ..c
                                    },
                                )
                            } else {
                                Err(ProcessTransactionError::Overflow)
                            }
                        },
                        MonetaryTransaction::Withdrawal(a) => {
                            if representable(c.available + a.units()) {
                                Ok(
                                    ClientView {
                                        available: c.available + a.units(),
                                        locked: true,
                                        transactions: c.transactions.insert(id, record),
                                        refunded: c.refunded + a.units(),
                                        ..c
                                    },
                                )
                            } else {
                                Err(ProcessTransactionError::Overflow)
                            }
                        },
                    }
                }
            },
        }
    }
}

impl Client {
    pub fn new() -> (r: Client)
        ensures
            r@ == ClientView::fresh(),
    {
        Client {
            available: MonetaryAmount::zero(),
            held: MonetaryAmount::zero(),
            locked: false,
            transactions: HashMap::new(),
            deposited: Ghost(0),
            withdrawn: Ghost(0),
            forfeited: Ghost(0),
            refunded: Ghost(0),
        }
    }

    /// Accepts a deposit or a withdrawal under `transaction_id`.
    pub fn process_monetary_request(
        &mut self,
        transaction_id: TransactionId,
        transaction: MonetaryTransaction,
    ) -> (r: Result<(), ProcessTransactionError>)
        ensures
            match monetary_spec(old(self)@, transaction_id.0, transaction) {
                Ok(v) => r == Ok::<(), ProcessTransactionError>(()) && final(self)@ == v,
                Err(e) => r == Err::<(), ProcessTransactionError>(e) && final(self)@ == old(self)@,
            },
    {
        if self.locked {
            return Err(ProcessTransactionError::ClientLocked);
        }
        match transaction {
            MonetaryTransaction::Deposit(amount) => {
                match self.available.checked_add(amount) {
                    Some(v) => {
                        self.available = v;
                    },
                    None => {
                        return Err(ProcessTransactionError::Overflow);
                    },
                }
                self.deposited = Ghost(self.deposited@ + amount.units());
            },
            MonetaryTransaction::Withdrawal(amount) => {
                if self.available.0 < amount.0 {
                    return Err(ProcessTransactionError::InsufficientFunds);
                }
                match self.available.checked_sub(amount) {
                    Some(v) => {
                        self.available = v;
                    },
                    None => {
                        return Err(ProcessTransactionError::Overflow);
                    },
                }
                self.withdrawn = Ghost(self.withdrawn@ + amount.units());
            },
        }
        self.transactions.insert(
            transaction_id.0,
            TransactionInformation { request: transaction, claim: None },
        );
        Ok(())
    }

    /// Applies a dispute, a resolve or a chargeback to the transaction
    /// `transaction_id` of this account.
    pub fn process_claim(&mut self, transaction_id: TransactionId, claim_type: ClaimType) -> (r:
        Result<(), ProcessTransactionError>)
        ensures
            match claim_spec(old(self)@, transaction_id.0, claim_type) {
                Ok(v) => r == Ok::<(), ProcessTransactionError>(()) && final(self)@ == v,
                Err(e) => r == Err::<(), ProcessTransactionError>(e) && final(self)@ == old(self)@,
            },
    {
        if self.locked {
            return Err(ProcessTransactionError::ClientLocked);
        }
        let info = match self.transactions.get(&transaction_id.0) {
            Some(i) => *i,
            None => {
                return Err(ProcessTransactionError::TransactionNotFound);
            },
        };
        match claim_type {
            ClaimType::Dispute => {
                if info.claim.is_some() {
                    return Err(ProcessTransactionError::InvalidOperation("Transaction already disputed"));
                }
                match info.request {
                    MonetaryTransaction::Deposit(amount) => {
                        let held = match self.held.checked_add(amount) {
                            Some(h) => h,
                            None => {
                                return Err(ProcessTransactionError::Overflow);
                            },
                        };
                        if held.0 < 0 {
                            return Err(ProcessTransactionError::Overflow);
                        }
                        let available = match self.available.checked_sub(amount) {
                            Some(v) => v,
                            None => {
                                return Err(ProcessTransactionError::Overflow);
                            },
                        };
                        self.held = held;
                        self.available = available;
                    },
                    MonetaryTransaction::Withdrawal(_) => {
                        // The funds already left `available` when the withdrawal was accepted.
                    },
                }
                self.transactions.insert(
                    transaction_id.0,
                    TransactionInformation { request: info.request, claim: Some(ClaimState::Disputed) },
                );
            },
            ClaimType::Resolve => {
                if info.claim != Some(ClaimState::Disputed) {
                    return Err(ProcessTransactionError::InvalidOperation("No dispute to resolve"));
                }
                match info.request {
                    MonetaryTransaction::Deposit(amount) => {
                        let held = match self.held.checked_sub(amount) {
                            Some(h) => h,
                            None => {
                                return Err(ProcessTransactionError::Overflow);
                            },
                        };
                        if held.0 < 0 {
                            return Err(ProcessTransactionError::Overflow);
                        }
                        let available = match self.available.checked_add(amount) {
                            Some(v) => v,
                            None => {
                                return Err(ProcessTransactionError::Overflow);
                            },
                        };
                        self.held = held;
                        self.available = available;
                    },
                    MonetaryTransaction::Withdrawal(_) => {
                        // Nothing was reserved when the withdrawal was disputed.
                    },
                }
                self.transactions.insert(
                    transaction_id.0,
                    TransactionInformation { request: info.request, claim: None },
                );
            },
            ClaimType::Chargeback => {
                if info.claim != Some(ClaimState::Disputed) {
                    return Err(ProcessTransactionError::InvalidOperation("No dispute to chargeback"));
                }
                match info.request {
                    MonetaryTransaction::Deposit(amount) => {
                        // The held funds are forfeited: they leave the account.
                        let held = match self.held.checked_sub(amount) {
                            Some(h) => h,
                            None => {
                                return Err(ProcessTransactionError::Overflow);
                            },
                        };
                        if held.0 < 0 {
                            return Err(ProcessTransactionError::Overflow);
                        }
                        self.held = held;
                        self.forfeited = Ghost(self.forfeited@ + amount.units());
                    },
                    MonetaryTransaction::Withdrawal(amount) => {
                        // The withdrawal is reversed: its funds come back.
                        let available = match self.available.checked_add(amount) {
                            Some(v) => v,
                            None => {
                                return Err(ProcessTransactionError::Overflow);
                            },
                        };
                        self.available = available;
                        self.refunded = Ghost(self.refunded@ + amount.units());
                    },
                }
                self.transactions.insert(
                    transaction_id.0,
                    TransactionInformation { request: info.request, claim: Some(ClaimState::Chargebacked) },
                );
                self.locked = true;
            },
        }
        Ok(())
    }
}

} // verus!
