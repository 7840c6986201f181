use vstd::prelude::*;

verus! {

/// Why a request was rejected. A rejected request leaves the ledger as it was.
#[derive(Debug, Clone, Copy)]
pub enum ProcessTransactionError {
    ClientLocked,
    InvalidData(&'static str),
    DuplicateTransaction,
    TransactionNotFound,
    Unauthorized,
    ClientNotFound,
    Overflow,
    InsufficientFunds,
    InvalidOperation(&'static str),
}

} // verus!
