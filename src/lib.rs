//! A ledger of client accounts fed by deposits, withdrawals and claims
//! (dispute, resolve, chargeback) on earlier transactions.
//!
//! `types` holds the requests, `account` one client's state machine,
//! `exchange` the ledger that routes requests to accounts, and `io` the rows
//! that come in and go out.
pub mod account;
pub mod error;
pub mod exchange;
pub mod io;
pub mod types;
