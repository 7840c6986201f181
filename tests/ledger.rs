use transaction_processor::error::ProcessTransactionError;
use transaction_processor::exchange::Exchange;
use transaction_processor::types::{
    ClaimType, ClientId, MonetaryAmount, MonetaryTransaction, RequestType, TransactionId,
    TransactionRequest,
};

fn deposit(client: u16, tx: u32, units: i128) -> TransactionRequest {
    TransactionRequest {
        client: ClientId(client),
        transaction: TransactionId(tx),
        request_type: RequestType::Monetary(MonetaryTransaction::Deposit(MonetaryAmount(units))),
    }
}

fn withdrawal(client: u16, tx: u32, units: i128) -> TransactionRequest {
    TransactionRequest {
        client: ClientId(client),
        transaction: TransactionId(tx),
        request_type: RequestType::Monetary(MonetaryTransaction::Withdrawal(MonetaryAmount(units))),
    }
}

fn claim(client: u16, tx: u32, kind: ClaimType) -> TransactionRequest {
    TransactionRequest {
        client: ClientId(client),
        transaction: TransactionId(tx),
        request_type: RequestType::Claim(kind),
    }
}

fn balances(e: &Exchange, client: u16) -> (i128, i128, bool) {
    let c = e.client(ClientId(client)).expect("client exists");
    (c.available.0, c.held.0, c.locked)
}

#[test]
fn dispute_may_overdraw_available() {
    let mut e = Exchange::new();
    e.process_transaction(deposit(1, 1, 100000)).unwrap();
    assert_eq!(balances(&e, 1), (100000, 0, false));
    e.process_transaction(withdrawal(1, 2, 30000)).unwrap();
    assert_eq!(balances(&e, 1), (70000, 0, false));
    e.process_transaction(claim(1, 1, ClaimType::Dispute)).unwrap();
    assert_eq!(balances(&e, 1), (-30000, 100000, false));
}

#[test]
fn dispute_then_resolve_restores_funds() {
    let mut e = Exchange::new();
    e.process_transaction(deposit(1, 1, 50000)).unwrap();
    e.process_transaction(claim(1, 1, ClaimType::Dispute)).unwrap();
    assert_eq!(balances(&e, 1), (0, 50000, false));
    e.process_transaction(claim(1, 1, ClaimType::Resolve)).unwrap();
    assert_eq!(balances(&e, 1), (50000, 0, false));
    let again = e.process_transaction(claim(1, 1, ClaimType::Resolve));
    assert!(matches!(again, Err(ProcessTransactionError::InvalidOperation(_))));
    assert_eq!(balances(&e, 1), (50000, 0, false));
}

#[test]
fn deposit_chargeback_forfeits_and_locks() {
    let mut e = Exchange::new();
    e.process_transaction(deposit(1, 1, 50000)).unwrap();
    e.process_transaction(claim(1, 1, ClaimType::Dispute)).unwrap();
    e.process_transaction(claim(1, 1, ClaimType::Chargeback)).unwrap();
    assert_eq!(balances(&e, 1), (0, 0, true));
    assert!(matches!(
        e.process_transaction(deposit(1, 2, 10000)),
        Err(ProcessTransactionError::ClientLocked)
    ));
    assert!(matches!(
        e.process_transaction(withdrawal(1, 3, 0)),
        Err(ProcessTransactionError::ClientLocked)
    ));
    assert!(matches!(
        e.process_transaction(claim(1, 1, ClaimType::Dispute)),
        Err(ProcessTransactionError::ClientLocked)
    ));
    assert_eq!(balances(&e, 1), (0, 0, true));
}

#[test]
fn withdrawal_chargeback_refunds() {
    let mut e = Exchange::new();
    e.process_transaction(deposit(1, 0, 40000)).unwrap();
    e.process_transaction(withdrawal(1, 1, 40000)).unwrap();
    assert_eq!(balances(&e, 1), (0, 0, false));
    e.process_transaction(claim(1, 1, ClaimType::Dispute)).unwrap();
    assert_eq!(balances(&e, 1), (0, 0, false));
    e.process_transaction(claim(1, 1, ClaimType::Chargeback)).unwrap();
    assert_eq!(balances(&e, 1), (40000, 0, true));
}

#[test]
fn claims_on_unknown_or_foreign_transactions_fail() {
    let mut e = Exchange::new();
    assert!(matches!(
        e.process_transaction(claim(1, 5, ClaimType::Dispute)),
        Err(ProcessTransactionError::TransactionNotFound)
    ));
    e.process_transaction(deposit(1, 1, 10000)).unwrap();
    e.process_transaction(deposit(2, 2, 10000)).unwrap();
    assert!(matches!(
        e.process_transaction(claim(2, 1, ClaimType::Dispute)),
        Err(ProcessTransactionError::Unauthorized)
    ));
    assert_eq!(balances(&e, 1), (10000, 0, false));
    assert_eq!(balances(&e, 2), (10000, 0, false));
}

#[test]
fn duplicate_transaction_id_is_rejected() {
    let mut e = Exchange::new();
    e.process_transaction(deposit(1, 7, 20000)).unwrap();
    assert!(matches!(
        e.process_transaction(deposit(2, 7, 30000)),
        Err(ProcessTransactionError::DuplicateTransaction)
    ));
    assert!(matches!(
        e.process_transaction(withdrawal(1, 7, 10000)),
        Err(ProcessTransactionError::DuplicateTransaction)
    ));
    assert_eq!(balances(&e, 1), (20000, 0, false));
    assert!(e.client(ClientId(2)).is_none());
}

#[test]
fn failed_request_leaves_ledger_unchanged() {
    let mut e = Exchange::new();
    e.process_transaction(deposit(1, 1, 10000)).unwrap();
    assert!(matches!(
        e.process_transaction(withdrawal(1, 2, 20000)),
        Err(ProcessTransactionError::InsufficientFunds)
    ));
    assert_eq!(balances(&e, 1), (10000, 0, false));
    assert_eq!(e.client(ClientId(1)).unwrap().transactions.len(), 1);
    // The id of the failed request was not taken.
    e.process_transaction(deposit(1, 2, 5000)).unwrap();
    assert_eq!(balances(&e, 1), (15000, 0, false));
    // A failed first request creates no account.
    assert!(matches!(
        e.process_transaction(withdrawal(3, 3, 1)),
        Err(ProcessTransactionError::InsufficientFunds)
    ));
    assert!(e.client(ClientId(3)).is_none());
    assert_eq!(e.get_clients().len(), 1);
}

#[test]
fn second_dispute_fails_and_keeps_balances() {
    let mut e = Exchange::new();
    e.process_transaction(deposit(1, 1, 30000)).unwrap();
    e.process_transaction(claim(1, 1, ClaimType::Dispute)).unwrap();
    assert!(matches!(
        e.process_transaction(claim(1, 1, ClaimType::Dispute)),
        Err(ProcessTransactionError::InvalidOperation(_))
    ));
    assert_eq!(balances(&e, 1), (0, 30000, false));
}

#[test]
fn conservation_after_mixed_requests() {
    let mut e = Exchange::new();
    e.process_transaction(deposit(4, 1, 90000)).unwrap();
    e.process_transaction(deposit(4, 2, 10000)).unwrap();
    e.process_transaction(withdrawal(4, 3, 25000)).unwrap();
    e.process_transaction(claim(4, 2, ClaimType::Dispute)).unwrap();
    e.process_transaction(claim(4, 3, ClaimType::Dispute)).unwrap();
    let (a, h, _) = balances(&e, 4);
    assert_eq!(a + h, 90000 + 10000 - 25000);
    e.process_transaction(claim(4, 2, ClaimType::Chargeback)).unwrap();
    let (a, h, locked) = balances(&e, 4);
    assert_eq!(a + h, 90000 + 10000 - 25000 - 10000);
    assert!(locked);
    assert!(h >= 0);
}

#[test]
fn report_lists_clients_in_order() {
    let mut e = Exchange::new();
    e.process_transaction(deposit(9, 1, 15000)).unwrap();
    e.process_transaction(deposit(2, 2, 20000)).unwrap();
    e.process_transaction(deposit(65535, 3, 1)).unwrap();
    e.process_transaction(deposit(0, 4, 7)).unwrap();
    e.process_transaction(claim(9, 1, ClaimType::Dispute)).unwrap();
    let rows = e.report();
    let ids: Vec<u16> = rows.iter().map(|r| r.client_id.0).collect();
    assert_eq!(ids, vec![0, 2, 9, 65535]);
    assert_eq!(rows[2].available, MonetaryAmount(0));
    assert_eq!(rows[2].held, MonetaryAmount(15000));
    assert_eq!(rows[2].total, MonetaryAmount(15000));
    assert!(!rows[2].locked);
}

#[test]
fn report_of_empty_ledger_is_empty() {
    let e = Exchange::new();
    assert!(e.report().is_empty());
}
