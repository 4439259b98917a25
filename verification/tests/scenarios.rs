//! Replay scenarios: the end-to-end behavior of accounts and of the
//! dispatching book. Amounts are in minor units at four decimal places:
//! `100_000` units read as `10.0`.

use payx::{
    Amount, ClientAccount, ClientBook, ClientId, Transaction, TransactionError, TransactionId,
    TransactionType,
};

fn record(ty: TransactionType, client: u16, tx: u32) -> Transaction {
    Transaction {
        ty,
        client_id: ClientId::new(client),
        id: TransactionId::new(tx),
    }
}

fn deposit(client: u16, tx: u32, units: u64) -> Transaction {
    record(
        TransactionType::Deposit {
            amount: Amount::new(units),
        },
        client,
        tx,
    )
}

fn withdrawal(client: u16, tx: u32, units: u64) -> Transaction {
    record(
        TransactionType::Withdrawal {
            amount: Amount::new(units),
        },
        client,
        tx,
    )
}

#[test]
fn book_end_to_end_scenario() {
    let mut book = ClientBook::default();
    book.append_tx(deposit(1, 1, 100_000)).unwrap();
    book.append_tx(withdrawal(1, 2, 40_000)).unwrap();
    book.append_tx(record(TransactionType::Dispute, 1, 1)).unwrap();
    book.append_tx(record(TransactionType::Resolve, 1, 1)).unwrap();
    book.append_tx(record(TransactionType::Dispute, 1, 1)).unwrap();
    book.append_tx(record(TransactionType::Chargeback, 1, 1)).unwrap();

    let clients = book.into_clients();
    assert_eq!(clients.len(), 1);
    let account = &clients[0];
    assert_eq!(account.id().value(), 1);
    assert_eq!(account.available(), -40_000);
    assert_eq!(account.held(), 0);
    assert_eq!(account.total(), -40_000);
    assert!(account.locked());
}

#[test]
fn balance_identity_holds_at_every_step() {
    let mut account = ClientAccount::new(ClientId::new(7));
    let steps = [
        deposit(7, 1, 100_000),
        withdrawal(7, 2, 40_000),
        record(TransactionType::Dispute, 7, 1),
        record(TransactionType::Resolve, 7, 1),
        record(TransactionType::Dispute, 7, 1),
        record(TransactionType::Chargeback, 7, 1),
    ];
    assert_eq!(account.total(), account.available() + account.held());
    for tx in steps {
        let _ = account.append_tx(tx);
        assert_eq!(account.total(), account.available() + account.held());
    }
}

#[test]
fn duplicate_deposit_leaves_balances_unchanged() {
    let mut account = ClientAccount::new(ClientId::new(0));
    account.append_tx(deposit(0, 5, 100_000)).unwrap();

    let err = account
        .append_tx(deposit(0, 5, 30_000))
        .expect_err("tx id is a duplicate");
    assert_eq!(err, TransactionError::DuplicateTransactionId);
    assert_eq!(account.available(), 100_000);
    assert_eq!(account.held(), 0);
    assert_eq!(account.log_len(), 1);
}

#[test]
fn locked_account_rejects_every_variant() {
    let mut account = ClientAccount::new(ClientId::new(0));
    account.append_tx(deposit(0, 1, 100_000)).unwrap();
    account
        .append_tx(record(TransactionType::Dispute, 0, 1))
        .unwrap();
    account
        .append_tx(record(TransactionType::Chargeback, 0, 1))
        .unwrap();
    assert!(account.locked());
    assert_eq!(account.available(), 0);
    assert_eq!(account.held(), 0);

    let attempts = [
        deposit(0, 2, 10_000),
        withdrawal(0, 3, 10_000),
        record(TransactionType::Dispute, 0, 1),
        record(TransactionType::Resolve, 0, 1),
        record(TransactionType::Chargeback, 0, 1),
    ];
    for tx in attempts {
        let err = account.append_tx(tx).expect_err("account is locked");
        assert_eq!(err, TransactionError::LockedAccount);
        assert_eq!(account.available(), 0);
        assert_eq!(account.held(), 0);
        assert!(account.locked());
    }
}

#[test]
fn dispute_resolve_round_trip_restores_balances() {
    let mut account = ClientAccount::new(ClientId::new(0));
    account.append_tx(deposit(0, 1, 100_000)).unwrap();
    let available = account.available();
    let held = account.held();

    account
        .append_tx(record(TransactionType::Dispute, 0, 1))
        .unwrap();
    assert_eq!(account.available(), available - 100_000);
    assert_eq!(account.held(), held + 100_000);

    account
        .append_tx(record(TransactionType::Resolve, 0, 1))
        .unwrap();
    assert_eq!(account.available(), available);
    assert_eq!(account.held(), held);
    assert!(!account.locked());
}

#[test]
fn dispute_chargeback_burns_held_and_locks() {
    let mut account = ClientAccount::new(ClientId::new(0));
    account.append_tx(deposit(0, 1, 100_000)).unwrap();
    account.append_tx(deposit(0, 2, 25_000)).unwrap();
    account
        .append_tx(record(TransactionType::Dispute, 0, 1))
        .unwrap();
    let available = account.available();
    let held = account.held();

    account
        .append_tx(record(TransactionType::Chargeback, 0, 1))
        .unwrap();
    assert_eq!(account.available(), available);
    assert_eq!(account.held(), held - 100_000);
    assert!(account.locked());
}

#[test]
fn unknown_reference_is_a_noop_on_append() {
    let mut account = ClientAccount::new(ClientId::new(0));
    account.append_tx(deposit(0, 1, 100_000)).unwrap();

    for ty in [
        TransactionType::Dispute,
        TransactionType::Resolve,
        TransactionType::Chargeback,
    ] {
        account
            .append_tx(record(ty, 0, 99))
            .expect("unknown references are ignored");
        assert_eq!(account.available(), 100_000);
        assert_eq!(account.held(), 0);
        assert!(!account.locked());
        assert_eq!(account.log_len(), 1);
        assert!(account.disputed_ids().is_empty());
    }
}

#[test]
fn insufficient_withdrawal_leaves_balances_at_zero() {
    let mut account = ClientAccount::new(ClientId::new(0));
    let err = account
        .append_tx(withdrawal(0, 1, 100_000))
        .expect_err("withdrawal exceeds available balance");
    assert_eq!(err, TransactionError::NotEnoughBalance);
    assert_eq!(account.available(), 0);
    assert_eq!(account.held(), 0);
    assert_eq!(account.total(), 0);
}

#[test]
fn book_isolates_clients_and_keeps_first_seen_order() {
    let mut book = ClientBook::default();
    book.append_tx(deposit(2, 1, 50_000)).unwrap();
    book.append_tx(deposit(1, 2, 30_000)).unwrap();
    let err = book
        .append_tx(withdrawal(1, 3, 999_999))
        .expect_err("client 1 cannot cover this withdrawal");
    assert_eq!(err, TransactionError::NotEnoughBalance);
    book.append_tx(withdrawal(2, 4, 20_000)).unwrap();

    let clients = book.into_clients();
    assert_eq!(clients.len(), 2);
    assert_eq!(clients[0].id().value(), 2);
    assert_eq!(clients[0].available(), 30_000);
    assert_eq!(clients[1].id().value(), 1);
    assert_eq!(clients[1].available(), 30_000);
}

#[test]
fn book_creates_account_on_first_sight() {
    let mut book = ClientBook::default();
    book.append_tx(record(TransactionType::Dispute, 9, 1))
        .expect("unknown reference on a fresh account is ignored");

    let clients = book.into_clients();
    assert_eq!(clients.len(), 1);
    assert_eq!(clients[0].id().value(), 9);
    assert_eq!(clients[0].available(), 0);
    assert_eq!(clients[0].held(), 0);
    assert!(!clients[0].locked());
}

#[test]
fn deposit_amount_is_the_deposit_variants_amount() {
    let dep = deposit(0, 1, 100_000);
    assert_eq!(dep.deposit_amount(), Some(Amount::new(100_000)));
    let wd = withdrawal(0, 2, 100_000);
    assert_eq!(wd.deposit_amount(), None);
    let dis = record(TransactionType::Dispute, 0, 1);
    assert_eq!(dis.deposit_amount(), None);
}

#[test]
fn identifier_constructors_keep_their_values() {
    assert_eq!(ClientId::new(42).value(), 42);
    assert_eq!(TransactionId::new(7).value(), 7);
    assert_eq!(Amount::new(123_456).units(), 123_456);
    assert_eq!(ClientId::new(1), ClientId::new(1));
    assert_ne!(TransactionId::new(1), TransactionId::new(2));
}
