//! Tests of the effect engine and the account state machine. Amounts are in
//! minor units at four decimal places: `100_000` units read as `10.0`.

use payx::{
    Amount, ClientAccount, ClientId, DisputeAction, Transaction, TransactionError, TransactionId,
    TransactionType, TxDiff,
};

fn client(tys: &[TransactionType]) -> ClientAccount {
    let mut client = ClientAccount::new(ClientId::new(0));
    for ty in tys {
        let t = tx(&client, *ty);
        client.append_tx(t).expect("valid transactions");
    }
    client
}

fn tx(client: &ClientAccount, ty: TransactionType) -> Transaction {
    Transaction {
        ty,
        client_id: client.id(),
        id: TransactionId::new(client.log_len() as u32),
    }
}

fn deposit(client: &mut ClientAccount, amount: Amount) -> TransactionId {
    let t = tx(client, TransactionType::Deposit { amount });
    client
        .append_tx(t)
        .expect("deposit must never fail unless account is locked");
    t.id
}

/// Opens a dispute of the given logged deposit through the public interface.
fn open_dispute(client: &mut ClientAccount, deposit_id: TransactionId) {
    let mut dispute = tx(client, TransactionType::Dispute);
    dispute.id = deposit_id;
    client.append_tx(dispute).expect("dispute is valid");
}

#[test]
fn deposit_diff_only_alters_available() {
    let client = client(&[]);
    let amount = Amount::new(100_000);
    let tx = tx(&client, TransactionType::Deposit { amount });

    let diff = TxDiff::calculate(&client, &tx).expect("deposit diff never fails");
    let expected = TxDiff {
        available: 100_000,
        ..Default::default()
    };

    assert_eq!(diff, expected);
}

#[test]
fn withdrawal_checks_free_balance() {
    let id = ClientId::new(0);
    let mut client = ClientAccount::new(id);

    let amount = Amount::new(100_000);
    let tx = tx(&client, TransactionType::Withdrawal { amount });

    let err = TxDiff::calculate(&client, &tx)
        .expect_err("withdrawal fails if not enough balance is available");
    assert_eq!(err, TransactionError::NotEnoughBalance);

    deposit(&mut client, amount);

    let diff =
        TxDiff::calculate(&client, &tx).expect("withdrawal must succeed if balance is available");

    let expected = TxDiff {
        available: -100_000,
        ..Default::default()
    };

    assert_eq!(diff, expected);
}

const DISPUTE_RELATED_VARIANTS: [TransactionType; 3] = [
    TransactionType::Dispute,
    TransactionType::Resolve,
    TransactionType::Chargeback,
];

#[test]
fn dispute_related_is_ignored_for_unknown_tx() {
    let client = client(&[]);

    for ty in DISPUTE_RELATED_VARIANTS {
        let dispute = tx(&client, ty);
        let diff = TxDiff::calculate(&client, &dispute).expect("dispute is valid");
        assert_eq!(diff, TxDiff::default(), "{ty:?} refers to unknown tx");
    }
}

#[test]
fn dispute_related_is_ignored_for_unsupported_tx() {
    let amount = Amount::new(100_000);
    let client = client(&[
        TransactionType::Deposit { amount },
        TransactionType::Withdrawal { amount },
    ]);

    for ty in DISPUTE_RELATED_VARIANTS {
        let mut dispute = tx(&client, ty);
        // The last logged transaction is the withdrawal.
        dispute.id = TransactionId::new(1);

        let diff = TxDiff::calculate(&client, &dispute).expect("dispute is valid");
        assert_eq!(diff, TxDiff::default(), "{ty:?} refers to unsupported tx");
    }
}

#[test]
fn is_ignored_for_already_disputed_txs() {
    let amount = Amount::new(100_000);
    let mut client = client(&[]);

    let deposit_id = deposit(&mut client, amount);
    open_dispute(&mut client, deposit_id);

    let mut dispute = tx(&client, TransactionType::Dispute);
    dispute.id = deposit_id;

    let diff = TxDiff::calculate(&client, &dispute).expect("dispute is valid");
    assert_eq!(
        diff,
        TxDiff::default(),
        "dispute refers to already disputed tx"
    );
}

#[test]
fn holds_disputed_balance() {
    let amount = Amount::new(100_000);
    let client = client(&[TransactionType::Deposit { amount }]);

    let mut dispute = tx(&client, TransactionType::Dispute);
    dispute.id = TransactionId::new(0);

    let diff = TxDiff::calculate(&client, &dispute).expect("dispute is valid");
    let expected = TxDiff {
        available: -100_000,
        held: 100_000,
        dispute: Some(DisputeAction::Start(dispute.id)),
        ..Default::default()
    };

    assert_eq!(diff, expected, "dispute not holding balance");
}

#[test]
fn is_ignored_for_undisputed_txs() {
    let amount = Amount::new(100_000);
    let mut client = client(&[]);
    let deposit_id = deposit(&mut client, amount);

    let mut resolve = tx(&client, TransactionType::Resolve);
    resolve.id = deposit_id;

    let diff = TxDiff::calculate(&client, &resolve).expect("resolve is valid");
    assert_eq!(diff, TxDiff::default(), "resolve refers to undisputed tx");
}

#[test]
fn frees_disputed_balance() {
    let amount = Amount::new(100_000);
    let mut client = client(&[]);

    let deposit_id = deposit(&mut client, amount);
    open_dispute(&mut client, deposit_id);

    let mut resolve = tx(&client, TransactionType::Resolve);
    resolve.id = deposit_id;

    let diff = TxDiff::calculate(&client, &resolve).expect("resolve is valid");
    let expected = TxDiff {
        available: 100_000,
        held: -100_000,
        dispute: Some(DisputeAction::End(resolve.id)),
        ..Default::default()
    };

    assert_eq!(diff, expected, "resolve not freeing balance");
}

#[test]
fn client_is_ignored_for_undisputed_txs() {
    let amount = Amount::new(100_000);
    let mut client = client(&[]);
    let deposit_id = deposit(&mut client, amount);

    let mut chargeback = tx(&client, TransactionType::Chargeback);
    chargeback.id = deposit_id;

    let diff = TxDiff::calculate(&client, &chargeback).expect("chargeback is valid");
    assert_eq!(
        diff,
        TxDiff::default(),
        "chargeback refers to undisputed tx"
    );
}

#[test]
fn burns_disputed_balance() {
    let amount = Amount::new(100_000);
    let mut client = client(&[]);

    let deposit_id = deposit(&mut client, amount);
    open_dispute(&mut client, deposit_id);

    let mut chargeback = tx(&client, TransactionType::Chargeback);
    chargeback.id = deposit_id;

    let diff = TxDiff::calculate(&client, &chargeback).expect("chargeback is valid");
    let expected = TxDiff {
        held: -100_000,
        lock: Some(true),
        dispute: Some(DisputeAction::End(chargeback.id)),
        ..Default::default()
    };

    assert_eq!(diff, expected, "resolve not burning balance");
}

#[test]
fn append_fails_for_locked_accounts() {
    let mut client = client(&[]);
    // Lock the account through the public interface: a chargeback of a
    // disputed deposit is the one path to the locked state.
    let deposit_id = deposit(&mut client, Amount::new(100_000));
    open_dispute(&mut client, deposit_id);
    let mut chargeback = tx(&client, TransactionType::Chargeback);
    chargeback.id = deposit_id;
    client.append_tx(chargeback).expect("chargeback is valid");
    assert!(client.locked());

    let err = client
        .append_tx(tx(
            &client,
            TransactionType::Deposit {
                amount: Amount::new(100_000),
            },
        ))
        .expect_err("account is locked");
    assert_eq!(err, TransactionError::LockedAccount);
}

#[test]
fn append_fails_for_duplicate_tx_ids() {
    let mut client = client(&[]);
    let deposit_id = deposit(&mut client, Amount::new(100_000));

    let mut tx = tx(
        &client,
        TransactionType::Deposit {
            amount: Amount::new(100_000),
        },
    );
    tx.id = deposit_id;

    let err = client.append_tx(tx).expect_err("tx id is a duplicate");
    assert_eq!(err, TransactionError::DuplicateTransactionId);
}

#[test]
fn append_updated_client_state_after_multiple_disputes() {
    let mut client = client(&[]);

    client
        .append_tx(tx(
            &client,
            TransactionType::Deposit {
                amount: Amount::new(100_000),
            },
        ))
        .unwrap();
    assert_eq!(client.available(), 100_000);
    assert_eq!(client.held(), 0);
    assert_eq!(client.total(), 100_000);
    assert!(!client.locked());
    assert_eq!(client.log_len(), 1);

    client
        .append_tx(tx(
            &client,
            TransactionType::Withdrawal {
                amount: Amount::new(40_000),
            },
        ))
        .unwrap();
    assert_eq!(client.available(), 60_000);
    assert_eq!(client.held(), 0);
    assert_eq!(client.total(), 60_000);
    assert!(!client.locked());
    assert_eq!(client.log_len(), 2);

    let mut dispute = tx(&client, TransactionType::Dispute);
    dispute.id = TransactionId::new(0);
    client.append_tx(dispute).unwrap();
    assert_eq!(client.available(), -40_000);
    assert_eq!(client.held(), 100_000);
    assert_eq!(client.total(), 60_000);
    assert!(!client.locked());
    assert_eq!(client.disputed_ids(), vec![dispute.id]);

    let mut resolve = tx(&client, TransactionType::Resolve);
    resolve.id = TransactionId::new(0);
    client.append_tx(resolve).unwrap();
    assert_eq!(client.available(), 60_000);
    assert_eq!(client.held(), 0);
    assert_eq!(client.total(), 60_000);
    assert!(!client.locked());
    assert!(client.disputed_ids().is_empty());

    let mut dispute = tx(&client, TransactionType::Dispute);
    dispute.id = TransactionId::new(0);
    client.append_tx(dispute).unwrap();
    let mut chargeback = tx(&client, TransactionType::Chargeback);
    chargeback.id = TransactionId::new(0);
    client.append_tx(chargeback).unwrap();
    assert_eq!(client.available(), -40_000);
    assert_eq!(client.held(), 0);
    assert_eq!(client.total(), -40_000);
    assert!(client.locked());
    assert!(client.disputed_ids().is_empty());
}
