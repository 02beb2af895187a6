use ledger::client::Client;
use ledger::message::Message;
use ledger::transaction::{Amount, ClientId, Tx, TxId, TxState, TxType};
use ledger::transaction_engine::TransactionEngine;

fn tx(ty: TxType, client_id: ClientId, tx_id: TxId, amount: Amount) -> Tx {
    Tx { ty, client_id, tx_id, amount, state: TxState::Active }
}

fn tx_deposit(client_id: ClientId, tx_id: TxId, amount: Amount) -> Tx {
    tx(TxType::Deposit, client_id, tx_id, amount)
}

fn tx_withdrawal(client_id: ClientId, tx_id: TxId, amount: Amount) -> Tx {
    tx(TxType::Withdrawal, client_id, tx_id, amount)
}

fn tx_dispute(client_id: ClientId, tx_id: TxId) -> Tx {
    tx(TxType::Dispute, client_id, tx_id, 0)
}

fn tx_resolve(client_id: ClientId, tx_id: TxId) -> Tx {
    tx(TxType::Resolve, client_id, tx_id, 0)
}

fn tx_chargeback(client_id: ClientId, tx_id: TxId) -> Tx {
    tx(TxType::Chargeback, client_id, tx_id, 0)
}

fn client(id: ClientId, available: Amount, held: Amount, total: Amount, locked: bool) -> Client {
    Client { id, available, held, total, locked, transactions: vec![] }
}

fn test_process(transactions: Vec<Tx>, expected_clients: &[Client], expected_messages: &[Message]) {
    let mut te = TransactionEngine::default();
    let mut messages = vec![];

    for tx in transactions {
        te.process(tx, &mut messages);
    }

    assert_eq!(expected_messages, &messages[..], "messages");
    assert_eq!(expected_clients, &te.clients()[..], "clients");
}

#[test]
fn transaction_engine_test_empty() {
    test_process(vec![], &[], &[]);
}

#[test]
fn transaction_engine_test_single_transaction() {
    test_process(
        vec![tx_deposit(1, 1, 5)],
        &[client(1, 5, 0, 5, false)],
        &[],
    );
}

#[test]
fn transaction_engine_test_transaction_same_id_fail() {
    test_process(
        vec![tx_deposit(1, 1, 5), tx_deposit(1, 1, 2)],
        &[client(1, 5, 0, 5, false)],
        &[Message::TransactionExist(1, 1, TxType::Deposit)],
    );
}

#[test]
fn transaction_engine_test_withdrawal_full() {
    test_process(
        vec![tx_deposit(1, 1, 5), tx_withdrawal(1, 2, 5)],
        &[client(1, 0, 0, 0, false)],
        &[],
    );
}

#[test]
fn transaction_engine_test_withdrawal_partial() {
    test_process(
        vec![tx_deposit(1, 1, 5), tx_withdrawal(1, 2, 2)],
        &[client(1, 3, 0, 3, false)],
        &[],
    );
}

#[test]
fn transaction_engine_test_withdrawal_exeeding() {
    test_process(
        vec![tx_deposit(1, 1, 5), tx_withdrawal(1, 2, 7)],
        &[client(1, 5, 0, 5, false)],
        &[Message::NotEnoughFunds(1, 2, TxType::Withdrawal)],
    );
}

#[test]
fn transaction_engine_test_deposit_dispute() {
    test_process(
        vec![tx_deposit(1, 1, 5), tx_dispute(1, 1)],
        &[client(1, 0, 5, 5, false)],
        &[],
    );
}

#[test]
fn transaction_engine_test_deposit_resolve() {
    test_process(
        vec![tx_deposit(1, 1, 5), tx_dispute(1, 1), tx_resolve(1, 1)],
        &[client(1, 5, 0, 5, false)],
        &[],
    );
}

#[test]
fn transaction_engine_test_deposit_chargeback() {
    test_process(
        vec![tx_deposit(1, 1, 5), tx_dispute(1, 1), tx_chargeback(1, 1)],
        &[client(1, 0, 0, 0, true)],
        &[],
    );
}

#[test]
fn transaction_engine_test_withdrawal_dispute() {
    test_process(
        vec![
            tx_deposit(1, 1, 5),
            tx_withdrawal(1, 2, 5),
            tx_dispute(1, 2),
        ],
        &[client(1, 5, -5, 0, false)],
        &[],
    );
}

#[test]
fn transaction_engine_test_withdrawal_resolve() {
    test_process(
        vec![
            tx_deposit(1, 1, 5),
            tx_withdrawal(1, 2, 5),
            tx_dispute(1, 2),
            tx_resolve(1, 2),
        ],
        &[client(1, 0, 0, 0, false)],
        &[],
    );
}

#[test]
fn transaction_engine_test_withdrawal_chargeback() {
    test_process(
        vec![
            tx_deposit(1, 1, 5),
            tx_withdrawal(1, 2, 5),
            tx_dispute(1, 2),
            tx_chargeback(1, 2),
        ],
        &[client(1, 5, 0, 5, true)],
        &[],
    );
}

// A withdrawal is checked against `available` alone: after disputing the
// earlier withdrawal the account holds available=5, held=-5, so a further
// withdrawal of 5 is honoured and `total` goes negative.
#[test]
fn transaction_engine_test_withdrawal_dispute_withdrawal_fail() {
    test_process(
        vec![
            tx_deposit(1, 1, 5),
            tx_withdrawal(1, 2, 5),
            tx_dispute(1, 2),
            tx_withdrawal(1, 3, 5),
        ],
        &[client(1, 0, -5, -5, false)],
        &[],
    );
}
