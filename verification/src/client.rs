//! Per-client account state and the transaction-application state machine.
//!
//! The behaviour of an account is captured by the spec function [`step`]: it
//! says, for any account state and any transaction, what the new state is and
//! which diagnostic (if any) is emitted. The executable [`Client`] type is
//! proved to follow `step` exactly, and the laws of the ledger are proved of
//! `step` itself.

use vstd::prelude::*;

use crate::message::Message;
use crate::transaction::{Amount, ClientId, Tx, TxId, TxState, TxType};

verus! {

/// The mathematical state of one client account: balances as unbounded
/// integers, the lock flag, and the stored deposit/withdrawal history.
#[verifier::ext_equal]
pub ghost struct AccountView {
    pub id: ClientId,
    pub available: int,
    pub held: int,
    pub total: int,
    pub locked: bool,
    pub transactions: Seq<Tx>,
}

/// A freshly created account: all balances zero, unlocked, empty history.
pub open spec fn new_account(id: ClientId) -> AccountView {
    AccountView {
        id,
        available: 0,
        held: 0,
        total: 0,
        locked: false,
        transactions: Seq::empty(),
    }
}

/// Index of the first stored record with the given id, or the history's
/// length if there is none.
pub open spec fn find_tx(txs: Seq<Tx>, id: TxId) -> int
    decreases txs.len(),
{
    if txs.len() == 0 {
        0
    } else if txs.first().tx_id == id {
        0
    } else {
        1 + find_tx(txs.drop_first(), id)
    }
}

/// Whether the history holds a record with the given id.
pub open spec fn has_tx(txs: Seq<Tx>, id: TxId) -> bool {
    find_tx(txs, id) < txs.len()
}

/// The first stored record with the given id; meaningful only under
/// `has_tx(txs, id)`.
pub open spec fn tx_at(txs: Seq<Tx>, id: TxId) -> Tx {
    txs[find_tx(txs, id)]
}

/// `find_tx` points at the first record carrying the given id.
pub proof fn lemma_find_tx(txs: Seq<Tx>, id: TxId)
    ensures
        0 <= find_tx(txs, id) <= txs.len(),
        forall|j: int| 0 <= j < find_tx(txs, id) ==> txs[j].tx_id != id,
        has_tx(txs, id) ==> txs[find_tx(txs, id)].tx_id == id,
    decreases txs.len(),
{
    if txs.len() > 0 && txs.first().tx_id != id {
        lemma_find_tx(txs.drop_first(), id);
        assert forall|j: int| 0 <= j < find_tx(txs, id) implies txs[j].tx_id != id by {
            if j > 0 {
                assert(txs.drop_first()[j - 1] == txs[j]);
            }
        }
    }
}

/// A rejection message as the (empty or singleton) batch it appends to the
/// diagnostics sink.
pub open spec fn opt_seq<T>(m: Option<T>) -> Seq<T> {
    match m {
        Option::Some(x) => seq![x],
        Option::None => Seq::empty(),
    }
}

/// The message, if any, with which a transaction is rejected before its kind
/// is dispatched: a locked account rejects everything, and a deposit or
/// withdrawal whose id is already stored is a duplicate.
pub open spec fn early_rejection(a: AccountView, tx: Tx) -> Option<Message> {
    if a.locked {
        Option::Some(Message::AccountIsLocked(tx.client_id, tx.tx_id, tx.ty))
    } else if (tx.ty == TxType::Deposit || tx.ty == TxType::Withdrawal)
        && has_tx(a.transactions, tx.tx_id) {
        Option::Some(Message::TransactionExist(tx.client_id, tx.tx_id, tx.ty))
    } else {
        Option::None
    }
}

/// A deposit or withdrawal enters the history in the `Active` state.
pub open spec fn stored_record(tx: Tx) -> Tx {
    Tx {
        ty: tx.ty,
        client_id: tx.client_id,
        tx_id: tx.tx_id,
        amount: tx.amount,
        state: TxState::Active,
    }
}

/// The same record with its dispute state moved on.
pub open spec fn with_state(t: Tx, state: TxState) -> Tx {
    Tx { ty: t.ty, client_id: t.client_id, tx_id: t.tx_id, amount: t.amount, state }
}

/// A deposit credits `available` and `total` and is stored.
pub open spec fn apply_deposit(a: AccountView, tx: Tx) -> (AccountView, Option<Message>) {
    (
        AccountView {
            id: a.id,
            available: a.available + tx.amount as int,
            held: a.held,
            total: a.total + tx.amount as int,
            locked: a.locked,
            transactions: a.transactions.push(stored_record(tx)),
        },
        Option::None,
    )
}

/// A withdrawal debits `available` and `total` and is stored, unless it
/// exceeds the available balance; a rejected withdrawal is not stored, so a
/// later dispute of its id finds nothing.
pub open spec fn apply_withdrawal(a: AccountView, tx: Tx) -> (AccountView, Option<Message>) {
    if a.available < tx.amount as int {
        (a, Option::Some(Message::NotEnoughFunds(tx.client_id, tx.tx_id, tx.ty)))
    } else {
        (
            AccountView {
                id: a.id,
                available: a.available - tx.amount as int,
                held: a.held,
                total: a.total - tx.amount as int,
                locked: a.locked,
                transactions: a.transactions.push(stored_record(tx)),
            },
            Option::None,
        )
    }
}

/// A dispute of an active record moves its dispute adjustment from
/// `available` to `held`; `total` is untouched.
pub open spec fn apply_dispute(a: AccountView, tx: Tx) -> (AccountView, Option<Message>) {
    if !has_tx(a.transactions, tx.tx_id) {
        (a, Option::Some(Message::UnknownTransaction(tx.client_id, tx.tx_id)))
    } else {
        let k = find_tx(a.transactions, tx.tx_id);
        let t = a.transactions[k];
        match t.state {
            TxState::Active => (
                AccountView {
                    id: a.id,
                    available: a.available - t.dispute_adjustment(),
                    held: a.held + t.dispute_adjustment(),
                    total: a.total,
                    locked: a.locked,
                    transactions: a.transactions.update(k, with_state(t, TxState::InDispute)),
                },
                Option::None,
            ),
            TxState::InDispute => (
                a,
                Option::Some(Message::AlreadyInDispute(tx.client_id, tx.tx_id, t.ty)),
            ),
            TxState::Disputed => (
                a,
                Option::Some(Message::AlreadyDisputed(tx.client_id, tx.tx_id, t.ty)),
            ),
        }
    }
}

/// Resolving a dispute moves the adjustment back from `held` to `available`
/// and ends the record's lifecycle: it becomes `Disputed`, not `Active`.
pub open spec fn apply_resolve(a: AccountView, tx: Tx) -> (AccountView, Option<Message>) {
    if !has_tx(a.transactions, tx.tx_id) {
        (a, Option::Some(Message::UnknownTransaction(tx.client_id, tx.tx_id)))
    } else {
        let k = find_tx(a.transactions, tx.tx_id);
        let t = a.transactions[k];
        match t.state {
            TxState::Active => (
                a,
                Option::Some(Message::NotInDispute(tx.client_id, tx.tx_id, t.ty)),
            ),
            TxState::InDispute => (
                AccountView {
                    id: a.id,
                    available: a.available + t.dispute_adjustment(),
                    held: a.held - t.dispute_adjustment(),
                    total: a.total,
                    locked: a.locked,
                    transactions: a.transactions.update(k, with_state(t, TxState::Disputed)),
                },
                Option::None,
            ),
            TxState::Disputed => (
                a,
                Option::Some(Message::AlreadyDisputed(tx.client_id, tx.tx_id, t.ty)),
            ),
        }
    }
}

/// A chargeback releases the held adjustment for good, ends the record's
/// lifecycle, and locks the account.
pub open spec fn apply_chargeback(a: AccountView, tx: Tx) -> (AccountView, Option<Message>) {
    if !has_tx(a.transactions, tx.tx_id) {
        (a, Option::Some(Message::UnknownTransaction(tx.client_id, tx.tx_id)))
    } else {
        let k = find_tx(a.transactions, tx.tx_id);
        let t = a.transactions[k];
        match t.state {
            TxState::Active => (
                a,
                Option::Some(Message::NotInDispute(tx.client_id, tx.tx_id, t.ty)),
            ),
            TxState::InDispute => (
                AccountView {
                    id: a.id,
                    available: a.available,
                    held: a.held - t.dispute_adjustment(),
                    total: a.total - t.dispute_adjustment(),
                    locked: true,
                    transactions: a.transactions.update(k, with_state(t, TxState::Disputed)),
                },
                Option::None,
            ),
            TxState::Disputed => (
                a,
                Option::Some(Message::AlreadyDisputed(tx.client_id, tx.tx_id, t.ty)),
            ),
        }
    }
}

/// The complete per-account state machine: what one transaction does to an
/// account, and the diagnostic it emits if it is rejected. Exactly one of
/// the two happens: a rejection leaves the account unchanged, and an
/// acceptance emits no message.
pub open spec fn step(a: AccountView, tx: Tx) -> (AccountView, Option<Message>) {
    match early_rejection(a, tx) {
        Option::Some(m) => (a, Option::Some(m)),
        Option::None => match tx.ty {
            TxType::Deposit => apply_deposit(a, tx),
            TxType::Withdrawal => apply_withdrawal(a, tx),
            TxType::Dispute => apply_dispute(a, tx),
            TxType::Resolve => apply_resolve(a, tx),
            TxType::Chargeback => apply_chargeback(a, tx),
        },
    }
}

/// Whether the balances of a mathematical account state fit the machine
/// integers that `Client` stores them in.
pub open spec fn balances_fit(a: AccountView) -> bool {
    &&& i64::MIN <= a.available <= i64::MAX
    &&& i64::MIN <= a.held <= i64::MAX
    &&& i64::MIN <= a.total <= i64::MAX
}

/// Law: a rejected transaction mutates nothing; an accepted one emits no
/// message. Exactly one of the two happens for every transaction.
pub proof fn lemma_rejection_leaves_account_unchanged(a: AccountView, tx: Tx)
    ensures
        step(a, tx).1 is Some ==> step(a, tx).0 == a,
{
}

/// Law: every transaction preserves `total == available + held`.
pub proof fn lemma_step_preserves_balance_equation(a: AccountView, tx: Tx)
    requires
        a.total == a.available + a.held,
    ensures
        step(a, tx).0.total == step(a, tx).0.available + step(a, tx).0.held,
{
}

/// Law: a locked account rejects every transaction with exactly one
/// `AccountIsLocked` message and no change to any field.
pub proof fn lemma_locked_account_is_frozen(a: AccountView, tx: Tx)
    requires
        a.locked,
    ensures
        step(a, tx).0 == a,
        step(a, tx).1 == Option::Some(Message::AccountIsLocked(tx.client_id, tx.tx_id, tx.ty)),
{
}

/// Law: a deposit id is credited at most once. Replaying a deposit that was
/// just accepted changes no balance and reports a duplicate.
pub proof fn lemma_duplicate_deposit_is_rejected(a: AccountView, tx: Tx)
    requires
        tx.ty == TxType::Deposit,
        step(a, tx).1 is None,
    ensures
        step(step(a, tx).0, tx).0 == step(a, tx).0,
        step(step(a, tx).0, tx).1 == Option::Some(
            Message::TransactionExist(tx.client_id, tx.tx_id, tx.ty),
        ),
{
    let a1 = step(a, tx).0;
    lemma_find_tx(a1.transactions, tx.tx_id);
    assert(a1.transactions.last().tx_id == tx.tx_id);
    assert(has_tx(a1.transactions, tx.tx_id));
}

/// Law: the dispute lifecycle never reopens. Once a resolve has ended a
/// record's dispute, disputing the same id again is rejected as already
/// disputed and the record stays `Disputed`; it never re-enters `InDispute`.
pub proof fn lemma_resolved_record_cannot_be_redisputed(a: AccountView, rtx: Tx, dtx: Tx)
    requires
        !a.locked,
        rtx.ty == TxType::Resolve,
        dtx.ty == TxType::Dispute,
        dtx.tx_id == rtx.tx_id,
        has_tx(a.transactions, rtx.tx_id),
        tx_at(a.transactions, rtx.tx_id).state == TxState::InDispute,
    ensures
        tx_at(step(a, rtx).0.transactions, rtx.tx_id).state == TxState::Disputed,
        step(step(a, rtx).0, dtx).0 == step(a, rtx).0,
        step(step(a, rtx).0, dtx).1 == Option::Some(
            Message::AlreadyDisputed(dtx.client_id, dtx.tx_id, tx_at(a.transactions, rtx.tx_id).ty),
        ),
{
    let txs = a.transactions;
    let k = find_tx(txs, rtx.tx_id);
    lemma_find_tx(txs, rtx.tx_id);
    let a1 = step(a, rtx).0;
    lemma_find_tx(a1.transactions, rtx.tx_id);
    let k1 = find_tx(a1.transactions, rtx.tx_id);
    assert(a1.transactions[k].tx_id == rtx.tx_id);
    if k1 < k {
        assert(txs[k1].tx_id != rtx.tx_id);
        assert(a1.transactions[k1].tx_id == txs[k1].tx_id);
    }
    assert(k1 == k);
}

/// Law, sign symmetry: disputing an active record moves its dispute
/// adjustment from `available` to `held` and leaves `total` alone. For a
/// deposit of amount A the adjustment is +A, so `available` falls by A and
/// `held` rises by A; for a withdrawal of amount A it is -A, so `available`
/// rises by A and `held` falls by A - the deposit case with the signs
/// flipped, since reversing an outgoing payment restores funds.
pub proof fn lemma_dispute_sign_symmetry(a: AccountView, tx: Tx)
    requires
        !a.locked,
        tx.ty == TxType::Dispute,
        has_tx(a.transactions, tx.tx_id),
        tx_at(a.transactions, tx.tx_id).state == TxState::Active,
    ensures
        step(a, tx).1 is None,
        step(a, tx).0.available == a.available - tx_at(a.transactions, tx.tx_id).dispute_adjustment(),
        step(a, tx).0.held == a.held + tx_at(a.transactions, tx.tx_id).dispute_adjustment(),
        step(a, tx).0.total == a.total,
        tx_at(a.transactions, tx.tx_id).ty == TxType::Withdrawal ==> {
            &&& step(a, tx).0.available == a.available + tx_at(a.transactions, tx.tx_id).amount
            &&& step(a, tx).0.held == a.held - tx_at(a.transactions, tx.tx_id).amount
        },
        tx_at(a.transactions, tx.tx_id).ty == TxType::Deposit ==> {
            &&& step(a, tx).0.available == a.available - tx_at(a.transactions, tx.tx_id).amount
            &&& step(a, tx).0.held == a.held + tx_at(a.transactions, tx.tx_id).amount
        },
{
}

/// One client account: balances, lock flag, and the deposit/withdrawal
/// records it must remember to service later disputes.
#[derive(Debug)]
pub struct Client {
    pub id: ClientId,
    pub available: Amount,
    pub held: Amount,
    pub total: Amount,
    pub locked: bool,
    /// This client's own deposit and withdrawal records.
    pub transactions: Vec<Tx>,
}

impl View for Client {
    type V = AccountView;

    open spec fn view(&self) -> AccountView {
        AccountView {
            id: self.id,
            available: self.available as int,
            held: self.held as int,
            total: self.total as int,
            locked: self.locked,
            transactions: self.transactions@,
        }
    }
}

impl PartialEq for Client {
    /// Two accounts are equal when their snapshot fields agree; the history
    /// is bookkeeping and takes no part in the comparison.
    fn eq(&self, other: &Self) -> (r: bool) {
        self.id == other.id && self.available == other.available && self.held == other.held
            && self.total == other.total && self.locked == other.locked
    }
}

impl vstd::std_specs::cmp::PartialEqSpecImpl for Client {
    open spec fn obeys_eq_spec() -> bool {
        true
    }

    open spec fn eq_spec(&self, other: &Self) -> bool {
        self.id == other.id && self.available == other.available && self.held == other.held
            && self.total == other.total && self.locked == other.locked
    }
}

/// Index of the first record with the given id, or `txs.len()` if none.
fn find_tx_index(txs: &Vec<Tx>, id: TxId) -> (i: usize)
    ensures
        i as int == find_tx(txs@, id),
        i <= txs.len(),
        has_tx(txs@, id) == (i < txs.len()),
        i < txs.len() ==> txs@[i as int] == tx_at(txs@, id),
{
    let mut i: usize = 0;
    while i < txs.len()
        invariant
            i <= txs@.len(),
            forall|j: int| 0 <= j < i ==> txs@[j].tx_id != id,
        decreases txs@.len() - i,
    {
        if txs[i].tx_id == id {
            proof {
                lemma_find_tx(txs@, id);
                let k = find_tx(txs@, id);
                if k < i {
                    assert(txs@[k].tx_id != id);
                }
                if k > i {
                    assert(txs@[i as int].tx_id != id);
                }
            }
            return i;
        }
        i += 1;
    }
    proof {
        lemma_find_tx(txs@, id);
        let k = find_tx(txs@, id);
        if k < txs@.len() {
            assert(txs@[k].tx_id != id);
        }
    }
    i
}

impl Client {
    /// A fresh account: zero balances, unlocked, empty history.
    pub fn new(id: ClientId) -> (c: Client)
        ensures
            c@ == new_account(id),
    {
        let c = Client {
            id,
            available: 0,
            held: 0,
            total: 0,
            locked: false,
            transactions: Vec::new(),
        };
        proof {
            assert(c@ =~= new_account(id));
        }
        c
    }

    /// Lock and duplicate checks, applied before a transaction's kind is
    /// dispatched: pushes the rejection message and returns false, or
    /// returns true with nothing emitted.
    fn validate(&self, tx: &Tx, messages: &mut Vec<Message>) -> (r: bool)
        requires
            self.id == tx.client_id,
        ensures
            r == (early_rejection(self@, *tx) is None),
            final(messages)@ == old(messages)@ + opt_seq(early_rejection(self@, *tx)),
    {
        if self.locked {
            messages.push(Message::AccountIsLocked(tx.client_id, tx.tx_id, tx.ty));
            proof {
                assert(messages@ =~= old(messages)@ + opt_seq(early_rejection(self@, *tx)));
            }
            return false;
        }
        let duplicated = (matches!(tx.ty, TxType::Deposit | TxType::Withdrawal))
            && find_tx_index(&self.transactions, tx.tx_id) < self.transactions.len();
        if duplicated {
            messages.push(Message::TransactionExist(tx.client_id, tx.tx_id, tx.ty));
            proof {
                assert(messages@ =~= old(messages)@ + opt_seq(early_rejection(self@, *tx)));
            }
            return false;
        }
        proof {
            assert(messages@ =~= old(messages)@ + opt_seq(early_rejection(self@, *tx)));
        }
        true
    }

    /// Whether applying `tx` to this account keeps every balance within the
    /// machine integers, i.e. whether `process` may be called with it.
    pub fn fits(&self, tx: &Tx) -> (r: bool)
        ensures
            r == balances_fit(step(self@, *tx).0),
    {
        if self.locked {
            return true;
        }
        let k = find_tx_index(&self.transactions, tx.tx_id);
        let found = k < self.transactions.len();
        match tx.ty {
            TxType::Deposit => {
                if found {
                    true
                } else {
                    self.available.checked_add(tx.amount).is_some()
                        && self.total.checked_add(tx.amount).is_some()
                }
            },
            TxType::Withdrawal => {
                if found || self.available < tx.amount {
                    true
                } else {
                    self.available.checked_sub(tx.amount).is_some()
                        && self.total.checked_sub(tx.amount).is_some()
                }
            },
            TxType::Dispute => {
                if !found {
                    true
                } else {
                    let t = self.transactions[k];
                    match t.state {
                        TxState::Active => {
                            if t.ty == TxType::Withdrawal {
                                self.available.checked_add(t.amount).is_some()
                                    && self.held.checked_sub(t.amount).is_some()
                            } else {
                                self.available.checked_sub(t.amount).is_some()
                                    && self.held.checked_add(t.amount).is_some()
                            }
                        },
                        TxState::InDispute => true,
                        TxState::Disputed => true,
                    }
                }
            },
            TxType::Resolve => {
                if !found {
                    true
                } else {
                    let t = self.transactions[k];
                    match t.state {
                        TxState::Active => true,
                        TxState::InDispute => {
                            if t.ty == TxType::Withdrawal {
                                self.available.checked_sub(t.amount).is_some()
                                    && self.held.checked_add(t.amount).is_some()
                            } else {
                                self.available.checked_add(t.amount).is_some()
                                    && self.held.checked_sub(t.amount).is_some()
                            }
                        },
                        TxState::Disputed => true,
                    }
                }
            },
            TxType::Chargeback => {
                if !found {
                    true
                } else {
                    let t = self.transactions[k];
                    match t.state {
                        TxState::Active => true,
                        TxState::InDispute => {
                            if t.ty == TxType::Withdrawal {
                                self.held.checked_add(t.amount).is_some()
                                    && self.total.checked_add(t.amount).is_some()
                            } else {
                                self.held.checked_sub(t.amount).is_some()
                                    && self.total.checked_sub(t.amount).is_some()
                            }
                        },
                        TxState::Disputed => true,
                    }
                }
            },
        }
    }

    /// Apply one transaction to this account, exactly as [`step`] says: on a
    /// rejection the account is unchanged and the message is appended, on an
    /// acceptance the balances and history change and nothing is appended.
    ///
    /// The account must own the transaction, and the balances `step` yields
    /// must fit the machine integers the account stores them in.
    pub fn process(&mut self, tx: &Tx, messages: &mut Vec<Message>)
        requires
            old(self).id == tx.client_id,
            balances_fit(step(old(self)@, *tx).0),
        ensures
            final(self)@ == step(old(self)@, *tx).0,
            final(messages)@ == old(messages)@ + opt_seq(step(old(self)@, *tx).1),
    {
        let ghost pre = self@;
        if !self.validate(tx, messages) {
            proof {
                assert(self@ =~= step(pre, *tx).0);
            }
            return;
        }
        match tx.ty {
            TxType::Deposit => {
                self.available = self.available + tx.amount;
                self.total = self.total + tx.amount;
                self.transactions.push(Tx {
                    ty: tx.ty,
                    client_id: tx.client_id,
                    tx_id: tx.tx_id,
                    amount: tx.amount,
                    state: TxState::Active,
                });
                proof {
                    assert(self@ =~= step(pre, *tx).0);
                    assert(messages@ =~= old(messages)@ + opt_seq(step(pre, *tx).1));
                }
            },
            TxType::Withdrawal => {
                if self.available < tx.amount {
                    messages.push(Message::NotEnoughFunds(tx.client_id, tx.tx_id, tx.ty));
                    proof {
                        assert(self@ =~= step(pre, *tx).0);
                        assert(messages@ =~= old(messages)@ + opt_seq(step(pre, *tx).1));
                    }
                } else {
                    self.available = self.available - tx.amount;
                    self.total = self.total - tx.amount;
                    self.transactions.push(Tx {
                        ty: tx.ty,
                        client_id: tx.client_id,
                        tx_id: tx.tx_id,
                        amount: tx.amount,
                        state: TxState::Active,
                    });
                    proof {
                        assert(self@ =~= step(pre, *tx).0);
                        assert(messages@ =~= old(messages)@ + opt_seq(step(pre, *tx).1));
                    }
                }
            },
            TxType::Dispute => {
                let k = find_tx_index(&self.transactions, tx.tx_id);
                if k == self.transactions.len() {
                    messages.push(Message::UnknownTransaction(tx.client_id, tx.tx_id));
                } else {
                    let t = self.transactions[k];
                    match t.state {
                        TxState::Active => {
                            if t.ty == TxType::Withdrawal {
                                self.available = self.available + t.amount;
                                self.held = self.held - t.amount;
                            } else {
                                self.available = self.available - t.amount;
                                self.held = self.held + t.amount;
                            }
                            self.transactions.set(k, Tx {
                                ty: t.ty,
                                client_id: t.client_id,
                                tx_id: t.tx_id,
                                amount: t.amount,
                                state: TxState::InDispute,
                            });
                        },
                        TxState::InDispute => {
                            messages.push(Message::AlreadyInDispute(tx.client_id, tx.tx_id, t.ty));
                        },
                        TxState::Disputed => {
                            messages.push(Message::AlreadyDisputed(tx.client_id, tx.tx_id, t.ty));
                        },
                    }
                }
                proof {
                    assert(self@ =~= step(pre, *tx).0);
                    assert(messages@ =~= old(messages)@ + opt_seq(step(pre, *tx).1));
                }
            },
            TxType::Resolve => {
                let k = find_tx_index(&self.transactions, tx.tx_id);
                if k == self.transactions.len() {
                    messages.push(Message::UnknownTransaction(tx.client_id, tx.tx_id));
                } else {
                    let t = self.transactions[k];
                    match t.state {
                        TxState::Active => {
                            messages.push(Message::NotInDispute(tx.client_id, tx.tx_id, t.ty));
                        },
                        TxState::InDispute => {
                            if t.ty == TxType::Withdrawal {
                                self.available = self.available - t.amount;
                                self.held = self.held + t.amount;
                            } else {
                                self.available = self.available + t.amount;
                                self.held = self.held - t.amount;
                            }
                            self.transactions.set(k, Tx {
                                ty: t.ty,
                                client_id: t.client_id,
                                tx_id: t.tx_id,
                                amount: t.amount,
                                state: TxState::Disputed,
                            });
                        },
                        TxState::Disputed => {
                            messages.push(Message::AlreadyDisputed(tx.client_id, tx.tx_id, t.ty));
                        },
                    }
                }
                proof {
                    assert(self@ =~= step(pre, *tx).0);
                    assert(messages@ =~= old(messages)@ + opt_seq(step(pre, *tx).1));
                }
            },
            TxType::Chargeback => {
                let k = find_tx_index(&self.transactions, tx.tx_id);
                if k == self.transactions.len() {
                    messages.push(Message::UnknownTransaction(tx.client_id, tx.tx_id));
                } else {
                    let t = self.transactions[k];
                    match t.state {
                        TxState::Active => {
                            messages.push(Message::NotInDispute(tx.client_id, tx.tx_id, t.ty));
                        },
                        TxState::InDispute => {
                            if t.ty == TxType::Withdrawal {
                                self.held = self.held + t.amount;
                                self.total = self.total + t.amount;
                            } else {
                                self.held = self.held - t.amount;
                                self.total = self.total - t.amount;
                            }
                            self.locked = true;
                            self.transactions.set(k, Tx {
                                ty: t.ty,
                                client_id: t.client_id,
                                tx_id: t.tx_id,
                                amount: t.amount,
                                state: TxState::Disputed,
                            });
                        },
                        TxState::Disputed => {
                            messages.push(Message::AlreadyDisputed(tx.client_id, tx.tx_id, t.ty));
                        },
                    }
                }
                proof {
                    assert(self@ =~= step(pre, *tx).0);
                    assert(messages@ =~= old(messages)@ + opt_seq(step(pre, *tx).1));
                }
            },
        }
    }
}

} // verus!
