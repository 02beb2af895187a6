//! The ledger engine: routes each transaction to the account that owns it,
//! creating the account on first reference.
//!
//! The spec function [`engine_step`] says what routing one transaction does
//! to the whole set of accounts, and [`run`] folds it over a batch. Accounts
//! are kept in order of first appearance, one per client id.

use vstd::prelude::*;

use crate::client::{
    balances_fit, new_account, opt_seq, step, AccountView, Client,
};
use crate::message::Message;
use crate::transaction::{ClientId, Tx};

verus! {

/// The mathematical content of a list of accounts.
pub open spec fn views(clients: Seq<Client>) -> Seq<AccountView> {
    clients.map_values(|c: Client| c@)
}

/// Index of the first account owned by `id`, or the number of accounts if
/// none is.
pub open spec fn find_client(accounts: Seq<AccountView>, id: ClientId) -> int
    decreases accounts.len(),
{
    if accounts.len() == 0 {
        0
    } else if accounts.first().id == id {
        0
    } else {
        1 + find_client(accounts.drop_first(), id)
    }
}

/// Whether some account is owned by `id`.
pub open spec fn has_client(accounts: Seq<AccountView>, id: ClientId) -> bool {
    find_client(accounts, id) < accounts.len()
}

/// `find_client` points at the first account owned by the given id.
pub proof fn lemma_find_client(accounts: Seq<AccountView>, id: ClientId)
    ensures
        0 <= find_client(accounts, id) <= accounts.len(),
        forall|j: int| 0 <= j < find_client(accounts, id) ==> accounts[j].id != id,
        has_client(accounts, id) ==> accounts[find_client(accounts, id)].id == id,
    decreases accounts.len(),
{
    if accounts.len() > 0 && accounts.first().id != id {
        lemma_find_client(accounts.drop_first(), id);
        assert forall|j: int| 0 <= j < find_client(accounts, id) implies accounts[j].id != id by {
            if j > 0 {
                assert(accounts.drop_first()[j - 1] == accounts[j]);
            }
        }
    }
}

/// The accounts after routing one transaction, with the account the
/// transaction belongs to created if it did not exist yet.
pub open spec fn routed_accounts(accounts: Seq<AccountView>, tx: Tx) -> Seq<AccountView> {
    if has_client(accounts, tx.client_id) {
        accounts
    } else {
        accounts.push(new_account(tx.client_id))
    }
}

/// What routing one transaction does to the whole set of accounts, and the
/// diagnostic it emits if the owning account rejects it.
pub open spec fn engine_step(accounts: Seq<AccountView>, tx: Tx) -> (
    Seq<AccountView>,
    Option<Message>,
) {
    let all = routed_accounts(accounts, tx);
    let k = find_client(all, tx.client_id);
    let r = step(all[k], tx);
    (all.update(k, r.0), r.1)
}

/// Whether the balances that routing one transaction yields fit the machine
/// integers that accounts store them in.
pub open spec fn engine_step_fits(accounts: Seq<AccountView>, tx: Tx) -> bool {
    let all = routed_accounts(accounts, tx);
    balances_fit(step(all[find_client(all, tx.client_id)], tx).0)
}

/// The accounts and diagnostics after replaying a whole batch in order.
pub open spec fn run(accounts: Seq<AccountView>, txs: Seq<Tx>) -> (
    Seq<AccountView>,
    Seq<Message>,
)
    decreases txs.len(),
{
    if txs.len() == 0 {
        (accounts, Seq::empty())
    } else {
        let first = engine_step(accounts, txs.first());
        let rest = run(first.0, txs.drop_first());
        (rest.0, opt_seq(first.1) + rest.1)
    }
}

/// Whether every intermediate state of a replay keeps its balances within
/// the machine integers.
pub open spec fn run_fits(accounts: Seq<AccountView>, txs: Seq<Tx>) -> bool
    decreases txs.len(),
{
    txs.len() == 0 || {
        &&& engine_step_fits(accounts, txs.first())
        &&& run_fits(engine_step(accounts, txs.first()).0, txs.drop_first())
    }
}

/// Every account satisfies `total == available + held`.
pub open spec fn all_balanced(accounts: Seq<AccountView>) -> bool {
    forall|i: int|
        0 <= i < accounts.len() ==> accounts[i].total == accounts[i].available + accounts[i].held
}

/// Law: routing one transaction keeps every account balanced.
pub proof fn lemma_engine_step_preserves_balance_equation(accounts: Seq<AccountView>, tx: Tx)
    requires
        all_balanced(accounts),
    ensures
        all_balanced(engine_step(accounts, tx).0),
{
    let all = routed_accounts(accounts, tx);
    let k = find_client(all, tx.client_id);
    lemma_find_client(all, tx.client_id);
    assert forall|i: int| 0 <= i < all.len() implies all[i].total == all[i].available
        + all[i].held by {
        if i < accounts.len() {
            assert(all[i] == accounts[i]);
            assert(accounts[i].total == accounts[i].available + accounts[i].held);
        } else {
            assert(all[i] == new_account(tx.client_id));
        }
    }
    if k == all.len() {
        assert(all[all.len() - 1].id != tx.client_id);
        assert(!has_client(accounts, tx.client_id));
        assert(all.last() == new_account(tx.client_id));
        assert(false);
    }
    crate::client::lemma_step_preserves_balance_equation(all[k], tx);
    let result = engine_step(accounts, tx).0;
    assert forall|i: int| 0 <= i < result.len() implies result[i].total == result[i].available
        + result[i].held by {
        if i != k {
            assert(result[i] == all[i]);
            assert(all[i].total == all[i].available + all[i].held);
        }
    }
}

/// Law: replaying any batch from balanced accounts keeps every account
/// balanced; since every prefix is itself a replay, the equation holds at
/// every point in time.
pub proof fn lemma_run_preserves_balance_equation(accounts: Seq<AccountView>, txs: Seq<Tx>)
    requires
        all_balanced(accounts),
    ensures
        all_balanced(run(accounts, txs).0),
    decreases txs.len(),
{
    if txs.len() > 0 {
        lemma_engine_step_preserves_balance_equation(accounts, txs.first());
        lemma_run_preserves_balance_equation(
            engine_step(accounts, txs.first()).0,
            txs.drop_first(),
        );
    }
}

/// After routing, the transaction's owner exists; if it had to be created it
/// sits, freshly made, at the end of the list.
proof fn lemma_routed(accounts: Seq<AccountView>, tx: Tx)
    ensures
        has_client(routed_accounts(accounts, tx), tx.client_id),
        has_client(accounts, tx.client_id) ==> routed_accounts(accounts, tx) == accounts,
        !has_client(accounts, tx.client_id) ==> {
            &&& find_client(routed_accounts(accounts, tx), tx.client_id) == accounts.len()
            &&& routed_accounts(accounts, tx)[accounts.len() as int] == new_account(tx.client_id)
        },
{
    let all = routed_accounts(accounts, tx);
    let k = find_client(all, tx.client_id);
    lemma_find_client(all, tx.client_id);
    if !has_client(accounts, tx.client_id) {
        lemma_find_client(accounts, tx.client_id);
        assert(all[accounts.len() as int].id == tx.client_id);
        if k < accounts.len() {
            assert(accounts[k].id != tx.client_id);
            assert(all[k] == accounts[k]);
        }
        if k == all.len() {
            assert(all[accounts.len() as int].id != tx.client_id);
        }
    }
}

/// Mapping to views commutes with appending one account.
proof fn lemma_views_push(s: Seq<Client>, c: Client)
    ensures
        views(s.push(c)) =~= views(s).push(c@),
{
    assert forall|j: int| 0 <= j < s.len() + 1 implies views(s.push(c))[j] == views(s).push(
        c@,
    )[j] by {
        if j < s.len() {
            assert(s.push(c)[j] == s[j]);
        }
    }
}

/// Taking one account out and putting another back in its place updates the
/// views at that index alone.
proof fn lemma_views_replace(s: Seq<Client>, k: int, c: Client)
    requires
        0 <= k < s.len(),
    ensures
        views(s.remove(k).insert(k, c)) =~= views(s).update(k, c@),
{
    let t = s.remove(k).insert(k, c);
    assert forall|j: int| 0 <= j < t.len() implies views(t)[j] == views(s).update(k, c@)[j] by {
        if j < k {
            assert(t[j] == s.remove(k)[j]);
            assert(s.remove(k)[j] == s[j]);
        } else if j == k {
            assert(t[j] == c);
        } else {
            assert(t[j] == s.remove(k)[j - 1]);
            assert(s.remove(k)[j - 1] == s[j]);
        }
    }
}

/// Index of the first account owned by `id`, or the number of accounts.
fn find_client_index(clients: &Vec<Client>, id: ClientId) -> (i: usize)
    ensures
        i as int == find_client(views(clients@), id),
        i <= clients.len(),
        has_client(views(clients@), id) == (i < clients.len()),
        i < clients.len() ==> clients@[i as int].id == id,
{
    let ghost vs = views(clients@);
    let mut i: usize = 0;
    while i < clients.len()
        invariant
            i <= clients@.len(),
            vs == views(clients@),
            vs.len() == clients@.len(),
            forall|j: int| 0 <= j < i ==> vs[j].id != id,
        decreases clients@.len() - i,
    {
        proof {
            assert(vs[i as int] == clients@[i as int]@);
        }
        if clients[i].id == id {
            proof {
                lemma_find_client(vs, id);
                let k = find_client(vs, id);
                if k < i {
                    assert(vs[k].id != id);
                }
                if k > i {
                    assert(vs[i as int].id != id);
                }
            }
            return i;
        }
        i += 1;
    }
    proof {
        lemma_find_client(vs, id);
        let k = find_client(vs, id);
        if k < vs.len() {
            assert(vs[k].id != id);
        }
    }
    i
}

/// Look up or create the account that owns `tx`, and apply `tx` to it.
pub(crate) fn route(clients: &mut Vec<Client>, tx: &Tx, messages: &mut Vec<Message>)
    requires
        engine_step_fits(views(old(clients)@), *tx),
    ensures
        views(final(clients)@) == engine_step(views(old(clients)@), *tx).0,
        final(messages)@ == old(messages)@ + opt_seq(engine_step(views(old(clients)@), *tx).1),
{
    let ghost pre = views(old(clients)@);
    let ghost all = routed_accounts(pre, *tx);
    let k = find_client_index(clients, tx.client_id);
    if k == clients.len() {
        let fresh = Client::new(tx.client_id);
        clients.push(fresh);
        proof {
            lemma_views_push(old(clients)@, fresh);
            lemma_routed(pre, *tx);
            assert(views(clients@) == all);
            assert(clients@[k as int]@ == all[find_client(all, tx.client_id)]);
        }
    } else {
        proof {
            assert(views(clients@) == all);
            assert(clients@[k as int]@ == views(clients@)[k as int]);
        }
    }
    proof {
        assert(clients@[k as int].id == tx.client_id);
        assert(balances_fit(step(clients@[k as int]@, *tx).0));
    }
    let ghost mid = clients@;
    let mut c = clients.remove(k);
    c.process(tx, messages);
    clients.insert(k, c);
    proof {
        lemma_views_replace(mid, k as int, c);
        assert(views(clients@) =~= engine_step(pre, *tx).0);
    }
}

/// The ledger engine: one account per client id, in order of first
/// appearance.
pub struct TransactionEngine {
    clients: Vec<Client>,
}

impl View for TransactionEngine {
    type V = Seq<AccountView>;

    closed spec fn view(&self) -> Seq<AccountView> {
        views(self.clients@)
    }
}

impl Default for TransactionEngine {
    /// An engine with no accounts yet.
    fn default() -> (e: Self)
        ensures
            e@ == Seq::<AccountView>::empty(),
    {
        let e = TransactionEngine { clients: Vec::new() };
        proof {
            assert(e@ =~= Seq::<AccountView>::empty());
        }
        e
    }
}

impl TransactionEngine {
    /// The accounts that have appeared so far, in order of first appearance.
    pub fn clients(&self) -> (r: &Vec<Client>)
        ensures
            views(r@) == self@,
    {
        &self.clients
    }

    /// Whether routing `tx` keeps every balance within the machine integers,
    /// i.e. whether `process` may be called with it.
    pub fn fits(&self, tx: &Tx) -> (r: bool)
        ensures
            r == engine_step_fits(self@, *tx),
    {
        let ghost all = routed_accounts(self@, *tx);
        let k = find_client_index(&self.clients, tx.client_id);
        proof {
            lemma_routed(self@, *tx);
        }
        if k < self.clients.len() {
            proof {
                assert(all[find_client(all, tx.client_id)] == self.clients@[k as int]@);
            }
            self.clients[k].fits(tx)
        } else {
            let fresh = Client::new(tx.client_id);
            proof {
                assert(all[find_client(all, tx.client_id)] == fresh@);
            }
            fresh.fits(tx)
        }
    }

    /// Apply `tx` if the balances routing it yields fit the machine
    /// integers, and say whether it was applied; when it is not, neither the
    /// ledger nor the diagnostics change.
    pub fn try_process(&mut self, tx: Tx, messages: &mut Vec<Message>) -> (applied: bool)
        ensures
            applied == engine_step_fits(old(self)@, tx),
            applied ==> final(self)@ == engine_step(old(self)@, tx).0 && final(messages)@ == old(
                messages,
            )@ + opt_seq(engine_step(old(self)@, tx).1),
            !applied ==> final(self)@ == old(self)@ && final(messages)@ == old(messages)@,
    {
        if self.fits(&tx) {
            self.process(tx, messages);
            true
        } else {
            false
        }
    }

    /// Feed one transaction: route it to the account that owns it, creating
    /// the account if need be, and append any rejection message. A rejected
    /// transaction never halts the batch.
    pub fn process(&mut self, tx: Tx, messages: &mut Vec<Message>)
        requires
            engine_step_fits(old(self)@, tx),
        ensures
            final(self)@ == engine_step(old(self)@, tx).0,
            final(messages)@ == old(messages)@ + opt_seq(engine_step(old(self)@, tx).1),
    {
        route(&mut self.clients, &tx, messages);
    }
}

} // verus!
