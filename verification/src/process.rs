//! Batch driver: replay a whole sequence of transactions against an
//! initially empty ledger.

use vstd::prelude::*;

use crate::client::{opt_seq, AccountView, Client};
use crate::message::Message;
use crate::transaction::Tx;
use crate::transaction_engine::{
    engine_step, engine_step_fits, route, run, run_fits, views,
};

verus! {

/// Replay `transactions` in order, creating accounts on first reference,
/// appending every rejection message to `messages`, and returning the final
/// accounts in order of first appearance. One rejected transaction never
/// halts the batch.
pub fn process(transactions: &[Tx], messages: &mut Vec<Message>) -> (clients: Vec<Client>)
    requires
        run_fits(Seq::empty(), transactions@),
    ensures
        views(clients@) == run(Seq::empty(), transactions@).0,
        final(messages)@ == old(messages)@ + run(Seq::empty(), transactions@).1,
{
    let ghost txs = transactions@;
    let mut clients: Vec<Client> = Vec::new();
    proof {
        assert(views(clients@) =~= Seq::<AccountView>::empty());
        assert(txs.skip(0) =~= txs);
    }
    let mut i: usize = 0;
    while i < transactions.len()
        invariant
            i <= txs.len(),
            txs == transactions@,
            run(Seq::empty(), txs).0 == run(views(clients@), txs.skip(i as int)).0,
            old(messages)@ + run(Seq::empty(), txs).1 == messages@ + run(
                views(clients@),
                txs.skip(i as int),
            ).1,
            run_fits(views(clients@), txs.skip(i as int)),
        decreases txs.len() - i,
    {
        let ghost cur = views(clients@);
        let ghost suffix = txs.skip(i as int);
        proof {
            assert(suffix.first() == txs[i as int]);
            assert(suffix.drop_first() =~= txs.skip(i as int + 1));
            assert(engine_step_fits(cur, txs[i as int]));
        }
        let tx = transactions[i];
        route(&mut clients, &tx, messages);
        proof {
            assert(run(cur, suffix).0 == run(views(clients@), txs.skip(i as int + 1)).0);
            assert(run(cur, suffix).1 =~= opt_seq(engine_step(cur, txs[i as int]).1) + run(
                views(clients@),
                txs.skip(i as int + 1),
            ).1);
            assert(old(messages)@ + run(Seq::empty(), txs).1 =~= messages@ + run(
                views(clients@),
                txs.skip(i as int + 1),
            ).1);
        }
        i += 1;
    }
    proof {
        assert(txs.skip(txs.len() as int) =~= Seq::<Tx>::empty());
        assert(messages@ + Seq::<Message>::empty() =~= messages@);
    }
    clients
}

} // verus!
