//! Transfers that the node's own user asks for.

use crate::blockchain::{admitted, Blockchain};
use crate::ledger::{all_identified, consumed_by, funded, spendable};
use crate::transaction::{total_output, transaction_id, well_formed, Transaction, TransactionView};
use crate::utxo::UtxoView;
use vstd::prelude::*;

verus! {

/// The funds gathered for a transfer of `amount` from `from`: the outputs of
/// `utxos` that `from` owns are taken in order for as long as what was gathered
/// before is less than `amount`.
pub open spec fn selected_funds(utxos: Seq<UtxoView>, from: Seq<char>, amount: u64) -> nat
    decreases utxos.len(),
{
    if utxos.len() == 0 {
        0
    } else {
        let before = selected_funds(utxos.drop_last(), from, amount);
        if utxos.last().output == from && before < amount {
            before + utxos.last().amount as nat
        } else {
            before
        }
    }
}

/// The identifiers of the outputs that are taken for the transfer, in order.
pub open spec fn selected_ids(utxos: Seq<UtxoView>, from: Seq<char>, amount: u64) -> Seq<
    Seq<char>,
>
    decreases utxos.len(),
{
    if utxos.len() == 0 {
        Seq::empty()
    } else {
        let ids = selected_ids(utxos.drop_last(), from, amount);
        if utxos.last().output == from && selected_funds(utxos.drop_last(), from, amount)
            < amount {
            ids.push(utxos.last().hash->0)
        } else {
            ids
        }
    }
}

/// The receivers of a transfer: `to` gets `amount`, and where more than that was
/// gathered, `from` gets the rest back.
pub open spec fn transfer_outputs(from: Seq<char>, to: Seq<char>, amount: u64, funds: nat) -> Seq<
    (Seq<char>, u64),
> {
    if funds > amount {
        seq![(to, amount), (from, (funds - amount) as u64)]
    } else {
        seq![(to, amount)]
    }
}

/// The transaction that moves `amount` from `from` to `to` out of `utxos`, or
/// `None` where `from` owns less than `amount` there.
pub open spec fn transfer(utxos: Seq<UtxoView>, from: Seq<char>, to: Seq<char>, amount: u64)
    -> Option<TransactionView> {
    let funds = selected_funds(utxos, from, amount);
    let input = selected_ids(utxos, from, amount);
    let output = transfer_outputs(from, to, amount, funds);
    if funds >= amount {
        Some(TransactionView { input, output, txid: Some(transaction_id(input, output)) })
    } else {
        None
    }
}

/// What was gathered exceeds the amount by less than one output's worth, so the
/// rest that goes back fits in a `u64`.
pub proof fn lemma_selected_funds_bound(utxos: Seq<UtxoView>, from: Seq<char>, amount: u64)
    ensures
        selected_funds(utxos, from, amount) <= amount + u64::MAX,
        selected_ids(utxos, from, amount).len() <= utxos.len(),
    decreases utxos.len(),
{
    if utxos.len() > 0 {
        lemma_selected_funds_bound(utxos.drop_last(), from, amount);
    }
}

/// An identifier taken from a prefix of the set is taken from the whole set too.
proof fn lemma_selected_ids_grow(
    utxos: Seq<UtxoView>,
    from: Seq<char>,
    amount: u64,
    k: int,
    id: Seq<char>,
)
    requires
        0 <= k <= utxos.len(),
        selected_ids(utxos.take(k), from, amount).contains(id),
    ensures
        selected_ids(utxos, from, amount).contains(id),
    decreases utxos.len() - k,
{
    if k < utxos.len() {
        let longer = utxos.take(k + 1);
        assert(longer.drop_last() =~= utxos.take(k));
        let ids = selected_ids(utxos.take(k), from, amount);
        let j = choose|j: int| 0 <= j < ids.len() && ids[j] == id;
        assert(selected_ids(longer, from, amount)[j] == id);
        lemma_selected_ids_grow(utxos, from, amount, k + 1, id);
    } else {
        assert(utxos.take(k) =~= utxos);
    }
}

/// The outputs named by the identifiers taken for a transfer hold at least what
/// was gathered.
proof fn lemma_selected_spendable(utxos: Seq<UtxoView>, from: Seq<char>, amount: u64, k: int)
    requires
        all_identified(utxos),
        0 <= k <= utxos.len(),
    ensures
        spendable(selected_ids(utxos, from, amount), utxos.take(k)) >= selected_funds(
            utxos.take(k),
            from,
            amount,
        ),
    decreases k,
{
    if k > 0 {
        let prefix = utxos.take(k);
        assert(prefix.drop_last() =~= utxos.take(k - 1));
        lemma_selected_spendable(utxos, from, amount, k - 1);
        let u = prefix.last();
        assert(u == utxos[k - 1]);
        if u.output == from && selected_funds(utxos.take(k - 1), from, amount) < amount {
            let ids = selected_ids(prefix, from, amount);
            assert(ids[ids.len() - 1] == u.hash->0);
            assert(ids.contains(u.hash->0));
            lemma_selected_ids_grow(utxos, from, amount, k, u.hash->0);
            assert(consumed_by(u, selected_ids(utxos, from, amount)));
        }
    }
}

/// A transfer is funded and well formed: the outputs that it names hold at least
/// what its receivers get, and its receivers get exactly what was gathered.
pub proof fn lemma_transfer_funded(
    utxos: Seq<UtxoView>,
    from: Seq<char>,
    to: Seq<char>,
    amount: u64,
)
    requires
        all_identified(utxos),
        transfer(utxos, from, to, amount) is Some,
    ensures
        well_formed(transfer(utxos, from, to, amount)->0),
        funded(transfer(utxos, from, to, amount)->0, utxos),
        total_output(transfer(utxos, from, to, amount)->0.output) == selected_funds(
            utxos,
            from,
            amount,
        ),
{
    let funds = selected_funds(utxos, from, amount);
    let output = transfer_outputs(from, to, amount, funds);
    lemma_selected_funds_bound(utxos, from, amount);
    lemma_selected_spendable(utxos, from, amount, utxos.len() as int);
    assert(utxos.take(utxos.len() as int) =~= utxos);
    if funds > amount {
        let first = output.drop_last();
        assert(first =~= seq![(to, amount)]);
        assert(first.drop_last() =~= Seq::empty());
        assert(total_output(first.drop_last()) == 0);
        assert(first.last() == (to, amount));
        assert(total_output(first) == amount);
        assert(output.last() == (from, (funds - amount) as u64));
        assert(total_output(output) == funds);
    } else {
        assert(output.drop_last() =~= Seq::empty());
        assert(total_output(output.drop_last()) == 0);
        assert(output.last() == (to, amount));
        assert(total_output(output) == funds);
    }
}

impl Blockchain {
    /// Moves `amount` from `from` to `to`.
    ///
    /// The outputs that `from` owns in the current set are gathered in order until
    /// they hold `amount` or more. If they do, the transaction that consumes them,
    /// pays `amount` to `to` and returns any rest to `from` is admitted and
    /// returned. If `from` owns too little, nothing changes and `None` is returned.
    pub fn send_to(&mut self, from: String, to: String, amount: u64) -> (sent: Option<Transaction>)
        requires
            old(self).wf(),
        ensures
            final(self).wf(),
            sent.deep_view() == transfer(old(self)@.utxo_set, from@, to@, amount),
            final(self)@ == match transfer(old(self)@.utxo_set, from@, to@, amount) {
                Some(tx) => admitted(old(self)@, tx),
                None => old(self)@,
            },
    {
        let ghost utxos = self@.utxo_set;
        let mut ids: Vec<String> = Vec::new();
        let mut valid_funds: u128 = 0;
        let mut i: usize = 0;
        assert(ids.deep_view() =~= Seq::empty());
        while i < self.utxo_set.len()
            invariant
                i <= self.utxo_set.len(),
                self@ == old(self)@,
                utxos == self@.utxo_set,
                all_identified(utxos),
                valid_funds == selected_funds(utxos.take(i as int), from@, amount),
                valid_funds <= amount + u64::MAX,
                ids.deep_view() == selected_ids(utxos.take(i as int), from@, amount),
            decreases self.utxo_set.len() - i,
        {
            assert(utxos.take(i as int + 1).drop_last() =~= utxos.take(i as int));
            let utxo = &self.utxo_set[i];
            assert(utxo@ == utxos[i as int]);
            if utxo.output == from && valid_funds < amount as u128 {
                valid_funds = valid_funds + utxo.amount as u128;
                let ghost shorter = ids.deep_view();
                ids.push(utxo.hash.as_ref().unwrap().clone());
                assert(ids.deep_view() =~= shorter.push(utxos[i as int].hash->0));
            }
            i = i + 1;
        }
        assert(utxos.take(i as int) =~= utxos);
        if valid_funds < amount as u128 {
            return None;
        }
        let mut outputs: Vec<(String, u64)> = Vec::new();
        outputs.push((to, amount));
        if valid_funds > amount as u128 {
            outputs.push((from, (valid_funds - amount as u128) as u64));
        }
        assert(outputs.deep_view() =~= transfer_outputs(from@, to@, amount, valid_funds as nat));
        let tx = Transaction::new(ids, outputs);
        proof {
            lemma_transfer_funded(utxos, from@, to@, amount);
            assert(tx@ == transfer(utxos, from@, to@, amount)->0);
        }
        self.create_pending_tx(&tx);
        Some(tx)
    }
}

} // verus!
