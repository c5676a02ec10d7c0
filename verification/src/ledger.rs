//! The accounting rules of the set of unspent outputs, over mathematical values.
//!
//! The set is an ordered list: outputs are found in it by their identifier, leave
//! it when a transaction consumes them, and enter it at its end when a transaction
//! creates them.

use crate::transaction::{minted, total_output, well_formed, TransactionView};
use crate::utxo::UtxoView;
use vstd::prelude::*;

verus! {

/// The output is one of those that the identifiers in `input` name.
pub open spec fn consumed_by(u: UtxoView, input: Seq<Seq<char>>) -> bool {
    u.hash is Some && input.contains(u.hash->0)
}

/// The sum of the amounts of the outputs in `utxos` that `input` names.
pub open spec fn spendable(input: Seq<Seq<char>>, utxos: Seq<UtxoView>) -> nat
    decreases utxos.len(),
{
    if utxos.len() == 0 {
        0
    } else {
        spendable(input, utxos.drop_last()) + if consumed_by(utxos.last(), input) {
            utxos.last().amount as nat
        } else {
            0
        }
    }
}

/// The sum of the amounts of all the outputs in `utxos`.
pub open spec fn total_value(utxos: Seq<UtxoView>) -> nat
    decreases utxos.len(),
{
    if utxos.len() == 0 {
        0
    } else {
        total_value(utxos.drop_last()) + utxos.last().amount as nat
    }
}

/// The outputs of `utxos` that `input` does not name, in their order.
pub open spec fn unspent(utxos: Seq<UtxoView>, input: Seq<Seq<char>>) -> Seq<UtxoView>
    decreases utxos.len(),
{
    if utxos.len() == 0 {
        Seq::empty()
    } else if consumed_by(utxos.last(), input) {
        unspent(utxos.drop_last(), input)
    } else {
        unspent(utxos.drop_last(), input).push(utxos.last())
    }
}

/// The transaction's inputs hold at least as much in `utxos` as its outputs give
/// away.
pub open spec fn funded(tx: TransactionView, utxos: Seq<UtxoView>) -> bool {
    spendable(tx.input, utxos) >= total_output(tx.output)
}

/// The set of outputs after a transaction: what it consumed is gone, and what it
/// created stands at the end.
pub open spec fn after_transaction(utxos: Seq<UtxoView>, tx: TransactionView) -> Seq<UtxoView> {
    unspent(utxos, tx.input) + minted(tx)
}

/// The set of outputs after a history of transactions, applied in order.
pub open spec fn after_history(utxos: Seq<UtxoView>, history: Seq<TransactionView>) -> Seq<
    UtxoView,
>
    decreases history.len(),
{
    if history.len() == 0 {
        utxos
    } else {
        after_transaction(after_history(utxos, history.drop_last()), history.last())
    }
}

/// Some output in `utxos` carries the identifier `id`.
pub open spec fn holds(utxos: Seq<UtxoView>, id: Seq<char>) -> bool {
    exists|k: int| 0 <= k < utxos.len() && (#[trigger] utxos[k]).hash == Some(id)
}

/// Every output in `utxos` carries an identifier.
pub open spec fn all_identified(utxos: Seq<UtxoView>) -> bool {
    forall|k: int| 0 <= k < utxos.len() ==> (#[trigger] utxos[k]).hash is Some
}

/// Nothing that `input` names is left among the unspent outputs, and each of them
/// was in the set before.
pub proof fn lemma_unspent(utxos: Seq<UtxoView>, input: Seq<Seq<char>>)
    ensures
        unspent(utxos, input).len() <= utxos.len(),
        forall|k: int|
            0 <= k < unspent(utxos, input).len() ==> !consumed_by(
                #[trigger] unspent(utxos, input)[k],
                input,
            ) && utxos.contains(unspent(utxos, input)[k]),
        all_identified(utxos) ==> all_identified(unspent(utxos, input)),
    decreases utxos.len(),
{
    if utxos.len() > 0 {
        let rest = utxos.drop_last();
        lemma_unspent(rest, input);
        assert forall|k: int| 0 <= k < unspent(utxos, input).len() implies utxos.contains(
            #[trigger] unspent(utxos, input)[k],
        ) && !consumed_by(unspent(utxos, input)[k], input) by {
            if k < unspent(rest, input).len() {
                let u = unspent(rest, input)[k];
                assert(rest.contains(u));
                let j = choose|j: int| 0 <= j < rest.len() && rest[j] == u;
                assert(utxos[j] == u);
            } else {
                assert(utxos[utxos.len() - 1] == utxos.last());
            }
        }
        if all_identified(utxos) {
            assert forall|k: int| 0 <= k < rest.len() implies (#[trigger] rest[k]).hash is Some by {
                assert(utxos[k].hash is Some);
            }
        }
    }
}

/// The value of the unspent outputs is the value of the set less what the inputs
/// could spend.
pub proof fn lemma_unspent_value(utxos: Seq<UtxoView>, input: Seq<Seq<char>>)
    ensures
        total_value(unspent(utxos, input)) + spendable(input, utxos) == total_value(utxos),
        spendable(input, unspent(utxos, input)) == 0,
    decreases utxos.len(),
{
    if utxos.len() > 0 {
        let rest = utxos.drop_last();
        lemma_unspent_value(rest, input);
        if !consumed_by(utxos.last(), input) {
            assert(unspent(utxos, input).drop_last() =~= unspent(rest, input));
        }
    }
}

/// The value of a concatenation is the sum of the values, and so is what a list of
/// inputs can spend in it.
pub proof fn lemma_value_of_concatenation(
    a: Seq<UtxoView>,
    b: Seq<UtxoView>,
    input: Seq<Seq<char>>,
)
    ensures
        total_value(a + b) == total_value(a) + total_value(b),
        spendable(input, a + b) == spendable(input, a) + spendable(input, b),
    decreases b.len(),
{
    if b.len() == 0 {
        assert(a + b =~= a);
    } else {
        assert((a + b).drop_last() =~= a + b.drop_last());
        lemma_value_of_concatenation(a, b.drop_last(), input);
    }
}

/// The outputs that a transaction creates are worth what its receivers are to get,
/// and each carries an identifier.
pub proof fn lemma_minted_value(tx: TransactionView)
    requires
        well_formed(tx),
    ensures
        total_value(minted(tx)) == total_output(tx.output),
        minted(tx).len() == tx.output.len(),
        all_identified(minted(tx)),
    decreases tx.output.len(),
{
    if tx.output.len() > 0 {
        let shorter = TransactionView { output: tx.output.drop_last(), ..tx };
        lemma_minted_value(shorter);
        assert(minted(tx).drop_last() =~= minted(shorter));
    }
}

} // verus!
