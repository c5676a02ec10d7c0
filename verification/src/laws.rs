//! What holds of the ledger whatever it is given: theorems over the rules of the
//! other modules.

use crate::block::BlockView;
use crate::blockchain::{
    admitted_all, after_block, block_acceptable, block_proof, consistent, follows, genesis,
    lemma_after_block_consistent, tip, valid_proof, BlockchainView,
};
use crate::ledger::{
    after_history, after_transaction, consumed_by, funded, holds, lemma_minted_value,
    lemma_unspent, lemma_unspent_value, lemma_value_of_concatenation, spendable, total_value,
    unspent,
};
use crate::mining::{lemma_mined_consistent, mined};
use crate::reconcile::{
    after_chain, chain_valid, lemma_after_chain, lemma_replay_fails_at, lemma_replay_prefix,
    predecessor,
};
use crate::transaction::{minted, total_output, well_formed, TransactionView};
use crate::utxo::{utxo_of, UtxoView};
use vstd::prelude::*;

verus! {

/// The transaction consumes the identifier `id` in `utxos`: it names `id`, and an
/// output with that identifier is there to be removed.
pub open spec fn consumes(utxos: Seq<UtxoView>, tx: TransactionView, id: Seq<char>) -> bool {
    tx.input.contains(id) && holds(utxos, id)
}

/// The transaction creates an output with the identifier `id`.
pub open spec fn mints(tx: TransactionView, id: Seq<char>) -> bool {
    holds(minted(tx), id)
}

/// After a transaction that names `id` and does not create it, no output carries
/// `id`; and an identifier that no output carried is still carried by none, unless
/// the transaction creates it.
pub proof fn lemma_gone_after(utxos: Seq<UtxoView>, tx: TransactionView, id: Seq<char>)
    requires
        tx.input.contains(id) || !holds(utxos, id),
        !mints(tx, id),
    ensures
        !holds(after_transaction(utxos, tx), id),
{
    let left = unspent(utxos, tx.input);
    let after = after_transaction(utxos, tx);
    lemma_unspent(utxos, tx.input);
    if holds(after, id) {
        let k = choose|k: int| 0 <= k < after.len() && (#[trigger] after[k]).hash == Some(id);
        if k < left.len() {
            assert(after[k] == left[k]);
            assert(!consumed_by(left[k], tx.input));
            assert(utxos.contains(left[k]));
            let j = choose|j: int| 0 <= j < utxos.len() && utxos[j] == left[k];
            assert(utxos[j].hash == Some(id));
        } else {
            assert(after[k] == minted(tx)[k - left.len()]);
        }
    }
}

/// An identifier that step `i` of a history names stays out of the set for as long
/// as no later step creates it.
proof fn lemma_stays_gone(
    utxos: Seq<UtxoView>,
    history: Seq<TransactionView>,
    i: int,
    m: int,
    id: Seq<char>,
)
    requires
        0 <= i < m <= history.len(),
        history[i].input.contains(id),
        forall|k: int| i <= k < m ==> !mints(#[trigger] history[k], id),
    ensures
        !holds(after_history(utxos, history.take(m)), id),
    decreases m - i,
{
    let upto = history.take(m);
    assert(upto.drop_last() =~= history.take(m - 1));
    assert(upto.last() == history[m - 1]);
    if m - 1 > i {
        lemma_stays_gone(utxos, history, i, m - 1, id);
    }
    lemma_gone_after(after_history(utxos, history.take(m - 1)), history[m - 1], id);
}

/// The current set of a state to which transactions were admitted one after another
/// is the set after that history: every change of the set is a transaction applied.
pub proof fn admissions_are_a_history(s: BlockchainView, txs: Seq<TransactionView>)
    ensures
        admitted_all(s, txs).utxo_set == after_history(s.utxo_set, txs),
        admitted_all(s, txs).pending_transactions == s.pending_transactions + txs,
    decreases txs.len(),
{
    if txs.len() > 0 {
        admissions_are_a_history(s, txs.drop_last());
        assert(s.pending_transactions + txs =~= (s.pending_transactions
            + txs.drop_last()).push(txs.last()));
    } else {
        assert(s.pending_transactions + txs =~= s.pending_transactions);
    }
}

/// No double spend. In any history of admitted transactions, an identifier that
/// one transaction consumes is consumed by a later one only if a transaction from
/// the first of the two up to the second created an output with that identifier
/// anew. What was spent is gone: nothing brings it back but a new output.
pub proof fn no_double_spend(
    utxos: Seq<UtxoView>,
    history: Seq<TransactionView>,
    i: int,
    j: int,
    id: Seq<char>,
)
    requires
        0 <= i < j < history.len(),
        consumes(after_history(utxos, history.take(i)), history[i], id),
        consumes(after_history(utxos, history.take(j)), history[j], id),
    ensures
        exists|k: int| i <= k < j && mints(#[trigger] history[k], id),
{
    if forall|k: int| i <= k < j ==> !mints(#[trigger] history[k], id) {
        lemma_stays_gone(utxos, history, i, j, id);
        assert(false);
    }
}

/// Conservation. When a well-formed transaction is applied to a set of outputs,
/// every output that it names is removed, and exactly one output is created for
/// each of its receivers, in order, with the receiver's address and amount. The
/// value of the set changes by what the receivers get less what the inputs held,
/// so a funded transaction never adds value.
pub proof fn conservation(utxos: Seq<UtxoView>, tx: TransactionView)
    requires
        well_formed(tx),
    ensures
        after_transaction(utxos, tx).len() == unspent(utxos, tx.input).len() + tx.output.len(),
        forall|k: int|
            0 <= k < unspent(utxos, tx.input).len() ==> !consumed_by(
                #[trigger] after_transaction(utxos, tx)[k],
                tx.input,
            ) && utxos.contains(after_transaction(utxos, tx)[k]),
        forall|k: int|
            0 <= k < tx.output.len() ==> #[trigger] after_transaction(utxos, tx)[unspent(
                utxos,
                tx.input,
            ).len() + k] == utxo_of(tx.output[k].0, tx.output[k].1, tx.txid->0, k as u32),
        total_value(after_transaction(utxos, tx)) + spendable(tx.input, utxos) == total_value(
            utxos,
        ) + total_output(tx.output),
        funded(tx, utxos) ==> total_value(after_transaction(utxos, tx)) <= total_value(utxos),
{
    let left = unspent(utxos, tx.input);
    lemma_unspent(utxos, tx.input);
    lemma_unspent_value(utxos, tx.input);
    lemma_minted_value(tx);
    lemma_value_of_concatenation(left, minted(tx), tx.input);
    assert forall|k: int| 0 <= k < left.len() implies !consumed_by(
        #[trigger] after_transaction(utxos, tx)[k],
        tx.input,
    ) && utxos.contains(after_transaction(utxos, tx)[k]) by {
        assert(after_transaction(utxos, tx)[k] == left[k]);
    }
}

/// Hash-link integrity. In a consistent state every block after the first carries
/// the hash that rehashing it against its predecessor's header gives, at the height
/// after its predecessor's: checking it again as a block that follows its
/// predecessor succeeds.
pub proof fn hash_links_hold(s: BlockchainView, i: int)
    requires
        consistent(s),
        1 <= i < s.chain.len(),
    ensures
        s.chain[i].header.hash == Some(block_proof(s.chain[i - 1].header, s.chain[i])),
        s.chain[i].header.index == s.chain[i - 1].header.index + 1,
        follows(s.chain[i - 1].header, s.chain[i]),
{
}

/// Every block after the first names the hash of the block before it.
pub open spec fn names_predecessors(chain: Seq<BlockView>) -> bool {
    forall|i: int|
        1 <= i < chain.len() ==> (#[trigger] chain[i]).header.previous_hash == chain[i
            - 1].header.hash->0
}

/// Mining keeps the chain of names whole: the mined block names the hash of the
/// tip that it was mined on.
pub proof fn mining_names_predecessor(
    s: BlockchainView,
    timestamp: u64,
    s2: BlockchainView,
    found: Option<BlockView>,
)
    requires
        consistent(s),
        tip(s).header.index < u64::MAX,
        names_predecessors(s.chain),
        mined(s, timestamp, s2, found),
    ensures
        names_predecessors(s2.chain),
{
    lemma_mined_consistent(s, timestamp, s2, found);
    match found {
        Some(b) => {
            assert forall|i: int| 1 <= i < s2.chain.len() implies (
            #[trigger] s2.chain[i]).header.previous_hash == s2.chain[i - 1].header.hash->0 by {
                if i < s.chain.len() {
                    assert(s2.chain[i] == s.chain[i]);
                    assert(s2.chain[i - 1] == s.chain[i - 1]);
                }
            }
        },
        None => {},
    }
}

/// An accepted block keeps the chain of names whole where it names the hash of the
/// tip. (Acceptance does not ask for that: the block's hash binds it to the tip's
/// header, whatever name it carries.)
pub proof fn block_names_predecessor(s: BlockchainView, b: BlockView)
    requires
        consistent(s),
        names_predecessors(s.chain),
        block_acceptable(s, b),
        b.header.previous_hash == tip(s).header.hash->0,
    ensures
        names_predecessors(after_block(s, b).chain),
{
    lemma_after_block_consistent(s, b);
    let chain = after_block(s, b).chain;
    assert forall|i: int| 1 <= i < chain.len() implies (#[trigger] chain[i]).header.previous_hash
        == chain[i - 1].header.hash->0 by {
        if i < s.chain.len() {
            assert(chain[i] == s.chain[i]);
            assert(chain[i - 1] == s.chain[i - 1]);
        }
    }
}

/// Proof-of-work validity. In a consistent state every block of the chain carries
/// a hash that satisfies the proof-of-work predicate; and whatever mining returns
/// carries one too.
pub proof fn every_block_is_proven(s: BlockchainView, i: int)
    requires
        consistent(s),
        0 <= i < s.chain.len(),
    ensures
        s.chain[i].header.hash is Some,
        valid_proof(s.chain[i].header.hash->0),
{
}

/// Mining never ends with a hash that fails the proof-of-work predicate.
pub proof fn mined_block_is_proven(
    s: BlockchainView,
    timestamp: u64,
    s2: BlockchainView,
    b: BlockView,
)
    requires
        consistent(s),
        tip(s).header.index < u64::MAX,
        mined(s, timestamp, s2, Some(b)),
    ensures
        b.header.hash is Some,
        valid_proof(b.header.hash->0),
        tip(s2) == b,
{
    lemma_mined_consistent(s, timestamp, s2, Some(b));
}

/// Fork rejection is all or nothing. A candidate chain in which one block after
/// the first does not follow its predecessor (its stored hash is not what
/// rehashing gives, its proof of work fails, or its height is not the next) is
/// rejected, however many blocks before it stand; and judging a candidate,
/// accepted or not, leaves the local chain as it was.
pub proof fn one_bad_block_rejects_the_chain(
    s: BlockchainView,
    candidate: Seq<BlockView>,
    i: int,
)
    requires
        consistent(s),
        1 <= i < candidate.len(),
        !follows(predecessor(candidate, i).header, candidate[i]),
    ensures
        !after_chain(s, candidate).0,
        after_chain(s, candidate).1.chain == s.chain,
{
    lemma_after_chain(s, candidate);
    let blocks = candidate.drop_first();
    assert(blocks[i - 1] == candidate[i]);
    if i > 1 {
        assert(blocks[i - 2] == candidate[i - 1]);
    }
    lemma_replay_fails_at(s, genesis(), blocks, i - 1);
}

/// A candidate chain whose first `k` blocks do not stand as a chain of their own is
/// rejected: no block or transaction further on can mend what failed before it.
pub proof fn a_bad_prefix_rejects_the_chain(s: BlockchainView, candidate: Seq<BlockView>, k: int)
    requires
        consistent(s),
        1 <= k <= candidate.len(),
        !chain_valid(candidate.take(k)),
    ensures
        !after_chain(s, candidate).0,
        after_chain(s, candidate).1.chain == s.chain,
{
    lemma_after_chain(s, candidate);
    assert(candidate.take(k).drop_first() =~= candidate.drop_first().take(k - 1));
    if chain_valid(candidate) {
        lemma_replay_prefix(genesis(), genesis(), candidate.drop_first(), k - 1);
    }
}

} // verus!
