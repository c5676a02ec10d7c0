//! Fork choice: judging a chain received from a peer by replaying it from the first
//! block.

use crate::block::{Block, BlockView};
use crate::blockchain::{
    admitted, consistent, follows, genesis, lemma_admitted_consistent, lemma_genesis_consistent,
    lemma_push_block_consistent, tip, Blockchain, BlockchainView,
};
use crate::ledger::funded;
use crate::transaction::{well_formed, Transaction, TransactionView};
use vstd::prelude::*;

verus! {

/// Where a replay stands: whether everything so far was taken, the state of the
/// node that judges, and the state that the replay has built.
pub struct Replay {
    pub taken: bool,
    pub local: BlockchainView,
    pub replayed: BlockchainView,
}

/// The replay takes the transaction: it is well formed, and the outputs that the
/// replay has built so far fund it.
pub open spec fn replay_accepts(tx: TransactionView, replayed: BlockchainView) -> bool {
    well_formed(tx) && funded(tx, replayed.utxo_set)
}

/// The replay state with one more block at the end of its chain.
pub open spec fn with_block(r: BlockchainView, b: BlockView) -> BlockchainView {
    BlockchainView { chain: r.chain.push(b), ..r }
}

/// Replays the transactions of one block. Each transaction that the replay takes is
/// admitted to the replay state, and to the local state as well; the first one
/// that it does not take ends the replay.
pub open spec fn replay_transactions(
    local: BlockchainView,
    replayed: BlockchainView,
    txs: Seq<TransactionView>,
) -> Replay
    decreases txs.len(),
{
    if txs.len() == 0 {
        Replay { taken: true, local, replayed }
    } else if replay_accepts(txs.first(), replayed) {
        replay_transactions(
            admitted(local, txs.first()),
            admitted(replayed, txs.first()),
            txs.drop_first(),
        )
    } else {
        Replay { taken: false, local, replayed }
    }
}

/// Replays `blocks` on top of the replay state. Each block has to follow the tip of
/// the replay's chain and each of its transactions has to be taken; then the block
/// joins the replay's chain. The first block or transaction that fails ends the
/// replay.
pub open spec fn replay_blocks(
    local: BlockchainView,
    replayed: BlockchainView,
    blocks: Seq<BlockView>,
) -> Replay
    decreases blocks.len(),
{
    if blocks.len() == 0 {
        Replay { taken: true, local, replayed }
    } else if !follows(tip(replayed).header, blocks.first()) {
        Replay { taken: false, local, replayed }
    } else {
        let inner = replay_transactions(local, replayed, blocks.first().transactions);
        if inner.taken {
            replay_blocks(
                inner.local,
                with_block(inner.replayed, blocks.first()),
                blocks.drop_first(),
            )
        } else {
            inner
        }
    }
}

/// The verdict on a candidate chain and the local state that judging it leaves
/// behind. A candidate shorter than the local chain is turned down unread. Any
/// other is replayed from the state that every node starts from; its own first
/// block is passed over.
pub open spec fn after_chain(s: BlockchainView, candidate: Seq<BlockView>) -> (
    bool,
    BlockchainView,
) {
    if candidate.len() >= s.chain.len() {
        let end = replay_blocks(s, genesis(), candidate.drop_first());
        (end.taken, end.local)
    } else {
        (false, s)
    }
}

/// The candidate chain stands: replayed from the first block of every chain, each
/// of its blocks after the first follows the one before it, and each transaction
/// is well formed and funded by the outputs that the replay has built up to it.
/// This is a matter of the candidate alone.
pub open spec fn chain_valid(candidate: Seq<BlockView>) -> bool {
    replay_blocks(genesis(), genesis(), candidate.drop_first()).taken
}

/// The block that block `i` of a candidate chain has to follow: the one before it,
/// and for the second block the first block of every chain.
pub open spec fn predecessor(chain: Seq<BlockView>, i: int) -> BlockView {
    if i <= 1 {
        tip(genesis())
    } else {
        chain[i - 1]
    }
}

/// What a replay of transactions keeps: both states stay consistent, neither chain
/// changes, the local set that blocks are judged against stays, and the verdict
/// and the replay state do not depend on the local state.
pub proof fn lemma_replay_transactions(
    local: BlockchainView,
    other: BlockchainView,
    replayed: BlockchainView,
    txs: Seq<TransactionView>,
)
    requires
        consistent(local),
        consistent(replayed),
    ensures
        consistent(replay_transactions(local, replayed, txs).local),
        consistent(replay_transactions(local, replayed, txs).replayed),
        replay_transactions(local, replayed, txs).local.chain == local.chain,
        replay_transactions(local, replayed, txs).local.utxo_blocked == local.utxo_blocked,
        replay_transactions(local, replayed, txs).replayed.chain == replayed.chain,
        replay_transactions(local, replayed, txs).taken == replay_transactions(
            other,
            replayed,
            txs,
        ).taken,
        replay_transactions(local, replayed, txs).replayed == replay_transactions(
            other,
            replayed,
            txs,
        ).replayed,
    decreases txs.len(),
{
    if txs.len() > 0 && replay_accepts(txs.first(), replayed) {
        lemma_admitted_consistent(local, txs.first());
        lemma_admitted_consistent(replayed, txs.first());
        lemma_replay_transactions(
            admitted(local, txs.first()),
            admitted(other, txs.first()),
            admitted(replayed, txs.first()),
            txs.drop_first(),
        );
    }
}

/// What a replay of blocks keeps: both states stay consistent, the local chain and
/// the local set that blocks are judged against stay, and the verdict does not
/// depend on the local state.
pub proof fn lemma_replay_blocks(
    local: BlockchainView,
    other: BlockchainView,
    replayed: BlockchainView,
    blocks: Seq<BlockView>,
)
    requires
        consistent(local),
        consistent(replayed),
    ensures
        consistent(replay_blocks(local, replayed, blocks).local),
        consistent(replay_blocks(local, replayed, blocks).replayed),
        replay_blocks(local, replayed, blocks).local.chain == local.chain,
        replay_blocks(local, replayed, blocks).local.utxo_blocked == local.utxo_blocked,
        replay_blocks(local, replayed, blocks).taken == replay_blocks(
            other,
            replayed,
            blocks,
        ).taken,
        replay_blocks(local, replayed, blocks).replayed == replay_blocks(
            other,
            replayed,
            blocks,
        ).replayed,
    decreases blocks.len(),
{
    if blocks.len() > 0 && follows(tip(replayed).header, blocks.first()) {
        let b = blocks.first();
        lemma_replay_transactions(local, other, replayed, b.transactions);
        let inner = replay_transactions(local, replayed, b.transactions);
        let inner_other = replay_transactions(other, replayed, b.transactions);
        if inner.taken {
            assert(tip(inner.replayed) == tip(replayed));
            lemma_push_block_consistent(inner.replayed, b);
            lemma_replay_blocks(
                inner.local,
                inner_other.local,
                with_block(inner.replayed, b),
                blocks.drop_first(),
            );
        }
    }
}

/// The verdict on a candidate chain is a matter of its length and of its blocks
/// alone: it is accepted exactly when it is no shorter than the local chain and
/// stands. Judging it keeps the local state consistent and never changes the local
/// chain.
pub proof fn lemma_after_chain(s: BlockchainView, candidate: Seq<BlockView>)
    requires
        consistent(s),
    ensures
        after_chain(s, candidate).0 == (candidate.len() >= s.chain.len() && chain_valid(
            candidate,
        )),
        consistent(after_chain(s, candidate).1),
        after_chain(s, candidate).1.chain == s.chain,
        after_chain(s, candidate).1.utxo_blocked == s.utxo_blocked,
{
    lemma_genesis_consistent();
    if candidate.len() >= s.chain.len() {
        lemma_replay_blocks(s, genesis(), genesis(), candidate.drop_first());
    }
}

/// A block that does not follow the one before it makes the replay fail, wherever
/// in `blocks` it stands.
pub proof fn lemma_replay_fails_at(
    local: BlockchainView,
    replayed: BlockchainView,
    blocks: Seq<BlockView>,
    k: int,
)
    requires
        0 <= k < blocks.len(),
        !follows(
            if k == 0 {
                tip(replayed).header
            } else {
                blocks[k - 1].header
            },
            blocks[k],
        ),
    ensures
        !replay_blocks(local, replayed, blocks).taken,
    decreases blocks.len(),
{
    if follows(tip(replayed).header, blocks.first()) {
        let b = blocks.first();
        let inner = replay_transactions(local, replayed, b.transactions);
        if inner.taken {
            let next = with_block(inner.replayed, b);
            assert(tip(next) == b);
            let rest = blocks.drop_first();
            assert(k >= 1);
            assert(rest[k - 1] == blocks[k]);
            if k - 1 > 0 {
                assert(rest[k - 2] == blocks[k - 1]);
            }
            lemma_replay_fails_at(inner.local, next, rest, k - 1);
        }
    }
}

/// A replay that comes through all of `blocks` comes through every prefix of them.
pub proof fn lemma_replay_prefix(
    local: BlockchainView,
    replayed: BlockchainView,
    blocks: Seq<BlockView>,
    k: int,
)
    requires
        0 <= k <= blocks.len(),
        replay_blocks(local, replayed, blocks).taken,
    ensures
        replay_blocks(local, replayed, blocks.take(k)).taken,
    decreases blocks.len(),
{
    if k > 0 {
        let b = blocks.first();
        let prefix = blocks.take(k);
        assert(prefix.first() == b);
        assert(prefix.drop_first() =~= blocks.drop_first().take(k - 1));
        let inner = replay_transactions(local, replayed, b.transactions);
        lemma_replay_prefix(inner.local, with_block(inner.replayed, b), blocks.drop_first(), k - 1);
    }
}

impl Blockchain {
    /// Replays the transactions of one block of a candidate chain: each one that
    /// is well formed and funded by the replay's outputs is admitted to the replay
    /// state and to this state; the first that is not ends the replay.
    fn replay_block(&mut self, replay: &mut Blockchain, txs: &Vec<Transaction>) -> (taken: bool)
        requires
            old(self).wf(),
            old(replay).wf(),
        ensures
            final(self).wf(),
            final(replay).wf(),
            (Replay { taken, local: final(self)@, replayed: final(replay)@ })
                == replay_transactions(old(self)@, old(replay)@, txs.deep_view()),
    {
        let ghost all = txs.deep_view();
        assert(all.subrange(0, all.len() as int) =~= all);
        let mut j: usize = 0;
        while j < txs.len()
            invariant
                j <= txs.len(),
                self.wf(),
                replay.wf(),
                all == txs.deep_view(),
                replay_transactions(old(self)@, old(replay)@, all) == replay_transactions(
                    self@,
                    replay@,
                    all.subrange(j as int, all.len() as int),
                ),
            decreases txs.len() - j,
        {
            let tx = &txs[j];
            let ghost rest = all.subrange(j as int, all.len() as int);
            assert(rest.first() == tx@);
            assert(rest.drop_first() =~= all.subrange(j as int + 1, all.len() as int));
            if tx.is_well_formed() && self.verify_transaction(tx, &replay.utxo_set) {
                self.create_pending_tx(tx);
                replay.create_pending_tx(tx);
            } else {
                return false;
            }
            j = j + 1;
        }
        true
    }

    /// Replays the blocks of a candidate chain after its first, from the state that
    /// every node starts from, and admits to this state each transaction that the
    /// replay takes.
    fn replay_chain(&mut self, blocks: &Vec<Block>) -> (taken: bool)
        requires
            old(self).wf(),
            blocks.len() >= 1,
        ensures
            final(self).wf(),
            taken == replay_blocks(old(self)@, genesis(), blocks.deep_view().drop_first()).taken,
            final(self)@ == replay_blocks(
                old(self)@,
                genesis(),
                blocks.deep_view().drop_first(),
            ).local,
    {
        let ghost before = self@;
        let ghost candidate = blocks.deep_view();
        let mut from_beginning = Blockchain::new();
        let n: usize = blocks.len();
        assert(candidate.drop_first() =~= candidate.subrange(1, n as int));
        let mut i: usize = 1;
        while i < n
            invariant
                1 <= i <= n,
                n == blocks.len(),
                candidate == blocks.deep_view(),
                before == old(self)@,
                self.wf(),
                from_beginning.wf(),
                replay_blocks(before, genesis(), candidate.drop_first()).taken == replay_blocks(
                    self@,
                    from_beginning@,
                    candidate.subrange(i as int, n as int),
                ).taken,
                replay_blocks(before, genesis(), candidate.drop_first()).local == replay_blocks(
                    self@,
                    from_beginning@,
                    candidate.subrange(i as int, n as int),
                ).local,
            decreases n - i,
        {
            let block = &blocks[i];
            let ghost rest = candidate.subrange(i as int, n as int);
            let ghost here = self@;
            let ghost there = from_beginning@;
            assert(rest.first() == block@);
            assert(rest.drop_first() =~= candidate.subrange(i as int + 1, n as int));
            if !from_beginning.verify_block(block) {
                assert(!replay_blocks(here, there, rest).taken);
                assert(replay_blocks(here, there, rest).local == here);
                return false;
            }
            let taken = self.replay_block(&mut from_beginning, &block.transactions);
            let ghost inner = replay_transactions(here, there, block@.transactions);
            assert(inner == (Replay { taken, local: self@, replayed: from_beginning@ }));
            if !taken {
                assert(replay_blocks(here, there, rest) == inner);
                return false;
            }
            proof {
                lemma_replay_transactions(here, here, there, block@.transactions);
                assert(tip(from_beginning@) == tip(there));
                lemma_push_block_consistent(from_beginning@, block@);
            }
            let ghost shorter = from_beginning.chain.deep_view();
            from_beginning.chain.push(block.clone());
            assert(from_beginning.chain.deep_view() =~= shorter.push(block@));
            assert(from_beginning@ == with_block(inner.replayed, block@));
            i = i + 1;
        }
        true
    }

    /// Whether a candidate chain stands, judged on its own: it has a first block,
    /// and the replay of the blocks after it comes through. Nothing is changed.
    pub fn validate_chain(candidate: &Vec<Block>) -> (valid: bool)
        ensures
            valid == (candidate.len() >= 1 && chain_valid(candidate.deep_view())),
    {
        if candidate.len() == 0 {
            return false;
        }
        let mut scratch = Blockchain::new();
        scratch.replay_chain(candidate)
    }

    /// Judges the chain of `b_chain` as a replacement for the local chain.
    ///
    /// A candidate shorter than the local chain is turned down. Any other is
    /// replayed from the state that every node starts from: each block after the
    /// candidate's first has to follow the one before it, and each of its
    /// transactions has to be well formed and funded by the outputs that the
    /// replay has built up to it. The first block or transaction that fails ends
    /// the replay and rejects the whole candidate.
    ///
    /// The local chain is never changed here: a caller that gets `true` puts the
    /// candidate in its place. The replay has one effect on the local state: every
    /// transaction that it takes is admitted to the local pending pool as well, up
    /// to the point where the replay ends.
    pub fn receive_chain(&mut self, b_chain: &Blockchain) -> (accepted: bool)
        requires
            old(self).wf(),
        ensures
            final(self).wf(),
            (accepted, final(self)@) == after_chain(old(self)@, b_chain@.chain),
            accepted == (b_chain@.chain.len() >= old(self)@.chain.len() && chain_valid(
                b_chain@.chain,
            )),
            final(self)@.chain == old(self)@.chain,
            final(self)@.utxo_blocked == old(self)@.utxo_blocked,
    {
        proof {
            lemma_after_chain(self@, b_chain@.chain);
        }
        if b_chain.chain.len() < self.chain.len() {
            return false;
        }
        self.replay_chain(&b_chain.chain)
    }
}

} // verus!
