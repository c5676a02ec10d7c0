//! Mining: the search for a nonce that gives the next block a valid proof of work.

use crate::block::{
    copy_transactions, sealed, unsealed, with_nonce, Block, BlockView, Header, HeaderView,
};
use crate::blockchain::{
    block_proof, consistent, follows, tip, valid_proof, Blockchain, BlockchainView,
};
use crate::utxo::copy_utxos;
use vstd::prelude::*;

verus! {

/// The block that a miner starts from at the given time: next in height after the
/// tip, naming the tip's hash, with nonce 0 and no hash, holding every pending
/// transaction.
pub open spec fn candidate(s: BlockchainView, timestamp: u64) -> BlockView
    recommends
        consistent(s),
        tip(s).header.index < u64::MAX,
{
    BlockView {
        header: HeaderView {
            index: (tip(s).header.index + 1) as u64,
            timestamp,
            previous_hash: tip(s).header.hash->0,
            nonce: 0,
            hash: None,
        },
        transactions: s.pending_transactions,
    }
}

/// With this nonce the candidate's proof of work is valid.
pub open spec fn nonce_works(s: BlockchainView, timestamp: u64, nonce: i64) -> bool {
    valid_proof(block_proof(tip(s).header, with_nonce(candidate(s, timestamp), nonce)))
}

/// The nonce is the first from 0 upwards that works.
pub open spec fn first_nonce(s: BlockchainView, timestamp: u64, nonce: i64) -> bool {
    &&& nonce >= 0
    &&& nonce_works(s, timestamp, nonce)
    &&& forall|m: i64| 0 <= m < nonce ==> !#[trigger] nonce_works(s, timestamp, m)
}

/// The candidate with the given nonce and with the proof of work that the nonce
/// gives it.
pub open spec fn mined_block(s: BlockchainView, timestamp: u64, nonce: i64) -> BlockView {
    let c = with_nonce(candidate(s, timestamp), nonce);
    sealed(c, block_proof(tip(s).header, c))
}

/// What mining at the given time does to the state `s`, and what it returns.
///
/// The pending pool is emptied in any case. Where some nonce from 0 upwards works,
/// the block with the first such nonce is returned and stands at the end of the
/// chain, and the current set of outputs becomes the set that blocks are judged
/// against. Where none works, nothing else changes.
pub open spec fn mined(
    s: BlockchainView,
    timestamp: u64,
    s2: BlockchainView,
    found: Option<BlockView>,
) -> bool {
    match found {
        Some(b) => {
            &&& first_nonce(s, timestamp, b.header.nonce)
            &&& b == mined_block(s, timestamp, b.header.nonce)
            &&& s2 == BlockchainView {
                chain: s.chain.push(b),
                pending_transactions: Seq::empty(),
                utxo_set: s.utxo_set,
                utxo_blocked: s.utxo_set,
            }
        },
        None => {
            &&& forall|m: i64| 0 <= m ==> !#[trigger] nonce_works(s, timestamp, m)
            &&& s2 == BlockchainView { pending_transactions: Seq::empty(), ..s }
        },
    }
}

/// A mined block follows the tip that it was mined on and names the tip's hash, and
/// the state with the block at its end is consistent.
pub proof fn lemma_mined_consistent(
    s: BlockchainView,
    timestamp: u64,
    s2: BlockchainView,
    found: Option<BlockView>,
)
    requires
        consistent(s),
        tip(s).header.index < u64::MAX,
        mined(s, timestamp, s2, found),
    ensures
        consistent(s2),
        found matches Some(b) ==> follows(tip(s).header, b) && b.header.previous_hash == tip(
            s,
        ).header.hash->0 && tip(s2) == b,
{
    match found {
        Some(b) => {
            let c = with_nonce(candidate(s, timestamp), b.header.nonce);
            assert(unsealed(b) == c);
            assert(follows(tip(s).header, b));
            assert forall|i: int| 1 <= i < s2.chain.len() implies follows(
                s2.chain[i - 1].header,
                #[trigger] s2.chain[i],
            ) by {
                if i < s.chain.len() {
                    assert(s2.chain[i] == s.chain[i]);
                    assert(s2.chain[i - 1] == s.chain[i - 1]);
                }
            }
            assert forall|i: int| 0 <= i < s2.chain.len() implies (
            #[trigger] s2.chain[i]).header.hash is Some && valid_proof(
                s2.chain[i].header.hash->0,
            ) by {
                if i < s.chain.len() {
                    assert(s2.chain[i] == s.chain[i]);
                }
            }
        },
        None => {},
    }
}

/// Reads the system clock through `std::time::SystemTime::now` and gives the whole
/// seconds since the Unix epoch, or `None` where the clock stands before the epoch.
/// Nothing is claimed of the number.
#[verifier::external_body]
fn unix_time() -> (seconds: Option<u64>) {
    match std::time::SystemTime::now().duration_since(std::time::UNIX_EPOCH) {
        Ok(elapsed) => Some(elapsed.as_secs()),
        Err(_) => None,
    }
}

impl Blockchain {
    /// Mines the pending transactions into a block stamped with the time that the
    /// system clock gives now (0 where the clock stands before the Unix epoch).
    /// See [`Blockchain::mine_at`]: whatever the clock gave, the outcome is that of
    /// mining at some time.
    pub fn mine(&mut self) -> (found: Option<Block>)
        requires
            old(self).wf(),
            tip(old(self)@).header.index < u64::MAX,
        ensures
            final(self).wf(),
            exists|timestamp: u64| mined(old(self)@, timestamp, final(self)@, found.deep_view()),
    {
        let timestamp: u64 = match unix_time() {
            Some(seconds) => seconds,
            None => 0,
        };
        let found = self.mine_at(timestamp);
        assert(mined(old(self)@, timestamp, self@, found.deep_view()));
        found
    }

    /// Mines the pending transactions into a block stamped `timestamp`.
    ///
    /// The pending pool is emptied at the start. Nonces are tried from 0 upwards
    /// until one gives the block a valid proof of work. The block with that nonce
    /// and proof is appended to the chain and returned, and the current set of
    /// outputs is copied into the set that incoming blocks are judged against. If
    /// no nonce up to the largest works, `None` is returned and nothing is appended:
    /// a block without a valid proof never reaches the chain.
    pub fn mine_at(&mut self, timestamp: u64) -> (found: Option<Block>)
        requires
            old(self).wf(),
            tip(old(self)@).header.index < u64::MAX,
        ensures
            final(self).wf(),
            mined(old(self)@, timestamp, final(self)@, found.deep_view()),
    {
        let ghost before = self@;
        let last: usize = self.chain.len() - 1;
        let previous_hash: String = self.chain[last].header.hash.as_ref().unwrap().clone();
        let mut to_add = Block {
            header: Header {
                index: self.chain[last].header.index + 1,
                timestamp,
                previous_hash,
                nonce: 0,
                hash: None,
            },
            transactions: copy_transactions(&self.pending_transactions),
        };
        self.pending_transactions = Vec::new();
        assert(self.pending_transactions.deep_view() =~= Seq::empty());
        let ghost emptied = self@;
        let ghost start = candidate(before, timestamp);
        let ghost prev = tip(before).header;
        assert(emptied == (BlockchainView { pending_transactions: Seq::empty(), ..before }));
        assert(to_add@ == with_nonce(start, 0));
        let mut proof_text = self.gen_proof(&to_add);
        while !Blockchain::is_valid_proof(&proof_text)
            invariant
                self@ == emptied,
                emptied.chain.len() >= 1,
                tip(emptied).header == prev,
                to_add.header.nonce >= 0,
                to_add@ == with_nonce(start, to_add.header.nonce),
                start.header.hash is None,
                proof_text@ == block_proof(prev, to_add@),
                forall|m: i64|
                    0 <= m < to_add.header.nonce ==> !valid_proof(
                        block_proof(prev, #[trigger] with_nonce(start, m)),
                    ),
            ensures
                to_add.header.nonce >= 0,
                to_add@ == with_nonce(start, to_add.header.nonce),
                proof_text@ == block_proof(prev, to_add@),
                forall|m: i64|
                    0 <= m < to_add.header.nonce ==> !valid_proof(
                        block_proof(prev, #[trigger] with_nonce(start, m)),
                    ),
                !valid_proof(proof_text@) ==> to_add.header.nonce == i64::MAX,
            decreases i64::MAX - to_add.header.nonce,
        {
            if to_add.header.nonce == i64::MAX {
                break;
            }
            to_add.increment_nonce();
            assert(to_add@ == with_nonce(start, to_add.header.nonce));
            assert(unsealed(to_add@) == to_add@);
            proof_text = self.gen_proof(&to_add);
        }
        if !Blockchain::is_valid_proof(&proof_text) {
            proof {
                assert forall|m: i64| 0 <= m implies !#[trigger] nonce_works(
                    before,
                    timestamp,
                    m,
                ) by {
                    assert(nonce_works(before, timestamp, m) == valid_proof(
                        block_proof(prev, with_nonce(start, m)),
                    ));
                }
                lemma_mined_consistent(before, timestamp, self@, None);
            }
            return None;
        }
        let ghost nonce = to_add.header.nonce;
        to_add.header.hash = Some(proof_text);
        let ghost shorter = self.chain.deep_view();
        self.chain.push(to_add.clone());
        assert(self.chain.deep_view() =~= shorter.push(to_add@));
        self.utxo_blocked = copy_utxos(&self.utxo_set);
        proof {
            assert(to_add@ == mined_block(before, timestamp, nonce));
            assert forall|m: i64| 0 <= m < nonce implies !#[trigger] nonce_works(
                before,
                timestamp,
                m,
            ) by {
                assert(nonce_works(before, timestamp, m) == valid_proof(
                    block_proof(prev, with_nonce(start, m)),
                ));
            }
            assert(first_nonce(before, timestamp, nonce));
            lemma_mined_consistent(before, timestamp, self@, Some(to_add@));
        }
        Some(to_add)
    }
}

} // verus!
