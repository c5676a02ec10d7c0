//! The consensus engine: the chain, the pool of pending transactions and the two
//! sets of unspent outputs, with the rules that admit transactions and blocks.

use crate::block::{
    block_json, copy_blocks, copy_transactions, header_json, unsealed, Block, BlockView, Header,
    HeaderView,
};
use crate::encoding::{
    append_array, array_json, canonical_texts, ends_with, sha256, sha256_hex, text_ends_with,
    Canonical,
};
use crate::ledger::{
    after_transaction, all_identified, consumed_by, funded, lemma_minted_value, lemma_unspent,
    spendable, unspent,
};
use crate::transaction::{
    minted, total_output, transaction_id, transaction_json, well_formed, Transaction,
    TransactionView,
};
use crate::utxo::{copy_utxos, utxo_json, utxo_of, Utxo, UtxoView};
use vstd::prelude::*;
use vstd::string::*;

verus! {

/// The whole state of a node's ledger.
///
/// `utxo_set` is the current set of unspent outputs, with the effects of the
/// pending transactions in it. `utxo_blocked` is the set as it stood when this node
/// last mined a block; the transactions of incoming blocks are judged against it.
#[derive(Debug)]
pub struct Blockchain {
    pub chain: Vec<Block>,
    pub pending_transactions: Vec<Transaction>,
    pub utxo_set: Vec<Utxo>,
    pub utxo_blocked: Vec<Utxo>,
}

/// The mathematical value of a [`Blockchain`].
pub struct BlockchainView {
    pub chain: Seq<BlockView>,
    pub pending_transactions: Seq<TransactionView>,
    pub utxo_set: Seq<UtxoView>,
    pub utxo_blocked: Seq<UtxoView>,
}

impl View for Blockchain {
    type V = BlockchainView;

    open spec fn view(&self) -> BlockchainView {
        BlockchainView {
            chain: self.chain.deep_view(),
            pending_transactions: self.pending_transactions.deep_view(),
            utxo_set: self.utxo_set.deep_view(),
            utxo_blocked: self.utxo_blocked.deep_view(),
        }
    }
}

impl DeepView for Blockchain {
    type V = BlockchainView;

    open spec fn deep_view(&self) -> BlockchainView {
        self@
    }
}

/// The canonical text of the whole state: a JSON object with the fields in the order
/// `chain`, `pending_transactions`, `utxo_set`, `utxo_blocked`.
pub open spec fn blockchain_json(s: BlockchainView) -> Seq<char> {
    "{\"chain\":"@ + array_json(s.chain.map_values(|b: BlockView| block_json(b)))
        + ",\"pending_transactions\":"@ + array_json(
        s.pending_transactions.map_values(|tx: TransactionView| transaction_json(tx)),
    ) + ",\"utxo_set\":"@ + array_json(s.utxo_set.map_values(|u: UtxoView| utxo_json(u)))
        + ",\"utxo_blocked\":"@ + array_json(
        s.utxo_blocked.map_values(|u: UtxoView| utxo_json(u)),
    ) + "}"@
}

impl Canonical for Blockchain {
    open spec fn canonical(&self) -> Seq<char> {
        blockchain_json(self@)
    }

    fn append_json(&self, out: &mut String) {
        out.append("{\"chain\":");
        append_array(out, &self.chain);
        out.append(",\"pending_transactions\":");
        append_array(out, &self.pending_transactions);
        out.append(",\"utxo_set\":");
        append_array(out, &self.utxo_set);
        out.append(",\"utxo_blocked\":");
        append_array(out, &self.utxo_blocked);
        out.append("}");
        proof {
            assert(canonical_texts(self.chain@) =~= self@.chain.map_values(
                |b: BlockView| block_json(b),
            ));
            assert(canonical_texts(self.pending_transactions@)
                =~= self@.pending_transactions.map_values(
                |tx: TransactionView| transaction_json(tx),
            ));
            assert(canonical_texts(self.utxo_set@) =~= self@.utxo_set.map_values(
                |u: UtxoView| utxo_json(u),
            ));
            assert(canonical_texts(self.utxo_blocked@) =~= self@.utxo_blocked.map_values(
                |u: UtxoView| utxo_json(u),
            ));
            assert(out@ =~= old(out)@ + blockchain_json(self@));
        }
    }
}

/// The suffix that the text of a proof of work must end with. Its length is the
/// difficulty of mining.
pub open spec fn proof_suffix() -> Seq<char> {
    seq!['0', '0']
}

/// The proof-of-work predicate: the hash ends with the suffix.
pub open spec fn valid_proof(hash: Seq<char>) -> bool {
    ends_with(hash, proof_suffix())
}

/// The proof of work of a block that follows the header `prev`: the digest of the
/// text of `prev` followed by the text of the block without its hash.
pub open spec fn block_proof(prev: HeaderView, b: BlockView) -> Seq<char> {
    sha256_hex(header_json(prev) + block_json(unsealed(b)))
}

/// The block may follow the header `prev`: its hash is the proof of work taken over
/// `prev` and itself, the proof is valid, and its height is the next one.
pub open spec fn follows(prev: HeaderView, b: BlockView) -> bool {
    &&& b.header.hash == Some(block_proof(prev, b))
    &&& valid_proof(block_proof(prev, b))
    &&& b.header.index == prev.index + 1
}

/// The transaction that the first block holds: it consumes nothing and issues the
/// whole supply to one owner.
pub open spec fn genesis_transaction() -> TransactionView {
    let output = seq![("owner"@, 1000u64)];
    TransactionView {
        input: Seq::empty(),
        output,
        txid: Some(transaction_id(Seq::empty(), output)),
    }
}

/// The one output that exists before any transfer.
pub open spec fn genesis_utxo() -> UtxoView {
    utxo_of("owner"@, 1000, genesis_transaction().txid->0, 0)
}

/// The first block of every chain.
pub open spec fn genesis_block() -> BlockView {
    BlockView {
        header: HeaderView {
            index: 1,
            timestamp: 0,
            previous_hash: "1"@,
            nonce: 0,
            hash: Some("000"@),
        },
        transactions: seq![genesis_transaction()],
    }
}

/// The state that every node starts from.
pub open spec fn genesis() -> BlockchainView {
    BlockchainView {
        chain: seq![genesis_block()],
        pending_transactions: Seq::empty(),
        utxo_set: seq![genesis_utxo()],
        utxo_blocked: seq![genesis_utxo()],
    }
}

/// What holds of every state that the engine reaches: the chain has a first block;
/// every block carries a valid proof of work; every block after the first follows
/// the one before it; every pending transaction is well formed; every unspent
/// output carries its identifier.
pub open spec fn consistent(s: BlockchainView) -> bool {
    &&& s.chain.len() >= 1
    &&& forall|i: int|
        0 <= i < s.chain.len() ==> (#[trigger] s.chain[i]).header.hash is Some && valid_proof(
            s.chain[i].header.hash->0,
        )
    &&& forall|i: int|
        1 <= i < s.chain.len() ==> follows(s.chain[i - 1].header, #[trigger] s.chain[i])
    &&& forall|j: int|
        0 <= j < s.pending_transactions.len() ==> well_formed(#[trigger] s.pending_transactions[j])
    &&& all_identified(s.utxo_set)
    &&& all_identified(s.utxo_blocked)
}

/// The state that every node starts from is consistent.
pub proof fn lemma_genesis_consistent()
    ensures
        consistent(genesis()),
{
    reveal_strlit("000");
    assert("000"@.subrange(1, 3) =~= proof_suffix());
}

/// The last block of the chain.
pub open spec fn tip(s: BlockchainView) -> BlockView
    recommends
        s.chain.len() >= 1,
{
    s.chain.last()
}

/// The state after `tx` is admitted: the outputs that it names leave the current
/// set, the outputs that it creates enter it, and `tx` joins the pending pool.
pub open spec fn admitted(s: BlockchainView, tx: TransactionView) -> BlockchainView {
    BlockchainView {
        utxo_set: after_transaction(s.utxo_set, tx),
        pending_transactions: s.pending_transactions.push(tx),
        ..s
    }
}

/// The state after each of `txs` is admitted, in order.
pub open spec fn admitted_all(s: BlockchainView, txs: Seq<TransactionView>) -> BlockchainView
    decreases txs.len(),
{
    if txs.len() == 0 {
        s
    } else {
        admitted(admitted_all(s, txs.drop_last()), txs.last())
    }
}

/// Admitting a well-formed transaction keeps a consistent state consistent, and
/// touches neither the chain nor the set that blocks are judged against.
pub proof fn lemma_admitted_consistent(s: BlockchainView, tx: TransactionView)
    requires
        consistent(s),
        well_formed(tx),
    ensures
        consistent(admitted(s, tx)),
        admitted(s, tx).chain == s.chain,
        admitted(s, tx).utxo_blocked == s.utxo_blocked,
{
    lemma_unspent(s.utxo_set, tx.input);
    lemma_minted_value(tx);
}

/// The block may be appended to the state: it follows the tip, and each of its
/// transactions, taken alone, is funded by the set that blocks are judged against.
pub open spec fn block_acceptable(s: BlockchainView, b: BlockView) -> bool {
    &&& follows(tip(s).header, b)
    &&& forall|j: int|
        0 <= j < b.transactions.len() ==> funded(#[trigger] b.transactions[j], s.utxo_blocked)
}

/// The transactions of `pending` that are not among `confirmed`, in their order.
pub open spec fn outstanding(pending: Seq<TransactionView>, confirmed: Seq<TransactionView>) -> Seq<
    TransactionView,
>
    decreases pending.len(),
{
    if pending.len() == 0 {
        Seq::empty()
    } else if confirmed.contains(pending.last()) {
        outstanding(pending.drop_last(), confirmed)
    } else {
        outstanding(pending.drop_last(), confirmed).push(pending.last())
    }
}

/// The state after an acceptable block is appended: the pending transactions that
/// the block confirms leave the pool; each of the others is admitted once more, on
/// top of the pool that still holds it; and the block stands at the end of the
/// chain.
pub open spec fn after_block(s: BlockchainView, b: BlockView) -> BlockchainView {
    let kept = outstanding(s.pending_transactions, b.transactions);
    let again = admitted_all(BlockchainView { pending_transactions: kept, ..s }, kept);
    BlockchainView { chain: s.chain.push(b), ..again }
}

/// Every outstanding transaction was pending, so it is well formed where the
/// pending ones are.
pub proof fn lemma_outstanding(pending: Seq<TransactionView>, confirmed: Seq<TransactionView>)
    requires
        forall|j: int| 0 <= j < pending.len() ==> well_formed(#[trigger] pending[j]),
    ensures
        forall|k: int|
            0 <= k < outstanding(pending, confirmed).len() ==> well_formed(
                #[trigger] outstanding(pending, confirmed)[k],
            ) && !confirmed.contains(outstanding(pending, confirmed)[k]),
    decreases pending.len(),
{
    if pending.len() > 0 {
        let rest = pending.drop_last();
        assert forall|j: int| 0 <= j < rest.len() implies well_formed(#[trigger] rest[j]) by {
            assert(rest[j] == pending[j]);
        }
        lemma_outstanding(rest, confirmed);
        assert(well_formed(pending[pending.len() - 1]));
        let kept = outstanding(pending, confirmed);
        let kept_rest = outstanding(rest, confirmed);
        assert forall|k: int| 0 <= k < kept.len() implies well_formed(#[trigger] kept[k])
            && !confirmed.contains(kept[k]) by {
            if k < kept_rest.len() {
                assert(kept[k] == kept_rest[k]);
            } else {
                assert(kept[k] == pending.last());
            }
        }
    }
}

/// Admitting well-formed transactions one after another keeps a consistent state
/// consistent, and touches neither the chain nor the set that blocks are judged
/// against.
pub proof fn lemma_admitted_all_consistent(s: BlockchainView, txs: Seq<TransactionView>)
    requires
        consistent(s),
        forall|j: int| 0 <= j < txs.len() ==> well_formed(#[trigger] txs[j]),
    ensures
        consistent(admitted_all(s, txs)),
        admitted_all(s, txs).chain == s.chain,
        admitted_all(s, txs).utxo_blocked == s.utxo_blocked,
    decreases txs.len(),
{
    if txs.len() > 0 {
        let rest = txs.drop_last();
        assert forall|j: int| 0 <= j < rest.len() implies well_formed(#[trigger] rest[j]) by {
            assert(rest[j] == txs[j]);
        }
        lemma_admitted_all_consistent(s, rest);
        assert(well_formed(txs[txs.len() - 1]));
        lemma_admitted_consistent(admitted_all(s, rest), txs.last());
    }
}

/// A block that follows the tip of a consistent state can be appended: the state
/// stays consistent.
pub proof fn lemma_push_block_consistent(s: BlockchainView, b: BlockView)
    requires
        consistent(s),
        follows(tip(s).header, b),
    ensures
        consistent(BlockchainView { chain: s.chain.push(b), ..s }),
{
    let s2 = BlockchainView { chain: s.chain.push(b), ..s };
    assert forall|i: int| 1 <= i < s2.chain.len() implies follows(
        s2.chain[i - 1].header,
        #[trigger] s2.chain[i],
    ) by {
        if i < s.chain.len() {
            assert(s2.chain[i] == s.chain[i]);
            assert(s2.chain[i - 1] == s.chain[i - 1]);
        }
    }
    assert forall|i: int| 0 <= i < s2.chain.len() implies (#[trigger] s2.chain[i]).header.hash
        is Some && valid_proof(s2.chain[i].header.hash->0) by {
        if i < s.chain.len() {
            assert(s2.chain[i] == s.chain[i]);
        }
    }
}

/// The state after an acceptable block is consistent, and the block is its tip.
pub proof fn lemma_after_block_consistent(s: BlockchainView, b: BlockView)
    requires
        consistent(s),
        block_acceptable(s, b),
    ensures
        consistent(after_block(s, b)),
        tip(after_block(s, b)) == b,
        after_block(s, b).chain == s.chain.push(b),
        after_block(s, b).utxo_blocked == s.utxo_blocked,
{
    let kept = outstanding(s.pending_transactions, b.transactions);
    lemma_outstanding(s.pending_transactions, b.transactions);
    let base = BlockchainView { pending_transactions: kept, ..s };
    lemma_admitted_all_consistent(base, kept);
    lemma_push_block_consistent(admitted_all(base, kept), b);
}

/// The proof of work of `b`, as it is, as a block that follows the header `prev`.
pub fn proof_over(prev: &Header, b: &Block) -> (proof_text: String)
    ensures
        proof_text@ == sha256_hex(header_json(prev@) + block_json(b@)),
{
    let mut text = String::new();
    prev.append_json(&mut text);
    b.append_json(&mut text);
    assert(text@ =~= header_json(prev@) + block_json(b@));
    sha256(text.as_str())
}

/// Whether `b` may follow the header `prev`.
pub fn block_follows(prev: &Header, b: &Block) -> (valid: bool)
    ensures
        valid == follows(prev@, b@),
{
    let claimed = match &b.header.hash {
        Some(hash) => hash,
        None => {
            return false;
        },
    };
    let mut new_block = b.clone();
    new_block.header.hash = None;
    assert(new_block@ == unsealed(b@));
    let recomputed = proof_over(prev, &new_block);
    *claimed == recomputed && Blockchain::is_valid_proof(claimed) && prev.index < u64::MAX
        && b.header.index == prev.index + 1
}

/// Whether every output in `utxos` carries its identifier.
pub fn utxos_identified(utxos: &Vec<Utxo>) -> (all: bool)
    ensures
        all == all_identified(utxos.deep_view()),
{
    let mut i: usize = 0;
    while i < utxos.len()
        invariant
            i <= utxos.len(),
            forall|k: int| 0 <= k < i ==> (#[trigger] utxos.deep_view()[k]).hash is Some,
        decreases utxos.len() - i,
    {
        if utxos[i].hash.is_none() {
            assert(utxos.deep_view()[i as int].hash is None);
            return false;
        }
        i = i + 1;
    }
    true
}

/// Whether a transaction equal to `tx` stands in `list`.
pub fn contains_transaction(list: &Vec<Transaction>, tx: &Transaction) -> (found: bool)
    ensures
        found == list.deep_view().contains(tx@),
{
    let mut i: usize = 0;
    while i < list.len()
        invariant
            i <= list.len(),
            forall|j: int| 0 <= j < i ==> list@[j]@ != tx@,
        decreases list.len() - i,
    {
        if list[i].same_as(tx) {
            assert(list.deep_view()[i as int] == tx@);
            return true;
        }
        i = i + 1;
    }
    assert forall|j: int| 0 <= j < list.deep_view().len() implies list.deep_view()[j] != tx@ by {
        assert(list@[j]@ != tx@);
    }
    false
}

/// Whether `id` stands in `list`.
pub fn contains_string(list: &Vec<String>, id: &String) -> (found: bool)
    ensures
        found == list.deep_view().contains(id@),
{
    let mut i: usize = 0;
    while i < list.len()
        invariant
            i <= list.len(),
            forall|j: int| 0 <= j < i ==> list@[j]@ != id@,
        decreases list.len() - i,
    {
        if list[i] == *id {
            assert(list.deep_view()[i as int] == id@);
            return true;
        }
        i = i + 1;
    }
    assert forall|j: int| 0 <= j < list.deep_view().len() implies list.deep_view()[j] != id@ by {
        assert(list@[j]@ != id@);
    }
    false
}

impl Clone for Blockchain {
    fn clone(&self) -> (copy: Self)
        ensures
            copy@ == self@,
    {
        Blockchain {
            chain: copy_blocks(&self.chain),
            pending_transactions: copy_transactions(&self.pending_transactions),
            utxo_set: copy_utxos(&self.utxo_set),
            utxo_blocked: copy_utxos(&self.utxo_blocked),
        }
    }
}

impl Blockchain {
    /// The state is one that the engine can work on. See [`consistent`].
    pub open spec fn wf(&self) -> bool {
        consistent(self@)
    }

    /// The state that every node starts from: the first block, which issues 1000
    /// units to `owner`, and nothing pending.
    pub fn new() -> (chain: Self)
        ensures
            chain@ == genesis(),
            chain.wf(),
    {
        let mut receivers: Vec<(String, u64)> = Vec::new();
        receivers.push(("owner".to_owned(), 1000));
        assert(receivers.deep_view() =~= seq![("owner"@, 1000u64)]);
        let coinbase_tx = Transaction::new(Vec::new(), receivers);
        assert(coinbase_tx@.input =~= Seq::empty());
        assert(coinbase_tx@ == genesis_transaction());
        let coinbase_id = match &coinbase_tx.txid {
            Some(id) => id.clone(),
            None => String::new(),
        };
        let coinbase_utxo = Utxo::new("owner".to_owned(), 1000, coinbase_id, 0);
        let mut transactions: Vec<Transaction> = Vec::new();
        transactions.push(coinbase_tx);
        let first = Block {
            header: Header {
                index: 1,
                timestamp: 0,
                previous_hash: "1".to_owned(),
                nonce: 0,
                hash: Some("000".to_owned()),
            },
            transactions,
        };
        assert(first@.transactions =~= seq![genesis_transaction()]);
        let mut chain: Vec<Block> = Vec::new();
        chain.push(first);
        let mut utxo_set: Vec<Utxo> = Vec::new();
        utxo_set.push(coinbase_utxo.clone());
        let mut utxo_blocked: Vec<Utxo> = Vec::new();
        utxo_blocked.push(coinbase_utxo);
        let state = Blockchain { chain, pending_transactions: Vec::new(), utxo_set, utxo_blocked };
        proof {
            reveal_strlit("000");
            assert(state@.chain =~= seq![genesis_block()]);
            assert(state@.pending_transactions =~= Seq::empty());
            assert(state@.utxo_set =~= seq![genesis_utxo()]);
            assert(state@.utxo_blocked =~= seq![genesis_utxo()]);
            assert("000"@.subrange(1, 3) =~= proof_suffix());
        }
        state
    }

    /// Whether the state is one that the engine can work on: a state that was put
    /// together from outside, such as one received from a peer, is checked here
    /// before the engine is asked to work on it.
    pub fn is_consistent(&self) -> (ok: bool)
        ensures
            ok == self.wf(),
    {
        if self.chain.len() == 0 {
            return false;
        }
        let mut i: usize = 0;
        while i < self.chain.len()
            invariant
                i <= self.chain.len(),
                forall|m: int|
                    0 <= m < i ==> (#[trigger] self@.chain[m]).header.hash is Some && valid_proof(
                        self@.chain[m].header.hash->0,
                    ),
                forall|m: int|
                    1 <= m < i ==> follows(self@.chain[m - 1].header, #[trigger] self@.chain[m]),
            decreases self.chain.len() - i,
        {
            let proven = match &self.chain[i].header.hash {
                Some(hash) => Blockchain::is_valid_proof(hash),
                None => false,
            };
            if !proven {
                assert(!(self@.chain[i as int].header.hash is Some && valid_proof(
                    self@.chain[i as int].header.hash->0,
                )));
                return false;
            }
            if i > 0 && !block_follows(&self.chain[i - 1].header, &self.chain[i]) {
                assert(!follows(self@.chain[i as int - 1].header, self@.chain[i as int]));
                return false;
            }
            i = i + 1;
        }
        let mut j: usize = 0;
        while j < self.pending_transactions.len()
            invariant
                j <= self.pending_transactions.len(),
                forall|m: int| 0 <= m < j ==> well_formed(#[trigger] self@.pending_transactions[m]),
            decreases self.pending_transactions.len() - j,
        {
            if !self.pending_transactions[j].is_well_formed() {
                assert(!well_formed(self@.pending_transactions[j as int]));
                return false;
            }
            j = j + 1;
        }
        utxos_identified(&self.utxo_set) && utxos_identified(&self.utxo_blocked)
    }

    /// The proof of work of `b` as a block that follows the tip of this chain: the
    /// digest of the text of the tip's header followed by the text of `b` as it is.
    pub fn gen_proof(&self, b: &Block) -> (proof_text: String)
        requires
            self.chain@.len() >= 1,
        ensures
            proof_text@ == sha256_hex(header_json(tip(self@).header) + block_json(b@)),
    {
        let last: usize = self.chain.len() - 1;
        proof_over(&self.chain[last].header, b)
    }

    /// Whether `hash` satisfies the proof-of-work predicate.
    pub fn is_valid_proof(hash: &String) -> (valid: bool)
        ensures
            valid == valid_proof(hash@),
    {
        proof {
            reveal_strlit("00");
        }
        assert("00"@ =~= proof_suffix());
        text_ends_with(hash.as_str(), "00")
    }

    /// Whether the inputs of `tx` hold at least as much in `utxos` as its outputs
    /// give away.
    pub fn verify_transaction(&self, tx: &Transaction, utxos: &Vec<Utxo>) -> (valid: bool)
        ensures
            valid == funded(tx@, utxos.deep_view()),
    {
        let mut to_spend: u128 = 0;
        let mut k: usize = 0;
        while k < tx.output.len()
            invariant
                k <= tx.output.len(),
                to_spend == total_output(tx@.output.take(k as int)),
                to_spend <= k * 0xFFFF_FFFF_FFFF_FFFF,
            decreases tx.output.len() - k,
        {
            assert(tx@.output.take(k as int + 1).drop_last() =~= tx@.output.take(k as int));
            assert((k + 1) * 0xFFFF_FFFF_FFFF_FFFF <= 0xFFFF_FFFF_FFFF_FFFF
                * 0xFFFF_FFFF_FFFF_FFFF) by (nonlinear_arith)
                requires
                    k + 1 <= 0xFFFF_FFFF_FFFF_FFFF,
            ;
            to_spend = to_spend + tx.output[k].1 as u128;
            k = k + 1;
        }
        assert(tx@.output.take(k as int) =~= tx@.output);
        let mut valid_funds: u128 = 0;
        let mut i: usize = 0;
        while i < utxos.len()
            invariant
                i <= utxos.len(),
                valid_funds == spendable(tx@.input, utxos.deep_view().take(i as int)),
                valid_funds <= i * 0xFFFF_FFFF_FFFF_FFFF,
            decreases utxos.len() - i,
        {
            assert(utxos.deep_view().take(i as int + 1).drop_last() =~= utxos.deep_view().take(
                i as int,
            ));
            assert((i + 1) * 0xFFFF_FFFF_FFFF_FFFF <= 0xFFFF_FFFF_FFFF_FFFF
                * 0xFFFF_FFFF_FFFF_FFFF) by (nonlinear_arith)
                requires
                    i + 1 <= 0xFFFF_FFFF_FFFF_FFFF,
            ;
            let named = match &utxos[i].hash {
                Some(id) => contains_string(&tx.input, id),
                None => false,
            };
            assert(named == consumed_by(utxos.deep_view()[i as int], tx@.input));
            if named {
                valid_funds = valid_funds + utxos[i].amount as u128;
            }
            i = i + 1;
        }
        assert(utxos.deep_view().take(i as int) =~= utxos.deep_view());
        valid_funds >= to_spend
    }

    /// Whether `b` may follow the tip of this chain: rehashing it without its hash
    /// against the tip's header gives its hash back, the hash is a valid proof of
    /// work, and its height is the tip's plus one.
    pub fn verify_block(&self, b: &Block) -> (valid: bool)
        requires
            self.chain@.len() >= 1,
        ensures
            valid == follows(tip(self@).header, b@),
    {
        let last: usize = self.chain.len() - 1;
        block_follows(&self.chain[last].header, b)
    }

    /// Admits `tx` without judging it: removes from the current set every output
    /// that `tx` names, adds one new output for each receiver of `tx`, and appends
    /// `tx` to the pending pool.
    pub fn create_pending_tx(&mut self, tx: &Transaction)
        requires
            old(self).wf(),
            well_formed(tx@),
        ensures
            final(self)@ == admitted(old(self)@, tx@),
            final(self).wf(),
    {
        let ghost before = self@;
        let mut kept: Vec<Utxo> = Vec::new();
        let mut i: usize = 0;
        while i < self.utxo_set.len()
            invariant
                i <= self.utxo_set.len(),
                self@ == before,
                kept.deep_view() == unspent(before.utxo_set.take(i as int), tx@.input),
            decreases self.utxo_set.len() - i,
        {
            assert(before.utxo_set.take(i as int + 1).drop_last() =~= before.utxo_set.take(
                i as int,
            ));
            let named = match &self.utxo_set[i].hash {
                Some(id) => contains_string(&tx.input, id),
                None => false,
            };
            assert(named == consumed_by(before.utxo_set[i as int], tx@.input));
            if !named {
                let ghost shorter = kept.deep_view();
                kept.push(self.utxo_set[i].clone());
                assert(kept.deep_view() =~= shorter.push(before.utxo_set[i as int]));
            }
            i = i + 1;
        }
        assert(before.utxo_set.take(i as int) =~= before.utxo_set);
        let txid: &String = tx.txid.as_ref().unwrap();
        let mut k: usize = 0;
        while k < tx.output.len()
            invariant
                k <= tx.output.len(),
                well_formed(tx@),
                tx@.txid == Some(txid@),
                kept.deep_view() == unspent(before.utxo_set, tx@.input) + minted(tx@).take(
                    k as int,
                ),
            decreases tx.output.len() - k,
        {
            let ghost shorter = kept.deep_view();
            let receiver = &tx.output[k];
            assert(receiver.deep_view() == tx@.output[k as int]);
            kept.push(Utxo::new(receiver.0.clone(), receiver.1, txid.clone(), k as u32));
            assert(kept.deep_view() =~= shorter.push(minted(tx@)[k as int]));
            assert(minted(tx@).take(k as int + 1) =~= minted(tx@).take(k as int).push(
                minted(tx@)[k as int],
            ));
            k = k + 1;
        }
        assert(minted(tx@).take(k as int) =~= minted(tx@));
        self.utxo_set = kept;
        let ghost pool = self.pending_transactions.deep_view();
        self.pending_transactions.push(tx.clone());
        proof {
            assert(self.pending_transactions.deep_view() =~= pool.push(tx@));
            lemma_admitted_consistent(before, tx@);
        }
    }

    /// Admits `tx` if it can be admitted: if it is well formed and the current set
    /// funds it. Otherwise nothing changes.
    pub fn receive_transaction(&mut self, tx: &Transaction)
        requires
            old(self).wf(),
        ensures
            final(self).wf(),
            final(self)@ == if well_formed(tx@) && funded(tx@, old(self)@.utxo_set) {
                admitted(old(self)@, tx@)
            } else {
                old(self)@
            },
    {
        if tx.is_well_formed() && self.verify_transaction(tx, &self.utxo_set) {
            self.create_pending_tx(tx);
        }
    }

    /// Appends `b` to the chain if it is acceptable; otherwise nothing changes.
    ///
    /// `b` is acceptable if it follows the tip and each of its transactions, taken
    /// alone, is funded by the set of outputs as it stood when this node last
    /// mined. On acceptance the pending transactions that `b` confirms leave the
    /// pool, each of the others is admitted once more, and `b` becomes the tip.
    pub fn receive_block(&mut self, b: Block)
        requires
            old(self).wf(),
        ensures
            final(self).wf(),
            final(self)@ == if block_acceptable(old(self)@, b@) {
                after_block(old(self)@, b@)
            } else {
                old(self)@
            },
    {
        let ghost before = self@;
        let mut valid = self.verify_block(&b);
        let mut j: usize = 0;
        while j < b.transactions.len()
            invariant
                j <= b.transactions.len(),
                self@ == before,
                valid == (follows(tip(before).header, b@) && forall|m: int|
                    0 <= m < j ==> funded(#[trigger] b@.transactions[m], before.utxo_blocked)),
            decreases b.transactions.len() - j,
        {
            let funded_here = self.verify_transaction(&b.transactions[j], &self.utxo_blocked);
            assert(funded_here == funded(b@.transactions[j as int], before.utxo_blocked));
            valid = valid && funded_here;
            j = j + 1;
        }
        assert(valid == block_acceptable(before, b@));
        if valid {
            let ghost pending = before.pending_transactions;
            let mut to_process: Vec<Transaction> = Vec::new();
            let mut i: usize = 0;
            assert(to_process.deep_view() =~= Seq::empty());
            while i < self.pending_transactions.len()
                invariant
                    i <= self.pending_transactions.len(),
                    self@ == before,
                    pending == before.pending_transactions,
                    to_process.deep_view() == outstanding(pending.take(i as int), b@.transactions),
                decreases self.pending_transactions.len() - i,
            {
                assert(pending.take(i as int + 1).drop_last() =~= pending.take(i as int));
                let t = &self.pending_transactions[i];
                assert(t@ == pending[i as int]);
                if !contains_transaction(&b.transactions, t) {
                    let ghost shorter = to_process.deep_view();
                    to_process.push(t.clone());
                    assert(to_process.deep_view() =~= shorter.push(t@));
                }
                i = i + 1;
            }
            assert(pending.take(i as int) =~= pending);
            let ghost kept = to_process.deep_view();
            self.pending_transactions = copy_transactions(&to_process);
            let ghost base = self@;
            proof {
                lemma_outstanding(pending, b@.transactions);
                assert(base == (BlockchainView { pending_transactions: kept, ..before }));
                assert(kept.take(0) =~= Seq::empty());
            }
            let mut k: usize = 0;
            while k < to_process.len()
                invariant
                    k <= to_process.len(),
                    kept == to_process.deep_view(),
                    forall|m: int| 0 <= m < kept.len() ==> well_formed(#[trigger] kept[m]),
                    self.wf(),
                    self@ == admitted_all(base, kept.take(k as int)),
                decreases to_process.len() - k,
            {
                assert(kept.take(k as int + 1).drop_last() =~= kept.take(k as int));
                assert(well_formed(kept[k as int]));
                self.create_pending_tx(&to_process[k]);
                k = k + 1;
            }
            assert(kept.take(k as int) =~= kept);
            let ghost again = self@;
            let ghost shorter = self.chain.deep_view();
            self.chain.push(b);
            proof {
                assert(self.chain.deep_view() =~= shorter.push(b@));
                lemma_admitted_all_consistent(base, kept);
                assert(self@ == after_block(before, b@));
                lemma_after_block_consistent(before, b@);
            }
        }
    }

    /// The number of transactions that wait to be mined.
    pub fn num_pending_tx(&self) -> (count: usize)
        ensures
            count == self@.pending_transactions.len(),
    {
        self.pending_transactions.len()
    }
}

} // verus!
