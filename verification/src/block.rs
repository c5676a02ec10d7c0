//! Blocks and their headers.

use crate::encoding::{
    append_array, append_decimal, append_signed_decimal, array_json, canonical_texts, decimal,
    json_string, optional_string_json, signed_decimal, Canonical,
};
use crate::transaction::{transaction_json, Transaction, TransactionView};
use vstd::prelude::*;
use vstd::string::*;

verus! {

/// The header of a block: its height, when it was made, the hash of the block
/// before it, the nonce that the miner found, and the proof of work.
///
/// `hash` is absent while the block is being mined and present from then on.
#[derive(Debug, PartialEq)]
pub struct Header {
    pub index: u64,
    pub timestamp: u64,
    pub previous_hash: String,
    pub nonce: i64,
    pub hash: Option<String>,
}

/// A header and the transactions that the block confirms.
#[derive(Debug, PartialEq)]
pub struct Block {
    pub header: Header,
    pub transactions: Vec<Transaction>,
}

/// The mathematical value of a [`Header`].
pub struct HeaderView {
    pub index: u64,
    pub timestamp: u64,
    pub previous_hash: Seq<char>,
    pub nonce: i64,
    pub hash: Option<Seq<char>>,
}

/// The mathematical value of a [`Block`].
pub struct BlockView {
    pub header: HeaderView,
    pub transactions: Seq<TransactionView>,
}

impl View for Header {
    type V = HeaderView;

    open spec fn view(&self) -> HeaderView {
        HeaderView {
            index: self.index,
            timestamp: self.timestamp,
            previous_hash: self.previous_hash@,
            nonce: self.nonce,
            hash: self.hash.deep_view(),
        }
    }
}

impl DeepView for Header {
    type V = HeaderView;

    open spec fn deep_view(&self) -> HeaderView {
        self@
    }
}

impl View for Block {
    type V = BlockView;

    open spec fn view(&self) -> BlockView {
        BlockView { header: self.header@, transactions: self.transactions.deep_view() }
    }
}

impl DeepView for Block {
    type V = BlockView;

    open spec fn deep_view(&self) -> BlockView {
        self@
    }
}

/// The canonical text of a header: a JSON object with the fields in the order
/// `index`, `timestamp`, `previous_hash`, `nonce`, `hash`.
pub open spec fn header_json(h: HeaderView) -> Seq<char> {
    "{\"index\":"@ + decimal(h.index as nat) + ",\"timestamp\":"@ + decimal(h.timestamp as nat)
        + ",\"previous_hash\":"@ + json_string(h.previous_hash) + ",\"nonce\":"@
        + signed_decimal(h.nonce as int) + ",\"hash\":"@ + optional_string_json(h.hash) + "}"@
}

/// The canonical text of a block: a JSON object with the header and then the
/// transactions.
pub open spec fn block_json(b: BlockView) -> Seq<char> {
    "{\"header\":"@ + header_json(b.header) + ",\"transactions\":"@ + array_json(
        b.transactions.map_values(|tx: TransactionView| transaction_json(tx)),
    ) + "}"@
}

/// The block with its proof of work taken out, as it is while being mined.
pub open spec fn unsealed(b: BlockView) -> BlockView {
    BlockView { header: HeaderView { hash: None, ..b.header }, transactions: b.transactions }
}

/// The block with the given nonce in place of its own.
pub open spec fn with_nonce(b: BlockView, nonce: i64) -> BlockView {
    BlockView { header: HeaderView { nonce, ..b.header }, transactions: b.transactions }
}

/// The block with the given proof of work in its header.
pub open spec fn sealed(b: BlockView, hash: Seq<char>) -> BlockView {
    BlockView { header: HeaderView { hash: Some(hash), ..b.header }, transactions: b.transactions }
}

impl Canonical for Header {
    open spec fn canonical(&self) -> Seq<char> {
        header_json(self@)
    }

    fn append_json(&self, out: &mut String) {
        out.append("{\"index\":");
        append_decimal(out, self.index);
        out.append(",\"timestamp\":");
        append_decimal(out, self.timestamp);
        out.append(",\"previous_hash\":");
        self.previous_hash.append_json(out);
        out.append(",\"nonce\":");
        append_signed_decimal(out, self.nonce);
        out.append(",\"hash\":");
        self.hash.append_json(out);
        out.append("}");
        assert(out@ =~= old(out)@ + header_json(self@));
    }
}

impl Canonical for Block {
    open spec fn canonical(&self) -> Seq<char> {
        block_json(self@)
    }

    fn append_json(&self, out: &mut String) {
        out.append("{\"header\":");
        self.header.append_json(out);
        out.append(",\"transactions\":");
        append_array(out, &self.transactions);
        out.append("}");
        proof {
            assert(canonical_texts(self.transactions@) =~= self@.transactions.map_values(
                |tx: TransactionView| transaction_json(tx),
            ));
            assert(out@ =~= old(out)@ + block_json(self@));
        }
    }
}

/// A copy of a list of transactions.
pub fn copy_transactions(items: &Vec<Transaction>) -> (copy: Vec<Transaction>)
    ensures
        copy.deep_view() == items.deep_view(),
{
    let mut copy: Vec<Transaction> = Vec::new();
    let mut i: usize = 0;
    while i < items.len()
        invariant
            i <= items.len(),
            copy.len() == i,
            forall|j: int| 0 <= j < i ==> copy@[j]@ == items@[j]@,
        decreases items.len() - i,
    {
        copy.push(items[i].clone());
        i = i + 1;
    }
    assert(copy.deep_view() =~= items.deep_view());
    copy
}

impl Clone for Header {
    fn clone(&self) -> (copy: Self)
        ensures
            copy@ == self@,
    {
        let hash = match &self.hash {
            Some(h) => Some(h.clone()),
            None => None,
        };
        Header {
            index: self.index,
            timestamp: self.timestamp,
            previous_hash: self.previous_hash.clone(),
            nonce: self.nonce,
            hash,
        }
    }
}

impl Clone for Block {
    fn clone(&self) -> (copy: Self)
        ensures
            copy@ == self@,
    {
        Block { header: self.header.clone(), transactions: copy_transactions(&self.transactions) }
    }
}

/// A copy of a list of blocks.
pub fn copy_blocks(items: &Vec<Block>) -> (copy: Vec<Block>)
    ensures
        copy.deep_view() == items.deep_view(),
{
    let mut copy: Vec<Block> = Vec::new();
    let mut i: usize = 0;
    while i < items.len()
        invariant
            i <= items.len(),
            copy.len() == i,
            forall|j: int| 0 <= j < i ==> copy@[j]@ == items@[j]@,
        decreases items.len() - i,
    {
        copy.push(items[i].clone());
        i = i + 1;
    }
    assert(copy.deep_view() =~= items.deep_view());
    copy
}

impl Block {
    /// The canonical text of the block.
    pub fn to_json_string(&self) -> (json: String)
        ensures
            json@ == block_json(self@),
    {
        let mut json = String::new();
        self.append_json(&mut json);
        assert(json@ =~= block_json(self@));
        json
    }

    /// Moves the miner's search on by one nonce.
    pub fn increment_nonce(&mut self)
        requires
            old(self).header.nonce < i64::MAX,
        ensures
            final(self)@ == with_nonce(old(self)@, (old(self).header.nonce + 1) as i64),
    {
        self.header.nonce = self.header.nonce + 1;
    }

    /// The canonical text of the block's header.
    pub fn header_to_json_string(&self) -> (json: String)
        ensures
            json@ == header_json(self@.header),
    {
        let mut json = String::new();
        self.header.append_json(&mut json);
        assert(json@ =~= header_json(self@.header));
        json
    }
}

} // verus!
