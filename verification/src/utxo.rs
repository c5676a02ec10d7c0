//! Unspent transaction outputs.

use crate::encoding::{
    append_decimal, decimal, json_string, optional_string_json, sha256, sha256_hex, Canonical,
};
use vstd::prelude::*;
use vstd::string::*;

verus! {

/// An unspent output: who may spend it, how much it holds, and where it came from.
///
/// `hash` identifies the output. It is the digest of the other four fields and is
/// absent only while that digest is being taken.
#[derive(Debug, PartialEq)]
pub struct Utxo {
    pub output: String,
    pub amount: u64,
    pub hash: Option<String>,
    pub txid: String,
    pub index: u32,
}

/// The mathematical value of a [`Utxo`].
pub struct UtxoView {
    pub output: Seq<char>,
    pub amount: u64,
    pub hash: Option<Seq<char>>,
    pub txid: Seq<char>,
    pub index: u32,
}

impl View for Utxo {
    type V = UtxoView;

    open spec fn view(&self) -> UtxoView {
        UtxoView {
            output: self.output@,
            amount: self.amount,
            hash: self.hash.deep_view(),
            txid: self.txid@,
            index: self.index,
        }
    }
}

impl DeepView for Utxo {
    type V = UtxoView;

    open spec fn deep_view(&self) -> UtxoView {
        self@
    }
}

/// The canonical text of an output: a JSON object with the fields in the order
/// `output`, `amount`, `hash`, `txid`, `index`.
pub open spec fn utxo_json(u: UtxoView) -> Seq<char> {
    "{\"output\":"@ + json_string(u.output) + ",\"amount\":"@ + decimal(u.amount as nat)
        + ",\"hash\":"@ + optional_string_json(u.hash) + ",\"txid\":"@ + json_string(u.txid)
        + ",\"index\":"@ + decimal(u.index as nat) + "}"@
}

/// The identifier of the output with the given content: the digest of its canonical
/// text, taken while the identifier itself is absent.
pub open spec fn utxo_id(output: Seq<char>, amount: u64, txid: Seq<char>, index: u32) -> Seq<
    char,
> {
    sha256_hex(utxo_json(UtxoView { output, amount, hash: None, txid, index }))
}

/// The output with the given content, identifier included.
pub open spec fn utxo_of(output: Seq<char>, amount: u64, txid: Seq<char>, index: u32) -> UtxoView {
    UtxoView { output, amount, hash: Some(utxo_id(output, amount, txid, index)), txid, index }
}

impl Canonical for Utxo {
    open spec fn canonical(&self) -> Seq<char> {
        utxo_json(self@)
    }

    fn append_json(&self, out: &mut String) {
        out.append("{\"output\":");
        self.output.append_json(out);
        out.append(",\"amount\":");
        append_decimal(out, self.amount);
        out.append(",\"hash\":");
        self.hash.append_json(out);
        out.append(",\"txid\":");
        self.txid.append_json(out);
        out.append(",\"index\":");
        append_decimal(out, self.index as u64);
        out.append("}");
        assert(out@ =~= old(out)@ + utxo_json(self@));
    }
}

impl Clone for Utxo {
    fn clone(&self) -> (copy: Self)
        ensures
            copy@ == self@,
    {
        let hash = match &self.hash {
            Some(h) => Some(h.clone()),
            None => None,
        };
        Utxo {
            output: self.output.clone(),
            amount: self.amount,
            hash,
            txid: self.txid.clone(),
            index: self.index,
        }
    }
}

/// A copy of a list of outputs.
pub fn copy_utxos(items: &Vec<Utxo>) -> (copy: Vec<Utxo>)
    ensures
        copy.deep_view() == items.deep_view(),
{
    let mut copy: Vec<Utxo> = Vec::new();
    let mut i: usize = 0;
    while i < items.len()
        invariant
            i <= items.len(),
            copy.len() == i,
            forall|j: int| 0 <= j < i ==> copy@[j]@ == items@[j]@,
        decreases items.len() - i,
    {
        copy.push(items[i].clone());
        i = i + 1;
    }
    assert(copy.deep_view() =~= items.deep_view());
    copy
}

impl Utxo {
    /// Makes the output with the given content and gives it its identifier.
    pub fn new(output: String, amount: u64, txid: String, index: u32) -> (utxo: Self)
        ensures
            utxo@ == utxo_of(output@, amount, txid@, index),
    {
        let id = Utxo::hash(output.clone(), amount, txid.clone(), index);
        Utxo { output, amount, hash: Some(id), txid, index }
    }

    /// The digest of the canonical text of the content, taken with no identifier in it.
    fn hash(output: String, amount: u64, txid: String, index: u32) -> (id: String)
        ensures
            id@ == utxo_id(output@, amount, txid@, index),
    {
        let bare = Utxo { output, amount, hash: None, txid, index };
        let mut json = String::new();
        bare.append_json(&mut json);
        assert(json@ =~= utxo_json(bare@));
        sha256(json.as_str())
    }
}

} // verus!
