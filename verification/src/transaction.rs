//! Transactions: the outputs they consume and the outputs they create.

use crate::encoding::{
    append_array, append_decimal, array_json, canonical_texts, decimal, json_string,
    optional_string_json, sha256, sha256_hex, Canonical,
};
use crate::utxo::{utxo_of, UtxoView};
use vstd::prelude::*;
use vstd::string::*;

verus! {

/// A transfer of value: the identifiers of the outputs it consumes, and the
/// receivers with their amounts.
///
/// `txid` identifies the transaction. It is the digest of the inputs and outputs
/// and is absent only while that digest is being taken.
#[derive(Debug, PartialEq)]
pub struct Transaction {
    pub input: Vec<String>,
    pub output: Vec<(String, u64)>,
    pub txid: Option<String>,
}

/// The mathematical value of a [`Transaction`].
pub struct TransactionView {
    pub input: Seq<Seq<char>>,
    pub output: Seq<(Seq<char>, u64)>,
    pub txid: Option<Seq<char>>,
}

impl View for Transaction {
    type V = TransactionView;

    open spec fn view(&self) -> TransactionView {
        TransactionView {
            input: self.input.deep_view(),
            output: self.output.deep_view(),
            txid: self.txid.deep_view(),
        }
    }
}

impl DeepView for Transaction {
    type V = TransactionView;

    open spec fn deep_view(&self) -> TransactionView {
        self@
    }
}

/// The canonical text of one receiver with its amount: a JSON array of two items.
pub open spec fn output_json(o: (Seq<char>, u64)) -> Seq<char> {
    seq!['['] + json_string(o.0) + seq![','] + decimal(o.1 as nat) + seq![']']
}

/// The canonical text of a transaction: a JSON object with the fields in the order
/// `input`, `output`, `txid`.
pub open spec fn transaction_json(tx: TransactionView) -> Seq<char> {
    "{\"input\":"@ + array_json(tx.input.map_values(|id: Seq<char>| json_string(id)))
        + ",\"output\":"@ + array_json(
        tx.output.map_values(|o: (Seq<char>, u64)| output_json(o)),
    ) + ",\"txid\":"@ + optional_string_json(tx.txid) + "}"@
}

/// The identifier of the transaction with the given inputs and outputs: the digest
/// of its canonical text, taken while the identifier itself is absent.
pub open spec fn transaction_id(input: Seq<Seq<char>>, output: Seq<(Seq<char>, u64)>) -> Seq<
    char,
> {
    sha256_hex(transaction_json(TransactionView { input, output, txid: None }))
}

/// The largest number of outputs that a transaction can hold: the position of an
/// output within its transaction is a `u32`.
pub open spec fn max_outputs() -> int {
    u32::MAX as int + 1
}

/// A transaction that can be admitted: it carries its identifier, and each of its
/// outputs has a position.
pub open spec fn well_formed(tx: TransactionView) -> bool {
    tx.txid is Some && tx.output.len() <= max_outputs()
}

/// The outputs that a transaction creates: one for each receiver, in order, tagged
/// with the transaction's identifier and the receiver's position.
pub open spec fn minted(tx: TransactionView) -> Seq<UtxoView>
    recommends
        well_formed(tx),
{
    Seq::new(
        tx.output.len(),
        |i: int| utxo_of(tx.output[i].0, tx.output[i].1, tx.txid->0, i as u32),
    )
}

/// The sum of the amounts that a list of receivers is to get.
pub open spec fn total_output(output: Seq<(Seq<char>, u64)>) -> nat
    decreases output.len(),
{
    if output.len() == 0 {
        0
    } else {
        total_output(output.drop_last()) + output.last().1 as nat
    }
}

impl Canonical for (String, u64) {
    open spec fn canonical(&self) -> Seq<char> {
        output_json(self.deep_view())
    }

    fn append_json(&self, out: &mut String) {
        proof {
            reveal_strlit("[");
            reveal_strlit(",");
            reveal_strlit("]");
        }
        out.append("[");
        self.0.append_json(out);
        out.append(",");
        append_decimal(out, self.1);
        out.append("]");
        assert(out@ =~= old(out)@ + output_json(self.deep_view()));
    }
}

impl Canonical for Transaction {
    open spec fn canonical(&self) -> Seq<char> {
        transaction_json(self@)
    }

    fn append_json(&self, out: &mut String) {
        out.append("{\"input\":");
        append_array(out, &self.input);
        out.append(",\"output\":");
        append_array(out, &self.output);
        out.append(",\"txid\":");
        self.txid.append_json(out);
        out.append("}");
        proof {
            assert(canonical_texts(self.input@) =~= self@.input.map_values(
                |id: Seq<char>| json_string(id),
            ));
            assert(canonical_texts(self.output@) =~= self@.output.map_values(
                |o: (Seq<char>, u64)| output_json(o),
            ));
            assert(out@ =~= old(out)@ + transaction_json(self@));
        }
    }
}

/// Whether two lists of identifiers hold the same identifiers in the same order.
pub fn same_strings(a: &Vec<String>, b: &Vec<String>) -> (same: bool)
    ensures
        same == (a.deep_view() == b.deep_view()),
{
    if a.len() != b.len() {
        assert(a.deep_view().len() != b.deep_view().len());
        return false;
    }
    let mut i: usize = 0;
    while i < a.len()
        invariant
            i <= a.len(),
            a.len() == b.len(),
            forall|j: int| 0 <= j < i ==> a@[j]@ == b@[j]@,
        decreases a.len() - i,
    {
        if a[i] != b[i] {
            assert(a.deep_view()[i as int] != b.deep_view()[i as int]);
            return false;
        }
        i = i + 1;
    }
    assert(a.deep_view() =~= b.deep_view());
    true
}

/// Whether two lists of receivers hold the same receivers and amounts in the same
/// order.
pub fn same_outputs(a: &Vec<(String, u64)>, b: &Vec<(String, u64)>) -> (same: bool)
    ensures
        same == (a.deep_view() == b.deep_view()),
{
    if a.len() != b.len() {
        assert(a.deep_view().len() != b.deep_view().len());
        return false;
    }
    let mut i: usize = 0;
    while i < a.len()
        invariant
            i <= a.len(),
            a.len() == b.len(),
            forall|j: int| 0 <= j < i ==> a@[j].deep_view() == b@[j].deep_view(),
        decreases a.len() - i,
    {
        if a[i].0 != b[i].0 || a[i].1 != b[i].1 {
            assert(a.deep_view()[i as int] != b.deep_view()[i as int]);
            return false;
        }
        i = i + 1;
    }
    assert(a.deep_view() =~= b.deep_view());
    true
}

/// Whether two optional strings are both absent or hold the same text.
pub fn same_optional(a: &Option<String>, b: &Option<String>) -> (same: bool)
    ensures
        same == (a.deep_view() == b.deep_view()),
{
    match a {
        Some(x) => match b {
            Some(y) => *x == *y,
            None => false,
        },
        None => b.is_none(),
    }
}

/// A copy of a list of identifiers.
pub fn copy_strings(items: &Vec<String>) -> (copy: Vec<String>)
    ensures
        copy.deep_view() == items.deep_view(),
{
    let mut copy: Vec<String> = Vec::new();
    let mut i: usize = 0;
    while i < items.len()
        invariant
            i <= items.len(),
            copy.len() == i,
            forall|j: int| 0 <= j < i ==> copy@[j]@ == items@[j]@,
        decreases items.len() - i,
    {
        copy.push(items[i].clone());
        i = i + 1;
    }
    assert(copy.deep_view() =~= items.deep_view());
    copy
}

/// A copy of a list of receivers.
pub fn copy_outputs(items: &Vec<(String, u64)>) -> (copy: Vec<(String, u64)>)
    ensures
        copy.deep_view() == items.deep_view(),
{
    let mut copy: Vec<(String, u64)> = Vec::new();
    let mut i: usize = 0;
    while i < items.len()
        invariant
            i <= items.len(),
            copy.len() == i,
            forall|j: int| 0 <= j < i ==> copy@[j].deep_view() == items@[j].deep_view(),
        decreases items.len() - i,
    {
        copy.push((items[i].0.clone(), items[i].1));
        i = i + 1;
    }
    assert(copy.deep_view() =~= items.deep_view());
    copy
}

impl Clone for Transaction {
    fn clone(&self) -> (copy: Self)
        ensures
            copy@ == self@,
    {
        let txid = match &self.txid {
            Some(id) => Some(id.clone()),
            None => None,
        };
        Transaction {
            input: copy_strings(&self.input),
            output: copy_outputs(&self.output),
            txid,
        }
    }
}

impl Transaction {
    /// Makes the transaction with the given inputs and outputs and gives it its
    /// identifier.
    pub fn new(input: Vec<String>, output: Vec<(String, u64)>) -> (tx: Self)
        ensures
            tx@.input == input.deep_view(),
            tx@.output == output.deep_view(),
            tx@.txid == Some(transaction_id(input.deep_view(), output.deep_view())),
    {
        let id = Transaction::hash(copy_strings(&input), copy_outputs(&output));
        Transaction { input, output, txid: Some(id) }
    }

    /// The digest of the canonical text of the inputs and outputs, taken with no
    /// identifier in it.
    fn hash(input: Vec<String>, output: Vec<(String, u64)>) -> (id: String)
        ensures
            id@ == transaction_id(input.deep_view(), output.deep_view()),
    {
        let bare = Transaction { input, output, txid: None };
        let mut json = String::new();
        bare.append_json(&mut json);
        assert(json@ =~= transaction_json(bare@));
        sha256(json.as_str())
    }

    /// Whether the two transactions have the same inputs, outputs and identifier.
    pub fn same_as(&self, other: &Transaction) -> (same: bool)
        ensures
            same == (self@ == other@),
    {
        same_strings(&self.input, &other.input) && same_outputs(&self.output, &other.output)
            && same_optional(&self.txid, &other.txid)
    }

    /// Whether the transaction can be admitted: it carries its identifier and each
    /// of its outputs has a position.
    pub fn is_well_formed(&self) -> (ok: bool)
        ensures
            ok == well_formed(self@),
    {
        self.txid.is_some() && self.output.len() as u64 <= 0x1_0000_0000u64
    }
}

} // verus!
