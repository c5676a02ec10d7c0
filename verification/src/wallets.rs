//! What each owner holds: the account of the unspent outputs that is shown to the
//! node's user.

use crate::blockchain::{contains_string, Blockchain, BlockchainView};
use crate::encoding::{append_wide_decimal, decimal};
use crate::utxo::{Utxo, UtxoView};
use vstd::prelude::*;
use vstd::string::*;

verus! {

/// The owners of the outputs in `utxos`, each once, in the order in which they
/// first occur.
pub open spec fn owners(utxos: Seq<UtxoView>) -> Seq<Seq<char>>
    decreases utxos.len(),
{
    if utxos.len() == 0 {
        Seq::empty()
    } else {
        let before = owners(utxos.drop_last());
        if before.contains(utxos.last().output) {
            before
        } else {
            before.push(utxos.last().output)
        }
    }
}

/// The sum of the amounts of the outputs in `utxos` that `owner` owns.
pub open spec fn balance(utxos: Seq<UtxoView>, owner: Seq<char>) -> nat
    decreases utxos.len(),
{
    if utxos.len() == 0 {
        0
    } else {
        balance(utxos.drop_last(), owner) + if utxos.last().output == owner {
            utxos.last().amount as nat
        } else {
            0
        }
    }
}

/// One line of the account: the owner, a colon, the balance.
pub open spec fn wallet_line(owner: Seq<char>, amount: nat) -> Seq<char> {
    owner + ": "@ + decimal(amount) + "\n"@
}

/// The lines of the account of `utxos` for the owners `names`, in order.
pub open spec fn wallet_lines(utxos: Seq<UtxoView>, names: Seq<Seq<char>>) -> Seq<char>
    decreases names.len(),
{
    if names.len() == 0 {
        Seq::empty()
    } else {
        wallet_lines(utxos, names.drop_last()) + wallet_line(
            names.last(),
            balance(utxos, names.last()),
        )
    }
}

/// The account of a state: what each owner holds in the current set, and what each
/// held in the set as it stood when the node last mined.
pub open spec fn summary_text(s: BlockchainView) -> Seq<char> {
    "Pending Wallets\n"@ + wallet_lines(s.utxo_set, owners(s.utxo_set)) + "\nBlocked Wallets\n"@
        + wallet_lines(s.utxo_blocked, owners(s.utxo_blocked))
}

/// The owners of the outputs in `utxos`, each once, in the order in which they
/// first occur.
pub fn owners_of(utxos: &Vec<Utxo>) -> (names: Vec<String>)
    ensures
        names.deep_view() == owners(utxos.deep_view()),
{
    let mut names: Vec<String> = Vec::new();
    let mut i: usize = 0;
    assert(names.deep_view() =~= Seq::empty());
    while i < utxos.len()
        invariant
            i <= utxos.len(),
            names.deep_view() == owners(utxos.deep_view().take(i as int)),
        decreases utxos.len() - i,
    {
        assert(utxos.deep_view().take(i as int + 1).drop_last() =~= utxos.deep_view().take(
            i as int,
        ));
        if !contains_string(&names, &utxos[i].output) {
            let ghost shorter = names.deep_view();
            names.push(utxos[i].output.clone());
            assert(names.deep_view() =~= shorter.push(utxos[i as int].output@));
        }
        i = i + 1;
    }
    assert(utxos.deep_view().take(i as int) =~= utxos.deep_view());
    names
}

/// The sum of the amounts of the outputs in `utxos` that `owner` owns.
pub fn balance_of(utxos: &Vec<Utxo>, owner: &String) -> (sum: u128)
    ensures
        sum == balance(utxos.deep_view(), owner@),
{
    let mut sum: u128 = 0;
    let mut i: usize = 0;
    while i < utxos.len()
        invariant
            i <= utxos.len(),
            sum == balance(utxos.deep_view().take(i as int), owner@),
            sum <= i * 0xFFFF_FFFF_FFFF_FFFF,
        decreases utxos.len() - i,
    {
        assert(utxos.deep_view().take(i as int + 1).drop_last() =~= utxos.deep_view().take(
            i as int,
        ));
        assert((i + 1) * 0xFFFF_FFFF_FFFF_FFFF <= 0xFFFF_FFFF_FFFF_FFFF * 0xFFFF_FFFF_FFFF_FFFF)
            by (nonlinear_arith)
            requires
                i + 1 <= 0xFFFF_FFFF_FFFF_FFFF,
        ;
        if utxos[i].output == *owner {
            sum = sum + utxos[i].amount as u128;
        }
        i = i + 1;
    }
    assert(utxos.deep_view().take(i as int) =~= utxos.deep_view());
    sum
}

/// Appends the account of `utxos` to `out`, one line for each owner.
pub fn append_wallets(out: &mut String, utxos: &Vec<Utxo>)
    ensures
        final(out)@ == old(out)@ + wallet_lines(utxos.deep_view(), owners(utxos.deep_view())),
{
    let names = owners_of(utxos);
    let ghost all = names.deep_view();
    let mut i: usize = 0;
    assert(out@ =~= old(out)@ + wallet_lines(utxos.deep_view(), all.take(0)));
    while i < names.len()
        invariant
            i <= names.len(),
            all == names.deep_view(),
            out@ == old(out)@ + wallet_lines(utxos.deep_view(), all.take(i as int)),
        decreases names.len() - i,
    {
        assert(all.take(i as int + 1).drop_last() =~= all.take(i as int));
        assert(all.take(i as int + 1).last() == names@[i as int]@);
        let sum = balance_of(utxos, &names[i]);
        out.append(names[i].as_str());
        out.append(": ");
        append_wide_decimal(out, sum);
        out.append("\n");
        assert(out@ =~= old(out)@ + wallet_lines(utxos.deep_view(), all.take(i as int + 1)));
        i = i + 1;
    }
    assert(all.take(i as int) =~= all);
}

impl Blockchain {
    /// The account of the state as text: what each owner holds in the current set,
    /// and what each held in the set as it stood when the node last mined.
    pub fn summary(&self) -> (text: String)
        ensures
            text@ == summary_text(self@),
    {
        let mut text = "Pending Wallets\n".to_owned();
        append_wallets(&mut text, &self.utxo_set);
        text.append("\nBlocked Wallets\n");
        append_wallets(&mut text, &self.utxo_blocked);
        text
    }
}

} // verus!
