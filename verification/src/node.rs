//! A node: the ledger of one participant, with what it tells its peers.

use crate::block::{block_json, Block, BlockView};
use crate::blockchain::{
    admitted, after_block, block_acceptable, blockchain_json, consistent, genesis, tip,
    Blockchain, BlockchainView,
};
use crate::command::{captured, parse_send_input, send_command, send_pattern};
use crate::encoding::{replace, replaced, starts_with, text_starts_with, Canonical};
use crate::ledger::funded;
use crate::mining::mined;
use crate::reconcile::after_chain;
use crate::transaction::{transaction_json, well_formed, Transaction, TransactionView};
use crate::transfer::transfer;
use vstd::prelude::*;
use vstd::string::*;

verus! {

/// What the node's surroundings are to do after an input of the user.
#[derive(Debug, PartialEq)]
pub enum Reply {
    /// Send this message to the peers.
    Publish(String),
    /// Tell the user that the sender owns too little.
    InvalidTransaction,
    /// Tell the user that the input is no command.
    InvalidFormat,
}

/// The mathematical value of a [`Reply`].
pub enum ReplyView {
    Publish(Seq<char>),
    InvalidTransaction,
    InvalidFormat,
}

impl View for Reply {
    type V = ReplyView;

    open spec fn view(&self) -> ReplyView {
        match self {
            Reply::Publish(text) => ReplyView::Publish(text@),
            Reply::InvalidTransaction => ReplyView::InvalidTransaction,
            Reply::InvalidFormat => ReplyView::InvalidFormat,
        }
    }
}

/// A message of a peer, told apart by how it begins, with what it carries.
#[derive(Debug, PartialEq)]
pub enum Incoming {
    Transaction(String),
    Block(String),
    Blockchain(String),
    Other,
}

/// The mathematical value of an [`Incoming`].
pub enum IncomingView {
    Transaction(Seq<char>),
    Block(Seq<char>),
    Blockchain(Seq<char>),
    Other,
}

impl View for Incoming {
    type V = IncomingView;

    open spec fn view(&self) -> IncomingView {
        match self {
            Incoming::Transaction(text) => IncomingView::Transaction(text@),
            Incoming::Block(text) => IncomingView::Block(text@),
            Incoming::Blockchain(text) => IncomingView::Blockchain(text@),
            Incoming::Other => IncomingView::Other,
        }
    }
}

/// What a peer sent, once it is decoded.
#[derive(Debug)]
pub enum Message {
    Transaction(Transaction),
    Block(Block),
    Blockchain(Blockchain),
}

/// The mathematical value of a [`Message`].
pub enum MessageView {
    Transaction(TransactionView),
    Block(BlockView),
    Blockchain(BlockchainView),
}

impl View for Message {
    type V = MessageView;

    open spec fn view(&self) -> MessageView {
        match self {
            Message::Transaction(tx) => MessageView::Transaction(tx@),
            Message::Block(b) => MessageView::Block(b@),
            Message::Blockchain(state) => MessageView::Blockchain(state@),
        }
    }
}

/// What the node's surroundings are to show after a message of a peer.
#[derive(Debug, PartialEq, Eq, Clone, Copy)]
pub enum Notice {
    /// Show the account of the ledger.
    Ledger,
    /// Say that the peer's chain took the place of the node's own.
    ChainAccepted,
    /// Say that the peer's chain was turned down.
    ChainRejected,
}

/// Whether the node puts the state that a peer sent in the place of its own: the
/// candidate's chain is accepted, and the candidate is a state that the engine can
/// work on.
pub open spec fn adopts(s: BlockchainView, candidate: BlockchainView) -> bool {
    after_chain(s, candidate.chain).0 && consistent(candidate)
}

/// The node's state after a decoded message of a peer, and what is to be shown.
///
/// A transaction is admitted if it is well formed and the current set funds it. A
/// block is appended if it is acceptable. A whole state is adopted if the node
/// adopts it; if not, the node keeps its own, with what the replay of the
/// candidate admitted to its pending pool.
pub open spec fn after_message(s: BlockchainView, message: MessageView) -> (
    BlockchainView,
    Notice,
) {
    match message {
        MessageView::Transaction(tx) => (
            if well_formed(tx) && funded(tx, s.utxo_set) {
                admitted(s, tx)
            } else {
                s
            },
            Notice::Ledger,
        ),
        MessageView::Block(b) => (
            if block_acceptable(s, b) {
                after_block(s, b)
            } else {
                s
            },
            Notice::Ledger,
        ),
        MessageView::Blockchain(candidate) => if adopts(s, candidate) {
            (candidate, Notice::ChainAccepted)
        } else {
            (after_chain(s, candidate.chain).1, Notice::ChainRejected)
        },
    }
}

/// How a message is read: by the first of the three labels that it starts with.
/// What it carries is the message with every occurrence of that label taken out.
pub open spec fn framed(msg: Seq<char>) -> IncomingView {
    if starts_with(msg, "Transaction: "@) {
        IncomingView::Transaction(replaced(msg, "Transaction: "@, ""@))
    } else if starts_with(msg, "Block: "@) {
        IncomingView::Block(replaced(msg, "Block: "@, ""@))
    } else if starts_with(msg, "Blockchain: "@) {
        IncomingView::Blockchain(replaced(msg, "Blockchain: "@, ""@))
    } else {
        IncomingView::Other
    }
}

/// Tells a message of a peer apart by its label and takes the label out.
pub fn classify_message(msg: &str) -> (incoming: Incoming)
    ensures
        incoming@ == framed(msg@),
{
    if text_starts_with(msg, "Transaction: ") {
        Incoming::Transaction(replace(msg, "Transaction: ", ""))
    } else if text_starts_with(msg, "Block: ") {
        Incoming::Block(replace(msg, "Block: ", ""))
    } else if text_starts_with(msg, "Blockchain: ") {
        Incoming::Blockchain(replace(msg, "Blockchain: ", ""))
    } else {
        Incoming::Other
    }
}

/// What an input of the user does to the state, and the reply to it, given the
/// transfer command that was read from the input, if any.
///
/// The input `start` asks for the whole state to be sent to the peers. Any other
/// input has to be a transfer command; the transfer is made as
/// [`Blockchain::send_to`] makes it, and the new transaction is sent to the peers.
pub open spec fn after_input(
    s: BlockchainView,
    msg: Seq<char>,
    command: Option<(u64, Seq<char>, Seq<char>)>,
) -> (BlockchainView, ReplyView) {
    if msg == "start"@ {
        (s, ReplyView::Publish("Blockchain: "@ + blockchain_json(s)))
    } else {
        match command {
            Some((amount, from, to)) => match transfer(s.utxo_set, from, to, amount) {
                Some(tx) => (
                    admitted(s, tx),
                    ReplyView::Publish("Transaction: "@ + transaction_json(tx)),
                ),
                None => (s, ReplyView::InvalidTransaction),
            },
            None => (s, ReplyView::InvalidFormat),
        }
    }
}

/// The message that announces a mined block to the peers, if one was mined.
pub open spec fn announcement_of(found: Option<BlockView>) -> Option<Seq<char>> {
    match found {
        Some(b) => Some("Block: "@ + block_json(b)),
        None => None,
    }
}

/// One participant of the network. It owns the whole state of its ledger.
#[derive(Debug)]
pub struct Node {
    pub chain: Blockchain,
}

impl Node {
    /// The node's ledger is one that the engine can work on.
    pub open spec fn wf(&self) -> bool {
        self.chain.wf()
    }

    /// A node that knows the first block and nothing else.
    pub fn new() -> (node: Self)
        ensures
            node.chain@ == genesis(),
            node.wf(),
    {
        Node { chain: Blockchain::new() }
    }

    /// The number of transactions that wait to be mined.
    pub fn num_pending_tx(&self) -> (count: usize)
        ensures
            count == self.chain@.pending_transactions.len(),
    {
        self.chain.num_pending_tx()
    }

    /// Handles an input of the user, given the transfer command that was read from
    /// it, if any. See [`after_input`].
    pub fn run_command(&mut self, msg: &String, command: Option<(u64, String, String)>) -> (reply:
        Reply)
        requires
            old(self).wf(),
        ensures
            final(self).wf(),
            (final(self).chain@, reply@) == after_input(
                old(self).chain@,
                msg@,
                command.deep_view(),
            ),
    {
        if *msg == "start".to_owned() {
            let mut text = "Blockchain: ".to_owned();
            self.chain.append_json(&mut text);
            return Reply::Publish(text);
        }
        match command {
            Some((amount, from, to)) => {
                match self.chain.send_to(from, to, amount) {
                    Some(tx) => {
                        let mut text = "Transaction: ".to_owned();
                        tx.append_json(&mut text);
                        Reply::Publish(text)
                    },
                    None => Reply::InvalidTransaction,
                }
            },
            None => Reply::InvalidFormat,
        }
    }

    /// Handles an input of the user: `start`, or a transfer command of the form
    /// `send <amount> to <receiver> from <sender>`.
    pub fn rec_input(&mut self, msg: String) -> (reply: Reply)
        requires
            old(self).wf(),
        ensures
            final(self).wf(),
            (final(self).chain@, reply@) == after_input(
                old(self).chain@,
                msg@,
                send_command(captured(send_pattern(), msg@)),
            ),
    {
        let command = parse_send_input(msg.as_str());
        self.run_command(&msg, command)
    }

    /// Mines the pending transactions into a block, as [`Blockchain::mine`] does,
    /// and gives the message that announces the block to the peers.
    pub fn mine(&mut self) -> (announcement: Option<String>)
        requires
            old(self).wf(),
            tip(old(self).chain@).header.index < u64::MAX,
        ensures
            final(self).wf(),
            exists|timestamp: u64, found: Option<BlockView>|
                #[trigger] mined(old(self).chain@, timestamp, final(self).chain@, found)
                    && announcement.deep_view() == announcement_of(found),
    {
        match self.chain.mine() {
            Some(block) => {
                let mut text = "Block: ".to_owned();
                block.append_json(&mut text);
                let ghost timestamp = choose|timestamp: u64|
                    mined(old(self).chain@, timestamp, self.chain@, Some(block@));
                assert(mined(old(self).chain@, timestamp, self.chain@, Some(block@)));
                assert(Some(text@) == announcement_of(Some(block@)));
                Some(text)
            },
            None => {
                let ghost timestamp = choose|timestamp: u64|
                    mined(old(self).chain@, timestamp, self.chain@, None);
                assert(mined(old(self).chain@, timestamp, self.chain@, None));
                assert(None::<Seq<char>> == announcement_of(None));
                None
            },
        }
    }

    /// The canonical text of the node's whole state, as peers exchange it.
    pub fn send_chain(&self) -> (json: String)
        ensures
            json@ == blockchain_json(self.chain@),
    {
        let mut json = String::new();
        self.chain.append_json(&mut json);
        assert(json@ =~= blockchain_json(self.chain@));
        json
    }

    /// Judges the state that a peer sent and puts it in the place of the node's own
    /// where it stands.
    ///
    /// The candidate is adopted, whole, if its chain is accepted by
    /// [`Blockchain::receive_chain`] and the candidate is a state that the engine
    /// can work on. Otherwise the node keeps its own state, with the transactions
    /// that the replay admitted to its pending pool.
    pub fn receive_chain(&mut self, candidate: Blockchain) -> (adopted: bool)
        requires
            old(self).wf(),
        ensures
            final(self).wf(),
            adopted == adopts(old(self).chain@, candidate@),
            final(self).chain@ == if adopted {
                candidate@
            } else {
                after_chain(old(self).chain@, candidate@.chain).1
            },
    {
        if self.chain.receive_chain(&candidate) && candidate.is_consistent() {
            self.chain = candidate;
            true
        } else {
            false
        }
    }

    /// Handles a decoded message of a peer. See [`after_message`].
    pub fn receive_message(&mut self, message: Message) -> (notice: Notice)
        requires
            old(self).wf(),
        ensures
            final(self).wf(),
            (final(self).chain@, notice) == after_message(old(self).chain@, message@),
    {
        match message {
            Message::Transaction(tx) => {
                self.chain.receive_transaction(&tx);
                Notice::Ledger
            },
            Message::Block(b) => {
                self.chain.receive_block(b);
                Notice::Ledger
            },
            Message::Blockchain(candidate) => {
                if self.receive_chain(candidate) {
                    Notice::ChainAccepted
                } else {
                    Notice::ChainRejected
                }
            },
        }
    }
}

} // verus!
