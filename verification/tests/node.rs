use utxo_chain::blockchain::Blockchain;
use utxo_chain::command::{parse_amount, parse_send_input, send_command_of};
use utxo_chain::encoding::{append_wide_decimal, text_starts_with};
use utxo_chain::node::{classify_message, Incoming, Message, Node, Notice, Reply};
use utxo_chain::transaction::Transaction;

#[test]
fn a_transfer_command_is_read() {
    assert_eq!(
        parse_send_input("send 5 to bob from alice"),
        Some((5, String::from("alice"), String::from("bob")))
    );
    assert_eq!(
        parse_send_input("send 400 to alice from owner"),
        Some((400, String::from("owner"), String::from("alice")))
    );
}

#[test]
fn a_transfer_command_is_found_anywhere_in_the_input() {
    assert_eq!(
        parse_send_input("please send 7 to a_1 from b2 now"),
        Some((7, String::from("b2"), String::from("a_1")))
    );
    assert_eq!(
        parse_send_input("send x to a from b; send 3 to c from d"),
        Some((3, String::from("d"), String::from("c")))
    );
}

#[test]
fn what_is_no_transfer_command_is_not_read() {
    assert_eq!(parse_send_input(""), None);
    assert_eq!(parse_send_input("start"), None);
    assert_eq!(parse_send_input("send five to bob from alice"), None);
    assert_eq!(parse_send_input("send 5 to bob"), None);
    assert_eq!(parse_send_input("send 5 from alice to bob"), None);
    assert_eq!(parse_send_input("send  5 to bob from alice"), None);
    assert_eq!(parse_send_input("Send 5 to bob from alice"), None);
}

#[test]
fn an_amount_that_does_not_fit_is_not_read() {
    assert_eq!(
        parse_send_input("send 18446744073709551615 to a from b"),
        Some((u64::MAX, String::from("b"), String::from("a")))
    );
    assert_eq!(parse_send_input("send 18446744073709551616 to a from b"), None);
    assert_eq!(parse_send_input("send 99999999999999999999999999999999999999999 to a from b"), None);
}

#[test]
fn amounts_are_decimal_digits() {
    assert_eq!(parse_amount("0"), Some(0));
    assert_eq!(parse_amount("7"), Some(7));
    assert_eq!(parse_amount("007"), Some(7));
    assert_eq!(parse_amount("1234567890"), Some(1234567890));
    assert_eq!(parse_amount("18446744073709551615"), Some(u64::MAX));
    assert_eq!(parse_amount("18446744073709551616"), None);
    assert_eq!(parse_amount(""), None);
    assert_eq!(parse_amount("12a"), None);
    assert_eq!(parse_amount("a12"), None);
    assert_eq!(parse_amount("-1"), None);
    assert_eq!(parse_amount("+1"), None);
    assert_eq!(parse_amount(" 1"), None);
    assert_eq!(parse_amount("\u{0663}"), None);
}

#[test]
fn a_command_in_foreign_digits_is_no_command() {
    assert_eq!(parse_send_input("send \u{0663} to a from b"), None);
}

#[test]
fn captures_of_another_shape_give_no_command() {
    assert_eq!(send_command_of(None), None);
    assert_eq!(send_command_of(Some(vec![])), None);
    assert_eq!(
        send_command_of(Some(vec![String::from("w"), String::from("5"), String::from("to")])),
        None
    );
    assert_eq!(
        send_command_of(Some(vec![
            String::from("whole"),
            String::from("5"),
            String::from("to"),
            String::from("from")
        ])),
        Some((5, String::from("from"), String::from("to")))
    );
    assert_eq!(
        send_command_of(Some(vec![
            String::from("whole"),
            String::from("x"),
            String::from("to"),
            String::from("from")
        ])),
        None
    );
}

#[test]
fn start_asks_for_the_state_to_be_sent() {
    let mut node = Node::new();
    let state = node.send_chain();
    let reply = node.rec_input(String::from("start"));
    assert_eq!(reply, Reply::Publish(format!("Blockchain: {}", state)));
    assert_eq!(node.send_chain(), state);
}

#[test]
fn a_transfer_is_made_and_announced() {
    let mut node = Node::new();
    let reply = node.rec_input(String::from("send 400 to alice from owner"));
    assert_eq!(node.num_pending_tx(), 1);
    let tx = node.chain.pending_transactions[0].clone();
    assert_eq!(tx.output, vec![(String::from("alice"), 400), (String::from("owner"), 600)]);
    let expected = format!(
        "Transaction: {{\"input\":[\"{}\"],\"output\":[[\"alice\",400],[\"owner\",600]],\"txid\":\"{}\"}}",
        tx.input[0],
        tx.txid.clone().unwrap()
    );
    assert_eq!(reply, Reply::Publish(expected));
}

#[test]
fn a_transfer_without_funds_is_refused() {
    let mut node = Node::new();
    let state = node.send_chain();
    assert_eq!(node.rec_input(String::from("send 1001 to alice from owner")), Reply::InvalidTransaction);
    assert_eq!(node.rec_input(String::from("send 1 to owner from alice")), Reply::InvalidTransaction);
    assert_eq!(node.send_chain(), state);
}

#[test]
fn an_input_that_is_no_command_is_refused() {
    let mut node = Node::new();
    let state = node.send_chain();
    assert_eq!(node.rec_input(String::from("hello")), Reply::InvalidFormat);
    assert_eq!(node.rec_input(String::from("Start")), Reply::InvalidFormat);
    assert_eq!(node.rec_input(String::new()), Reply::InvalidFormat);
    assert_eq!(node.send_chain(), state);
}

#[test]
fn the_command_is_judged_as_it_was_read() {
    let mut node = Node::new();
    let msg = String::from("start");
    let command = Some((5, String::from("owner"), String::from("bob")));
    assert!(matches!(node.run_command(&msg, command), Reply::Publish(text) if text.starts_with("Blockchain: ")));
    assert_eq!(node.num_pending_tx(), 0);
    let other = String::from("anything");
    let command = Some((5, String::from("owner"), String::from("bob")));
    assert!(matches!(node.run_command(&other, command), Reply::Publish(text) if text.starts_with("Transaction: ")));
    assert_eq!(node.num_pending_tx(), 1);
    assert_eq!(node.run_command(&other, None), Reply::InvalidFormat);
}

#[test]
fn a_mined_block_is_announced() {
    let mut node = Node::new();
    node.rec_input(String::from("send 400 to alice from owner"));
    let announcement = node.mine().unwrap();
    assert_eq!(node.chain.chain.len(), 2);
    assert_eq!(announcement, format!("Block: {}", node.chain.chain[1].to_json_string()));
    let parsed: serde_json::Value = serde_json::from_str(&announcement["Block: ".len()..]).unwrap();
    assert_eq!(parsed["header"]["index"].as_u64(), Some(2));
    assert_eq!(parsed["header"]["previous_hash"].as_str(), Some("000"));
    assert_eq!(parsed["transactions"].as_array().unwrap().len(), 1);
    assert_eq!(node.num_pending_tx(), 0);
}

#[test]
fn messages_are_told_apart_by_their_label() {
    assert_eq!(classify_message("Transaction: {\"a\":1}"), Incoming::Transaction(String::from("{\"a\":1}")));
    assert_eq!(classify_message("Block: {}"), Incoming::Block(String::from("{}")));
    assert_eq!(classify_message("Blockchain: []"), Incoming::Blockchain(String::from("[]")));
    assert_eq!(classify_message("Blockchain"), Incoming::Other);
    assert_eq!(classify_message("hello"), Incoming::Other);
    assert_eq!(classify_message(""), Incoming::Other);
    assert_eq!(classify_message(" Block: {}"), Incoming::Other);
    assert_eq!(classify_message("block: {}"), Incoming::Other);
}

#[test]
fn a_label_is_taken_out_wherever_it_stands() {
    assert_eq!(classify_message("Block: aBlock: b"), Incoming::Block(String::from("ab")));
    assert_eq!(
        classify_message("Transaction: Block: x"),
        Incoming::Transaction(String::from("Block: x"))
    );
}

#[test]
fn prefix_test_on_edge_cases() {
    assert!(text_starts_with("Block: x", "Block: "));
    assert!(text_starts_with("Block: ", "Block: "));
    assert!(!text_starts_with("Block:", "Block: "));
    assert!(!text_starts_with("", "B"));
    assert!(text_starts_with("", ""));
    assert!(!text_starts_with("xBlock: ", "Block: "));
}

#[test]
fn the_account_of_a_fresh_state() {
    let chain = Blockchain::new();
    assert_eq!(chain.summary(), "Pending Wallets\nowner: 1000\n\nBlocked Wallets\nowner: 1000\n");
}

#[test]
fn the_account_adds_up_what_each_owner_holds() {
    let mut chain = Blockchain::new();
    chain.send_to(String::from("owner"), String::from("alice"), 400).unwrap();
    assert_eq!(
        chain.summary(),
        "Pending Wallets\nalice: 400\nowner: 600\n\nBlocked Wallets\nowner: 1000\n"
    );
    chain.send_to(String::from("owner"), String::from("alice"), 50).unwrap();
    assert_eq!(
        chain.summary(),
        "Pending Wallets\nalice: 450\nowner: 550\n\nBlocked Wallets\nowner: 1000\n"
    );
    chain.mine_at(1).unwrap();
    assert_eq!(
        chain.summary(),
        "Pending Wallets\nalice: 450\nowner: 550\n\nBlocked Wallets\nalice: 450\nowner: 550\n"
    );
}

#[test]
fn the_account_of_nothing() {
    let mut chain = Blockchain::new();
    chain.utxo_set.clear();
    chain.utxo_blocked.clear();
    assert_eq!(chain.summary(), "Pending Wallets\n\nBlocked Wallets\n");
}

#[test]
fn wide_numbers_are_written_in_full() {
    let mut out = String::new();
    append_wide_decimal(&mut out, u128::MAX);
    assert_eq!(out, "340282366920938463463374607431768211455");
    let mut chain = Blockchain::new();
    chain.utxo_set[0].amount = u64::MAX;
    let mut twin = chain.utxo_set[0].clone();
    twin.index = 1;
    chain.utxo_set.push(twin);
    assert!(chain.summary().starts_with("Pending Wallets\nowner: 36893488147419103230\n"));
}

#[test]
fn a_transaction_of_a_peer_is_judged_before_it_is_admitted() {
    let mut node = Node::new();
    let id = node.chain.utxo_set[0].hash.clone().unwrap();
    let good = Transaction::new(vec![id.clone()], vec![(String::from("a"), 1000)]);
    let bad = Transaction::new(vec![id.clone()], vec![(String::from("b"), 1)]);
    assert_eq!(node.receive_message(Message::Transaction(good.clone())), Notice::Ledger);
    assert_eq!(node.chain.pending_transactions, vec![good.clone()]);
    assert_eq!(node.receive_message(Message::Transaction(bad)), Notice::Ledger);
    assert_eq!(node.chain.pending_transactions, vec![good]);
    let nameless = Transaction { input: vec![], output: vec![], txid: None };
    assert_eq!(node.receive_message(Message::Transaction(nameless)), Notice::Ledger);
    assert_eq!(node.num_pending_tx(), 1);
}

#[test]
fn a_block_of_a_peer_is_appended_if_it_stands() {
    let mut miner = Blockchain::new();
    let block = miner.mine_at(3).unwrap();
    let mut node = Node::new();
    assert_eq!(node.receive_message(Message::Block(block.clone())), Notice::Ledger);
    assert_eq!(node.chain.chain.len(), 2);
    assert_eq!(node.receive_message(Message::Block(block)), Notice::Ledger);
    assert_eq!(node.chain.chain.len(), 2);
}

#[test]
fn a_state_of_a_peer_is_adopted_or_turned_down() {
    let mut peer = Blockchain::new();
    peer.send_to(String::from("owner"), String::from("alice"), 400).unwrap();
    peer.mine_at(3).unwrap();
    let mut node = Node::new();
    assert_eq!(node.receive_message(Message::Blockchain(peer.clone())), Notice::ChainAccepted);
    assert_eq!(node.chain.chain, peer.chain);
    assert_eq!(node.receive_message(Message::Blockchain(Blockchain::new())), Notice::ChainRejected);
    assert_eq!(node.chain.chain.len(), 2);
    let mut tampered = peer.clone();
    tampered.chain[1].transactions[0].output[0].1 = 401;
    assert_eq!(node.receive_message(Message::Blockchain(tampered)), Notice::ChainRejected);
    assert_eq!(node.chain.chain, peer.chain);
}
