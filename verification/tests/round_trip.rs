use serde_json::Value;
use utxo_chain::block::{Block, Header};
use utxo_chain::blockchain::Blockchain;
use utxo_chain::node::Node;
use utxo_chain::transaction::Transaction;
use utxo_chain::utxo::Utxo;

fn text_of(v: &Value) -> String {
    v.as_str().unwrap().to_string()
}

fn optional_text_of(v: &Value) -> Option<String> {
    if v.is_null() {
        None
    } else {
        Some(text_of(v))
    }
}

fn transaction_of(v: &Value) -> Transaction {
    Transaction {
        input: v["input"].as_array().unwrap().iter().map(text_of).collect(),
        output: v["output"]
            .as_array()
            .unwrap()
            .iter()
            .map(|o| (text_of(&o[0]), o[1].as_u64().unwrap()))
            .collect(),
        txid: optional_text_of(&v["txid"]),
    }
}

fn utxo_of_json(v: &Value) -> Utxo {
    Utxo {
        output: text_of(&v["output"]),
        amount: v["amount"].as_u64().unwrap(),
        hash: optional_text_of(&v["hash"]),
        txid: text_of(&v["txid"]),
        index: v["index"].as_u64().unwrap() as u32,
    }
}

fn block_of(v: &Value) -> Block {
    Block {
        header: Header {
            index: v["header"]["index"].as_u64().unwrap(),
            timestamp: v["header"]["timestamp"].as_u64().unwrap(),
            previous_hash: text_of(&v["header"]["previous_hash"]),
            nonce: v["header"]["nonce"].as_i64().unwrap(),
            hash: optional_text_of(&v["header"]["hash"]),
        },
        transactions: v["transactions"].as_array().unwrap().iter().map(transaction_of).collect(),
    }
}

fn state_of(text: &str) -> Blockchain {
    let v: Value = serde_json::from_str(text).unwrap();
    Blockchain {
        chain: v["chain"].as_array().unwrap().iter().map(block_of).collect(),
        pending_transactions: v["pending_transactions"]
            .as_array()
            .unwrap()
            .iter()
            .map(transaction_of)
            .collect(),
        utxo_set: v["utxo_set"].as_array().unwrap().iter().map(utxo_of_json).collect(),
        utxo_blocked: v["utxo_blocked"].as_array().unwrap().iter().map(utxo_of_json).collect(),
    }
}

fn busy_node() -> Node {
    let mut node = Node::new();
    node.chain.send_to(String::from("owner"), String::from("alice"), 400).unwrap();
    node.chain.mine_at(10).unwrap();
    node.chain.send_to(String::from("alice"), String::from("b\"o\\b\n"), 150).unwrap();
    node.chain.mine_at(11).unwrap();
    node.chain.send_to(String::from("owner"), String::from("carol"), 1).unwrap();
    node
}

#[test]
fn the_text_of_a_state_reads_back_as_the_same_state() {
    let node = busy_node();
    let text = node.send_chain();
    let back = state_of(&text);
    assert_eq!(back.chain, node.chain.chain);
    assert_eq!(back.pending_transactions, node.chain.pending_transactions);
    assert_eq!(back.utxo_set, node.chain.utxo_set);
    assert_eq!(back.utxo_blocked, node.chain.utxo_blocked);
    assert_eq!(back.chain.len(), 3);
    assert_eq!(back.pending_transactions.len(), 1);
    assert!(back.is_consistent());
    let again = Node { chain: back };
    assert_eq!(again.send_chain(), text);
}

#[test]
fn the_text_of_a_block_reads_back_as_the_same_block() {
    let node = busy_node();
    for block in node.chain.chain.iter() {
        let v: Value = serde_json::from_str(&block.to_json_string()).unwrap();
        assert_eq!(&block_of(&v), block);
    }
    let unsealed = Block {
        header: Header { index: 9, timestamp: 8, previous_hash: String::new(), nonce: -7, hash: None },
        transactions: vec![Transaction { input: vec![], output: vec![], txid: None }],
    };
    let v: Value = serde_json::from_str(&unsealed.to_json_string()).unwrap();
    assert_eq!(block_of(&v), unsealed);
}

#[test]
fn a_state_read_back_is_adopted_by_a_peer() {
    let node = busy_node();
    let mut peer = Node::new();
    assert!(peer.receive_chain(state_of(&node.send_chain())));
    assert_eq!(peer.send_chain(), node.send_chain());
}
