use utxo_chain::block::{Block, Header};
use utxo_chain::blockchain::Blockchain;
use utxo_chain::encoding::{append_decimal, append_signed_decimal, text_ends_with};
use utxo_chain::node::Node;
use utxo_chain::transaction::Transaction;
use utxo_chain::utxo::Utxo;

const GENESIS_TXID: &str = "205333f2c80d2d5002c07549acefb48e185a3626de77317c1f42f7de7f623462";
const GENESIS_UTXO: &str = "9236889d39873130025a0e50b9b72e1bf202dfa6a56d61ccb19d4d53cd00c4b1";

fn decimal_text(n: u64) -> String {
    let mut out = String::new();
    append_decimal(&mut out, n);
    out
}

fn signed_text(i: i64) -> String {
    let mut out = String::new();
    append_signed_decimal(&mut out, i);
    out
}

#[test]
fn decimal_of_small_and_large_numbers() {
    assert_eq!(decimal_text(0), "0");
    assert_eq!(decimal_text(7), "7");
    assert_eq!(decimal_text(10), "10");
    assert_eq!(decimal_text(1000), "1000");
    assert_eq!(decimal_text(u64::MAX), "18446744073709551615");
}

#[test]
fn decimal_appends_to_what_is_there() {
    let mut out = String::from("n=");
    append_decimal(&mut out, 42);
    assert_eq!(out, "n=42");
}

#[test]
fn signed_decimal_of_both_signs() {
    assert_eq!(signed_text(0), "0");
    assert_eq!(signed_text(185), "185");
    assert_eq!(signed_text(-1), "-1");
    assert_eq!(signed_text(i64::MAX), "9223372036854775807");
    assert_eq!(signed_text(i64::MIN), "-9223372036854775808");
}

#[test]
fn suffix_test_on_edge_cases() {
    assert!(text_ends_with("abc00", "00"));
    assert!(text_ends_with("00", "00"));
    assert!(!text_ends_with("0", "00"));
    assert!(!text_ends_with("", "00"));
    assert!(!text_ends_with("a0b0", "00"));
    assert!(!text_ends_with("00a", "00"));
    assert!(text_ends_with("anything", ""));
}

#[test]
fn proof_predicate_asks_for_two_zeros() {
    assert!(Blockchain::is_valid_proof(&String::from("000")));
    assert!(Blockchain::is_valid_proof(&String::from("c6d615931271b00")));
    assert!(!Blockchain::is_valid_proof(&String::from("c6d615931271b0")));
    assert!(!Blockchain::is_valid_proof(&String::from("001")));
    assert!(!Blockchain::is_valid_proof(&String::new()));
}

#[test]
fn transaction_identifier_is_the_digest_of_its_text() {
    let tx = Transaction::new(vec![], vec![(String::from("owner"), 1000)]);
    assert_eq!(tx.txid.as_deref(), Some(GENESIS_TXID));
    let text = "{\"input\":[],\"output\":[[\"owner\",1000]],\"txid\":null}";
    assert_eq!(tx.txid, Some(sha256::digest(text)));
    assert!(tx.input.is_empty());
    assert_eq!(tx.output, vec![(String::from("owner"), 1000)]);
}

#[test]
fn utxo_identifier_is_the_digest_of_its_text() {
    let utxo = Utxo::new(String::from("owner"), 1000, String::from(GENESIS_TXID), 0);
    assert_eq!(utxo.hash.as_deref(), Some(GENESIS_UTXO));
    assert_eq!(utxo.output, "owner");
    assert_eq!(utxo.amount, 1000);
    assert_eq!(utxo.txid, GENESIS_TXID);
    assert_eq!(utxo.index, 0);
}

#[test]
fn equal_content_gives_equal_identifiers() {
    let a = Utxo::new(String::from("bob"), 5, String::from("t"), 3);
    let b = Utxo::new(String::from("bob"), 5, String::from("t"), 3);
    assert_eq!(a, b);
    let other_index = Utxo::new(String::from("bob"), 5, String::from("t"), 4);
    assert_ne!(a.hash, other_index.hash);
    let other_amount = Utxo::new(String::from("bob"), 6, String::from("t"), 3);
    assert_ne!(a.hash, other_amount.hash);
}

#[test]
fn identifier_depends_on_inputs_and_outputs() {
    let a = Transaction::new(vec![String::from("x")], vec![(String::from("bob"), 5)]);
    let b = Transaction::new(vec![String::from("x")], vec![(String::from("bob"), 5)]);
    let c = Transaction::new(vec![String::from("y")], vec![(String::from("bob"), 5)]);
    let d = Transaction::new(vec![String::from("x")], vec![(String::from("bob"), 6)]);
    assert_eq!(a, b);
    assert!(a.same_as(&b));
    assert_ne!(a.txid, c.txid);
    assert_ne!(a.txid, d.txid);
    assert!(!a.same_as(&c));
}

#[test]
fn header_text_has_the_fields_in_order() {
    let chain = Blockchain::new();
    assert_eq!(
        chain.chain[0].header_to_json_string(),
        "{\"index\":1,\"timestamp\":0,\"previous_hash\":\"1\",\"nonce\":0,\"hash\":\"000\"}"
    );
}

#[test]
fn block_text_has_header_and_transactions() {
    let chain = Blockchain::new();
    let expected = format!(
        "{{\"header\":{{\"index\":1,\"timestamp\":0,\"previous_hash\":\"1\",\"nonce\":0,\"hash\":\"000\"}},\"transactions\":[{{\"input\":[],\"output\":[[\"owner\",1000]],\"txid\":\"{}\"}}]}}",
        GENESIS_TXID
    );
    assert_eq!(chain.chain[0].to_json_string(), expected);
}

#[test]
fn block_text_with_no_hash_and_negative_nonce() {
    let block = Block {
        header: Header {
            index: 7,
            timestamp: 99,
            previous_hash: String::from("ab"),
            nonce: -3,
            hash: None,
        },
        transactions: vec![],
    };
    assert_eq!(
        block.to_json_string(),
        "{\"header\":{\"index\":7,\"timestamp\":99,\"previous_hash\":\"ab\",\"nonce\":-3,\"hash\":null},\"transactions\":[]}"
    );
}

#[test]
fn strings_are_escaped_as_json() {
    let block = Block {
        header: Header {
            index: 1,
            timestamp: 0,
            previous_hash: String::from("a\"b\\c\nd"),
            nonce: 0,
            hash: None,
        },
        transactions: vec![],
    };
    assert_eq!(
        block.header_to_json_string(),
        "{\"index\":1,\"timestamp\":0,\"previous_hash\":\"a\\\"b\\\\c\\nd\",\"nonce\":0,\"hash\":null}"
    );
    let parsed: serde_json::Value = serde_json::from_str(&block.header_to_json_string()).unwrap();
    assert_eq!(parsed["previous_hash"].as_str(), Some("a\"b\\c\nd"));
}

#[test]
fn several_inputs_and_outputs_are_joined_by_commas() {
    let tx = Transaction::new(
        vec![String::from("i1"), String::from("i2"), String::from("i3")],
        vec![(String::from("a"), 1), (String::from("b"), 2)],
    );
    let block = Block {
        header: Header {
            index: 2,
            timestamp: 1,
            previous_hash: String::from("p"),
            nonce: 4,
            hash: Some(String::from("h")),
        },
        transactions: vec![tx.clone(), tx.clone()],
    };
    let one = format!(
        "{{\"input\":[\"i1\",\"i2\",\"i3\"],\"output\":[[\"a\",1],[\"b\",2]],\"txid\":\"{}\"}}",
        tx.txid.clone().unwrap()
    );
    let expected = format!(
        "{{\"header\":{{\"index\":2,\"timestamp\":1,\"previous_hash\":\"p\",\"nonce\":4,\"hash\":\"h\"}},\"transactions\":[{},{}]}}",
        one, one
    );
    assert_eq!(block.to_json_string(), expected);
}

#[test]
fn state_text_is_json_with_all_four_parts() {
    let mut node = Node::new();
    node.chain.send_to(String::from("owner"), String::from("alice"), 400).unwrap();
    let text = node.send_chain();
    let parsed: serde_json::Value = serde_json::from_str(&text).unwrap();
    assert_eq!(parsed["chain"].as_array().unwrap().len(), 1);
    assert_eq!(parsed["chain"][0]["header"]["index"].as_u64(), Some(1));
    assert_eq!(parsed["chain"][0]["header"]["hash"].as_str(), Some("000"));
    assert_eq!(parsed["pending_transactions"].as_array().unwrap().len(), 1);
    assert_eq!(parsed["pending_transactions"][0]["input"][0].as_str(), Some(GENESIS_UTXO));
    assert_eq!(parsed["utxo_set"].as_array().unwrap().len(), 2);
    assert_eq!(parsed["utxo_set"][0]["output"].as_str(), Some("alice"));
    assert_eq!(parsed["utxo_set"][0]["amount"].as_u64(), Some(400));
    assert_eq!(parsed["utxo_set"][1]["index"].as_u64(), Some(1));
    assert_eq!(parsed["utxo_blocked"].as_array().unwrap().len(), 1);
    assert_eq!(parsed["utxo_blocked"][0]["hash"].as_str(), Some(GENESIS_UTXO));
    assert!(text.starts_with("{\"chain\":[{\"header\":{\"index\":1,"));
    assert!(text.ends_with("}"));
}

#[test]
fn state_text_of_a_fresh_node() {
    let node = Node::new();
    let utxo = format!(
        "{{\"output\":\"owner\",\"amount\":1000,\"hash\":\"{}\",\"txid\":\"{}\",\"index\":0}}",
        GENESIS_UTXO, GENESIS_TXID
    );
    let expected = format!(
        "{{\"chain\":[{}],\"pending_transactions\":[],\"utxo_set\":[{}],\"utxo_blocked\":[{}]}}",
        node.chain.chain[0].to_json_string(),
        utxo,
        utxo
    );
    assert_eq!(node.send_chain(), expected);
}
