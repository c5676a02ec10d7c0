use utxo_chain::blockchain::Blockchain;
use utxo_chain::transaction::Transaction;
use utxo_chain::utxo::Utxo;

fn total(utxos: &Vec<Utxo>) -> u64 {
    utxos.iter().map(|u| u.amount).sum()
}

fn owned(utxos: &Vec<Utxo>, owner: &str) -> Vec<u64> {
    utxos.iter().filter(|u| u.output == owner).map(|u| u.amount).collect()
}

fn genesis_id(chain: &Blockchain) -> String {
    chain.utxo_set[0].hash.clone().unwrap()
}

#[test]
fn genesis_issues_the_supply_to_owner() {
    let chain = Blockchain::new();
    assert_eq!(chain.chain.len(), 1);
    assert_eq!(chain.chain[0].header.index, 1);
    assert_eq!(chain.chain[0].header.timestamp, 0);
    assert_eq!(chain.chain[0].header.previous_hash, "1");
    assert_eq!(chain.chain[0].header.nonce, 0);
    assert_eq!(chain.chain[0].header.hash.as_deref(), Some("000"));
    assert_eq!(chain.chain[0].transactions.len(), 1);
    assert_eq!(chain.num_pending_tx(), 0);
    assert_eq!(chain.utxo_set.len(), 1);
    assert_eq!(chain.utxo_set[0].output, "owner");
    assert_eq!(chain.utxo_set[0].amount, 1000);
    assert_eq!(chain.utxo_set[0].index, 0);
    assert_eq!(Some(chain.utxo_set[0].txid.clone()), chain.chain[0].transactions[0].txid);
    assert_eq!(chain.utxo_set, chain.utxo_blocked);
    assert!(chain.is_consistent());
}

#[test]
fn transfer_returns_change_and_mining_confirms_it() {
    let mut chain = Blockchain::new();
    let spent = genesis_id(&chain);
    let tx = chain.send_to(String::from("owner"), String::from("alice"), 400).unwrap();
    assert_eq!(tx.output, vec![(String::from("alice"), 400), (String::from("owner"), 600)]);
    assert_eq!(tx.input, vec![spent.clone()]);
    let block = chain.mine().unwrap();
    assert_eq!(block.transactions, vec![tx]);
    assert_eq!(owned(&chain.utxo_set, "alice"), vec![400]);
    assert_eq!(owned(&chain.utxo_set, "owner"), vec![600]);
    assert_eq!(chain.utxo_set.len(), 2);
    assert!(chain.utxo_set.iter().all(|u| u.hash != Some(spent.clone())));
    assert!(chain.utxo_set.iter().all(|u| u.amount != 1000));
    assert_eq!(chain.utxo_blocked, chain.utxo_set);
    assert_eq!(chain.num_pending_tx(), 0);
    assert_eq!(chain.chain.len(), 2);
}

#[test]
fn verification_compares_inputs_with_outputs() {
    let chain = Blockchain::new();
    let id = genesis_id(&chain);
    let exact = Transaction::new(vec![id.clone()], vec![(String::from("a"), 1000)]);
    let under = Transaction::new(vec![id.clone()], vec![(String::from("a"), 999)]);
    let over = Transaction::new(vec![id.clone()], vec![(String::from("a"), 1001)]);
    let split_over =
        Transaction::new(vec![id.clone()], vec![(String::from("a"), 600), (String::from("b"), 401)]);
    let unknown = Transaction::new(vec![String::from("nothing")], vec![(String::from("a"), 1)]);
    let empty = Transaction::new(vec![], vec![]);
    let from_nothing = Transaction::new(vec![], vec![(String::from("a"), 1)]);
    assert!(chain.verify_transaction(&exact, &chain.utxo_set));
    assert!(chain.verify_transaction(&under, &chain.utxo_set));
    assert!(!chain.verify_transaction(&over, &chain.utxo_set));
    assert!(!chain.verify_transaction(&split_over, &chain.utxo_set));
    assert!(!chain.verify_transaction(&unknown, &chain.utxo_set));
    assert!(chain.verify_transaction(&empty, &chain.utxo_set));
    assert!(!chain.verify_transaction(&from_nothing, &chain.utxo_set));
    assert!(!chain.verify_transaction(&under, &vec![]));
}

#[test]
fn an_input_named_twice_counts_once() {
    let chain = Blockchain::new();
    let id = genesis_id(&chain);
    let twice = Transaction::new(vec![id.clone(), id.clone()], vec![(String::from("a"), 1001)]);
    assert!(!chain.verify_transaction(&twice, &chain.utxo_set));
}

#[test]
fn sums_do_not_wrap() {
    let chain = Blockchain::new();
    let big = vec![
        Utxo::new(String::from("a"), u64::MAX, String::from("t"), 0),
        Utxo::new(String::from("a"), u64::MAX, String::from("t"), 1),
    ];
    let ids: Vec<String> = big.iter().map(|u| u.hash.clone().unwrap()).collect();
    let fits = Transaction::new(ids.clone(), vec![(String::from("b"), u64::MAX), (String::from("c"), u64::MAX)]);
    let too_much = Transaction::new(
        ids.clone(),
        vec![(String::from("b"), u64::MAX), (String::from("c"), u64::MAX), (String::from("d"), 1)],
    );
    let one_input = Transaction::new(vec![ids[0].clone()], vec![(String::from("b"), u64::MAX), (String::from("c"), 1)]);
    assert!(chain.verify_transaction(&fits, &big));
    assert!(!chain.verify_transaction(&too_much, &big));
    assert!(!chain.verify_transaction(&one_input, &big));
}

#[test]
fn an_output_without_identifier_is_never_named() {
    let chain = Blockchain::new();
    let bare = Utxo { output: String::from("a"), amount: 5, hash: None, txid: String::from("t"), index: 0 };
    let tx = Transaction::new(vec![String::new()], vec![(String::from("b"), 1)]);
    assert!(!chain.verify_transaction(&tx, &vec![bare]));
}

#[test]
fn admission_removes_inputs_and_creates_outputs() {
    let mut chain = Blockchain::new();
    let id = genesis_id(&chain);
    let tx = Transaction::new(
        vec![id.clone()],
        vec![(String::from("a"), 300), (String::from("b"), 200), (String::from("a"), 100)],
    );
    chain.create_pending_tx(&tx);
    assert_eq!(chain.utxo_set.len(), 3);
    for (i, (owner, amount)) in tx.output.iter().enumerate() {
        let expected = Utxo::new(owner.clone(), *amount, tx.txid.clone().unwrap(), i as u32);
        assert_eq!(chain.utxo_set[i], expected);
    }
    assert!(chain.utxo_set.iter().all(|u| u.hash != Some(id.clone())));
    assert_eq!(chain.pending_transactions, vec![tx]);
    assert_eq!(chain.utxo_blocked.len(), 1);
    assert_eq!(chain.utxo_blocked[0].hash, Some(id));
    assert_eq!(chain.chain.len(), 1);
    assert!(chain.is_consistent());
}

#[test]
fn admission_keeps_the_other_outputs_in_order() {
    let mut chain = Blockchain::new();
    chain.send_to(String::from("owner"), String::from("a"), 100).unwrap();
    chain.send_to(String::from("owner"), String::from("b"), 100).unwrap();
    let before: Vec<Utxo> = chain.utxo_set.clone();
    assert_eq!(before.iter().map(|u| u.output.as_str()).collect::<Vec<_>>(), vec!["a", "b", "owner"]);
    let tx = Transaction::new(vec![before[1].hash.clone().unwrap()], vec![(String::from("c"), 100)]);
    chain.receive_transaction(&tx);
    assert_eq!(chain.utxo_set.len(), 3);
    assert_eq!(chain.utxo_set[0], before[0]);
    assert_eq!(chain.utxo_set[1], before[2]);
    assert_eq!(chain.utxo_set[2].output, "c");
    assert_eq!(chain.utxo_set[2].amount, 100);
    assert_eq!(chain.num_pending_tx(), 3);
}

#[test]
fn a_funded_transaction_is_admitted() {
    let mut chain = Blockchain::new();
    let id = genesis_id(&chain);
    let tx = Transaction::new(vec![id], vec![(String::from("a"), 1000)]);
    chain.receive_transaction(&tx);
    assert_eq!(chain.num_pending_tx(), 1);
    assert_eq!(owned(&chain.utxo_set, "a"), vec![1000]);
    assert_eq!(owned(&chain.utxo_set, "owner"), Vec::<u64>::new());
}

#[test]
fn an_unfunded_transaction_is_dropped() {
    let mut chain = Blockchain::new();
    let before = chain.utxo_set.clone();
    let id = genesis_id(&chain);
    let tx = Transaction::new(vec![id], vec![(String::from("a"), 1001)]);
    chain.receive_transaction(&tx);
    assert_eq!(chain.num_pending_tx(), 0);
    assert_eq!(chain.utxo_set, before);
}

#[test]
fn a_transaction_without_identifier_is_dropped() {
    let mut chain = Blockchain::new();
    let before = chain.utxo_set.clone();
    let tx = Transaction { input: vec![genesis_id(&chain)], output: vec![(String::from("a"), 10)], txid: None };
    assert!(!tx.is_well_formed());
    chain.receive_transaction(&tx);
    assert_eq!(chain.num_pending_tx(), 0);
    assert_eq!(chain.utxo_set, before);
}

#[test]
fn the_same_output_cannot_be_spent_twice() {
    let mut chain = Blockchain::new();
    let id = genesis_id(&chain);
    let first = Transaction::new(vec![id.clone()], vec![(String::from("a"), 1000)]);
    let second = Transaction::new(vec![id.clone()], vec![(String::from("b"), 1000)]);
    chain.receive_transaction(&first);
    chain.receive_transaction(&second);
    assert_eq!(chain.pending_transactions, vec![first.clone()]);
    assert_eq!(owned(&chain.utxo_set, "a"), vec![1000]);
    assert_eq!(owned(&chain.utxo_set, "b"), Vec::<u64>::new());
    chain.receive_transaction(&first);
    assert_eq!(chain.pending_transactions, vec![first]);
    assert_eq!(total(&chain.utxo_set), 1000);
    assert!(!chain.verify_transaction(&second, &chain.utxo_set));
}

#[test]
fn value_is_never_created_by_funded_transactions() {
    let mut chain = Blockchain::new();
    chain.send_to(String::from("owner"), String::from("a"), 250).unwrap();
    assert_eq!(total(&chain.utxo_set), 1000);
    chain.send_to(String::from("a"), String::from("b"), 100).unwrap();
    assert_eq!(total(&chain.utxo_set), 1000);
    let owner_id = chain.utxo_set.iter().find(|u| u.output == "owner").unwrap().hash.clone().unwrap();
    let burn = Transaction::new(vec![owner_id], vec![(String::from("c"), 700)]);
    chain.receive_transaction(&burn);
    assert_eq!(total(&chain.utxo_set), 950);
    assert_eq!(owned(&chain.utxo_set, "c"), vec![700]);
}

#[test]
fn transfer_of_the_exact_balance_has_no_change() {
    let mut chain = Blockchain::new();
    let tx = chain.send_to(String::from("owner"), String::from("alice"), 1000).unwrap();
    assert_eq!(tx.output, vec![(String::from("alice"), 1000)]);
    assert_eq!(chain.utxo_set.len(), 1);
    assert_eq!(chain.utxo_set[0].output, "alice");
}

#[test]
fn transfer_without_funds_changes_nothing() {
    let mut chain = Blockchain::new();
    let before = chain.utxo_set.clone();
    assert!(chain.send_to(String::from("owner"), String::from("alice"), 1001).is_none());
    assert!(chain.send_to(String::from("alice"), String::from("owner"), 1).is_none());
    assert_eq!(chain.utxo_set, before);
    assert_eq!(chain.num_pending_tx(), 0);
}

#[test]
fn transfer_gathers_outputs_in_order_until_enough() {
    let mut chain = Blockchain::new();
    chain.send_to(String::from("owner"), String::from("a"), 100).unwrap();
    chain.send_to(String::from("owner"), String::from("a"), 200).unwrap();
    chain.send_to(String::from("owner"), String::from("a"), 300).unwrap();
    let of_a: Vec<Utxo> = chain.utxo_set.iter().filter(|u| u.output == "a").cloned().collect();
    assert_eq!(of_a.iter().map(|u| u.amount).collect::<Vec<_>>(), vec![100, 200, 300]);
    let tx = chain.send_to(String::from("a"), String::from("b"), 250).unwrap();
    assert_eq!(tx.input, vec![of_a[0].hash.clone().unwrap(), of_a[1].hash.clone().unwrap()]);
    assert_eq!(tx.output, vec![(String::from("b"), 250), (String::from("a"), 50)]);
    let mut left = owned(&chain.utxo_set, "a");
    left.sort();
    assert_eq!(left, vec![50, 300]);
    assert_eq!(owned(&chain.utxo_set, "b"), vec![250]);
    assert_eq!(total(&chain.utxo_set), 1000);
}

#[test]
fn transfer_of_nothing_consumes_nothing() {
    let mut chain = Blockchain::new();
    let tx = chain.send_to(String::from("owner"), String::from("alice"), 0).unwrap();
    assert!(tx.input.is_empty());
    assert_eq!(tx.output, vec![(String::from("alice"), 0)]);
    assert_eq!(owned(&chain.utxo_set, "owner"), vec![1000]);
    assert_eq!(owned(&chain.utxo_set, "alice"), vec![0]);
}

#[test]
fn pending_outputs_can_be_spent_before_a_block_confirms_them() {
    let mut chain = Blockchain::new();
    chain.send_to(String::from("owner"), String::from("alice"), 400).unwrap();
    let tx = chain.send_to(String::from("alice"), String::from("bob"), 150).unwrap();
    assert_eq!(tx.output, vec![(String::from("bob"), 150), (String::from("alice"), 250)]);
    assert_eq!(chain.num_pending_tx(), 2);
    assert_eq!(chain.utxo_blocked.len(), 1);
    assert_eq!(chain.utxo_blocked[0].amount, 1000);
}

#[test]
fn a_spent_identifier_comes_back_only_with_a_new_output() {
    let mut chain = Blockchain::new();
    let gift = Transaction::new(vec![], vec![(String::from("a"), 0)]);
    chain.receive_transaction(&gift);
    let id = chain.utxo_set.last().unwrap().hash.clone().unwrap();
    let take = Transaction::new(vec![id.clone()], vec![]);
    chain.receive_transaction(&take);
    assert!(chain.utxo_set.iter().all(|u| u.hash != Some(id.clone())));
    chain.receive_transaction(&take);
    assert!(chain.utxo_set.iter().all(|u| u.hash != Some(id.clone())));
    chain.receive_transaction(&gift);
    assert_eq!(chain.utxo_set.iter().filter(|u| u.hash == Some(id.clone())).count(), 1);
    chain.receive_transaction(&take);
    assert!(chain.utxo_set.iter().all(|u| u.hash != Some(id.clone())));
    assert_eq!(total(&chain.utxo_set), 1000);
    assert_eq!(chain.num_pending_tx(), 5);
}
