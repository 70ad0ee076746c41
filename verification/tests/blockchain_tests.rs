use aeonmi::blockchain::{Block, Blockchain, Transaction};

fn tx(from: &str, to: &str, amount: f64) -> Transaction {
    Transaction::new(from.to_string(), to.to_string(), format!("{}", amount))
}

#[test]
fn test_genesis_valid() {
    let chain = Blockchain::new();
    assert!(chain.chain[0].is_valid());
}

#[test]
fn test_add_and_seal() {
    let mut chain = Blockchain::new();
    chain.add_transaction(tx("Alice", "Bob", 42.0));
    chain.seal_block();
    assert_eq!(chain.height(), 2);
    assert!(chain.verify());
}

#[test]
fn test_tamper_detection() {
    let mut chain = Blockchain::new();
    chain.add_transaction(tx("Alice", "Bob", 10.0));
    chain.seal_block();
    chain.chain[1].transactions[0].amount = format!("{}", 9999.0);
    assert!(!chain.verify());
}

#[test]
fn test_multi_block() {
    let mut chain = Blockchain::new();
    for i in 0..5 {
        chain.add_transaction(tx(&format!("sender{}", i), &format!("recv{}", i), i as f64 * 1.5));
        chain.seal_block();
    }
    assert_eq!(chain.height(), 6);
    assert!(chain.verify());
}

#[test]
fn hash_inputs_and_links() {
    assert_eq!(tx("Alice", "Bob", 42.0).to_hash_input(), "Alice->Bob:42:");
    assert_eq!(tx("A", "B", 1.5).with_data("cid".to_string()).to_hash_input(), "A->B:1.5:cid");
    let mut chain = Blockchain::new();
    let genesis_hash = chain.latest_hash().to_string();
    assert_eq!(genesis_hash.len(), 64);
    assert_eq!(chain.chain[0].previous_hash, "0");
    let b = chain.seal_block();
    assert_eq!(b.index, 1);
    assert_eq!(b.previous_hash, genesis_hash);
    assert!(chain.pending.is_empty());
}

#[test]
fn relinking_breaks_the_chain() {
    let mut chain = Blockchain::new();
    chain.seal_block();
    chain.seal_block();
    assert!(chain.verify());
    chain.chain[2].previous_hash = "0".to_string();
    assert!(!chain.verify());
}

#[test]
fn mined_block_has_leading_zeros() {
    let mut chain = Blockchain::new();
    chain.add_transaction(tx("A", "B", 3.0));
    let b = chain.mine_block(1);
    assert!(b.hash.starts_with('0'));
    assert!(b.is_valid());
    assert!(chain.verify());
}

#[test]
fn summary_shows_both_ends_of_the_hash() {
    let chain = Blockchain::new();
    let h = chain.latest_hash().to_string();
    assert_eq!(chain.summary(), format!("Blockchain[height=1 | latest={}...{}]", &h[..8], &h[h.len() - 8..]));
}

#[test]
fn mining_stops_at_the_first_nonce_with_the_prefix() {
    let mut b = Block::new(1, vec![], "abc".to_string());
    assert!(b.timestamp.chars().all(|c| c.is_ascii_digit()));
    b.mine(2);
    assert!(b.hash.starts_with("00"));
    assert!(b.is_valid());
    let found = b.nonce;
    for n in 0..found {
        let mut probe = Block::new(1, vec![], "abc".to_string());
        probe.timestamp = b.timestamp.clone();
        probe.nonce = n;
        assert!(!probe.calculate_hash().starts_with("00"));
    }
    let before = b.hash.clone();
    b.mine(2);
    assert_eq!(b.nonce, found);
    assert_eq!(b.hash, before);
}
