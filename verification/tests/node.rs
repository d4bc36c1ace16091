use block_factory::blockchain::{Block, Chain, Node, Transaction};
use block_factory::error::BlockFactoryError;
use block_factory::persistence::ledger::NONCE_LIMIT;
use block_factory::persistence::models::{BlockData, TransactionData};
use block_factory::persistence::port::{NodePersistency, Persistence};

fn transfer(from: &str, to: &str, instruction: &[u8]) -> Transaction {
    Transaction { from: from.to_string(), to: to.to_string(), instruction: instruction.to_vec() }
}

fn submitted(rows: &[TransactionData]) -> Vec<Transaction> {
    rows.iter()
        .map(|r| Transaction {
            from: r.from.clone(),
            to: r.to.clone(),
            instruction: r.instruction.clone(),
        })
        .collect()
}

fn tip(node: &Node) -> BlockData {
    node.persistence().read_latest_block_data().unwrap()
}

#[test]
fn a_new_node_has_no_chain() {
    let node = Node::new();
    assert_eq!(node.persistence().height(), 0);
}

#[test]
fn bootstrap_creates_the_genesis_block() {
    let mut node = Node::new();
    assert_eq!(node.store_genesis_block(), Ok(()));
    let genesis = tip(&node);
    assert_eq!(node.persistence().height(), 1);
    assert_eq!(genesis.height, 1);
    assert_eq!(genesis.prev_block_hash, "");
    assert!(genesis.nonce < NONCE_LIMIT);
    assert_eq!(genesis.id.chars().count(), 36);
    assert_eq!(genesis.hash, sha256::digest(format!("36:{}{}:1:", genesis.id, genesis.nonce)));
}

#[test]
fn bootstrap_twice_is_already_initialized() {
    let mut node = Node::new();
    assert_eq!(node.store_genesis_block(), Ok(()));
    let genesis = tip(&node);
    assert_eq!(node.store_genesis_block(), Err(BlockFactoryError::AlreadyInitialized));
    assert_eq!(node.persistence().blocks(), vec![genesis]);
}

#[test]
fn bootstrap_after_a_restart_is_already_initialized() {
    let mut node = Node::new();
    let mut chain = Chain::new();
    node.store_genesis_block().unwrap();
    chain.submit(transfer("alice", "bob", b"pay 1"));
    assert_eq!(node.tick(&mut chain), Ok(true));
    let blocks = node.persistence().blocks();
    let rows = node
        .persistence()
        .transactions_of(2)
        .into_iter()
        .map(|data| block_factory::persistence::port::TransactionRow { data, block_height: 2 })
        .collect();
    let mut restarted = Node::with_persistence(Persistence::restore(blocks.clone(), rows).unwrap());
    assert_eq!(restarted.store_genesis_block(), Err(BlockFactoryError::AlreadyInitialized));
    assert_eq!(restarted.persistence().blocks(), blocks);
    chain.submit(transfer("bob", "carol", b"pay 2"));
    assert_eq!(restarted.tick(&mut chain), Ok(true));
    assert_eq!(tip(&restarted).height, 3);
    assert_eq!(tip(&restarted).prev_block_hash, blocks[1].hash);
}

#[test]
fn a_block_without_genesis_is_missing_genesis() {
    let mut node = Node::new();
    let block = Block::from(vec![transfer("alice", "bob", b"pay 1")]);
    assert_eq!(node.store_block(block), Err(BlockFactoryError::MissingGenesis));
    assert_eq!(node.persistence().height(), 0);
    assert!(node.persistence().transactions_of(1).is_empty());
}

#[test]
fn a_batch_with_a_bad_instruction_is_refused_whole() {
    let mut node = Node::new();
    node.store_genesis_block().unwrap();
    let genesis = tip(&node);
    let block = Block::from(vec![
        transfer("alice", "bob", b"pay 1"),
        transfer("bob", "carol", &[0xff, 0xfe]),
        transfer("carol", "alice", b"pay 3"),
    ]);
    assert_eq!(node.store_block(block), Err(BlockFactoryError::EncodingFailure));
    assert_eq!(node.persistence().blocks(), vec![genesis]);
    assert!(node.persistence().transactions_of(1).is_empty());
    assert!(node.persistence().transactions_of(2).is_empty());
}

#[test]
fn a_stored_block_extends_the_tip() {
    let mut node = Node::new();
    node.store_genesis_block().unwrap();
    let genesis = tip(&node);
    let a = transfer("alice", "bob", b"pay 1");
    let b = transfer("bob", "carol", b"pay 2");
    assert_eq!(node.store_block(Block::from(vec![a.clone(), b.clone()])), Ok(()));
    let second = tip(&node);
    assert_eq!(second.height, 2);
    assert_eq!(second.prev_block_hash, genesis.hash);
    assert!(second.nonce < NONCE_LIMIT);
    assert_eq!(second.id.chars().count(), 36);
    assert!(second.verify());
    assert_eq!(
        second.hash,
        sha256::digest(format!("36:{}{}:2:{}", second.id, second.nonce, genesis.hash))
    );
    let rows = node.persistence().transactions_of(2);
    assert_eq!(submitted(&rows), vec![a, b]);
    for row in rows.iter() {
        assert_eq!(row.id.chars().count(), 36);
        let text = String::from_utf8(row.instruction.clone()).unwrap();
        assert_eq!(row.hash, sha256::digest(format!("{}{}{}{}", row.id, row.from, row.to, text)));
    }
}

#[test]
fn prepare_block_builds_the_unit_for_a_tip() {
    let genesis = BlockData::genesis("g".to_string(), 0);
    let a = transfer("alice", "bob", b"pay 1");
    let (block, rows) = Node::prepare_block(Some(&genesis), Block::from(vec![a.clone()])).unwrap();
    assert_eq!(block.height, 2);
    assert_eq!(block.prev_block_hash, genesis.hash);
    assert!(block.nonce < NONCE_LIMIT);
    assert!(block.verify());
    assert_eq!(submitted(&rows), vec![a]);
}

#[test]
fn prepare_block_needs_a_tip() {
    let good = Block::from(vec![transfer("alice", "bob", b"pay 1")]);
    assert_eq!(Node::prepare_block(None, good), Err(BlockFactoryError::MissingGenesis));
    let bad = Block::from(vec![transfer("alice", "bob", &[0x80])]);
    assert_eq!(Node::prepare_block(None, bad), Err(BlockFactoryError::MissingGenesis));
}

#[test]
fn prepare_block_refuses_what_cannot_be_stored() {
    let genesis = BlockData::genesis("g".to_string(), 0);
    let bad = Block::from(vec![transfer("alice", "bob", &[0x80])]);
    assert_eq!(Node::prepare_block(Some(&genesis), bad), Err(BlockFactoryError::EncodingFailure));
    let last = BlockData { height: u32::MAX, ..genesis };
    let good = Block::from(vec![transfer("alice", "bob", b"pay 1")]);
    assert_eq!(Node::prepare_block(Some(&last), good), Err(BlockFactoryError::PersistenceFailure));
    let both = Block::from(vec![transfer("alice", "bob", &[0x80])]);
    assert_eq!(Node::prepare_block(Some(&last), both), Err(BlockFactoryError::PersistenceFailure));
}

#[test]
fn prepare_genesis_builds_a_genesis_block() {
    let genesis = Node::prepare_genesis(None).unwrap();
    assert_eq!(genesis.height, 1);
    assert_eq!(genesis.prev_block_hash, "");
    assert!(genesis.nonce < NONCE_LIMIT);
    assert_eq!(genesis.id.chars().count(), 36);
    assert!(genesis.verify());
}

#[test]
fn prepare_genesis_on_a_chain_is_already_initialized() {
    let genesis = BlockData::genesis("g".to_string(), 0);
    assert_eq!(Node::prepare_genesis(Some(&genesis)), Err(BlockFactoryError::AlreadyInitialized));
    let second = BlockData::successor(&genesis, "b1".to_string(), 5).unwrap();
    assert_eq!(Node::prepare_genesis(Some(&second)), Err(BlockFactoryError::AlreadyInitialized));
}

#[test]
fn three_epochs_make_a_chain_of_three() {
    let a = transfer("alice", "bob", b"pay 1");
    let b = transfer("bob", "carol", b"pay 2");
    let c = transfer("carol", "alice", b"pay 3");
    let mut node = Node::new();
    let mut chain = Chain::new();
    assert_eq!(node.store_genesis_block(), Ok(()));
    let genesis = tip(&node);

    chain.submit(a.clone());
    assert_eq!(node.tick(&mut chain), Ok(true));
    let second = tip(&node);
    assert_eq!(node.persistence().height(), 2);
    assert_eq!(second.height, 2);
    assert_eq!(second.prev_block_hash, genesis.hash);
    assert_eq!(submitted(&node.persistence().transactions_of(2)), vec![a.clone()]);

    chain.submit(b.clone());
    chain.submit(c.clone());
    assert_eq!(node.tick(&mut chain), Ok(true));
    let third = tip(&node);
    assert_eq!(node.persistence().height(), 3);
    assert_eq!(third.height, 3);
    assert_eq!(third.prev_block_hash, second.hash);
    assert_eq!(submitted(&node.persistence().transactions_of(3)), vec![b, c]);
    assert_eq!(submitted(&node.persistence().transactions_of(2)), vec![a]);

    assert_eq!(node.tick(&mut chain), Ok(false));
    assert_eq!(node.persistence().height(), 3);
    assert_eq!(tip(&node), third);
    assert_eq!(node.persistence().blocks(), vec![genesis, second, third]);
}

#[test]
fn an_empty_epoch_changes_nothing() {
    let mut node = Node::new();
    let mut chain = Chain::new();
    assert_eq!(node.tick(&mut chain), Ok(false));
    assert_eq!(node.persistence().height(), 0);
    node.store_genesis_block().unwrap();
    let genesis = tip(&node);
    assert_eq!(node.tick(&mut chain), Ok(false));
    assert_eq!(node.tick(&mut chain), Ok(false));
    assert_eq!(node.persistence().blocks(), vec![genesis.clone()]);
    assert_eq!(chain.peek_count(), 0);
    let a = transfer("alice", "bob", b"pay 1");
    chain.submit(a.clone());
    assert_eq!(node.tick(&mut chain), Ok(true));
    assert_eq!(tip(&node).height, 2);
    assert_eq!(tip(&node).prev_block_hash, genesis.hash);
    assert_eq!(submitted(&node.persistence().transactions_of(2)), vec![a]);
}

#[test]
fn every_submission_is_in_exactly_one_block() {
    let mut node = Node::new();
    let mut chain = Chain::new();
    node.store_genesis_block().unwrap();
    let mut all = Vec::new();
    let mut number = 0u32;
    for epoch in 0..6u32 {
        for _ in 0..(epoch % 3) {
            let tx = transfer("alice", "bob", format!("pay {}", number).as_bytes());
            number += 1;
            all.push(tx.clone());
            chain.submit(tx);
        }
        assert_eq!(node.tick(&mut chain), Ok(epoch % 3 != 0));
    }
    let height = node.persistence().height();
    assert_eq!(height, 5);
    let mut stored = Vec::new();
    for h in 1..=height {
        stored.extend(submitted(&node.persistence().transactions_of(h)));
    }
    assert_eq!(stored, all);
    assert_eq!(chain.peek_count(), 0);
}

#[test]
fn a_tick_without_genesis_loses_the_batch() {
    let mut node = Node::new();
    let mut chain = Chain::new();
    chain.submit(transfer("alice", "bob", b"pay 1"));
    assert_eq!(node.tick(&mut chain), Err(BlockFactoryError::MissingGenesis));
    assert_eq!(chain.peek_count(), 0);
    assert_eq!(node.persistence().height(), 0);
}

#[test]
fn a_tick_with_a_bad_instruction_loses_the_batch() {
    let mut node = Node::new();
    let mut chain = Chain::new();
    node.store_genesis_block().unwrap();
    chain.submit(transfer("alice", "bob", &[0xff]));
    assert_eq!(node.tick(&mut chain), Err(BlockFactoryError::EncodingFailure));
    assert_eq!(chain.peek_count(), 0);
    assert_eq!(node.persistence().height(), 1);
    assert!(node.persistence().transactions_of(2).is_empty());
}
