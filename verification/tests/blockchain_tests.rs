use p2p_blockchain_rust::block::Block;
use p2p_blockchain_rust::blockchain::Blockchain;
use p2p_blockchain_rust::transaction::Transaction;

// Helper to create a blockchain with n blocks
fn create_blockchain_with_blocks(n: usize) -> Blockchain {
    let mut bc = Blockchain::new();
    for i in 0..n {
        let tx = Transaction::new(format!("tx_{}", i));
        bc.add_create_block(vec![tx]);
    }
    bc
}

#[test]
fn test_new_blockchain_has_genesis_block() {
    let bc = Blockchain::new();
    assert_eq!(bc.get_blocks().len(), 1);
}

#[test]
fn test_genesis_block_hash_is_not_empty() {
    let bc = Blockchain::new();
    assert!(!bc.get_last_block().unwrap().get_hash().is_empty());
}

#[test]
fn test_new_blockchain_is_valid() {
    let bc = Blockchain::new();
    assert!(bc.is_valid());
}

#[test]
fn test_add_create_block_increases_length() {
    let mut bc = Blockchain::new();
    let tx = Transaction::new("test transaction".to_string());
    bc.add_create_block(vec![tx]);
    assert_eq!(bc.get_blocks().len(), 2);
}

#[test]
fn test_chain_valid_after_adding_blocks() {
    let bc = create_blockchain_with_blocks(3);
    assert_eq!(bc.get_blocks().len(), 4); // genesis + 3
    assert!(bc.is_valid());
}

#[test]
fn test_add_block_rejects_invalid_previous_hash() {
    let mut bc = Blockchain::new();
    let tx = Transaction::new("tx".to_string());
    // Create a block with a wrong previous hash
    let bad_block = Block::new_block("wrong_hash".to_string(), &[tx], 1);
    let result = bc.add_block(bad_block);
    assert!(!result);
    assert_eq!(bc.get_blocks().len(), 1); // chain unchanged
}

#[test]
fn test_tampered_chain_is_invalid() {
    let chain1 = create_blockchain_with_blocks(2);
    let chain2 = create_blockchain_with_blocks(1);

    // Build a hybrid chain: take blocks from different chains
    // block[0] from chain1, block[1] from chain2 — hashes won't match
    let tampered = vec![
        chain1.get_blocks()[0].clone(),
        chain2.get_blocks()[1].clone(),
    ];
    // Manually corrupt by mixing chains
    let bc = Blockchain::from_blocks(tampered);
    assert!(!bc.is_valid());
}

#[test]
fn test_get_last_block_returns_latest() {
    let bc = create_blockchain_with_blocks(2);
    let last = bc.get_last_block().unwrap();
    assert_eq!(last.get_height(), 2);
}

#[test]
fn test_from_blocks_preserves_chain() {
    let bc = create_blockchain_with_blocks(2);
    let blocks = bc.get_blocks().clone();
    let restored = Blockchain::from_blocks(blocks);
    assert!(restored.is_valid());
    assert_eq!(restored.get_blocks().len(), 3);
}

#[test]
fn test_add_block_accepts_block_mined_on_last() {
    let mut bc = Blockchain::new();
    let last_hash = bc.get_last_block().unwrap().get_hash().to_string();
    let block = Block::new_block(last_hash, &[Transaction::new("pay".to_string())], 1);
    assert!(bc.add_block(block));
    assert_eq!(bc.get_blocks().len(), 2);
    assert!(bc.is_valid());
}

#[test]
fn test_add_block_rejects_forged_hash() {
    let mut bc = Blockchain::new();
    let last_hash = bc.get_last_block().unwrap().get_hash().to_string();
    let mut block = Block::new_block(last_hash, &[Transaction::new("pay".to_string())], 1);
    block.hash = "00".repeat(32);
    assert!(!bc.add_block(block));
    assert_eq!(bc.get_blocks().len(), 1);
}

#[test]
fn test_add_block_on_empty_chain_is_rejected() {
    let mut bc = Blockchain::from_blocks(vec![]);
    let block = Block::new_block("None".to_string(), &[], 0);
    assert!(!bc.add_block(block));
    assert!(bc.get_last_block().is_none());
    assert!(bc.is_valid());
}

#[test]
fn test_chain_with_modified_transaction_is_invalid() {
    let bc = create_blockchain_with_blocks(1);
    let mut blocks = bc.get_blocks().clone();
    // Proof of work hashes the transaction identifiers, not the payloads.
    let mut same_ids = blocks.clone();
    same_ids[1].transactions[0].data = "tampered".to_string();
    assert!(Blockchain::from_blocks(same_ids).is_valid());
    blocks[1].transactions[0] = Transaction::new("tampered".to_string());
    assert!(!Blockchain::from_blocks(blocks).is_valid());
}

#[test]
fn test_genesis_block_shape() {
    let bc = Blockchain::new();
    let genesis = &bc.get_blocks()[0];
    assert_eq!(genesis.get_pre_block_hash(), "None");
    assert_eq!(genesis.get_height(), 0);
    assert_eq!(genesis.get_transactions().len(), 1);
    assert_eq!(genesis.get_transactions()[0].get_data(), "Genesis Block");
    assert_eq!(genesis.get_hash().len(), 64);
}

#[test]
fn test_iter_yields_blocks_in_order() {
    let bc = create_blockchain_with_blocks(2);
    let heights: Vec<usize> = bc.iter().map(|b| b.get_height()).collect();
    assert_eq!(heights, vec![0, 1, 2]);
}

#[test]
fn test_single_block_with_forged_hash_is_invalid() {
    let bc = Blockchain::new();
    let mut blocks = bc.get_blocks().clone();
    blocks[0].hash = "00".repeat(32);
    assert!(!Blockchain::from_blocks(blocks).is_valid());
}

#[test]
fn test_first_block_with_forged_hash_invalidates_chain() {
    let bc = create_blockchain_with_blocks(1);
    let mut blocks = bc.get_blocks().clone();
    let forged = "ab".repeat(32);
    blocks[0].hash = forged.clone();
    blocks[1].pre_block_hash = forged;
    assert!(!Blockchain::from_blocks(blocks).is_valid());
}
