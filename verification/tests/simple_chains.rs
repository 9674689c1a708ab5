use dag_ledger::base::block::Block;
use dag_ledger::chains::blockchain::Blockchain;
use sha2::{Digest, Sha256};

#[test]
fn block_test_block_creation() {
    let data = String::from("Block data");
    let previous_hash = String::from("00000000000000000000000000000000");
    let block = Block::new(1, previous_hash.clone(), data.clone());

    assert_eq!(block.index, 1);
    assert_eq!(block.previous_hash, previous_hash);
    assert_eq!(block.data, data);
    assert!(!block.hash.is_empty());
}

#[test]
fn test_hash_calculation() {
    let index = 1;
    let timestamp = 1630348284_u128;
    let previous_hash = "00000000000000000000000000000000";
    let data = "Block data";
    let expected_hash = Block::calculate_hash(index, timestamp, previous_hash, data);

    // Manually calculate the hash to check correctness
    let mut hasher = Sha256::new();
    hasher.update(index.to_string());
    hasher.update(timestamp.to_string());
    hasher.update(previous_hash);
    hasher.update(data);
    let manual_hash = format!("{:x}", hasher.finalize());

    assert_eq!(expected_hash, manual_hash);
}

#[test]
fn test_different_data_produces_different_hashes() {
    let previous_hash = "00000000000000000000000000000000".to_string();
    let block1 = Block::new(1, previous_hash.clone(), "Data 1".to_string());
    let block2 = Block::new(2, previous_hash.clone(), "Data 2".to_string());

    assert_ne!(block1.hash, block2.hash);
}

#[test]
fn test_same_data_same_hash() {
    let previous_hash = "00000000000000000000000000000000".to_string();
    let block1 = Block::new(1, previous_hash.clone(), "Same data".to_string());
    let block2 = Block::new(1, previous_hash.clone(), "Same data".to_string());

    assert_eq!(block1.hash, block2.hash);
}

#[test]
fn test_blockchain_creation() {
    let blockchain = Blockchain::new();

    assert_eq!(blockchain.blocks.len(), 1); // Genesis block should be the only block
    assert_eq!(blockchain.blocks[0].data, "Genesis Block");
    assert_eq!(blockchain.blocks[0].index, 0);
}

#[test]
fn blockchain_test_add_block() {
    let mut blockchain = Blockchain::new();
    blockchain.add_block(String::from("First block"));
    blockchain.add_block(String::from("Second block"));

    assert_eq!(blockchain.blocks.len(), 3); // Genesis + 2 blocks
    assert_eq!(blockchain.blocks[1].data, "First block");
    assert_eq!(blockchain.blocks[2].data, "Second block");

    // Check if the indices are correct
    assert_eq!(blockchain.blocks[1].index, 1);
    assert_eq!(blockchain.blocks[2].index, 2);

    // Check if the previous hash of the second block matches the hash of the first block
    assert_eq!(blockchain.blocks[2].previous_hash, blockchain.blocks[1].hash);
}

#[test]
fn test_blockchain_validity() {
    let mut blockchain = Blockchain::new();
    blockchain.add_block(String::from("First block"));
    blockchain.add_block(String::from("Second block"));

    assert!(blockchain._is_valid()); // Blockchain should be valid
}

#[test]
fn test_blockchain_invalidity_due_to_modified_data() {
    let mut blockchain = Blockchain::new();
    blockchain.add_block(String::from("First block"));
    blockchain.add_block(String::from("Second block"));

    // Manually modify a block's data
    blockchain.blocks[1].data = String::from("Tampered block");

    assert!(!blockchain._is_valid()); // Blockchain should be invalid
}

#[test]
fn test_blockchain_invalidity_due_to_modified_hash() {
    let mut blockchain = Blockchain::new();
    blockchain.add_block(String::from("First block"));
    blockchain.add_block(String::from("Second block"));

    // Manually modify a block's hash
    blockchain.blocks[1].hash = String::from("1234567890abcdef");

    assert!(!blockchain._is_valid()); // Blockchain should be invalid
}

#[test]
fn test_blockchain_invalidity_due_to_modified_previous_hash() {
    let mut blockchain = Blockchain::new();
    blockchain.add_block(String::from("First block"));
    blockchain.add_block(String::from("Second block"));

    // Manually modify the previous hash of the second block
    blockchain.blocks[2].previous_hash = String::from("abcdef1234567890");

    assert!(!blockchain._is_valid()); // Blockchain should be invalid
}
