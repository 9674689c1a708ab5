use dag_ledger::block::Block;
use dag_ledger::blockchain::Blockchain;
use dag_ledger::genesis::create_genesis_block;
use dag_ledger::mainchain::MainChain;
use sha2::{Digest, Sha256};

#[test]
fn test_block_creation() {
    let index = 1;
    let data = String::from("Test data");
    let previous_hash = String::from("00000000000000000000000000000");

    let block = Block::new(index, data.clone(), previous_hash.clone());

    assert_eq!(block.index, index);
    assert_eq!(block.data, data);
    assert_eq!(block.previous_hash, previous_hash);
    assert_ne!(block.hash, ""); // Hash should not be empty
}

#[test]
fn test_block_hash_calculation() {
    let index = 1;
    let data = String::from("Test data");
    let previous_hash = String::from("00000000000000000000000000000");
    let timestamp = std::time::SystemTime::now()
        .duration_since(std::time::UNIX_EPOCH)
        .expect("Time went backwards")
        .as_millis();

    let block = Block::new(index, data.clone(), previous_hash.clone());

    let mut hasher = Sha256::new();
    hasher.update(format!("{}{}{}{}", index, timestamp, data, previous_hash));
    let expected_hash = format!("{:x}", hasher.finalize());

    assert_eq!(block.hash, expected_hash);
}

#[test]
fn test_blockchain_integrity() {
    let first_block = Block::new(
        0,
        String::from("Genesis block"),
        String::from("00000000000000000000000000000"),
    );
    let second_block = Block::new(1, String::from("Second block"), first_block.hash.clone());

    assert_eq!(second_block.previous_hash, first_block.hash);
    assert_ne!(second_block.hash, first_block.hash); // Ensure hashes differ
}

#[test]
fn test_add_block() {
    let mut blockchain = Blockchain::new();
    let data = String::from("Block data");

    blockchain.add_block(data.clone());

    let latest_block = blockchain.chain.last().unwrap();
    assert_eq!(latest_block.data, data);
    assert_ne!(latest_block.hash, "".to_string()); // Ensure hash is not empty
}

#[test]
fn test_valid_chain() {
    let mut blockchain = Blockchain::new();
    let data1 = String::from("Block 1 data");
    let data2 = String::from("Block 2 data");

    blockchain.add_block(data1.clone());
    blockchain.add_block(data2.clone());

    assert!(blockchain.is_valid());
}

#[test]
fn test_invalid_chain_tampered_hash() {
    let mut blockchain = Blockchain::new();
    let data1 = String::from("Block 1 data");
    let data2 = String::from("Block 2 data");

    blockchain.add_block(data1.clone());
    blockchain.add_block(data2.clone());

    // Tamper with the hash of the second block
    let second_block = blockchain.chain.get_mut(1).unwrap();
    second_block.hash = String::from("tampered_hash");

    assert!(!blockchain.is_valid());
}

#[test]
fn test_genesis_block_creation() {
    let genesis_block =
        create_genesis_block(0, String::from("Genesis block"), String::from("000000000"));
    assert_eq!(genesis_block.index, 0);
    assert_eq!(genesis_block.data, String::from("Genesis block"));
    assert_eq!(genesis_block.previous_hash, String::from("000000000"));
}

#[test]
fn test_mainchain_creation() {
    let main_chain = MainChain::new();
    assert_eq!(main_chain.blocks.len(), 1); // Genesis block should be the only block
    assert_eq!(main_chain.blocks[0].data, "Genesis Block");
    assert_eq!(main_chain.blocks[0].index, 0);
}

#[test]
fn test_add_transaction_hash() {
    let mut main_chain = MainChain::new();
    main_chain.add_transaction_hash(String::from("hash_of_tx1"));
    main_chain.add_transaction_hash(String::from("hash_of_tx2"));

    assert_eq!(main_chain.blocks.len(), 3); // Genesis + 2 blocks
    assert_eq!(main_chain.blocks[1].data, "hash_of_tx1");
    assert_eq!(main_chain.blocks[2].data, "hash_of_tx2");

    // Check if the indices are correct
    assert_eq!(main_chain.blocks[1].index, 1);
    assert_eq!(main_chain.blocks[2].index, 2);

    // Check if the previous hash of the second block matches the hash of the first block
    assert_eq!(main_chain.blocks[2].previous_hash, main_chain.blocks[1].hash);
}

#[test]
fn test_mainchain_validity() {
    let mut main_chain = MainChain::new();
    main_chain.add_transaction_hash(String::from("hash_of_tx1"));
    main_chain.add_transaction_hash(String::from("hash_of_tx2"));

    assert!(main_chain.is_valid());
}

#[test]
fn test_mainchain_invalidity_due_to_modified_data() {
    let mut main_chain = MainChain::new();
    main_chain.add_transaction_hash(String::from("hash_of_tx1"));
    main_chain.add_transaction_hash(String::from("hash_of_tx2"));

    // Manually modify a block's data
    main_chain.blocks[1].data = String::from("Tampered hash");

    assert!(!main_chain.is_valid());
}
