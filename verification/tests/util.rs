use dag_ledger::blockchain::Blockchain;
use dag_ledger::commands::{parse_add_user_data, parse_transaction_data};
use dag_ledger::crypto::{canonical_message, KeyPairWrapper};
use dag_ledger::errors::LedgerError;
use dag_ledger::numfmt::{bytes_to_hex, parse_u64, u128_to_string, u64_to_string};
use dag_ledger::transfer::process_transaction;
use dag_ledger::wallet::{User, UserPool};

#[test]
fn decimal_rendering_is_exact() {
    assert_eq!(u64_to_string(0), "0");
    assert_eq!(u64_to_string(12345), "12345");
    assert_eq!(u64_to_string(u64::MAX), "18446744073709551615");
    assert_eq!(u128_to_string(340282366920938463463374607431768211455), format!("{}", u128::MAX));
}

#[test]
fn decimal_parsing_is_exact() {
    assert_eq!(parse_u64("12345"), Some(12345));
    assert_eq!(parse_u64("0"), Some(0));
    assert_eq!(parse_u64("18446744073709551615"), Some(u64::MAX));
    assert_eq!(parse_u64("18446744073709551616"), None);
    assert_eq!(parse_u64(""), None);
    assert_eq!(parse_u64("12a"), None);
}

#[test]
fn hex_rendering_is_exact() {
    assert_eq!(bytes_to_hex(&vec![0x00, 0xff, 0x1a]), "00ff1a");
    assert_eq!(bytes_to_hex(&Vec::new()), "");
}

#[test]
fn canonical_message_shape() {
    let message = canonical_message("id-1", "alice", "bob", 40, 170000);
    assert_eq!(message, "id-1:alice:bob:40:170000");
}

#[test]
fn signatures_verify_and_break() {
    let key_pair = KeyPairWrapper::generate().unwrap();
    let public_key = key_pair.public_key().unwrap();
    let signature = key_pair.sign("hello").unwrap();
    assert!(KeyPairWrapper::verify(&public_key, "hello", &signature).is_ok());
    assert_eq!(
        KeyPairWrapper::verify(&public_key, "hellx", &signature),
        Err(LedgerError::BadSignature)
    );
    // A wrapper without key material cannot sign.
    let missing = KeyPairWrapper::missing();
    assert_eq!(missing.sign("hello"), Err(LedgerError::SignError));
}

#[test]
fn wallet_transfer_moves_tokens() {
    let mut alice = User::new(String::from("alice"), 30);
    let mut bob = User::new(String::from("bob"), 5);
    alice.send_tokens(10, &mut bob).unwrap();
    assert_eq!(alice.wallet.balance, 20);
    assert_eq!(bob.wallet.balance, 15);
    assert_eq!(
        alice.send_tokens(100, &mut bob),
        Err(LedgerError::InsufficientBalance)
    );
}

#[test]
fn pool_transfer_extends_the_chain() {
    let mut pool = UserPool::new();
    pool.add_user(User::new(String::from("alice"), 50));
    pool.add_user(User::new(String::from("bob"), 0));
    let mut blockchain = Blockchain::new();
    let (alice_balance, bob_balance) =
        process_transaction(&mut pool, &mut blockchain, "alice", "bob", 20).unwrap();
    assert_eq!(alice_balance, 30);
    assert_eq!(bob_balance, 20);
    assert_eq!(blockchain.chain.len(), 2);
    assert_eq!(blockchain.chain[1].data, "alice sent 20 tokens to bob");
    assert!(blockchain.is_valid());
    assert_eq!(
        process_transaction(&mut pool, &mut blockchain, "alice", "carol", 1),
        Err(LedgerError::UnknownUser)
    );
}

#[test]
fn transaction_tokens_parse_in_fours() {
    let tokens: Vec<String> = ["TOKEN", "alice", "bob", "40", "TOKEN", "bob", "alice", "7"]
        .iter()
        .map(|token| token.to_string())
        .collect();
    let tuples = parse_transaction_data(&tokens);
    assert_eq!(tuples.len(), 2);
    assert_eq!(
        tuples[0],
        (
            String::from("TOKEN"),
            String::from("alice"),
            String::from("bob"),
            40,
        )
    );
    assert_eq!(
        tuples[1],
        (
            String::from("TOKEN"),
            String::from("bob"),
            String::from("alice"),
            7,
        )
    );

    let odd: Vec<String> = ["TOKEN", "alice", "bob"].iter().map(|t| t.to_string()).collect();
    assert!(parse_transaction_data(&odd).is_empty());

    let bad_amount: Vec<String> =
        ["TOKEN", "alice", "bob", "many"].iter().map(|t| t.to_string()).collect();
    assert!(parse_transaction_data(&bad_amount).is_empty());
}

#[test]
fn add_user_tokens_parse_in_pairs() {
    let tokens: Vec<String> = ["alice", "100"].iter().map(|t| t.to_string()).collect();
    assert_eq!(
        parse_add_user_data(&tokens),
        (String::from("alice"), String::from("100"))
    );
    let wrong: Vec<String> = ["alice"].iter().map(|t| t.to_string()).collect();
    assert_eq!(parse_add_user_data(&wrong), (String::new(), String::from("0")));
}
