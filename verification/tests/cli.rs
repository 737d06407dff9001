use std::str::FromStr;

use solana_sdk::signer::keypair::Keypair as SolanaKeypair;
use solana_sdk::signer::Signer;
use solana_tss::cli::Network;
use solana_tss::error::Error;
use solana_tss::{cli::parse_keypair_bs58, create_unsigned_transaction};

#[test]
fn test_network_parsing() {
    assert_eq!(Network::from_str("mainnet").unwrap(), Network::Mainnet);
    assert_eq!(Network::from_str("Testnet").unwrap(), Network::Testnet);
    assert_eq!(Network::from_str("devnet").unwrap(), Network::Devnet);
    assert!(matches!(Network::from_str("localnet"), Err(Error::WrongNetwork(_))));
}

#[test]
fn test_cluster_urls() {
    assert_eq!(Network::Mainnet.get_cluster_url(), "https://api.mainnet-beta.solana.com");
    assert_eq!(Network::Testnet.get_cluster_url(), "https://api.testnet.solana.com");
    assert_eq!(Network::Devnet.get_cluster_url(), "https://api.devnet.solana.com");
}

#[test]
fn test_parse_keypair_roundtrip() {
    let kp = SolanaKeypair::new();
    let encoded = kp.to_base58_string();
    let parsed = parse_keypair_bs58(&encoded).unwrap();
    assert_eq!(parsed.public, kp.pubkey().to_bytes());
    assert_eq!(parsed.secret, kp.secret().to_bytes());
}

#[test]
fn test_parse_keypair_rejects_garbage() {
    assert!(matches!(parse_keypair_bs58("%%% not base58"), Err(Error::BadBase58(_))));
    // Valid base58 of the wrong length is not a keypair.
    let short = bs58::encode([1u8, 2, 3]).into_string();
    assert!(matches!(parse_keypair_bs58(&short), Err(Error::WrongKeyPair(_))));
}

#[test]
fn test_unsigned_transaction_fields() {
    let to = [1u8; 32];
    let payer = [2u8; 32];
    let tx = create_unsigned_transaction(42, &to, Some("hi".to_string()), &payer);
    assert_eq!(tx.amount, 42);
    assert_eq!(tx.to, to);
    assert_eq!(tx.payer, payer);
    assert_eq!(tx.memo.as_deref(), Some("hi"));
}

#[test]
fn test_message_bytes_bind_the_parameters() {
    let to = [1u8; 32];
    let payer = [2u8; 32];
    let hash = [3u8; 32];
    let base = create_unsigned_transaction(42, &to, None, &payer).message_bytes(&hash);
    let again = create_unsigned_transaction(42, &to, None, &payer).message_bytes(&hash);
    assert_eq!(base, again);
    let other_amount = create_unsigned_transaction(43, &to, None, &payer).message_bytes(&hash);
    assert_ne!(base, other_amount);
    let other_hash = create_unsigned_transaction(42, &to, None, &payer).message_bytes(&[4u8; 32]);
    assert_ne!(base, other_hash);
    let with_memo =
        create_unsigned_transaction(42, &to, Some("hello".to_string()), &payer).message_bytes(&hash);
    assert_ne!(base, with_memo);
    // The memo's UTF-8 bytes ride inside the message, and the blockhash too.
    assert!(with_memo.windows(5).any(|w| w == b"hello"));
    assert!(base.windows(32).any(|w| w == hash));
}
