use solana_sdk::signer::keypair::Keypair as SolanaKeypair;
use solana_sdk::signer::Signer;
use solana_tss::error::Error;
use solana_tss::serialization::AggMessage1;
use solana_tss::tss::{key_agg, sign_and_broadcast, step_one, step_two, KeyPair};

fn generate() -> KeyPair {
    let kp = SolanaKeypair::new();
    KeyPair { secret: kp.secret().to_bytes(), public: kp.pubkey().to_bytes() }
}

fn clone_serialize(m: &AggMessage1) -> AggMessage1 {
    let mut v = Vec::new();
    m.serialize(&mut v);
    AggMessage1::deserialize(&v).unwrap()
}

#[test]
fn test_roundtrip() {
    let n = 5;
    let keys: Vec<_> = (0..n).map(|_| generate()).collect();
    let pubkeys: Vec<[u8; 32]> = keys.iter().map(|k| k.public).collect();
    // Key Generation
    let aggpubkey = key_agg(pubkeys.clone(), None).unwrap().agg_public_key;
    let full_amount: u64 = 500_000_000;
    // step 1
    let to = generate();
    let (first_msgs, first_secrets): (Vec<_>, Vec<_>) =
        keys.iter().map(|k| step_one(*k)).unzip();

    let recent_block_hash = [17u8; 32];
    // step 2
    let amount = full_amount / 2;
    let memo = Some("test_roundtrip".to_string());

    let partial_sigs: Vec<_> = keys
        .iter()
        .zip(first_secrets.into_iter())
        .enumerate()
        .map(|(i, (key, secret))| {
            let mut first_msgs: Vec<_> = first_msgs.iter().map(clone_serialize).collect();
            first_msgs.remove(i);
            step_two(
                *key,
                amount,
                to.public,
                memo.clone(),
                recent_block_hash,
                pubkeys.clone(),
                first_msgs,
                secret,
            )
            .unwrap()
        })
        .collect();

    let full_tx = sign_and_broadcast(
        amount,
        to.public,
        memo,
        recent_block_hash,
        pubkeys,
        partial_sigs,
    )
    .unwrap();
    // The aggregated signature passed standard Ed25519 verification against
    // the aggregate key, or sign_and_broadcast would have refused it; the
    // signed payload names the aggregate key as its fee payer.
    assert_eq!(full_tx.signature.len(), 64);
    assert!(full_tx.message_bytes.windows(32).any(|w| w == aggpubkey));
}

#[test]
fn test_key_agg_permutation_invariant() {
    let keys: Vec<[u8; 32]> = (0..4).map(|_| generate().public).collect();
    let mut permuted = keys.clone();
    permuted.reverse();
    permuted.swap(0, 1);
    let a = key_agg(keys, None).unwrap();
    let b = key_agg(permuted, None).unwrap();
    assert_eq!(a.agg_public_key, b.agg_public_key);
}

#[test]
fn test_key_agg_mine_same_aggregate() {
    let keys: Vec<[u8; 32]> = (0..3).map(|_| generate().public).collect();
    let plain = key_agg(keys.clone(), None).unwrap();
    for k in &keys {
        let mine = key_agg(keys.clone(), Some(*k)).unwrap();
        assert_eq!(mine.agg_public_key, plain.agg_public_key);
    }
}

#[test]
fn test_key_agg_non_member() {
    let keys: Vec<[u8; 32]> = (0..3).map(|_| generate().public).collect();
    let outsider = generate().public;
    assert!(matches!(key_agg(keys, Some(outsider)), Err(Error::KeyPairIsNotInKeys)));
}

fn non_point() -> [u8; 32] {
    let mut bad = [0u8; 32];
    for b in 0..=255u8 {
        bad[0] = b;
        if curve25519_dalek::edwards::CompressedEdwardsY(bad).decompress().is_none() {
            return bad;
        }
    }
    panic!("every candidate decompressed");
}

#[test]
fn test_key_agg_rejects_non_point_key() {
    let keys = vec![generate().public, non_point()];
    let r = key_agg(keys, None);
    assert!(matches!(
        r,
        Err(Error::DeserializationFailed {
            error: solana_tss::serialization::Error::InvalidPoint,
            field_name: "keys",
        })
    ));
}

#[test]
fn test_step_two_rejects_malformed_first_message() {
    let k1 = generate();
    let k2 = generate();
    let keys = vec![k1.public, k2.public];
    let (mut m2, _) = step_one(k2);
    m2.public_nonces.R[0] = non_point();
    let (_, s1) = step_one(k1);
    let r = step_two(k1, 1_000, generate().public, None, [2u8; 32], keys, vec![m2], s1);
    assert!(matches!(
        r,
        Err(Error::DeserializationFailed {
            error: solana_tss::serialization::Error::InvalidPoint,
            field_name: "first_messages",
        })
    ));
}

#[test]
fn test_step_two_non_member_signer() {
    let k1 = generate();
    let k2 = generate();
    let k3 = generate();
    let keys = vec![k1.public, k2.public];
    let (m1, _s1) = step_one(k1);
    let (_m2, s2) = step_one(k2);
    let r = step_two(k3, 300_000_000, generate().public, None, [1u8; 32], keys, vec![m1], s2);
    assert!(matches!(r, Err(Error::KeyPairIsNotInKeys)));
}

#[test]
fn test_partial_signatures_share_one_nonce_point() {
    let keys: Vec<KeyPair> = (0..3).map(|_| generate()).collect();
    let pubkeys: Vec<[u8; 32]> = keys.iter().map(|k| k.public).collect();
    let to = generate().public;
    let hash = [9u8; 32];
    let rounds: Vec<_> = keys.iter().map(|k| step_one(*k)).collect();
    let partials: Vec<_> = keys
        .iter()
        .enumerate()
        .map(|(i, k)| {
            let others: Vec<_> = rounds
                .iter()
                .enumerate()
                .filter(|(j, _)| *j != i)
                .map(|(_, (m, _))| clone_serialize(m))
                .collect();
            step_two(
                *k,
                250_000_000,
                to,
                None,
                hash,
                pubkeys.clone(),
                others,
                rounds[i].1,
            )
            .unwrap()
        })
        .collect();
    let first_r = &partials[0].0[..32];
    for p in &partials {
        assert_eq!(&p.0[..32], first_r);
    }
}

#[test]
fn test_mismatched_amount_fails_verification() {
    let k1 = generate();
    let k2 = generate();
    let pubkeys = vec![k1.public, k2.public];
    let to = generate().public;
    let hash = [4u8; 32];
    let (m1, s1) = step_one(k1);
    let (m2, s2) = step_one(k2);
    let p1 = step_two(
        k1,
        300_000_000,
        to,
        None,
        hash,
        pubkeys.clone(),
        vec![clone_serialize(&m2)],
        s1,
    )
    .unwrap();
    let p2 = step_two(
        k2,
        400_000_000,
        to,
        None,
        hash,
        pubkeys.clone(),
        vec![clone_serialize(&m1)],
        s2,
    )
    .unwrap();
    // The nonce coefficient hashes the message, so signing different
    // amounts already yields partial signatures with different session
    // nonces: aggregation refuses them before verification.
    let r = sign_and_broadcast(300_000_000, to, None, hash, pubkeys, vec![p1, p2]);
    assert!(matches!(r, Err(Error::MismatchMessages)));
}

#[test]
fn test_tampered_memo_fails_verification() {
    let k1 = generate();
    let k2 = generate();
    let pubkeys = vec![k1.public, k2.public];
    let to = generate().public;
    let hash = [4u8; 32];
    let (m1, s1) = step_one(k1);
    let (m2, s2) = step_one(k2);
    let p1 = step_two(
        k1,
        300_000_000,
        to,
        None,
        hash,
        pubkeys.clone(),
        vec![clone_serialize(&m2)],
        s1,
    )
    .unwrap();
    let p2 = step_two(
        k2,
        300_000_000,
        to,
        None,
        hash,
        pubkeys.clone(),
        vec![clone_serialize(&m1)],
        s2,
    )
    .unwrap();
    let r = sign_and_broadcast(
        300_000_000,
        to,
        Some("surprise".to_string()),
        hash,
        pubkeys,
        vec![p1, p2],
    );
    assert!(matches!(r, Err(Error::InvalidSignature)));
}

#[test]
fn test_wrong_tag_paste_secret_state_as_first_message() {
    let k1 = generate();
    let (_m1, s1) = step_one(k1);
    let blob = s1.serialize_bs58();
    let r = AggMessage1::deserialize_bs58(&blob);
    assert!(matches!(
        r,
        Err(solana_tss::serialization::Error::WrongTag {
            expected: solana_tss::serialization::Tag::AggMessage1,
            found: solana_tss::serialization::Tag::SecretAggStepOne,
        })
    ));
}

#[test]
fn test_step_one_draws_fresh_nonces() {
    let k = generate();
    let (m1, s1) = step_one(k);
    let (m2, s2) = step_one(k);
    assert_ne!(s1.private_nonces.r[0], s2.private_nonces.r[0]);
    assert_ne!(m1.public_nonces.R[0], m2.public_nonces.R[0]);
    assert_eq!(m1.sender, k.public);
    assert_eq!(m1.public_nonces.R, s1.public_nonces.R);
}

#[test]
fn test_mismatched_nonce_points_refused() {
    let k1 = generate();
    let k2 = generate();
    let pubkeys = vec![k1.public, k2.public];
    let to = generate().public;
    let hash = [4u8; 32];
    let (m1, s1) = step_one(k1);
    let (m2, s2) = step_one(k2);
    let p1 = step_two(
        k1,
        300_000_000,
        to,
        None,
        hash,
        pubkeys.clone(),
        vec![clone_serialize(&m2)],
        s1,
    )
    .unwrap();
    // The second party saw a different set of round-one messages, so its
    // partial signature carries a different session nonce.
    let (m3, _s3) = step_one(generate());
    let p2 = step_two(
        k2,
        300_000_000,
        to,
        None,
        hash,
        pubkeys.clone(),
        vec![clone_serialize(&m3)],
        s2,
    )
    .unwrap();
    let r = sign_and_broadcast(300_000_000, to, None, hash, pubkeys, vec![p1, p2]);
    assert!(matches!(r, Err(Error::MismatchMessages)));
}
