use curve25519_dalek::constants::ED25519_BASEPOINT_TABLE;
use curve25519_dalek::scalar::Scalar;
use solana_tss::error::Error as TopError;
use solana_tss::serialization::{
    AggMessage1, Error, FieldError, PartialSignature, PrivatePartialNonces, PublicPartialNonces,
    SecretAggStepOne, Tag,
};

fn point_for(seed: [u8; 32]) -> [u8; 32] {
    (&ED25519_BASEPOINT_TABLE * &Scalar::from_bytes_mod_order(seed)).compress().to_bytes()
}

fn scalar_for(seed: [u8; 32]) -> [u8; 32] {
    Scalar::from_bytes_mod_order(seed).to_bytes()
}

fn tweak(mut seed: [u8; 32]) -> [u8; 32] {
    seed[0] ^= 1;
    seed
}

#[test]
fn test_agg_msg1() {
    let mut msg = [0u8; 32];
    let mut sender = [0u8; 32];
    for i in 0..u8::MAX {
        sender.fill(i);
        msg.fill(i);
        let public_nonces = PublicPartialNonces { R: [point_for(msg), point_for(tweak(msg))] };
        let aggmsg1 = AggMessage1 { public_nonces, sender };
        let serialized = aggmsg1.serialize_bs58();
        let deserialized = AggMessage1::deserialize_bs58(&serialized).unwrap();
        assert_eq!(aggmsg1, deserialized);
    }
}

#[test]
fn test_agg_partial_signature() {
    let mut signature = [0u8; 64];
    for i in 0..u8::MAX {
        signature.fill(i);
        let partial_sig = PartialSignature(signature);
        let serialized = partial_sig.serialize_bs58();
        let deserialized = PartialSignature::deserialize_bs58(&serialized).unwrap();
        assert_eq!(partial_sig, deserialized);
    }
}

#[test]
fn test_serialize_secret_agg1() {
    let mut data = [0u8; 32];
    for i in 0..u8::MAX {
        data.fill(i);
        let private_nonces = PrivatePartialNonces { r: [scalar_for(data), scalar_for(tweak(data))] };
        let public_nonces = PublicPartialNonces { R: [point_for(data), point_for(tweak(data))] };
        let secret_agg1 = SecretAggStepOne { private_nonces, public_nonces };
        let serialized = secret_agg1.serialize_bs58();
        let deserialized = SecretAggStepOne::deserialize_bs58(&serialized).unwrap();
        assert_eq!(secret_agg1, deserialized);
    }
}

#[test]
fn test_wrong_tag_rejected() {
    let seed = [7u8; 32];
    let m1 = AggMessage1 {
        public_nonces: PublicPartialNonces { R: [point_for(seed), point_for(tweak(seed))] },
        sender: [9u8; 32],
    };
    let sig = PartialSignature([5u8; 64]);
    let secret = SecretAggStepOne {
        private_nonces: PrivatePartialNonces { r: [scalar_for(seed), scalar_for(tweak(seed))] },
        public_nonces: PublicPartialNonces { R: [point_for(seed), point_for(tweak(seed))] },
    };
    let r = AggMessage1::deserialize_bs58(&secret.serialize_bs58());
    assert!(matches!(
        r,
        Err(Error::WrongTag { expected: Tag::AggMessage1, found: Tag::SecretAggStepOne })
    ));
    let r = PartialSignature::deserialize_bs58(&m1.serialize_bs58());
    assert!(matches!(
        r,
        Err(Error::WrongTag { expected: Tag::PartialSignature, found: Tag::AggMessage1 })
    ));
    let r = SecretAggStepOne::deserialize_bs58(&sig.serialize_bs58());
    assert!(matches!(
        r,
        Err(Error::WrongTag { expected: Tag::SecretAggStepOne, found: Tag::PartialSignature })
    ));
    let r = AggMessage1::deserialize(&[200u8, 0, 0]);
    assert!(matches!(
        r,
        Err(Error::WrongTag { expected: Tag::AggMessage1, found: Tag::Unknown })
    ));
}

#[test]
fn test_truncated_rejected() {
    let seed = [3u8; 32];
    let m1 = AggMessage1 {
        public_nonces: PublicPartialNonces { R: [point_for(seed), point_for(tweak(seed))] },
        sender: [1u8; 32],
    };
    let mut v = Vec::new();
    m1.serialize(&mut v);
    assert_eq!(v.len(), 97);
    v.pop();
    assert!(matches!(
        AggMessage1::deserialize(&v),
        Err(Error::InputTooShort { expected: 97, found: 96 })
    ));

    let sig = PartialSignature([8u8; 64]);
    let mut v = Vec::new();
    sig.serialize(&mut v);
    assert_eq!(v.len(), 65);
    v.pop();
    assert!(matches!(
        PartialSignature::deserialize(&v),
        Err(Error::InputTooShort { expected: 65, found: 64 })
    ));

    let secret = SecretAggStepOne {
        private_nonces: PrivatePartialNonces { r: [scalar_for(seed), scalar_for(tweak(seed))] },
        public_nonces: PublicPartialNonces { R: [point_for(seed), point_for(tweak(seed))] },
    };
    let mut v = Vec::new();
    secret.serialize(&mut v);
    assert_eq!(v.len(), 129);
    v.pop();
    assert!(matches!(
        SecretAggStepOne::deserialize(&v),
        Err(Error::InputTooShort { expected: 129, found: 128 })
    ));

    assert!(matches!(
        AggMessage1::deserialize(&[]),
        Err(Error::InputTooShort { expected: 97, found: 0 })
    ));
}

#[test]
fn test_bad_base58_rejected() {
    let r = AggMessage1::deserialize_bs58("not base58 at all: %%%");
    assert!(matches!(r, Err(Error::BadBase58(_))));
}

#[test]
fn test_invalid_scalar_rejected() {
    // A scalar with every bit set is far above the group order.
    let mut v = vec![3u8];
    v.extend_from_slice(&[255u8; 32]);
    v.extend_from_slice(&[0u8; 32]);
    v.extend_from_slice(&point_for([1u8; 32]));
    v.extend_from_slice(&point_for([2u8; 32]));
    assert_eq!(v.len(), 129);
    assert!(matches!(SecretAggStepOne::deserialize(&v), Err(Error::InvalidScalar)));
}

#[test]
fn test_invalid_point_rejected() {
    // Roughly half of all 32-byte strings decompress; find one that does not.
    let mut bad = [0u8; 32];
    let mut found = false;
    for b in 0..=255u8 {
        bad[0] = b;
        if curve25519_dalek::edwards::CompressedEdwardsY(bad).decompress().is_none() {
            found = true;
            break;
        }
    }
    assert!(found);
    let mut v = vec![0u8];
    v.extend_from_slice(&bad);
    v.extend_from_slice(&point_for([1u8; 32]));
    v.extend_from_slice(&[6u8; 32]);
    assert_eq!(v.len(), 97);
    assert!(matches!(AggMessage1::deserialize(&v), Err(Error::InvalidPoint)));
}

#[test]
fn test_size_hints() {
    let seed = [2u8; 32];
    let m1 = AggMessage1 {
        public_nonces: PublicPartialNonces { R: [point_for(seed), point_for(tweak(seed))] },
        sender: [0u8; 32],
    };
    assert_eq!(m1.size_hint(), 97);
    assert_eq!(PartialSignature([0u8; 64]).size_hint(), 65);
    let secret = SecretAggStepOne {
        private_nonces: PrivatePartialNonces { r: [scalar_for(seed), scalar_for(tweak(seed))] },
        public_nonces: PublicPartialNonces { R: [point_for(seed), point_for(tweak(seed))] },
    };
    assert_eq!(secret.size_hint(), 129);
}

#[test]
fn test_with_field_names_the_argument() {
    let r: Result<PartialSignature, Error> = Err(Error::InvalidPoint);
    match r.with_field("signatures") {
        Err(TopError::DeserializationFailed { error: Error::InvalidPoint, field_name }) => {
            assert_eq!(field_name, "signatures");
        }
        other => panic!("unexpected result: {:?}", other),
    }
    let ok: Result<PartialSignature, Error> = Ok(PartialSignature([1u8; 64]));
    assert!(matches!(ok.with_field("signatures"), Ok(p) if p == PartialSignature([1u8; 64])));
}

#[test]
fn test_tag_from_byte_and_names() {
    assert_eq!(Tag::from(0u8), Tag::AggMessage1);
    assert_eq!(Tag::from(1u8), Tag::AggMessage2);
    assert_eq!(Tag::from(2u8), Tag::PartialSignature);
    assert_eq!(Tag::from(3u8), Tag::SecretAggStepOne);
    assert_eq!(Tag::from(77u8), Tag::Unknown);
    assert_eq!(Tag::AggMessage1.display_name(), "Aggregate Message1");
    assert_eq!(Tag::SecretAggStepOne.display_name(), "Secret State Aggregate1");
}
