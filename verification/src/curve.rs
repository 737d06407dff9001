//! The Ed25519 primitives that the protocol is built on.
//!
//! Scalars and compressed curve points are carried through the library as
//! plain 32-byte little-endian values.  Every call into the curve, hash and
//! signature crates goes through one of the trusted wrappers below; the rest
//! of the crate reasons only about the contracts stated here.

use vstd::prelude::*;

use curve25519_dalek::constants::ED25519_BASEPOINT_TABLE;
use curve25519_dalek::edwards::CompressedEdwardsY;
use curve25519_dalek::scalar::Scalar;
use ed25519_dalek::{ExpandedSecretKey, SecretKey};
use sha2::{Digest, Sha512};

verus! {

/// The order of the Ed25519 basepoint group: 2^252 + 27742317777372353535851937790883648493.
pub open spec fn group_order() -> int {
    0x1000000000000000000000000000000014def9dea2f79cd65812631a5cf5d3edint
}

/// The integer that a byte string encodes in little-endian order.
pub open spec fn le_val(s: Seq<u8>) -> int
    decreases s.len(),
{
    if s.len() == 0 {
        0
    } else {
        s[0] + 256 * le_val(s.drop_first())
    }
}

/// A scalar encoding is canonical when its value is below the group order.
pub open spec fn scalar_canonical(s: Seq<u8>) -> bool {
    s.len() == 32 && le_val(s) < group_order()
}

/// 256 to the power `i`.
pub open spec fn pow256(i: int) -> int
    decreases i,
{
    if i <= 0 {
        1
    } else {
        256 * pow256(i - 1)
    }
}

/// The 32-byte little-endian encoding of a value.
pub open spec fn le_bytes32(v: int) -> Seq<u8> {
    Seq::new(32, |i: int| ((v / pow256(i)) % 256) as u8)
}

/// A little-endian value is never negative.
pub proof fn lemma_le_val_nonneg(s: Seq<u8>)
    ensures
        le_val(s) >= 0,
    decreases s.len(),
{
    if s.len() > 0 {
        lemma_le_val_nonneg(s.drop_first());
    }
}

/// Two byte strings of one length that encode the same value are equal.
pub proof fn lemma_le_val_injective(a: Seq<u8>, b: Seq<u8>)
    requires
        a.len() == b.len(),
        le_val(a) == le_val(b),
    ensures
        a == b,
    decreases a.len(),
{
    if a.len() == 0 {
        assert(a =~= b);
    } else {
        let ka = le_val(a.drop_first());
        let kb = le_val(b.drop_first());
        assert(a[0] + 256 * ka == b[0] + 256 * kb);
        assert((a[0] + 256 * ka) % 256 == a[0]) by (nonlinear_arith)
            requires
                0 <= a[0] < 256,
        ;
        assert((b[0] + 256 * kb) % 256 == b[0]) by (nonlinear_arith)
            requires
                0 <= b[0] < 256,
        ;
        assert(a[0] == b[0]);
        assert(ka == kb);
        lemma_le_val_injective(a.drop_first(), b.drop_first());
        assert(a =~= b) by {
            assert(a.drop_first() =~= b.drop_first());
            assert(forall|i: int|
                1 <= i < a.len() ==> a[i] == a.drop_first()[i - 1] && b[i] == b.drop_first()[i
                    - 1]);
        }
    }
}

proof fn lemma_le_bytes_prefix_val(v: int, n: int)
    requires
        0 <= v,
        0 <= n,
    ensures
        le_val(Seq::new(n as nat, |i: int| ((v / pow256(i)) % 256) as u8)) == v % pow256(n),
    decreases n,
{
    let s = Seq::new(n as nat, |i: int| ((v / pow256(i)) % 256) as u8);
    if n == 0 {
        assert(v % 1 == 0) by (nonlinear_arith)
            requires
                0 <= v,
        ;
    } else {
        let rest = Seq::new((n - 1) as nat, |i: int| (((v / 256) / pow256(i)) % 256) as u8);
        assert(s.drop_first() =~= rest) by {
            assert forall|i: int| 0 <= i < n - 1 implies s.drop_first()[i] == rest[i] by {
                lemma_pow256_pos(i);
                vstd::arithmetic::div_mod::lemma_div_denominator(v, 256, pow256(i));
                assert(pow256(i + 1) == 256 * pow256(i));
                vstd::arithmetic::mul::lemma_mul_is_commutative(256, pow256(i));
            }
        }
        vstd::arithmetic::div_mod::lemma_div_pos_is_pos(v, 256);
        lemma_le_bytes_prefix_val(v / 256, n - 1);
        assert(s[0] == v % 256) by {
            assert(pow256(0) == 1);
        }
        lemma_pow256_pos(n - 1);
        vstd::arithmetic::div_mod::lemma_breakdown(v, 256, pow256(n - 1));
        assert(le_val(s) == s[0] + 256 * le_val(s.drop_first()));
        assert(v % pow256(n) == v % (256 * pow256(n - 1)));
    }
}

proof fn lemma_pow256_pos(i: int)
    ensures
        pow256(i) >= 1,
    decreases i,
{
    if i > 0 {
        lemma_pow256_pos(i - 1);
    }
}

/// `le_bytes32` really encodes its argument, for values that fit.
pub proof fn lemma_le_bytes32_val(v: int)
    requires
        0 <= v < pow256(32),
    ensures
        le_bytes32(v).len() == 32,
        le_val(le_bytes32(v)) == v,
{
    lemma_le_bytes_prefix_val(v, 32);
    vstd::arithmetic::div_mod::lemma_small_mod(v as nat, pow256(32) as nat);
}

/// The group order is below 256^32, so canonical scalars fit in 32 bytes.
pub proof fn lemma_group_order_fits()
    ensures
        group_order() < pow256(32),
{
    reveal_with_fuel(pow256, 33);
}

/// Whether 32 bytes decompress to a point of the curve.
pub uninterp spec fn pt_valid(p: Seq<u8>) -> bool;

/// The compressed sum of the two points that the arguments encode.
pub uninterp spec fn pt_add(a: Seq<u8>, b: Seq<u8>) -> Seq<u8>;

/// The compressed product of the scalar `k` and the point that `p` encodes.
pub uninterp spec fn pt_mul(k: Seq<u8>, p: Seq<u8>) -> Seq<u8>;

/// The compressed product of the scalar `k` and the Ed25519 basepoint.
pub uninterp spec fn base_mul(k: Seq<u8>) -> Seq<u8>;

/// SHA-512 of `data`, read little-endian and reduced mod the group order.
pub uninterp spec fn sha512_mod_l(data: Seq<u8>) -> Seq<u8>;

/// The signing scalar that standard Ed25519 key expansion derives from a seed.
pub uninterp spec fn secret_scalar_of(seed: Seq<u8>) -> Seq<u8>;

/// Whether `signature` passes Ed25519 verification for `pubkey` over `message`.
pub uninterp spec fn ed25519_valid(pubkey: Seq<u8>, message: Seq<u8>, signature: Seq<u8>) -> bool;

/// Relies on curve25519_dalek's CompressedEdwardsY::decompress: it returns a
/// point exactly when the bytes encode one.
#[verifier::external_body]
pub(crate) fn is_valid_point(p: &[u8; 32]) -> (r: bool)
    ensures
        r == pt_valid(p@),
{
    CompressedEdwardsY(*p).decompress().is_some()
}

/// Relies on curve25519_dalek's Scalar::from_canonical_bytes: it accepts
/// exactly the encodings whose value is below the group order.
#[verifier::external_body]
pub(crate) fn is_canonical_scalar(s: &[u8; 32]) -> (r: bool)
    ensures
        r == (le_val(s@) < group_order()),
{
    Scalar::from_canonical_bytes(*s).is_some()
}

/// Relies on curve25519_dalek's point addition; compressing the sum always
/// yields a decompressible encoding.
#[verifier::external_body]
pub(crate) fn point_add(a: &[u8; 32], b: &[u8; 32]) -> (r: [u8; 32])
    requires
        pt_valid(a@),
        pt_valid(b@),
    ensures
        r@ == pt_add(a@, b@),
        pt_valid(r@),
{
    let pa = CompressedEdwardsY(*a).decompress().unwrap();
    let pb = CompressedEdwardsY(*b).decompress().unwrap();
    (pa + pb).compress().to_bytes()
}

/// Relies on curve25519_dalek's scalar-point multiplication.
#[verifier::external_body]
pub(crate) fn point_scalar_mul(k: &[u8; 32], p: &[u8; 32]) -> (r: [u8; 32])
    requires
        le_val(k@) < group_order(),
        pt_valid(p@),
    ensures
        r@ == pt_mul(k@, p@),
        pt_valid(r@),
{
    let scalar = Scalar::from_bits(*k);
    let point = CompressedEdwardsY(*p).decompress().unwrap();
    (point * scalar).compress().to_bytes()
}

/// Relies on curve25519_dalek's basepoint table multiplication.
#[verifier::external_body]
pub(crate) fn base_point_mul(k: &[u8; 32]) -> (r: [u8; 32])
    requires
        le_val(k@) < group_order(),
    ensures
        r@ == base_mul(k@),
        pt_valid(r@),
{
    let scalar = Scalar::from_bits(*k);
    (&ED25519_BASEPOINT_TABLE * &scalar).compress().to_bytes()
}

/// Relies on curve25519_dalek's scalar addition, which reduces mod the group
/// order and packs the canonical encoding of the sum.
#[verifier::external_body]
pub(crate) fn scalar_add(a: &[u8; 32], b: &[u8; 32]) -> (r: [u8; 32])
    requires
        le_val(a@) < group_order(),
        le_val(b@) < group_order(),
    ensures
        le_val(r@) == (le_val(a@) + le_val(b@)) % group_order(),
        r@.len() == 32,
{
    (Scalar::from_bits(*a) + Scalar::from_bits(*b)).to_bytes()
}

/// Relies on curve25519_dalek's scalar multiplication, which reduces mod the
/// group order and packs the canonical encoding of the product.
#[verifier::external_body]
pub(crate) fn scalar_mul(a: &[u8; 32], b: &[u8; 32]) -> (r: [u8; 32])
    requires
        le_val(a@) < group_order(),
        le_val(b@) < group_order(),
    ensures
        le_val(r@) == (le_val(a@) * le_val(b@)) % group_order(),
        r@.len() == 32,
{
    (Scalar::from_bits(*a) * Scalar::from_bits(*b)).to_bytes()
}

/// Relies on sha2's Sha512 and on curve25519_dalek's
/// Scalar::from_bytes_mod_order_wide: the digest, read little-endian, reduced
/// mod the group order.  The result depends on the input bytes alone.
#[verifier::external_body]
pub(crate) fn hash_to_scalar(data: &Vec<u8>) -> (r: [u8; 32])
    ensures
        r@ == sha512_mod_l(data@),
        le_val(r@) < group_order(),
{
    let digest = Sha512::digest(data.as_slice());
    let mut wide = [0u8; 64];
    wide.copy_from_slice(&digest);
    Scalar::from_bytes_mod_order_wide(&wide).to_bytes()
}

/// Relies on solana_sdk's Keypair::new for system randomness and on
/// Scalar::from_bytes_mod_order_wide for an unbiased reduction.  Nothing is
/// promised of the value beyond canonicity: it is fresh entropy.
#[verifier::external_body]
pub(crate) fn random_scalar() -> (r: [u8; 32])
    ensures
        le_val(r@) < group_order(),
{
    let mut wide = [0u8; 64];
    wide[..32].copy_from_slice(&solana_sdk::signer::keypair::Keypair::new().secret().to_bytes());
    wide[32..].copy_from_slice(&solana_sdk::signer::keypair::Keypair::new().secret().to_bytes());
    Scalar::from_bytes_mod_order_wide(&wide).to_bytes()
}

/// Relies on ed25519_dalek's ExpandedSecretKey: the first 32 bytes of its
/// encoding are the clamped SHA-512 prefix of the seed, the standard Ed25519
/// signing scalar; reduced here mod the group order, which moves no point.
#[verifier::external_body]
pub(crate) fn expand_secret(seed: &[u8; 32]) -> (r: [u8; 32])
    ensures
        r@ == secret_scalar_of(seed@),
        le_val(r@) < group_order(),
{
    let secret = SecretKey::from_bytes(&seed[..]).unwrap();
    let expanded = ExpandedSecretKey::from(&secret).to_bytes();
    let mut key = [0u8; 32];
    key.copy_from_slice(&expanded[..32]);
    Scalar::from_bytes_mod_order(key).to_bytes()
}

/// Relies on solana_sdk's Signature::verify, which runs ed25519_dalek's
/// strict verification of the signature against the key and message bytes.
#[verifier::external_body]
pub(crate) fn verify_signature(pubkey: &[u8; 32], message: &Vec<u8>, signature: &[u8; 64]) -> (r: bool)
    ensures
        r == ed25519_valid(pubkey@, message@, signature@),
{
    let sig = solana_sdk::signature::Signature::from(*signature);
    sig.verify(&pubkey[..], message.as_slice())
}

/// Relies on ed25519_dalek's Keypair::from_bytes: it accepts exactly 64 bytes
/// whose second half decompresses to a curve point.
#[verifier::external_body]
pub(crate) fn valid_keypair_bytes(b: &Vec<u8>) -> (r: bool)
    ensures
        r == (b@.len() == 64 && pt_valid(b@.subrange(32, 64))),
{
    ed25519_dalek::Keypair::from_bytes(b.as_slice()).is_ok()
}

} // verus!
