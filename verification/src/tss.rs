//! The two-round aggregate-signing protocol.
//!
//! N parties each hold an Ed25519 keypair.  Key aggregation combines their
//! public keys, sorted bytewise so that every party derives the same result,
//! into one aggregate key with a per-signer coefficient.  Round one draws a
//! signer's two secret nonces; round two binds the transaction and produces
//! a partial signature; aggregation sums the partials into one standard
//! Ed25519 signature and refuses to release it unless it verifies.

use vstd::prelude::*;

use crate::bytes::{
    block_eq, block_order, block_views, join_blocks, lemma_block_order_total, push_block,
    read_block, sort_blocks,
};
use crate::curve::{
    base_mul, base_point_mul, ed25519_valid, expand_secret, group_order, hash_to_scalar,
    is_canonical_scalar, is_valid_point, le_bytes32, le_val, lemma_group_order_fits,
    lemma_le_bytes32_val, lemma_le_val_injective, lemma_le_val_nonneg, point_add, point_scalar_mul,
    pt_add, pt_mul, pt_valid, random_scalar, scalar_add, scalar_canonical, scalar_mul,
    secret_scalar_of, sha512_mod_l, verify_signature,
};
use crate::error::Error;
use crate::serialization::{
    AggMessage1, PartialSignature, PrivatePartialNonces, PublicPartialNonces, SecretAggStepOne,
};

verus! {

broadcast use vstd::array::group_array_axioms;

/// One party's Ed25519 keypair: the 32-byte secret seed and the matching
/// public key, which is also the party's on-chain address.
#[derive(Clone, Copy, Debug, PartialEq, Eq)]
pub struct KeyPair {
    pub secret: [u8; 32],
    pub public: [u8; 32],
}

/// The outcome of key aggregation: the aggregate public key of the whole
/// group, and the coefficient belonging to the caller's own key.
#[derive(Clone, Copy, Debug, PartialEq, Eq)]
pub struct PublicKeyAgg {
    pub agg_public_key: [u8; 32],
    pub my_coefficient: [u8; 32],
}

/// The ASCII bytes of the domain tag that key-aggregation hashes start with.
pub open spec fn dom_keyagg() -> Seq<u8> {
    seq![107u8, 101u8, 121u8, 97u8, 103u8, 103u8]
}

/// The ASCII bytes of the domain tag that the nonce-coefficient hash starts
/// with.
pub open spec fn dom_nonce() -> Seq<u8> {
    seq![110u8, 111u8, 110u8, 99u8, 101u8]
}

/// All blocks of a list laid end to end.
pub open spec fn flatten_blocks(ks: Seq<Seq<u8>>) -> Seq<u8>
    decreases ks.len(),
{
    if ks.len() == 0 {
        Seq::empty()
    } else {
        flatten_blocks(ks.drop_last()) + ks.last()
    }
}

/// The coefficient of `key` within the sorted key list `sorted`: a hash of
/// the domain tag, the whole list, and the key itself, read as a scalar.
pub open spec fn spec_coeff(sorted: Seq<Seq<u8>>, key: Seq<u8>) -> Seq<u8> {
    sha512_mod_l(dom_keyagg() + flatten_blocks(sorted) + key)
}

/// The sum of the first `n` coefficient-weighted keys of `sorted`.
pub open spec fn agg_point_prefix(sorted: Seq<Seq<u8>>, n: int) -> Seq<u8>
    decreases n,
{
    if n <= 1 {
        pt_mul(spec_coeff(sorted, sorted[0]), sorted[0])
    } else {
        pt_add(
            agg_point_prefix(sorted, n - 1),
            pt_mul(spec_coeff(sorted, sorted[n - 1]), sorted[n - 1]),
        )
    }
}

/// The aggregate public key of a key list: the coefficient-weighted sum
/// over the bytewise-sorted list, so that every ordering of the same keys
/// gives the same point.
pub open spec fn spec_agg_point(keys: Seq<Seq<u8>>) -> Seq<u8> {
    let sorted = keys.sort_by(block_order());
    agg_point_prefix(sorted, sorted.len() as int)
}

/// The coefficient of `key` within a key list, sorted first as above.
pub open spec fn spec_key_coeff(keys: Seq<Seq<u8>>, key: Seq<u8>) -> Seq<u8> {
    spec_coeff(keys.sort_by(block_order()), key)
}

/// Whether every block of the list encodes a curve point.
pub open spec fn all_points_valid(ks: Seq<Seq<u8>>) -> bool {
    forall|i: int| 0 <= i < ks.len() ==> pt_valid(#[trigger] ks[i])
}

/// The key whose coefficient `key_agg` reports: the one the caller named,
/// or the first of the list.
pub open spec fn key_agg_target(key: Option<[u8; 32]>, keys: Seq<[u8; 32]>) -> Seq<u8> {
    match key {
        Some(k) => k@,
        None => keys[0]@,
    }
}

/// Two lists holding the same keys aggregate to the same point, and give
/// every key the same coefficient: aggregation is a function of the key
/// multiset alone.
pub proof fn lemma_key_agg_deterministic(ks1: Seq<Seq<u8>>, ks2: Seq<Seq<u8>>)
    requires
        ks1.to_multiset() == ks2.to_multiset(),
    ensures
        spec_agg_point(ks1) == spec_agg_point(ks2),
        forall|k: Seq<u8>| #[trigger] spec_key_coeff(ks1, k) == spec_key_coeff(ks2, k),
{
    lemma_block_order_total();
    ks1.lemma_sort_by_ensures(block_order());
    ks2.lemma_sort_by_ensures(block_order());
    vstd::seq_lib::lemma_sorted_unique(
        ks1.sort_by(block_order()),
        ks2.sort_by(block_order()),
        block_order(),
    );
}

/// Naming one's own key when aggregating changes only the reported
/// coefficient, never the aggregate public key: any two aggregation results
/// over the same key list carry the same point.
pub proof fn lemma_mine_does_not_change_aggregate(
    keys: Seq<Seq<u8>>,
    r1: PublicKeyAgg,
    r2: PublicKeyAgg,
)
    requires
        r1.agg_public_key@ == spec_agg_point(keys),
        r2.agg_public_key@ == spec_agg_point(keys),
    ensures
        r1.agg_public_key == r2.agg_public_key,
{
    assert(r1.agg_public_key@ =~= r2.agg_public_key@);
}

/// Append a key's 32 bytes to the running flattened list, with the spec of
/// the whole prefix.
fn flatten_keys(sorted: &Vec<[u8; 32]>) -> (r: Vec<u8>)
    ensures
        r@ == flatten_blocks(block_views(sorted@)),
{
    let sviews = Ghost(block_views(sorted@));
    let mut flat: Vec<u8> = Vec::new();
    let mut i: usize = 0;
    proof {
        assert(sviews@.take(0) =~= Seq::<Seq<u8>>::empty());
    }
    while i < sorted.len()
        invariant
            i <= sorted@.len(),
            sviews@ == block_views(sorted@),
            flat@ == flatten_blocks(sviews@.take(i as int)),
        decreases sorted@.len() - i,
    {
        push_block(&mut flat, &sorted[i]);
        proof {
            assert(sviews@.take(i + 1).drop_last() =~= sviews@.take(i as int));
            assert(sviews@.take(i + 1).last() == sviews@[i as int]);
        }
        i += 1;
    }
    proof {
        assert(sviews@.take(sorted@.len() as int) =~= sviews@);
    }
    flat
}

/// The coefficient hash for one key: domain tag, flattened sorted list, key.
fn coeff_for(flat: &Vec<u8>, key: &[u8; 32]) -> (r: [u8; 32])
    ensures
        r@ == sha512_mod_l(dom_keyagg() + flat@ + key@),
        scalar_canonical(r@),
{
    let mut input: Vec<u8> = Vec::new();
    input.push(107);
    input.push(101);
    input.push(121);
    input.push(97);
    input.push(103);
    input.push(103);
    proof {
        assert(input@ =~= dom_keyagg());
    }
    input.extend_from_slice(flat.as_slice());
    push_block(&mut input, key);
    proof {
        assert(input@ =~= dom_keyagg() + flat@ + key@);
    }
    hash_to_scalar(&input)
}

/// Derive the aggregate public key of `keys`, and the coefficient of `key`
/// (of `keys[0]` if none is named).  The keys are sorted bytewise first, so
/// any ordering of the same keys yields the same aggregate.  Fails with
/// `InvalidPoint` if a key does not decode to a curve point, and with
/// `KeyPairIsNotInKeys` if the named key is not in the list.
pub fn key_agg(keys: Vec<[u8; 32]>, key: Option<[u8; 32]>) -> (r: Result<PublicKeyAgg, Error>)
    requires
        keys@.len() >= 1,
    ensures
        ({
            let kv = key_agg_target(key, keys@);
            match r {
                Ok(agg) => all_points_valid(block_views(keys@)) && pt_valid(kv) && block_views(
                    keys@,
                ).contains(kv) && agg.agg_public_key@ == spec_agg_point(block_views(keys@))
                    && agg.my_coefficient@ == spec_key_coeff(block_views(keys@), kv) && pt_valid(
                    agg.agg_public_key@,
                ) && scalar_canonical(agg.my_coefficient@),
                Err(e) => if !(all_points_valid(block_views(keys@)) && pt_valid(kv)) {
                    e matches Error::DeserializationFailed { error, field_name }
                        && error is InvalidPoint && field_name@ == "keys"@
                } else {
                    !block_views(keys@).contains(kv) && e is KeyPairIsNotInKeys
                },
            }
        }),
{
    let n = keys.len();
    let mut i: usize = 0;
    while i < n
        invariant
            i <= n == keys@.len(),
            forall|k: int| 0 <= k < i ==> pt_valid(#[trigger] block_views(keys@)[k]),
        decreases n - i,
    {
        if !is_valid_point(&keys[i]) {
            proof {
                assert(block_views(keys@)[i as int] == keys@[i as int]@);
            }
            return Err(
                Error::DeserializationFailed {
                    error: crate::serialization::Error::InvalidPoint,
                    field_name: "keys",
                },
            );
        }
        proof {
            assert(block_views(keys@)[i as int] == keys@[i as int]@);
        }
        i += 1;
    }
    let target: [u8; 32] = match key {
        Some(k) => k,
        None => keys[0],
    };
    if !is_valid_point(&target) {
        return Err(
            Error::DeserializationFailed {
                error: crate::serialization::Error::InvalidPoint,
                field_name: "keys",
            },
        );
    }
    let mut found = false;
    let mut j: usize = 0;
    while j < n
        invariant
            j <= n == keys@.len(),
            found == exists|k: int| 0 <= k < j && #[trigger] block_views(keys@)[k] == target@,
        decreases n - j,
    {
        if block_eq(&keys[j], &target) {
            proof {
                assert(block_views(keys@)[j as int] == target@);
            }
            found = true;
        }
        proof {
            assert(block_views(keys@)[j as int] == keys@[j as int]@);
        }
        j += 1;
    }
    if !found {
        proof {
            assert(!block_views(keys@).contains(target@));
        }
        return Err(Error::KeyPairIsNotInKeys);
    }
    let ghost orig = block_views(keys@);
    let sorted = sort_blocks(keys);
    let ghost sviews = block_views(sorted@);
    proof {
        lemma_block_order_total();
        orig.lemma_sort_by_ensures(block_order());
        assert forall|k: int| 0 <= k < sviews.len() implies pt_valid(#[trigger] sviews[k]) by {
            assert(sviews.contains(sviews[k]));
            assert(orig.contains(sviews[k]));
            let w = choose|w: int| 0 <= w < orig.len() && orig[w] == sviews[k];
            assert(pt_valid(orig[w]));
        }
    }
    let flat = flatten_keys(&sorted);
    let my_coefficient = coeff_for(&flat, &target);
    let c0 = coeff_for(&flat, &sorted[0]);
    proof {
        assert(sviews[0] == sorted@[0]@);
    }
    let mut acc = point_scalar_mul(&c0, &sorted[0]);
    let mut t: usize = 1;
    while t < sorted.len()
        invariant
            1 <= t <= sorted@.len(),
            sviews == block_views(sorted@),
            sviews.len() == sorted@.len(),
            flat@ == flatten_blocks(sviews),
            forall|k: int| 0 <= k < sviews.len() ==> pt_valid(#[trigger] sviews[k]),
            acc@ == agg_point_prefix(sviews, t as int),
            pt_valid(acc@),
        decreases sorted@.len() - t,
    {
        let ct = coeff_for(&flat, &sorted[t]);
        proof {
            assert(sviews[t as int] == sorted@[t as int]@);
        }
        let term = point_scalar_mul(&ct, &sorted[t]);
        acc = point_add(&acc, &term);
        t += 1;
    }
    proof {
        assert(block_views(keys@).contains(target@));
    }
    Ok(PublicKeyAgg { agg_public_key: acc, my_coefficient })
}

/// Start a signing session: draw two fresh secret nonce scalars, publish
/// their basepoint multiples.  The public message and the secret state
/// carry the same public nonces; the secret scalars stay in the secret
/// state alone, and nothing of the long-term secret leaves the call.
pub fn step_one(keypair: KeyPair) -> (r: (AggMessage1, SecretAggStepOne))
    ensures
        r.0.sender@ == keypair.public@,
        r.0.public_nonces == r.1.public_nonces,
        r.0.wf(),
        r.1.wf(),
        r.1.public_nonces.R@[0]@ == base_mul(r.1.private_nonces.r@[0]@),
        r.1.public_nonces.R@[1]@ == base_mul(r.1.private_nonces.r@[1]@),
{
    let r0 = random_scalar();
    let r1 = random_scalar();
    let cap0 = base_point_mul(&r0);
    let cap1 = base_point_mul(&r1);
    (
        AggMessage1 { public_nonces: PublicPartialNonces { R: [cap0, cap1] }, sender: keypair.public },
        SecretAggStepOne {
            private_nonces: PrivatePartialNonces { r: [r0, r1] },
            public_nonces: PublicPartialNonces { R: [cap0, cap1] },
        },
    )
}

/// One signer's two public nonce points laid end to end, from its public
/// round-one message.
pub open spec fn msg1_flat(m: AggMessage1) -> Seq<u8> {
    m.public_nonces.R@[0]@ + m.public_nonces.R@[1]@
}

/// One signer's two public nonce points laid end to end, from its own
/// secret state.
pub open spec fn secret_flat(s: SecretAggStepOne) -> Seq<u8> {
    s.public_nonces.R@[0]@ + s.public_nonces.R@[1]@
}

/// The whole session's nonce pairs: this signer's own, then one per
/// received round-one message.
pub open spec fn nonce_flats(own: SecretAggStepOne, others: Seq<AggMessage1>) -> Seq<Seq<u8>> {
    seq![secret_flat(own)] + others.map_values(|m: AggMessage1| msg1_flat(m))
}

/// The sum of the first `n` points of the list.
pub open spec fn sum_points_prefix(ps: Seq<Seq<u8>>, n: int) -> Seq<u8>
    decreases n,
{
    if n <= 1 {
        ps[0]
    } else {
        pt_add(sum_points_prefix(ps, n - 1), ps[n - 1])
    }
}

/// Component `j` of each 64-byte nonce pair.
pub open spec fn nonce_component(flats: Seq<Seq<u8>>, j: int) -> Seq<Seq<u8>> {
    flats.map_values(|f: Seq<u8>| f.subrange(32 * j, 32 * j + 32))
}

/// The group's aggregate nonce point for component `j`: the nonce pairs are
/// sorted bytewise, so every party holding the same pairs sums them in the
/// same order.
pub open spec fn spec_agg_nonce(flats: Seq<Seq<u8>>, j: int) -> Seq<u8> {
    let sorted = flats.sort_by(block_order());
    sum_points_prefix(nonce_component(sorted, j), sorted.len() as int)
}

/// The session's nonce coefficient: a tagged hash of both aggregate nonce
/// points, the aggregate key and the message, read as a scalar.
pub open spec fn spec_nonce_coeff(flats: Seq<Seq<u8>>, agg_pk: Seq<u8>, msg: Seq<u8>) -> Seq<u8> {
    sha512_mod_l(dom_nonce() + spec_agg_nonce(flats, 0) + spec_agg_nonce(flats, 1) + agg_pk + msg)
}

/// The session nonce point carried by every partial signature: the first
/// aggregate nonce plus the coefficient-weighted second one.
pub open spec fn spec_session_r(flats: Seq<Seq<u8>>, agg_pk: Seq<u8>, msg: Seq<u8>) -> Seq<u8> {
    pt_add(
        spec_agg_nonce(flats, 0),
        pt_mul(spec_nonce_coeff(flats, agg_pk, msg), spec_agg_nonce(flats, 1)),
    )
}

/// The standard Ed25519 challenge: SHA-512 of nonce point, public key and
/// message, reduced to a scalar.
pub open spec fn spec_challenge(r: Seq<u8>, agg_pk: Seq<u8>, msg: Seq<u8>) -> Seq<u8> {
    sha512_mod_l(r + agg_pk + msg)
}

/// The value of one signer's partial scalar: r0 + b·r1 + e·c·a mod the
/// group order, over its secret nonces, the nonce coefficient `b`, the
/// challenge `e`, its key coefficient `c` and its signing scalar `a`.
pub open spec fn spec_partial_s_val(
    own: SecretAggStepOne,
    b: Seq<u8>,
    e: Seq<u8>,
    c: Seq<u8>,
    a: Seq<u8>,
) -> int {
    (le_val(own.private_nonces.r@[0]@) + le_val(b) * le_val(own.private_nonces.r@[1]@) + le_val(e)
        * le_val(c) * le_val(a)) % group_order()
}

/// Whether every received round-one message carries curve points.
pub open spec fn msgs_wf(ms: Seq<AggMessage1>) -> bool {
    forall|i: int| 0 <= i < ms.len() ==> (#[trigger] ms[i]).wf()
}

/// In an honest session every party computes the same session nonce point:
/// the point depends only on the multiset of nonce pairs, the aggregate key
/// and the message, not on who received which message in which order.
pub proof fn lemma_cross_party_r_agreement(
    f1: Seq<Seq<u8>>,
    f2: Seq<Seq<u8>>,
    agg_pk: Seq<u8>,
    msg: Seq<u8>,
)
    requires
        f1.to_multiset() == f2.to_multiset(),
    ensures
        spec_session_r(f1, agg_pk, msg) == spec_session_r(f2, agg_pk, msg),
{
    lemma_block_order_total();
    f1.lemma_sort_by_ensures(block_order());
    f2.lemma_sort_by_ensures(block_order());
    vstd::seq_lib::lemma_sorted_unique(
        f1.sort_by(block_order()),
        f2.sort_by(block_order()),
        block_order(),
    );
}

/// The sum of a non-empty list of curve points, left to right.
fn sum_points_vec(v: &Vec<[u8; 32]>) -> (r: [u8; 32])
    requires
        v@.len() >= 1,
        forall|i: int| 0 <= i < v@.len() ==> pt_valid(#[trigger] block_views(v@)[i]),
    ensures
        r@ == sum_points_prefix(block_views(v@), v@.len() as int),
        pt_valid(r@),
{
    let ghost vs = block_views(v@);
    proof {
        assert(vs[0] == v@[0]@);
    }
    let mut acc = v[0];
    let mut t: usize = 1;
    while t < v.len()
        invariant
            1 <= t <= v@.len(),
            vs == block_views(v@),
            forall|i: int| 0 <= i < v@.len() ==> pt_valid(#[trigger] vs[i]),
            acc@ == sum_points_prefix(vs, t as int),
            pt_valid(acc@),
        decreases v@.len() - t,
    {
        proof {
            assert(vs[t as int] == v@[t as int]@);
        }
        acc = point_add(&acc, &v[t]);
        t += 1;
    }
    acc
}

/// Produce this signer's partial signature for the payment.  The aggregate
/// key and this signer's coefficient are rebuilt from `keys`; the message
/// bytes are rebuilt from the transaction parameters; the session nonce is
/// summed over all parties' nonce pairs; and the partial scalar binds this
/// signer's secrets to the challenge.  Fails exactly when a key is not a
/// curve point, this signer is not in `keys`, or a nonce field of the
/// received messages or the secret state is malformed.
#[verifier::loop_isolation(false)]
pub fn step_two(
    keypair: KeyPair,
    amount: u64,
    to: [u8; 32],
    memo: Option<String>,
    recent_block_hash: [u8; 32],
    keys: Vec<[u8; 32]>,
    first_messages: Vec<AggMessage1>,
    secret_state: SecretAggStepOne,
) -> (r: Result<PartialSignature, Error>)
    requires
        keys@.len() >= 1,
    ensures
        ({
            let kviews = block_views(keys@);
            let kv = keypair.public@;
            let pk = spec_agg_point(kviews);
            let msg = crate::solana_msg_bytes(amount, to@, crate::memo_view(memo), pk,
                recent_block_hash@);
            let flats = nonce_flats(secret_state, first_messages@);
            let b = spec_nonce_coeff(flats, pk, msg);
            let sess_r = spec_session_r(flats, pk, msg);
            let e = spec_challenge(sess_r, pk, msg);
            let c = spec_key_coeff(kviews, kv);
            let a = secret_scalar_of(keypair.secret@);
            match r {
                Ok(sig) => all_points_valid(kviews) && pt_valid(kv) && kviews.contains(kv)
                    && msgs_wf(first_messages@) && secret_state.wf() && sig.0@.len() == 64
                    && sig.0@.subrange(0, 32) == sess_r && le_val(sig.0@.subrange(32, 64))
                    == spec_partial_s_val(secret_state, b, e, c, a),
                Err(err) => if !(all_points_valid(kviews) && pt_valid(kv)) {
                    err matches Error::DeserializationFailed { error, field_name }
                        && error is InvalidPoint && field_name@ == "keys"@
                } else if !kviews.contains(kv) {
                    err is KeyPairIsNotInKeys
                } else if !msgs_wf(first_messages@) {
                    err matches Error::DeserializationFailed { error, field_name }
                        && error is InvalidPoint && field_name@ == "first_messages"@
                } else if !secret_state.wf() {
                    err matches Error::DeserializationFailed { error, field_name } && (
                    error is InvalidScalar || error is InvalidPoint) && field_name@
                        == "secret_state"@
                } else {
                    false
                },
            }
        }),
{
    let aggkey = match key_agg(keys, Some(keypair.public)) {
        Ok(a) => a,
        Err(e) => {
            return Err(e);
        },
    };
    let mut i: usize = 0;
    while i < first_messages.len()
        invariant
            i <= first_messages@.len(),
            forall|k: int| 0 <= k < i ==> (#[trigger] first_messages@[k]).wf(),
        decreases first_messages@.len() - i,
    {
        if !is_valid_point(&first_messages[i].public_nonces.R[0]) || !is_valid_point(
            &first_messages[i].public_nonces.R[1],
        ) {
            proof {
                assert(!(first_messages@[i as int]).wf());
                assert(!msgs_wf(first_messages@));
            }
            return Err(
                Error::DeserializationFailed {
                    error: crate::serialization::Error::InvalidPoint,
                    field_name: "first_messages",
                },
            );
        }
        proof {
            assert((first_messages@[i as int]).wf());
        }
        i += 1;
    }
    if !is_canonical_scalar(&secret_state.private_nonces.r[0]) || !is_canonical_scalar(
        &secret_state.private_nonces.r[1],
    ) {
        return Err(
            Error::DeserializationFailed {
                error: crate::serialization::Error::InvalidScalar,
                field_name: "secret_state",
            },
        );
    }
    if !is_valid_point(&secret_state.public_nonces.R[0]) || !is_valid_point(
        &secret_state.public_nonces.R[1],
    ) {
        return Err(
            Error::DeserializationFailed {
                error: crate::serialization::Error::InvalidPoint,
                field_name: "secret_state",
            },
        );
    }
    let msg = crate::build_message_bytes(
        amount,
        &to,
        &memo,
        &aggkey.agg_public_key,
        &recent_block_hash,
    );
    let ghost nf = nonce_flats(secret_state, first_messages@);
    let mut flats: Vec<[u8; 64]> = Vec::new();
    flats.push(join_blocks(&secret_state.public_nonces.R[0], &secret_state.public_nonces.R[1]));
    let mut i2: usize = 0;
    while i2 < first_messages.len()
        invariant
            i2 <= first_messages@.len(),
            nf == nonce_flats(secret_state, first_messages@),
            flats@.len() == 1 + i2,
            nf.len() == 1 + first_messages@.len(),
            forall|m: int| 0 <= m < 1 + i2 ==> #[trigger] block_views(flats@)[m] == nf[m],
        decreases first_messages@.len() - i2,
    {
        let ghost prev = flats@;
        flats.push(
            join_blocks(
                &first_messages[i2].public_nonces.R[0],
                &first_messages[i2].public_nonces.R[1],
            ),
        );
        proof {
            assert forall|m: int| 0 <= m < 2 + i2 implies #[trigger] block_views(flats@)[m]
                == nf[m] by {
                if m < 1 + i2 {
                    assert(flats@[m] == prev[m]);
                    assert(block_views(prev)[m] == nf[m]);
                } else {
                    assert(flats@[m]@ == msg1_flat(first_messages@[i2 as int]));
                    assert(nf[m] == msg1_flat(first_messages@[i2 as int]));
                }
            }
        }
        i2 += 1;
    }
    proof {
        assert(block_views(flats@) =~= nf);
        assert forall|m: int| 0 <= m < nf.len() implies (#[trigger] nf[m]).len() == 64 && pt_valid(
            nf[m].subrange(0, 32),
        ) && pt_valid(nf[m].subrange(32, 64)) by {
            if m == 0 {
                assert(nf[0] == secret_flat(secret_state));
                assert(nf[0].subrange(0, 32) =~= secret_state.public_nonces.R@[0]@);
                assert(nf[0].subrange(32, 64) =~= secret_state.public_nonces.R@[1]@);
            } else {
                assert(nf[m] == msg1_flat(first_messages@[m - 1]));
                assert(first_messages@[m - 1].wf());
                assert(nf[m].subrange(0, 32) =~= first_messages@[m - 1].public_nonces.R@[0]@);
                assert(nf[m].subrange(32, 64) =~= first_messages@[m - 1].public_nonces.R@[1]@);
            }
        }
    }
    let sorted_flats = sort_blocks(flats);
    let ghost sf = block_views(sorted_flats@);
    proof {
        lemma_block_order_total();
        nf.lemma_sort_by_ensures(block_order());
        assert forall|k: int| 0 <= k < sf.len() implies (#[trigger] sf[k]).len() == 64 && pt_valid(
            sf[k].subrange(0, 32),
        ) && pt_valid(sf[k].subrange(32, 64)) by {
            assert(sf.contains(sf[k]));
            assert(nf.contains(sf[k]));
            let w = choose|w: int| 0 <= w < nf.len() && nf[w] == sf[k];
            assert(pt_valid(nf[w].subrange(0, 32)));
        }
    }
    let mut r0s: Vec<[u8; 32]> = Vec::new();
    let mut r1s: Vec<[u8; 32]> = Vec::new();
    let mut k: usize = 0;
    while k < sorted_flats.len()
        invariant
            k <= sorted_flats@.len(),
            sf == block_views(sorted_flats@),
            sf.len() == sorted_flats@.len(),
            forall|m: int|
                0 <= m < sf.len() ==> (#[trigger] sf[m]).len() == 64 && pt_valid(
                    sf[m].subrange(0, 32),
                ) && pt_valid(sf[m].subrange(32, 64)),
            r0s@.len() == k,
            r1s@.len() == k,
            forall|m: int| 0 <= m < k ==> #[trigger] block_views(r0s@)[m] == sf[m].subrange(0, 32),
            forall|m: int| 0 <= m < k ==> #[trigger] block_views(r1s@)[m] == sf[m].subrange(32, 64),
        decreases sorted_flats@.len() - k,
    {
        let f = &sorted_flats[k];
        let fs: &[u8] = f.as_slice();
        let ghost prev0 = r0s@;
        let ghost prev1 = r1s@;
        r0s.push(read_block(fs, 0));
        r1s.push(read_block(fs, 32));
        proof {
            assert forall|m: int| 0 <= m < k + 1 implies #[trigger] block_views(r0s@)[m]
                == sf[m].subrange(0, 32) by {
                if m < k {
                    assert(r0s@[m] == prev0[m]);
                    assert(block_views(prev0)[m] == sf[m].subrange(0, 32));
                } else {
                    assert(r0s@[m]@ == sf[k as int].subrange(0, 32));
                }
            }
            assert forall|m: int| 0 <= m < k + 1 implies #[trigger] block_views(r1s@)[m]
                == sf[m].subrange(32, 64) by {
                if m < k {
                    assert(r1s@[m] == prev1[m]);
                    assert(block_views(prev1)[m] == sf[m].subrange(32, 64));
                } else {
                    assert(r1s@[m]@ == sf[k as int].subrange(32, 64));
                }
            }
        }
        k += 1;
    }
    proof {
        assert(block_views(r0s@) =~= nonce_component(sf, 0));
        assert(block_views(r1s@) =~= nonce_component(sf, 1));
        assert(r0s@.len() == sf.len());
        assert(sf.len() >= 1);
        assert forall|m: int| 0 <= m < r0s@.len() implies pt_valid(
            #[trigger] block_views(r0s@)[m],
        ) by {
            assert(block_views(r0s@)[m] == sf[m].subrange(0, 32));
        }
        assert forall|m: int| 0 <= m < r1s@.len() implies pt_valid(
            #[trigger] block_views(r1s@)[m],
        ) by {
            assert(block_views(r1s@)[m] == sf[m].subrange(32, 64));
        }
    }
    let agg_r0 = sum_points_vec(&r0s);
    let agg_r1 = sum_points_vec(&r1s);
    proof {
        assert(agg_r0@ == spec_agg_nonce(nf, 0));
        assert(agg_r1@ == spec_agg_nonce(nf, 1));
    }
    let mut binput: Vec<u8> = Vec::new();
    binput.push(110);
    binput.push(111);
    binput.push(110);
    binput.push(99);
    binput.push(101);
    push_block(&mut binput, &agg_r0);
    push_block(&mut binput, &agg_r1);
    push_block(&mut binput, &aggkey.agg_public_key);
    binput.extend_from_slice(msg.as_slice());
    proof {
        assert(binput@ =~= dom_nonce() + agg_r0@ + agg_r1@ + aggkey.agg_public_key@ + msg@);
    }
    let b = hash_to_scalar(&binput);
    let rmul = point_scalar_mul(&b, &agg_r1);
    let session_r = point_add(&agg_r0, &rmul);
    let mut einput: Vec<u8> = Vec::new();
    push_block(&mut einput, &session_r);
    push_block(&mut einput, &aggkey.agg_public_key);
    einput.extend_from_slice(msg.as_slice());
    proof {
        assert(einput@ =~= session_r@ + aggkey.agg_public_key@ + msg@);
    }
    let e = hash_to_scalar(&einput);
    let a = expand_secret(&keypair.secret);
    let c = aggkey.my_coefficient;
    let t1 = scalar_mul(&b, &secret_state.private_nonces.r[1]);
    let t2 = scalar_add(&secret_state.private_nonces.r[0], &t1);
    let t3 = scalar_mul(&c, &a);
    let t4 = scalar_mul(&e, &t3);
    let s = scalar_add(&t2, &t4);
    proof {
        let ll = group_order();
        let r0v = le_val(secret_state.private_nonces.r@[0]@);
        let r1v = le_val(secret_state.private_nonces.r@[1]@);
        let bv = le_val(b@);
        let ev = le_val(e@);
        let cv = le_val(c@);
        let av = le_val(a@);
        vstd::arithmetic::div_mod::lemma_add_mod_noop_right(r0v, bv * r1v, ll);
        vstd::arithmetic::div_mod::lemma_mul_mod_noop_right(ev, cv * av, ll);
        vstd::arithmetic::mul::lemma_mul_is_associative(ev, cv, av);
        vstd::arithmetic::div_mod::lemma_add_mod_noop(r0v + bv * r1v, ev * cv * av, ll);
        assert(le_val(s@) == (r0v + bv * r1v + ev * cv * av) % ll);
    }
    let sig = join_blocks(&session_r, &s);
    proof {
        assert(sig@.subrange(0, 32) =~= session_r@);
        assert(sig@.subrange(32, 64) =~= s@);
    }
    Ok(PartialSignature(sig))
}

/// Whether every partial signature carries the same session nonce bytes as
/// the first one.
pub open spec fn rs_agree(sigs: Seq<PartialSignature>) -> bool {
    forall|i: int|
        0 <= i < sigs.len() ==> (#[trigger] sigs[i]).0@.subrange(0, 32) == sigs[0].0@.subrange(
            0,
            32,
        )
}

/// Whether every partial scalar is canonically encoded.
pub open spec fn sigs_scalars_ok(sigs: Seq<PartialSignature>) -> bool {
    forall|i: int|
        0 <= i < sigs.len() ==> le_val((#[trigger] sigs[i]).0@.subrange(32, 64)) < group_order()
}

/// The sum of all partial scalars, as an unbounded integer.
pub open spec fn sum_s_val(sigs: Seq<PartialSignature>) -> int
    decreases sigs.len(),
{
    if sigs.len() == 0 {
        0
    } else {
        sum_s_val(sigs.drop_last()) + le_val(sigs.last().0@.subrange(32, 64))
    }
}

/// The full 64-byte Ed25519 signature that aggregation assembles: the shared
/// session nonce bytes, then the canonical encoding of the partial scalars'
/// sum mod the group order.
pub open spec fn spec_full_sig(sigs: Seq<PartialSignature>) -> Seq<u8> {
    sigs[0].0@.subrange(0, 32) + le_bytes32(sum_s_val(sigs) % group_order())
}

/// A transaction payload with its finished aggregate signature, ready to
/// wrap and broadcast.
#[derive(Clone, Debug, PartialEq, Eq)]
pub struct SignedTransaction {
    pub message_bytes: Vec<u8>,
    pub signature: [u8; 64],
}

/// Combine the parties' partial signatures into one Ed25519 signature over
/// the payment rebuilt from the same parameters.  Refuses partials whose
/// session nonces disagree, and releases the signature only after it passes
/// standard Ed25519 verification against the aggregate key; a signature
/// over mismatched parameters fails that check and is never handed out.
#[verifier::loop_isolation(false)]
pub fn sign_and_broadcast(
    amount: u64,
    to: [u8; 32],
    memo: Option<String>,
    recent_block_hash: [u8; 32],
    keys: Vec<[u8; 32]>,
    signatures: Vec<PartialSignature>,
) -> (r: Result<SignedTransaction, Error>)
    requires
        keys@.len() >= 1,
        signatures@.len() >= 1,
    ensures
        ({
            let kviews = block_views(keys@);
            let pk = spec_agg_point(kviews);
            let msg = crate::solana_msg_bytes(amount, to@, crate::memo_view(memo), pk,
                recent_block_hash@);
            let fullsig = spec_full_sig(signatures@);
            match r {
                Ok(tx) => all_points_valid(kviews) && rs_agree(signatures@) && pt_valid(
                    signatures@[0].0@.subrange(0, 32),
                ) && sigs_scalars_ok(signatures@) && tx.message_bytes@ == msg && tx.signature@
                    == fullsig && ed25519_valid(pk, msg, fullsig),
                Err(err) => if !all_points_valid(kviews) {
                    err matches Error::DeserializationFailed { error, field_name }
                        && error is InvalidPoint && field_name@ == "keys"@
                } else if !rs_agree(signatures@) {
                    err is MismatchMessages
                } else if !pt_valid(signatures@[0].0@.subrange(0, 32)) {
                    err matches Error::DeserializationFailed { error, field_name }
                        && error is InvalidPoint && field_name@ == "signatures"@
                } else if !sigs_scalars_ok(signatures@) {
                    err matches Error::DeserializationFailed { error, field_name }
                        && error is InvalidScalar && field_name@ == "signatures"@
                } else {
                    !ed25519_valid(pk, msg, fullsig) && err is InvalidSignature
                },
            }
        }),
{
    proof {
        assert(block_views(keys@)[0] == keys@[0]@);
    }
    let aggkey = match key_agg(keys, None) {
        Ok(a) => a,
        Err(e) => {
            return Err(e);
        },
    };
    let r0block: [u8; 32] = read_block(signatures[0].0.as_slice(), 0);
    let mut i: usize = 1;
    while i < signatures.len()
        invariant
            1 <= i <= signatures@.len(),
            r0block@ == signatures@[0].0@.subrange(0, 32),
            forall|k: int|
                0 <= k < i ==> (#[trigger] signatures@[k]).0@.subrange(0, 32)
                    == signatures@[0].0@.subrange(0, 32),
        decreases signatures@.len() - i,
    {
        let ri: [u8; 32] = read_block(signatures[i].0.as_slice(), 0);
        if !block_eq(&ri, &r0block) {
            proof {
                assert(signatures@[i as int].0@.subrange(0, 32) != signatures@[0].0@.subrange(
                    0,
                    32,
                ));
            }
            return Err(Error::MismatchMessages);
        }
        i += 1;
    }
    if !is_valid_point(&r0block) {
        return Err(
            Error::DeserializationFailed {
                error: crate::serialization::Error::InvalidPoint,
                field_name: "signatures",
            },
        );
    }
    let s0: [u8; 32] = read_block(signatures[0].0.as_slice(), 32);
    if !is_canonical_scalar(&s0) {
        return Err(
            Error::DeserializationFailed {
                error: crate::serialization::Error::InvalidScalar,
                field_name: "signatures",
            },
        );
    }
    let mut acc = s0;
    proof {
        assert(signatures@.take(1).drop_last() =~= Seq::<PartialSignature>::empty());
        assert(signatures@.take(1).last() == signatures@[0]);
        assert(sum_s_val(Seq::<PartialSignature>::empty()) == 0);
        assert(signatures@.take(1).len() == 1);
        assert(sum_s_val(signatures@.take(1)) == le_val(signatures@[0].0@.subrange(32, 64)));
        assert(s0@ == signatures@[0].0@.subrange(32, 64));
        lemma_le_val_nonneg(s0@);
        vstd::arithmetic::div_mod::lemma_small_mod(le_val(s0@) as nat, group_order() as nat);
        assert(le_val(s0@) % group_order() == le_val(s0@));
    }
    let mut j: usize = 1;
    while j < signatures.len()
        invariant
            1 <= j <= signatures@.len(),
            forall|k: int|
                0 <= k < j ==> le_val((#[trigger] signatures@[k]).0@.subrange(32, 64))
                    < group_order(),
            le_val(acc@) == sum_s_val(signatures@.take(j as int)) % group_order(),
            le_val(acc@) < group_order(),
            acc@.len() == 32,
        decreases signatures@.len() - j,
    {
        let sj: [u8; 32] = read_block(signatures[j].0.as_slice(), 32);
        if !is_canonical_scalar(&sj) {
            return Err(
                Error::DeserializationFailed {
                    error: crate::serialization::Error::InvalidScalar,
                    field_name: "signatures",
                },
            );
        }
        let ghost prev_val = le_val(acc@);
        acc = scalar_add(&acc, &sj);
        proof {
            assert(signatures@.take(j + 1).drop_last() =~= signatures@.take(j as int));
            assert(signatures@.take(j + 1).last() == signatures@[j as int]);
            let sumj = sum_s_val(signatures@.take(j as int));
            let sjv = le_val(signatures@[j as int].0@.subrange(32, 64));
            lemma_le_val_nonneg(sj@);
            vstd::arithmetic::div_mod::lemma_small_mod(sjv as nat, group_order() as nat);
            vstd::arithmetic::div_mod::lemma_add_mod_noop(sumj, sjv, group_order());
        }
        j += 1;
    }
    proof {
        assert(signatures@.take(signatures@.len() as int) =~= signatures@);
    }
    let msg = crate::build_message_bytes(
        amount,
        &to,
        &memo,
        &aggkey.agg_public_key,
        &recent_block_hash,
    );
    let sig64 = join_blocks(&r0block, &acc);
    proof {
        let sumv = sum_s_val(signatures@) % group_order();
        lemma_group_order_fits();
        lemma_le_bytes32_val(sumv);
        lemma_le_val_injective(acc@, le_bytes32(sumv));
        assert(sig64@ =~= spec_full_sig(signatures@));
    }
    if !verify_signature(&aggkey.agg_public_key, &msg, &sig64) {
        return Err(Error::InvalidSignature);
    }
    Ok(SignedTransaction { message_bytes: msg, signature: sig64 })
}

} // verus!
