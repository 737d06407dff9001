//! The tagged binary codec that carries protocol messages and private
//! continuation state between parties.
//!
//! Every payload starts with a one-byte tag naming its variant, followed by
//! fixed-width curve elements.  Serialization is deterministic; parsing
//! checks the tag first, then the total length, then each field in order,
//! and reports exactly one error for the first check that fails.  Blobs are
//! framed in base58 for copy/paste transport.

use vstd::prelude::*;

use crate::bytes::{push_block, read_block};
use crate::curve::{
    group_order, is_canonical_scalar, is_valid_point, le_val, pt_valid, scalar_canonical,
};

verus! {

broadcast use vstd::array::group_array_axioms;

/// The variant that a serialized payload announces in its first byte.
#[derive(Clone, Copy, Debug, PartialEq, Eq, Structural)]
pub enum Tag {
    AggMessage1,
    AggMessage2,
    PartialSignature,
    SecretAggStepOne,
    Unknown,
}

/// The byte that announces each variant on the wire.  `AggMessage2` is the
/// reserved tag of a retired three-round message; `Unknown` never goes out.
pub open spec fn spec_tag_byte(t: Tag) -> u8 {
    match t {
        Tag::AggMessage1 => 0,
        Tag::AggMessage2 => 1,
        Tag::PartialSignature => 2,
        Tag::SecretAggStepOne => 3,
        Tag::Unknown => 255,
    }
}

/// The variant that a wire byte announces.
pub open spec fn spec_tag_of(b: u8) -> Tag {
    if b == 0 {
        Tag::AggMessage1
    } else if b == 1 {
        Tag::AggMessage2
    } else if b == 2 {
        Tag::PartialSignature
    } else if b == 3 {
        Tag::SecretAggStepOne
    } else {
        Tag::Unknown
    }
}

impl core::convert::From<u8> for Tag {
    fn from(t: u8) -> (r: Tag) {
        if t == 0 {
            Tag::AggMessage1
        } else if t == 1 {
            Tag::AggMessage2
        } else if t == 2 {
            Tag::PartialSignature
        } else if t == 3 {
            Tag::SecretAggStepOne
        } else {
            Tag::Unknown
        }
    }
}

impl vstd::std_specs::convert::FromSpecImpl<u8> for Tag {
    open spec fn obeys_from_spec() -> bool {
        true
    }

    open spec fn from_spec(t: u8) -> Tag {
        spec_tag_of(t)
    }
}

impl Tag {
    /// The human-readable name of the variant, as the diagnostics print it.
    pub fn display_name(&self) -> (r: String)
        ensures
            *self == Tag::AggMessage1 ==> r@ == "Aggregate Message1"@,
            *self == Tag::AggMessage2 ==> r@ == "Aggregate Message2"@,
            *self == Tag::PartialSignature ==> r@ == "Partial Signature"@,
            *self == Tag::SecretAggStepOne ==> r@ == "Secret State Aggregate1"@,
            *self == Tag::Unknown ==> r@ == "Unknown"@,
    {
        match self {
            Tag::AggMessage1 => "Aggregate Message1".to_owned(),
            Tag::AggMessage2 => "Aggregate Message2".to_owned(),
            Tag::PartialSignature => "Partial Signature".to_owned(),
            Tag::SecretAggStepOne => "Secret State Aggregate1".to_owned(),
            Tag::Unknown => "Unknown".to_owned(),
        }
    }
}

/// Everything that can go wrong while parsing a blob.
#[derive(Debug)]
pub enum Error {
    InputTooShort { expected: usize, found: usize },
    BadBase58(String),
    InvalidPoint,
    InvalidScalar,
    WrongTag { expected: Tag, found: Tag },
}

/// What a base58 string decodes to, if it is well-formed.
pub uninterp spec fn b58_dec(s: Seq<char>) -> Option<Seq<u8>>;

/// The base58 rendering of a byte string.
pub uninterp spec fn b58_enc(b: Seq<u8>) -> Seq<char>;

/// Relies on bs58's encoder; decoding the rendering gives the bytes back.
#[verifier::external_body]
pub(crate) fn bs58_encode(b: &Vec<u8>) -> (r: String)
    ensures
        r@ == b58_enc(b@),
        b58_dec(r@) == Some(b@),
{
    bs58::encode(b.as_slice()).into_string()
}

/// Relies on bs58's decoder: it succeeds exactly on well-formed base58 text.
#[verifier::external_body]
pub(crate) fn bs58_decode(s: &str) -> (r: Result<Vec<u8>, String>)
    ensures
        match r {
            Ok(v) => b58_dec(s@) == Some(v@),
            Err(_) => b58_dec(s@) is None,
        },
{
    bs58::decode(s).into_vec().map_err(|e| format!("{}", e))
}

/// The two secret nonce scalars one signer draws for a session.
#[allow(non_snake_case)]
#[derive(Clone, Copy, Debug, PartialEq, Eq)]
pub struct PrivatePartialNonces {
    pub r: [[u8; 32]; 2],
}

/// The two public nonce points matching a signer's secret nonces.
#[allow(non_snake_case)]
#[derive(Clone, Copy, Debug, PartialEq, Eq)]
pub struct PublicPartialNonces {
    pub R: [[u8; 32]; 2],
}

impl PrivatePartialNonces {
    /// Both scalars are canonically encoded.
    pub open spec fn wf(self) -> bool {
        scalar_canonical(self.r@[0]@) && scalar_canonical(self.r@[1]@)
    }
}

impl PublicPartialNonces {
    /// Both encodings are curve points.
    pub open spec fn wf(self) -> bool {
        pt_valid(self.R@[0]@) && pt_valid(self.R@[1]@)
    }
}

/// The public message of signing round one: this signer's two public nonce
/// points and their address.
#[derive(Clone, Copy, Debug, PartialEq, Eq)]
pub struct AggMessage1 {
    pub public_nonces: PublicPartialNonces,
    pub sender: [u8; 32],
}

impl AggMessage1 {
    /// The nonce points are on the curve.
    pub open spec fn wf(self) -> bool {
        self.public_nonces.wf()
    }

    /// The exact wire form: tag 0, both nonce points, the sender address.
    pub open spec fn spec_serialized(self) -> Seq<u8> {
        seq![spec_tag_byte(Tag::AggMessage1)] + self.public_nonces.R@[0]@
            + self.public_nonces.R@[1]@ + self.sender@
    }

    /// Whether `b` starts with a parseable round-one message.
    pub open spec fn parse_ok(b: Seq<u8>) -> bool {
        b.len() >= 1 && b[0] == spec_tag_byte(Tag::AggMessage1) && b.len() >= 97
            && pt_valid(b.subrange(1, 33)) && pt_valid(b.subrange(33, 65))
    }

    /// Whether this value holds exactly the fields laid out in `b`.
    pub open spec fn matches_bytes(self, b: Seq<u8>) -> bool {
        self.public_nonces.R@[0]@ == b.subrange(1, 33)
            && self.public_nonces.R@[1]@ == b.subrange(33, 65)
            && self.sender@ == b.subrange(65, 97)
    }

    /// The error for the first parse check that fails on `b`.
    pub open spec fn parse_err(b: Seq<u8>) -> Error {
        if b.len() == 0 {
            Error::InputTooShort { expected: 97, found: 0 }
        } else if b[0] != spec_tag_byte(Tag::AggMessage1) {
            Error::WrongTag { expected: Tag::AggMessage1, found: spec_tag_of(b[0]) }
        } else if b.len() < 97 {
            Error::InputTooShort { expected: 97, found: b.len() as usize }
        } else {
            Error::InvalidPoint
        }
    }

    /// Append the wire form of `self` to `append_to`.
    pub fn serialize(&self, append_to: &mut Vec<u8>)
        ensures
            final(append_to)@ == old(append_to)@ + self.spec_serialized(),
    {
        append_to.push(0u8);
        push_block(append_to, &self.public_nonces.R[0]);
        push_block(append_to, &self.public_nonces.R[1]);
        push_block(append_to, &self.sender);
    }

    /// The length of the wire form.
    pub fn size_hint(&self) -> (r: usize)
        ensures
            r == self.spec_serialized().len(),
    {
        1 + 32 + 32 + 32
    }

    /// Parse the wire form: tag, then length, then each nonce point.
    pub fn deserialize(b: &[u8]) -> (r: Result<Self, Error>)
        ensures
            match r {
                Ok(m) => Self::parse_ok(b@) && m.matches_bytes(b@),
                Err(e) => !Self::parse_ok(b@) && e == Self::parse_err(b@),
            },
    {
        if b.len() == 0 {
            return Err(Error::InputTooShort { expected: 97, found: 0 });
        }
        let tag = b[0];
        if tag != 0 {
            return Err(Error::WrongTag { expected: Tag::AggMessage1, found: Tag::from(tag) });
        }
        if b.len() < 97 {
            return Err(Error::InputTooShort { expected: 97, found: b.len() });
        }
        let r0 = read_block(b, 1);
        if !is_valid_point(&r0) {
            return Err(Error::InvalidPoint);
        }
        let r1 = read_block(b, 33);
        if !is_valid_point(&r1) {
            return Err(Error::InvalidPoint);
        }
        let sender = read_block(b, 65);
        Ok(AggMessage1 { public_nonces: PublicPartialNonces { R: [r0, r1] }, sender })
    }

    /// The wire form framed in base58.
    pub fn serialize_bs58(&self) -> (r: String)
        ensures
            r@ == b58_enc(self.spec_serialized()),
            b58_dec(r@) == Some(self.spec_serialized()),
    {
        let mut v: Vec<u8> = Vec::new();
        self.serialize(&mut v);
        bs58_encode(&v)
    }

    /// Unframe base58 text and parse the payload.
    pub fn deserialize_bs58(s: &str) -> (r: Result<Self, Error>)
        ensures
            b58_dec(s@) is None ==> (r matches Err(e) && e is BadBase58),
            b58_dec(s@) matches Some(v) ==> match r {
                Ok(m) => Self::parse_ok(v) && m.matches_bytes(v),
                Err(e) => !Self::parse_ok(v) && e == Self::parse_err(v),
            },
    {
        match bs58_decode(s) {
            Err(msg) => Err(Error::BadBase58(msg)),
            Ok(v) => Self::deserialize(v.as_slice()),
        }
    }
}

/// Parsing what one value serializes to succeeds and yields that value back.
pub proof fn lemma_agg_message1_roundtrip(m: AggMessage1, m2: AggMessage1)
    requires
        m.wf(),
        m2.matches_bytes(m.spec_serialized()),
    ensures
        AggMessage1::parse_ok(m.spec_serialized()),
        m2 == m,
{
    let b = m.spec_serialized();
    assert(b.subrange(1, 33) =~= m.public_nonces.R@[0]@);
    assert(b.subrange(33, 65) =~= m.public_nonces.R@[1]@);
    assert(b.subrange(65, 97) =~= m.sender@);
    assert(m2.public_nonces.R@[0] == m.public_nonces.R@[0]);
    assert(m2.public_nonces.R@[1] == m.public_nonces.R@[1]);
    assert(m2.public_nonces.R =~= m.public_nonces.R);
    assert(m2.sender =~= m.sender);
}

/// A blob whose first byte is any other variant's tag is refused as a
/// round-one message, naming both variants.
pub proof fn lemma_agg_message1_rejects_other_tags(b: Seq<u8>)
    requires
        b.len() >= 1,
        b[0] != spec_tag_byte(Tag::AggMessage1),
    ensures
        !AggMessage1::parse_ok(b),
        AggMessage1::parse_err(b) == (Error::WrongTag {
            expected: Tag::AggMessage1,
            found: spec_tag_of(b[0]),
        }),
{
}

/// Cutting the last byte off a serialized round-one message leaves it too
/// short, and parsing says so.
pub proof fn lemma_agg_message1_truncated(m: AggMessage1)
    ensures
        !AggMessage1::parse_ok(m.spec_serialized().take(96)),
        AggMessage1::parse_err(m.spec_serialized().take(96)) == (Error::InputTooShort {
            expected: 97,
            found: 96,
        }),
{
    let b = m.spec_serialized().take(96);
    assert(b[0] == spec_tag_byte(Tag::AggMessage1));
}

/// One signer's contribution to the aggregate signature: the session nonce
/// point followed by this signer's partial scalar.
#[derive(Clone, Copy, Debug, PartialEq, Eq)]
pub struct PartialSignature(pub [u8; 64]);

impl PartialSignature {
    /// The exact wire form: tag 2, then the 64 signature bytes.
    pub open spec fn spec_serialized(self) -> Seq<u8> {
        seq![spec_tag_byte(Tag::PartialSignature)] + self.0@
    }

    /// Whether `b` starts with a parseable partial signature.
    pub open spec fn parse_ok(b: Seq<u8>) -> bool {
        b.len() >= 1 && b[0] == spec_tag_byte(Tag::PartialSignature) && b.len() >= 65
    }

    /// Whether this value holds exactly the bytes laid out in `b`.
    pub open spec fn matches_bytes(self, b: Seq<u8>) -> bool {
        self.0@ == b.subrange(1, 65)
    }

    /// The error for the first parse check that fails on `b`.
    pub open spec fn parse_err(b: Seq<u8>) -> Error {
        if b.len() == 0 {
            Error::InputTooShort { expected: 65, found: 0 }
        } else if b[0] != spec_tag_byte(Tag::PartialSignature) {
            Error::WrongTag { expected: Tag::PartialSignature, found: spec_tag_of(b[0]) }
        } else {
            Error::InputTooShort { expected: 65, found: b.len() as usize }
        }
    }

    /// Append the wire form of `self` to `append_to`.
    pub fn serialize(&self, append_to: &mut Vec<u8>)
        ensures
            final(append_to)@ == old(append_to)@ + self.spec_serialized(),
    {
        append_to.push(2u8);
        push_block(append_to, &self.0);
    }

    /// The length of the wire form.
    pub fn size_hint(&self) -> (r: usize)
        ensures
            r == self.spec_serialized().len(),
    {
        1 + 64
    }

    /// Parse the wire form: tag, then length.  The 64 bytes themselves are
    /// copied unchecked, as every byte string is a possible signature field.
    pub fn deserialize(b: &[u8]) -> (r: Result<Self, Error>)
        ensures
            match r {
                Ok(m) => Self::parse_ok(b@) && m.matches_bytes(b@),
                Err(e) => !Self::parse_ok(b@) && e == Self::parse_err(b@),
            },
    {
        if b.len() == 0 {
            return Err(Error::InputTooShort { expected: 65, found: 0 });
        }
        let tag = b[0];
        if tag != 2 {
            return Err(Error::WrongTag { expected: Tag::PartialSignature, found: Tag::from(tag) });
        }
        if b.len() < 65 {
            return Err(Error::InputTooShort { expected: 65, found: b.len() });
        }
        let sig: [u8; 64] = read_block(b, 1);
        Ok(PartialSignature(sig))
    }

    /// The wire form framed in base58.
    pub fn serialize_bs58(&self) -> (r: String)
        ensures
            r@ == b58_enc(self.spec_serialized()),
            b58_dec(r@) == Some(self.spec_serialized()),
    {
        let mut v: Vec<u8> = Vec::new();
        self.serialize(&mut v);
        bs58_encode(&v)
    }

    /// Unframe base58 text and parse the payload.
    pub fn deserialize_bs58(s: &str) -> (r: Result<Self, Error>)
        ensures
            b58_dec(s@) is None ==> (r matches Err(e) && e is BadBase58),
            b58_dec(s@) matches Some(v) ==> match r {
                Ok(m) => Self::parse_ok(v) && m.matches_bytes(v),
                Err(e) => !Self::parse_ok(v) && e == Self::parse_err(v),
            },
    {
        match bs58_decode(s) {
            Err(msg) => Err(Error::BadBase58(msg)),
            Ok(v) => Self::deserialize(v.as_slice()),
        }
    }
}

/// Parsing what one value serializes to succeeds and yields that value back.
pub proof fn lemma_partial_signature_roundtrip(m: PartialSignature, m2: PartialSignature)
    requires
        m2.matches_bytes(m.spec_serialized()),
    ensures
        PartialSignature::parse_ok(m.spec_serialized()),
        m2 == m,
{
    let b = m.spec_serialized();
    assert(b.subrange(1, 65) =~= m.0@);
    assert(m2.0 =~= m.0);
}

/// A blob whose first byte is any other variant's tag is refused as a
/// partial signature, naming both variants.
pub proof fn lemma_partial_signature_rejects_other_tags(b: Seq<u8>)
    requires
        b.len() >= 1,
        b[0] != spec_tag_byte(Tag::PartialSignature),
    ensures
        !PartialSignature::parse_ok(b),
        PartialSignature::parse_err(b) == (Error::WrongTag {
            expected: Tag::PartialSignature,
            found: spec_tag_of(b[0]),
        }),
{
}

/// Cutting the last byte off a serialized partial signature leaves it too
/// short, and parsing says so.
pub proof fn lemma_partial_signature_truncated(m: PartialSignature)
    ensures
        !PartialSignature::parse_ok(m.spec_serialized().take(64)),
        PartialSignature::parse_err(m.spec_serialized().take(64)) == (Error::InputTooShort {
            expected: 65,
            found: 64,
        }),
{
    let b = m.spec_serialized().take(64);
    assert(b[0] == spec_tag_byte(Tag::PartialSignature));
}

/// The private continuation a signer keeps between round one and round two:
/// its two secret nonce scalars and the matching public points.
#[derive(Clone, Copy, Debug, PartialEq, Eq)]
pub struct SecretAggStepOne {
    pub private_nonces: PrivatePartialNonces,
    pub public_nonces: PublicPartialNonces,
}

impl SecretAggStepOne {
    /// The scalars are canonical and the points are on the curve.
    pub open spec fn wf(self) -> bool {
        self.private_nonces.wf() && self.public_nonces.wf()
    }

    /// The exact wire form: tag 3, both secret scalars, both public points.
    pub open spec fn spec_serialized(self) -> Seq<u8> {
        seq![spec_tag_byte(Tag::SecretAggStepOne)] + self.private_nonces.r@[0]@
            + self.private_nonces.r@[1]@ + self.public_nonces.R@[0]@ + self.public_nonces.R@[1]@
    }

    /// Whether `b` starts with a parseable round-one secret state.
    pub open spec fn parse_ok(b: Seq<u8>) -> bool {
        b.len() >= 1 && b[0] == spec_tag_byte(Tag::SecretAggStepOne) && b.len() >= 129
            && scalar_canonical(b.subrange(1, 33)) && scalar_canonical(b.subrange(33, 65))
            && pt_valid(b.subrange(65, 97)) && pt_valid(b.subrange(97, 129))
    }

    /// Whether this value holds exactly the fields laid out in `b`.
    pub open spec fn matches_bytes(self, b: Seq<u8>) -> bool {
        self.private_nonces.r@[0]@ == b.subrange(1, 33)
            && self.private_nonces.r@[1]@ == b.subrange(33, 65)
            && self.public_nonces.R@[0]@ == b.subrange(65, 97)
            && self.public_nonces.R@[1]@ == b.subrange(97, 129)
    }

    /// The error for the first parse check that fails on `b`.
    pub open spec fn parse_err(b: Seq<u8>) -> Error {
        if b.len() == 0 {
            Error::InputTooShort { expected: 129, found: 0 }
        } else if b[0] != spec_tag_byte(Tag::SecretAggStepOne) {
            Error::WrongTag { expected: Tag::SecretAggStepOne, found: spec_tag_of(b[0]) }
        } else if b.len() < 129 {
            Error::InputTooShort { expected: 129, found: b.len() as usize }
        } else if !scalar_canonical(b.subrange(1, 33)) || !scalar_canonical(b.subrange(33, 65)) {
            Error::InvalidScalar
        } else {
            Error::InvalidPoint
        }
    }

    /// Append the wire form of `self` to `append_to`.
    pub fn serialize(&self, append_to: &mut Vec<u8>)
        ensures
            final(append_to)@ == old(append_to)@ + self.spec_serialized(),
    {
        append_to.push(3u8);
        push_block(append_to, &self.private_nonces.r[0]);
        push_block(append_to, &self.private_nonces.r[1]);
        push_block(append_to, &self.public_nonces.R[0]);
        push_block(append_to, &self.public_nonces.R[1]);
    }

    /// The length of the wire form.
    pub fn size_hint(&self) -> (r: usize)
        ensures
            r == self.spec_serialized().len(),
    {
        1 + 64 + 64
    }

    /// Parse the wire form: tag, then length, then both scalars, then both
    /// points, in that order.
    pub fn deserialize(b: &[u8]) -> (r: Result<Self, Error>)
        ensures
            match r {
                Ok(m) => Self::parse_ok(b@) && m.matches_bytes(b@),
                Err(e) => !Self::parse_ok(b@) && e == Self::parse_err(b@),
            },
    {
        if b.len() == 0 {
            return Err(Error::InputTooShort { expected: 129, found: 0 });
        }
        let tag = b[0];
        if tag != 3 {
            return Err(Error::WrongTag { expected: Tag::SecretAggStepOne, found: Tag::from(tag) });
        }
        if b.len() < 129 {
            return Err(Error::InputTooShort { expected: 129, found: b.len() });
        }
        let r0 = read_block(b, 1);
        if !is_canonical_scalar(&r0) {
            return Err(Error::InvalidScalar);
        }
        let r1 = read_block(b, 33);
        if !is_canonical_scalar(&r1) {
            return Err(Error::InvalidScalar);
        }
        let cap_r0 = read_block(b, 65);
        if !is_valid_point(&cap_r0) {
            return Err(Error::InvalidPoint);
        }
        let cap_r1 = read_block(b, 97);
        if !is_valid_point(&cap_r1) {
            return Err(Error::InvalidPoint);
        }
        Ok(SecretAggStepOne {
            private_nonces: PrivatePartialNonces { r: [r0, r1] },
            public_nonces: PublicPartialNonces { R: [cap_r0, cap_r1] },
        })
    }

    /// The wire form framed in base58.
    pub fn serialize_bs58(&self) -> (r: String)
        ensures
            r@ == b58_enc(self.spec_serialized()),
            b58_dec(r@) == Some(self.spec_serialized()),
    {
        let mut v: Vec<u8> = Vec::new();
        self.serialize(&mut v);
        bs58_encode(&v)
    }

    /// Unframe base58 text and parse the payload.
    pub fn deserialize_bs58(s: &str) -> (r: Result<Self, Error>)
        ensures
            b58_dec(s@) is None ==> (r matches Err(e) && e is BadBase58),
            b58_dec(s@) matches Some(v) ==> match r {
                Ok(m) => Self::parse_ok(v) && m.matches_bytes(v),
                Err(e) => !Self::parse_ok(v) && e == Self::parse_err(v),
            },
    {
        match bs58_decode(s) {
            Err(msg) => Err(Error::BadBase58(msg)),
            Ok(v) => Self::deserialize(v.as_slice()),
        }
    }
}

/// Parsing what one value serializes to succeeds and yields that value back.
pub proof fn lemma_secret_agg_step_one_roundtrip(m: SecretAggStepOne, m2: SecretAggStepOne)
    requires
        m.wf(),
        m2.matches_bytes(m.spec_serialized()),
    ensures
        SecretAggStepOne::parse_ok(m.spec_serialized()),
        m2 == m,
{
    let b = m.spec_serialized();
    assert(b.subrange(1, 33) =~= m.private_nonces.r@[0]@);
    assert(b.subrange(33, 65) =~= m.private_nonces.r@[1]@);
    assert(b.subrange(65, 97) =~= m.public_nonces.R@[0]@);
    assert(b.subrange(97, 129) =~= m.public_nonces.R@[1]@);
    assert(m2.private_nonces.r@[0] == m.private_nonces.r@[0]);
    assert(m2.private_nonces.r@[1] == m.private_nonces.r@[1]);
    assert(m2.public_nonces.R@[0] == m.public_nonces.R@[0]);
    assert(m2.public_nonces.R@[1] == m.public_nonces.R@[1]);
    assert(m2.private_nonces.r =~= m.private_nonces.r);
    assert(m2.public_nonces.R =~= m.public_nonces.R);
}

/// A blob whose first byte is any other variant's tag is refused as a
/// round-one secret state, naming both variants.
pub proof fn lemma_secret_agg_step_one_rejects_other_tags(b: Seq<u8>)
    requires
        b.len() >= 1,
        b[0] != spec_tag_byte(Tag::SecretAggStepOne),
    ensures
        !SecretAggStepOne::parse_ok(b),
        SecretAggStepOne::parse_err(b) == (Error::WrongTag {
            expected: Tag::SecretAggStepOne,
            found: spec_tag_of(b[0]),
        }),
{
}

/// Attaches the name of the command-line argument that failed to parse.
pub trait FieldError<T>: Sized {
    /// What `with_field` returns.
    spec fn spec_with_field(self, field_name: &'static str) -> Result<T, crate::error::Error>;

    /// Name the argument a parse error belongs to.
    fn with_field(self, field_name: &'static str) -> (r: Result<T, crate::error::Error>)
        ensures
            r == self.spec_with_field(field_name),
    ;
}

impl<T> FieldError<T> for Result<T, Error> {
    open spec fn spec_with_field(self, field_name: &'static str) -> Result<
        T,
        crate::error::Error,
    > {
        match self {
            Ok(t) => Ok(t),
            Err(e) => Err(
                crate::error::Error::DeserializationFailed { error: e, field_name },
            ),
        }
    }

    fn with_field(self, field_name: &'static str) -> (r: Result<T, crate::error::Error>) {
        match self {
            Ok(t) => Ok(t),
            Err(e) => Err(crate::error::Error::DeserializationFailed { error: e, field_name }),
        }
    }
}

/// Cutting the last byte off a serialized secret state leaves it too short,
/// and parsing says so.
pub proof fn lemma_secret_agg_step_one_truncated(m: SecretAggStepOne)
    ensures
        !SecretAggStepOne::parse_ok(m.spec_serialized().take(128)),
        SecretAggStepOne::parse_err(m.spec_serialized().take(128)) == (Error::InputTooShort {
            expected: 129,
            found: 128,
        }),
{
    let b = m.spec_serialized().take(128);
    assert(b[0] == spec_tag_byte(Tag::SecretAggStepOne));
}

} // verus!
