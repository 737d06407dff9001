//! The one error type that every command surfaces to the user.

use vstd::prelude::*;

verus! {

/// Everything a wallet command can fail with.  The chain-collaborator
/// variants carry the RPC client's message as text; the parsing variant
/// carries the codec's error and the name of the offending argument.
#[derive(Debug)]
pub enum Error {
    WrongNetwork(String),
    BadBase58(String),
    WrongKeyPair(String),
    AirdropFailed(String),
    RecentHashFailed(String),
    ConfirmingTransactionFailed(String),
    BalaceFailed(String),
    SendTransactionFailed(String),
    DeserializationFailed { error: crate::serialization::Error, field_name: &'static str },
    MismatchMessages,
    InvalidSignature,
    KeyPairIsNotInKeys,
}

} // verus!
