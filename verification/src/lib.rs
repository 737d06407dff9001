//! A threshold-signing wallet library for Solana: several parties jointly
//! produce one standard Ed25519 signature over a payment transaction, using a
//! two-round MuSig2-style protocol.  No party ever reveals its secret share.
//!
//! The crate verifies the protocol's bookkeeping: the tagged wire codec that
//! moves protocol messages between parties, deterministic key aggregation,
//! the two signing rounds, and the aggregation of partial signatures.  The
//! curve and hash primitives themselves are called through narrow trusted
//! wrappers.

use vstd::prelude::*;

pub mod bytes;
pub mod cli;
pub mod curve;
pub mod error;
pub mod serialization;
pub mod tss;

verus! {

/// The view of an optional memo string.
pub open spec fn memo_view(m: Option<String>) -> Option<Seq<char>> {
    match m {
        Some(s) => Some(s@),
        None => None,
    }
}

/// The canonical signed payload of a payment: the serialized Solana message
/// moving `lamports` from `payer` to `to`, carrying `memo` if one is given,
/// bound to `blockhash`.  A function of these five values alone.
pub uninterp spec fn solana_msg_bytes(
    lamports: u64,
    to: Seq<u8>,
    memo: Option<Seq<char>>,
    payer: Seq<u8>,
    blockhash: Seq<u8>,
) -> Seq<u8>;

/// Relies on solana_sdk's system transfer instruction, message compilation
/// and bincode message serialization, and on spl_memo's program id, to lay
/// out the chain's canonical payload for these parameters.
#[verifier::external_body]
pub(crate) fn build_message_bytes(
    amount: u64,
    to: &[u8; 32],
    memo: &Option<String>,
    payer: &[u8; 32],
    recent_block_hash: &[u8; 32],
) -> (r: Vec<u8>)
    ensures
        r@ == solana_msg_bytes(amount, to@, memo_view(*memo), payer@, recent_block_hash@),
{
    let to_pk = solana_sdk::pubkey::Pubkey::from(*to);
    let payer_pk = solana_sdk::pubkey::Pubkey::from(*payer);
    let mut ins = vec![solana_sdk::system_instruction::transfer(&payer_pk, &to_pk, amount)];
    if let Some(m) = memo {
        let (program_id, accounts, data) = (spl_memo::id(), Vec::new(), m.clone().into_bytes());
        ins.push(solana_sdk::instruction::Instruction { program_id, accounts, data });
    }
    let hash = solana_sdk::hash::Hash::new_from_array(*recent_block_hash);
    solana_sdk::message::Message::new_with_blockhash(&ins, Some(&payer_pk), &hash).serialize()
}

/// A payment not yet bound to a blockhash or signed: just its parameters.
#[derive(Clone, Debug, PartialEq, Eq)]
pub struct UnsignedTransaction {
    pub amount: u64,
    pub to: [u8; 32],
    pub memo: Option<String>,
    pub payer: [u8; 32],
}

impl UnsignedTransaction {
    /// The payload that all parties sign once a blockhash is agreed on.
    pub fn message_bytes(&self, recent_block_hash: &[u8; 32]) -> (r: Vec<u8>)
        ensures
            r@ == solana_msg_bytes(
                self.amount,
                self.to@,
                memo_view(self.memo),
                self.payer@,
                recent_block_hash@,
            ),
    {
        build_message_bytes(self.amount, &self.to, &self.memo, &self.payer, recent_block_hash)
    }
}

/// Gather the parameters of a payment of `amount` lamports from `payer` to
/// `to`, with an optional memo.
pub fn create_unsigned_transaction(
    amount: u64,
    to: &[u8; 32],
    memo: Option<String>,
    payer: &[u8; 32],
) -> (r: UnsignedTransaction)
    ensures
        r.amount == amount,
        r.to@ == to@,
        r.memo == memo,
        r.payer@ == payer@,
{
    UnsignedTransaction { amount, to: *to, memo, payer: *payer }
}

} // verus!
