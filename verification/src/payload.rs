//! What the custodian publishes and what travels between wallets and
//! custodian.

use vstd::prelude::*;

verus! {

/// What the custodian publishes of one co-signature, so that a receiver can
/// check afterwards which nonce and blinding factor the custodian used.
#[derive(Debug)]
pub struct StatechainInfo {
    pub statechain_id: String,
    /// SHA-256 of the nonce that the custodian was given, in hexadecimal.
    pub r2_commitment: String,
    /// SHA-256 of the blinding factor, in hexadecimal.
    pub blind_commitment: String,
    /// Public nonce of the custodian, in hexadecimal.
    pub server_pubnonce: String,
    /// The challenge that the custodian signed with, in hexadecimal.
    pub challenge: String,
    /// Sequence number of the backup transaction that was signed.
    pub tx_n: u32,
}

/// The custodian's answer on a statechain: how many signatures it has made,
/// and what it publishes of each.
#[derive(Debug)]
pub struct StatechainInfoResponsePayload {
    pub num_sigs: u32,
    pub statechain_info: Vec<StatechainInfo>,
}

/// What a receiver sends to the custodian to take a statechain over.
#[derive(Debug)]
pub struct TransferReceiverRequestPayload {
    pub statechain_id: String,
    pub batch_data: Option<String>,
    pub t2: String,
    pub auth_sig: String,
}

} // verus!
