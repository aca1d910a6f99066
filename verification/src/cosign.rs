//! The receiver's check of the blinded co-signing scheme: that the custodian
//! used the nonce and the blinding factor that it committed to, and signed
//! with the challenge that it published.

use vstd::prelude::*;
use crate::chain::BackupTransaction;
use crate::hashing::{sha256, sha256_digest};
use crate::hexcode::{hex_encode, hex_encoding, lemma_hex_encoding_injective};
use crate::payload::StatechainInfo;

verus! {

/// Why the co-signing of a backup transaction does not check out.
#[derive(Clone, Copy, Debug, PartialEq, Eq, Structural)]
pub enum SchemeError {
    /// A public nonce is not 66 bytes long.
    MalformedNonce,
    /// A public key is not 33 bytes long, or the blinding factor not 32.
    MalformedKey,
    /// A published commitment is not the hash of the value it stands for.
    CommitmentMismatch,
    /// The published challenge is not the one that the session gives.
    ChallengeMismatch,
}

/// Length of a serialised public nonce.
pub const PUBLIC_NONCE_LEN: usize = 66;

/// Length of a compressed public key.
pub const PUBLIC_KEY_LEN: usize = 33;

/// Length of a blinding factor, and of a challenge.
pub const SCALAR_LEN: usize = 32;

/// The commitment that is published for a value: the SHA-256 digest of the
/// value, in lower-case hexadecimal.
pub open spec fn commitment(value: Seq<u8>) -> Seq<char> {
    hex_encoding(sha256(value))
}

/// The published commitments are those of the blinding factor and of the
/// owner's nonce.
pub open spec fn commitments_match(
    blinding_factor: Seq<u8>,
    client_nonce: Seq<u8>,
    info: &StatechainInfo,
) -> bool {
    info.blind_commitment@ == commitment(blinding_factor) && info.r2_commitment@ == commitment(
        client_nonce,
    )
}

/// The published challenge is `challenge`, in lower-case hexadecimal.
pub open spec fn challenge_matches(challenge: Seq<u8>, info: &StatechainInfo) -> bool {
    info.challenge@ == hex_encoding(challenge)
}

/// Both nonces of the backup transaction have the length of a public nonce.
pub open spec fn nonces_well_formed(tx: &BackupTransaction) -> bool {
    tx.client_public_nonce@.len() == PUBLIC_NONCE_LEN && tx.server_public_nonce@.len()
        == PUBLIC_NONCE_LEN
}

/// Both keys of the backup transaction have the length of a public key, and
/// its blinding factor that of a scalar.
pub open spec fn keys_well_formed(tx: &BackupTransaction) -> bool {
    tx.client_public_key@.len() == PUBLIC_KEY_LEN && tx.server_public_key@.len() == PUBLIC_KEY_LEN
        && tx.blinding_factor@.len() == SCALAR_LEN
}

/// The verdict on the co-signing of a backup transaction, given what the
/// custodian published and the challenge that the blinded session of the
/// transaction gives.
pub open spec fn scheme_verdict(
    tx: &BackupTransaction,
    info: &StatechainInfo,
    challenge: Seq<u8>,
) -> Result<(), SchemeError> {
    if !nonces_well_formed(tx) {
        Err(SchemeError::MalformedNonce)
    } else if !keys_well_formed(tx) {
        Err(SchemeError::MalformedKey)
    } else if !commitments_match(tx.blinding_factor@, tx.client_public_nonce@, info) {
        Err(SchemeError::CommitmentMismatch)
    } else if !challenge_matches(challenge, info) {
        Err(SchemeError::ChallengeMismatch)
    } else {
        Ok(())
    }
}

/// Checks the published commitments against the blinding factor and the
/// owner's nonce of a backup transaction.
pub fn verify_commitments(backup_tx: &BackupTransaction, statechain_info: &StatechainInfo) -> (ok:
    bool)
    ensures
        ok == commitments_match(
            backup_tx.blinding_factor@,
            backup_tx.client_public_nonce@,
            statechain_info,
        ),
{
    let blind = hex_encode(sha256_digest(backup_tx.blinding_factor.as_slice()).as_slice());
    let r2 = hex_encode(sha256_digest(backup_tx.client_public_nonce.as_slice()).as_slice());
    statechain_info.blind_commitment == blind && statechain_info.r2_commitment == r2
}

/// Checks the co-signing of one backup transaction against what the
/// custodian published for it. `challenge` is the challenge of the blinded
/// session that is rebuilt from the transaction: the aggregate of the two
/// public keys with the taproot tweak, the aggregate of the two nonces, the
/// signature hash of the transaction, and the blinding factor. Any mismatch
/// means that the custodian equivocated or that the data was tampered with.
pub fn verify_blinded_musig_scheme(
    backup_tx: &BackupTransaction,
    statechain_info: &StatechainInfo,
    challenge: &Vec<u8>,
) -> (r: Result<(), SchemeError>)
    ensures
        r == scheme_verdict(backup_tx, statechain_info, challenge@),
{
    if backup_tx.client_public_nonce.len() != PUBLIC_NONCE_LEN
        || backup_tx.server_public_nonce.len() != PUBLIC_NONCE_LEN {
        return Err(SchemeError::MalformedNonce);
    }
    if backup_tx.client_public_key.len() != PUBLIC_KEY_LEN || backup_tx.server_public_key.len()
        != PUBLIC_KEY_LEN || backup_tx.blinding_factor.len() != SCALAR_LEN {
        return Err(SchemeError::MalformedKey);
    }
    if !verify_commitments(backup_tx, statechain_info) {
        return Err(SchemeError::CommitmentMismatch);
    }
    let challenge_hex = hex_encode(challenge.as_slice());
    if statechain_info.challenge != challenge_hex {
        return Err(SchemeError::ChallengeMismatch);
    }
    Ok(())
}

/// What was published at signing time for a blinding factor and a nonce is
/// what the verifier recomputes from them; a blinding factor, or a nonce,
/// with another digest does not pass.
pub proof fn lemma_commitment_binding(
    info: &StatechainInfo,
    blinding_factor: Seq<u8>,
    nonce: Seq<u8>,
    other_factor: Seq<u8>,
    other_nonce: Seq<u8>,
)
    requires
        info.blind_commitment@ == commitment(blinding_factor),
        info.r2_commitment@ == commitment(nonce),
    ensures
        commitments_match(blinding_factor, nonce, info),
        sha256(other_factor) != sha256(blinding_factor) ==> !commitments_match(
            other_factor,
            nonce,
            info,
        ),
        sha256(other_nonce) != sha256(nonce) ==> !commitments_match(
            blinding_factor,
            other_nonce,
            info,
        ),
{
    if commitments_match(other_factor, nonce, info) {
        lemma_hex_encoding_injective(sha256(other_factor), sha256(blinding_factor));
    }
    if commitments_match(blinding_factor, other_nonce, info) {
        lemma_hex_encoding_injective(sha256(other_nonce), sha256(nonce));
    }
}

/// A backup transaction whose blinding factor has another digest than the
/// one committed to is refused with `CommitmentMismatch`.
pub proof fn lemma_changed_factor_rejected(
    tx: &BackupTransaction,
    info: &StatechainInfo,
    committed_factor: Seq<u8>,
    challenge: Seq<u8>,
)
    requires
        nonces_well_formed(tx),
        keys_well_formed(tx),
        info.blind_commitment@ == commitment(committed_factor),
        sha256(tx.blinding_factor@) != sha256(committed_factor),
    ensures
        scheme_verdict(tx, info, challenge) == Err::<(), SchemeError>(
            SchemeError::CommitmentMismatch,
        ),
{
    if commitments_match(tx.blinding_factor@, tx.client_public_nonce@, info) {
        lemma_hex_encoding_injective(sha256(tx.blinding_factor@), sha256(committed_factor));
    }
}

/// One record of the custodian stands for one challenge: where a session
/// gives another challenge than the one that was published, as it does when
/// the custodian signed another message at the same depth, the check fails,
/// and it fails over the challenge where nothing else is wrong.
pub proof fn lemma_equivocation_detected(
    tx: &BackupTransaction,
    info: &StatechainInfo,
    published: Seq<u8>,
    other: Seq<u8>,
)
    requires
        info.challenge@ == hex_encoding(published),
        other != published,
    ensures
        scheme_verdict(tx, info, other) is Err,
        nonces_well_formed(tx) && keys_well_formed(tx) && commitments_match(
            tx.blinding_factor@,
            tx.client_public_nonce@,
            info,
        ) ==> scheme_verdict(tx, info, other) == Err::<(), SchemeError>(
            SchemeError::ChallengeMismatch,
        ),
{
    if challenge_matches(other, info) {
        lemma_hex_encoding_injective(other, published);
    }
}

/// Of two messages at one depth at most one verifies: where the sessions of
/// two backup transactions give different challenges, as they do for
/// different transactions, the two do not both pass against one record of
/// the custodian.
pub proof fn lemma_at_most_one_message_verifies(
    a: &BackupTransaction,
    b: &BackupTransaction,
    info: &StatechainInfo,
    challenge_a: Seq<u8>,
    challenge_b: Seq<u8>,
)
    requires
        challenge_a != challenge_b,
    ensures
        !(scheme_verdict(a, info, challenge_a) is Ok && scheme_verdict(b, info, challenge_b) is Ok),
{
    if challenge_matches(challenge_a, info) && challenge_matches(challenge_b, info) {
        lemma_hex_encoding_injective(challenge_a, challenge_b);
    }
}

} // verus!
