//! The signature of a backup transaction: the taproot key-spend signature
//! hash that is signed, and the check of the Schnorr signature in the witness.

use vstd::prelude::*;
use crate::bytes::bytes_eq;
use crate::tx::{Transaction, TransactionView, TxOutView};

verus! {

/// The taproot key-spend signature hash (BIP 341) of input 0 of the
/// transaction that `raw` serialises, where that transaction has one input,
/// which spends an output of the given amount and script, for the signature
/// hash type `sighash_type`; `None` where the `bitcoin` crate refuses the
/// bytes, the type or the number of inputs.
pub uninterp spec fn taproot_sighash(
    raw: Seq<u8>,
    prev_value: u64,
    prev_script: Seq<u8>,
    sighash_type: u8,
) -> Option<Seq<u8>>;

/// Whether `signature` is a valid BIP 340 signature of the 32-byte `message`
/// under the x-only public key `key`. False where one of the three is not
/// well formed.
pub uninterp spec fn schnorr_valid(signature: Seq<u8>, message: Seq<u8>, key: Seq<u8>) -> bool;

/// The bytes that stand for a taproot signature hash type.
pub open spec fn is_sighash_type(byte: u8) -> bool {
    byte == 0x00 || byte == 0x01 || byte == 0x02 || byte == 0x03 || byte == 0x81 || byte == 0x82
        || byte == 0x83
}

/// Reads the transaction, then calls
/// `SighashCache::taproot_key_spend_signature_hash` for input 0 with
/// `Prevouts::All` of the one previous output and the type that
/// `TapSighashType::from_consensus_u8` gives. The hash has 32 bytes, and
/// there is none for a byte that is no signature hash type.
#[verifier::external_body]
pub(crate) fn taproot_key_spend_sighash(
    raw: &[u8],
    prev_value: u64,
    prev_script: &[u8],
    sighash_type: u8,
) -> (hash: Option<Vec<u8>>)
    ensures
        match hash {
            Some(h) => taproot_sighash(raw@, prev_value, prev_script@, sighash_type) == Some(h@)
                && h@.len() == 32 && is_sighash_type(sighash_type),
            None => taproot_sighash(raw@, prev_value, prev_script@, sighash_type) is None,
        },
{
    let tx: bitcoin::Transaction = bitcoin::consensus::encode::deserialize(raw).ok()?;
    let ty = bitcoin::sighash::TapSighashType::from_consensus_u8(sighash_type).ok()?;
    let script_pubkey = bitcoin::ScriptBuf::from_bytes(prev_script.to_vec());
    let prevouts = [bitcoin::TxOut { value: prev_value, script_pubkey }];
    let mut cache = bitcoin::sighash::SighashCache::new(&tx);
    let hash = cache.taproot_key_spend_signature_hash(0, &bitcoin::sighash::Prevouts::All(&prevouts), ty).ok()?;
    let bytes: &[u8; 32] = hash.as_ref();
    Some(bytes.to_vec())
}

/// Parses the three values with `schnorr::Signature::from_slice`,
/// `Message::from_slice` and `XOnlyPublicKey::from_slice`, and calls
/// `Secp256k1::verify_schnorr`. A value that does not parse gives `false`:
/// so does a signature that is not 64 bytes long, a message that is not 32,
/// and a key that is not 32.
#[verifier::external_body]
pub(crate) fn schnorr_verify(signature: &[u8], message: &[u8], key: &[u8]) -> (valid: bool)
    ensures
        valid == schnorr_valid(signature@, message@, key@),
        valid ==> signature@.len() == 64 && message@.len() == 32 && key@.len() == 32,
{
    let sig = match secp256k1_zkp::schnorr::Signature::from_slice(signature) { Ok(s) => s, Err(_) => return false };
    let msg = match secp256k1_zkp::Message::from_slice(message) { Ok(m) => m, Err(_) => return false };
    let pk = match secp256k1_zkp::XOnlyPublicKey::from_slice(key) { Ok(k) => k, Err(_) => return false };
    secp256k1_zkp::Secp256k1::verification_only().verify_schnorr(&sig, &msg, &pk).is_ok()
}

/// The compressed serialisation, 33 bytes, of the public key that `text`
/// spells in hexadecimal (compressed or uncompressed); `None` where it
/// spells none.
pub uninterp spec fn parsed_public_key(text: Seq<char>) -> Option<Seq<u8>>;

/// Parses a public key with `PublicKey::from_str` and serialises it with
/// `PublicKey::serialize`, which gives the 33 bytes of the compressed form.
#[verifier::external_body]
pub(crate) fn parse_public_key(text: &str) -> (key: Option<Vec<u8>>)
    ensures
        match key {
            Some(k) => parsed_public_key(text@) == Some(k@) && k@.len() == 33,
            None => parsed_public_key(text@) is None,
        },
{
    let key = <secp256k1_zkp::PublicKey as core::str::FromStr>::from_str(text).ok()?;
    Some(key.serialize().to_vec())
}

/// Why no signature hash comes out for a transaction.
#[derive(Clone, Copy, Debug, PartialEq, Eq, Structural)]
pub enum SighashError {
    /// The transaction has no input.
    NoInput,
    /// The first input has no witness, or an empty first witness element.
    NoWitness,
    /// The funding transaction is not the one that the input refers to, or
    /// lacks the output that it refers to.
    WrongFunding,
    /// The signature hash type, or the transaction, is refused.
    Refused,
}

/// The first element of the witness of the first input: the signature,
/// followed by one byte for the signature hash type.
pub open spec fn witness_element(tx: TransactionView) -> Seq<u8> {
    tx.input[0].witness[0]
}

/// The output of `funding` that the first input of `tx` spends.
pub open spec fn spent_output(tx: TransactionView, funding: TransactionView) -> TxOutView {
    funding.output[tx.input[0].previous_output.1 as int]
}

/// The signature hash that the signature of `tx` is made over, where
/// `funding` is the transaction that `tx` spends from, or the reason why
/// there is none.
pub open spec fn sighash_of(tx: TransactionView, funding: TransactionView) -> Result<
    Seq<u8>,
    SighashError,
> {
    if tx.input.len() == 0 {
        Err(SighashError::NoInput)
    } else if tx.input[0].witness.len() == 0 || witness_element(tx).len() == 0 {
        Err(SighashError::NoWitness)
    } else if tx.input[0].previous_output.0 != funding.txid || tx.input[0].previous_output.1
        >= funding.output.len() {
        Err(SighashError::WrongFunding)
    } else {
        match taproot_sighash(
            tx.raw,
            spent_output(tx, funding).value,
            spent_output(tx, funding).script_pubkey,
            witness_element(tx).last(),
        ) {
            Some(hash) => Ok(hash),
            None => Err(SighashError::Refused),
        }
    }
}

/// Whether a script pays to a taproot output key: the version byte `0x51`,
/// the length byte `0x20`, and the 32 bytes of the key.
pub open spec fn is_taproot_script(script: Seq<u8>) -> bool {
    script.len() == 34 && script[0] == 0x51 && script[1] == 0x20
}

/// Whether the witness of `tx` holds a valid signature of its signature hash
/// under the taproot output key of the output that it spends: the signature
/// is the witness element without its last byte, the key is what follows the
/// two leading bytes of the script. An output whose script pays to no
/// taproot key is spent by no such signature.
pub open spec fn signature_verifies(tx: TransactionView, funding: TransactionView) -> bool {
    &&& sighash_of(tx, funding) is Ok
    &&& is_taproot_script(spent_output(tx, funding).script_pubkey)
    &&& schnorr_valid(
        witness_element(tx).drop_last(),
        sighash_of(tx, funding)->Ok_0,
        spent_output(tx, funding).script_pubkey.skip(2),
    )
}

/// The message that the signature of a backup transaction is made over: the
/// taproot key-spend signature hash of its single input, against the output
/// of `funding` that the input refers to, with the signature hash type that
/// the last byte of the witness element gives.
pub fn get_tx_hash(transaction: &Transaction, funding: &Transaction) -> (r: Result<
    Vec<u8>,
    SighashError,
>)
    ensures
        match sighash_of(transaction@, funding@) {
            Ok(hash) => r is Ok && r->Ok_0@ == hash,
            Err(e) => r == Err::<Vec<u8>, SighashError>(e),
        },
        r matches Ok(hash) ==> hash@.len() == 32 && is_sighash_type(
            witness_element(transaction@).last(),
        ),
{
    if transaction.input.len() == 0 {
        return Err(SighashError::NoInput);
    }
    let input = &transaction.input[0];
    assert(transaction@.input[0] == input@);
    if input.witness.len() == 0 {
        return Err(SighashError::NoWitness);
    }
    let element = &input.witness[0];
    assert(witness_element(transaction@) == element@);
    if element.len() == 0 {
        return Err(SighashError::NoWitness);
    }
    let vout = input.previous_output.vout as usize;
    if !bytes_eq(&input.previous_output.txid, &funding.txid) || vout >= funding.output.len() {
        return Err(SighashError::WrongFunding);
    }
    let spent = &funding.output[vout];
    assert(spent_output(transaction@, funding@) == spent@);
    let sighash_type = element[element.len() - 1];
    match taproot_key_spend_sighash(
        transaction.raw.as_slice(),
        spent.value,
        spent.script_pubkey.as_slice(),
        sighash_type,
    ) {
        Some(hash) => Ok(hash),
        None => Err(SighashError::Refused),
    }
}

/// The bytes of `v` from position `from` to position `to`.
fn slice_of(v: &Vec<u8>, from: usize, to: usize) -> (part: Vec<u8>)
    requires
        from <= to <= v@.len(),
    ensures
        part@ == v@.subrange(from as int, to as int),
{
    let mut part: Vec<u8> = Vec::new();
    let mut i: usize = from;
    while i < to
        invariant
            from <= i <= to <= v@.len(),
            part@ == v@.subrange(from as int, i as int),
        decreases to - i,
    {
        part.push(v[i]);
        assert(part@ =~= v@.subrange(from as int, i + 1));
        i = i + 1;
    }
    part
}

/// Whether a backup transaction is signed: its witness must hold a Schnorr
/// signature of its signature hash that is valid under the taproot output key
/// of the output that it spends. A transaction for which no signature hash
/// comes out, or which spends an output that pays to no taproot key, is
/// reported as not signed; so is one whose witness element is not a
/// signature of 64 bytes followed by the byte of a signature hash type.
pub fn verify_transaction_signature(transaction: &Transaction, funding: &Transaction) -> (valid:
    bool)
    ensures
        valid == signature_verifies(transaction@, funding@),
        valid ==> witness_element(transaction@).len() == 65 && is_sighash_type(
            witness_element(transaction@).last(),
        ),
{
    let hash = match get_tx_hash(transaction, funding) {
        Ok(hash) => hash,
        Err(_) => {
            return false;
        },
    };
    let input = &transaction.input[0];
    assert(transaction@.input[0] == input@);
    let element = &input.witness[0];
    assert(witness_element(transaction@) == element@);
    let spent = &funding.output[input.previous_output.vout as usize];
    assert(spent_output(transaction@, funding@) == spent@);
    if spent.script_pubkey.len() != 34 || spent.script_pubkey[0] != 0x51
        || spent.script_pubkey[1] != 0x20 {
        return false;
    }
    let signature = slice_of(element, 0, element.len() - 1);
    let key = slice_of(&spent.script_pubkey, 2, spent.script_pubkey.len());
    assert(signature@ =~= element@.drop_last());
    assert(key@ =~= spent.script_pubkey@.skip(2));
    schnorr_verify(signature.as_slice(), hash.as_slice(), key.as_slice())
}

} // verus!
