//! The handoff of a coin from its owner to a receiver: what the receiver
//! decrypts, reads and verifies before it takes the coin.

use vstd::prelude::*;
use vstd::utf8::{decode_utf8, valid_utf8};
use crate::chain::{
    chain_verdict,
    lemma_verdict_by_pairs,
    pair_error,
    validate_chain,
    BackupTransaction,
    ChainError,
};
use crate::cosign::{
    scheme_verdict,
    verify_blinded_musig_scheme,
    SchemeError,
    PUBLIC_NONCE_LEN,
    SCALAR_LEN,
};
use crate::bytes::bytes_eq;
use crate::coin::{
    incoming_views,
    receive_outcome,
    CoinError,
    CoinStore,
    CoinView,
    IncomingCoin,
    IncomingView,
};
use crate::hexcode::{hex_decode, hex_decoding};
use crate::payload::{StatechainInfo, StatechainInfoResponsePayload};
use crate::signature::{
    parse_public_key,
    parsed_public_key,
    signature_verifies,
    verify_transaction_signature,
};
use crate::tx::{decoded_transaction, taproot_script, taproot_script_of_key, Transaction};

verus! {

/// A backup transaction as it travels: every value as text.
#[derive(Debug)]
pub struct SerializedBackupTransaction {
    pub tx_n: u32,
    /// Consensus serialisation of the transaction, in hexadecimal.
    pub tx: String,
    pub client_public_nonce: String,
    pub server_public_nonce: String,
    pub client_public_key: String,
    pub server_public_key: String,
    pub blinding_factor: String,
}

/// What the sender hands to the receiver, encrypted to the receiver's
/// authentication key.
#[derive(Debug)]
pub struct TransferMsg {
    pub statechain_id: String,
    /// The sender's signature that authorises this handoff.
    pub transfer_signature: String,
    pub backup_transactions: Vec<SerializedBackupTransaction>,
    /// The secret that passes to the new owner, 32 bytes.
    pub t1: Vec<u8>,
}

/// Why a backup transaction that came as text cannot be read.
#[derive(Clone, Copy, Debug, PartialEq, Eq, Structural)]
pub enum ParseError {
    /// The transaction is not hexadecimal, or no transaction.
    MalformedTransaction,
    /// A nonce is not hexadecimal, or not 66 bytes long.
    MalformedNonce,
    /// A public key does not parse.
    MalformedKey,
    /// The blinding factor is not hexadecimal, or not 32 bytes long.
    MalformedBlindingFactor,
}

/// Why a transfer is rejected.
#[derive(Clone, Copy, Debug, PartialEq, Eq, Structural)]
pub enum TransferError {
    /// The encrypted message is not hexadecimal.
    MalformedCiphertext,
    /// The message does not decrypt under the authentication key.
    DecryptionFailed,
    /// The decrypted message is not text.
    MalformedPlaintext,
    /// The transfer brings no backup transaction.
    EmptyChain,
    /// A backup transaction cannot be read.
    Parse(ParseError),
    /// The receiver's key is no public key.
    MalformedReceiverKey,
    /// The last backup transaction does not pay to the receiver's key.
    NotPaidToReceiver,
    /// The funding output is spent.
    FundingSpent,
    /// The custodian has not made as many signatures as the chain is long,
    /// or what was gathered for the links does not go with the chain.
    SignatureCountMismatch,
    /// The chain of backup transactions is out of order.
    Chain(ChainError),
    /// A backup transaction is not validly signed.
    InvalidSignature,
    /// The co-signing of a backup transaction does not check out.
    Scheme(SchemeError),
    /// The receiver's store does not take the coin.
    Store(CoinError),
}

/// The bytes that a piece of text spells in hexadecimal, where they are
/// `len` in number.
pub open spec fn hex_of_len(text: Seq<char>, len: int) -> Option<Seq<u8>> {
    match hex_decoding(text) {
        Some(bytes) => if bytes.len() == len {
            Some(bytes)
        } else {
            None
        },
        None => None,
    }
}

/// The transaction that a piece of text spells in hexadecimal.
pub open spec fn transaction_of_text(text: Seq<char>) -> Option<crate::tx::TransactionView> {
    match hex_decoding(text) {
        Some(raw) => decoded_transaction(raw),
        None => None,
    }
}

/// What stops a backup transaction from being read, if anything. The
/// transaction is looked at first, then the owner's and the custodian's
/// nonce, then their keys, then the blinding factor.
pub open spec fn parse_error(s: &SerializedBackupTransaction) -> Option<ParseError> {
    if transaction_of_text(s.tx@) is None {
        Some(ParseError::MalformedTransaction)
    } else if hex_of_len(s.client_public_nonce@, PUBLIC_NONCE_LEN as int) is None || hex_of_len(
        s.server_public_nonce@,
        PUBLIC_NONCE_LEN as int,
    ) is None {
        Some(ParseError::MalformedNonce)
    } else if parsed_public_key(s.client_public_key@) is None || parsed_public_key(
        s.server_public_key@,
    ) is None {
        Some(ParseError::MalformedKey)
    } else if hex_of_len(s.blinding_factor@, SCALAR_LEN as int) is None {
        Some(ParseError::MalformedBlindingFactor)
    } else {
        None
    }
}

/// The backup transaction `b` holds what the text `s` spells. The statechain
/// and the recipient's address do not travel with it, and are empty.
pub open spec fn reads_as(s: &SerializedBackupTransaction, b: &BackupTransaction) -> bool {
    &&& b.tx_n == s.tx_n
    &&& Some(b.tx@) == transaction_of_text(s.tx@)
    &&& Some(b.client_public_nonce@) == hex_of_len(s.client_public_nonce@, PUBLIC_NONCE_LEN as int)
    &&& Some(b.server_public_nonce@) == hex_of_len(s.server_public_nonce@, PUBLIC_NONCE_LEN as int)
    &&& Some(b.client_public_key@) == parsed_public_key(s.client_public_key@)
    &&& Some(b.server_public_key@) == parsed_public_key(s.server_public_key@)
    &&& Some(b.blinding_factor@) == hex_of_len(s.blinding_factor@, SCALAR_LEN as int)
    &&& b.statechain_id@ == Seq::<char>::empty()
    &&& b.recipient_address@ == Seq::<char>::empty()
}

/// Reads hexadecimal text of a given number of bytes.
fn decode_hex_of_len(text: &str, len: usize) -> (bytes: Option<Vec<u8>>)
    ensures
        match bytes {
            Some(b) => hex_of_len(text@, len as int) == Some(b@),
            None => hex_of_len(text@, len as int) is None,
        },
{
    match hex_decode(text) {
        Some(bytes) => if bytes.len() == len {
            Some(bytes)
        } else {
            None
        },
        None => None,
    }
}

impl SerializedBackupTransaction {
    /// Reads a backup transaction that came as text.
    pub fn deserialize(&self) -> (r: Result<BackupTransaction, ParseError>)
        ensures
            match parse_error(self) {
                Some(e) => r == Err::<BackupTransaction, ParseError>(e),
                None => r is Ok && reads_as(self, &r->Ok_0),
            },
    {
        let raw = match hex_decode(self.tx.as_str()) {
            Some(raw) => raw,
            None => {
                return Err(ParseError::MalformedTransaction);
            },
        };
        let tx = match Transaction::decode(&raw) {
            Some(tx) => tx,
            None => {
                return Err(ParseError::MalformedTransaction);
            },
        };
        let client_public_nonce = match decode_hex_of_len(
            self.client_public_nonce.as_str(),
            PUBLIC_NONCE_LEN,
        ) {
            Some(nonce) => nonce,
            None => {
                return Err(ParseError::MalformedNonce);
            },
        };
        let server_public_nonce = match decode_hex_of_len(
            self.server_public_nonce.as_str(),
            PUBLIC_NONCE_LEN,
        ) {
            Some(nonce) => nonce,
            None => {
                return Err(ParseError::MalformedNonce);
            },
        };
        let client_public_key = match parse_public_key(self.client_public_key.as_str()) {
            Some(key) => key,
            None => {
                return Err(ParseError::MalformedKey);
            },
        };
        let server_public_key = match parse_public_key(self.server_public_key.as_str()) {
            Some(key) => key,
            None => {
                return Err(ParseError::MalformedKey);
            },
        };
        let blinding_factor = match decode_hex_of_len(self.blinding_factor.as_str(), SCALAR_LEN) {
            Some(factor) => factor,
            None => {
                return Err(ParseError::MalformedBlindingFactor);
            },
        };
        Ok(
            BackupTransaction {
                statechain_id: String::new(),
                tx_n: self.tx_n,
                tx,
                client_public_nonce,
                server_public_nonce,
                client_public_key,
                server_public_key,
                blinding_factor,
                recipient_address: String::new(),
            },
        )
    }
}

/// The first reading error among the backup transactions from position
/// `from` on, if any.
pub open spec fn first_parse_error(items: Seq<SerializedBackupTransaction>, from: int) -> Option<
    ParseError,
>
    decreases items.len() - from,
{
    if from < 0 || from >= items.len() {
        None
    } else {
        match parse_error(&items[from]) {
            Some(e) => Some(e),
            None => first_parse_error(items, from + 1),
        }
    }
}

/// The chain holds, link by link, what the backup transactions that came as
/// text spell.
pub open spec fn chain_reads_as(
    items: Seq<SerializedBackupTransaction>,
    chain: Seq<BackupTransaction>,
) -> bool {
    &&& chain.len() == items.len()
    &&& forall|i: int| 0 <= i < chain.len() ==> reads_as(&items[i], #[trigger] &chain[i])
}

/// Reads the chain of backup transactions of a transfer: all of them, or the
/// error of the first that cannot be read.
#[verifier::loop_isolation(false)]
pub fn deserialize_chain(transfer_msg: &TransferMsg) -> (r: Result<
    Vec<BackupTransaction>,
    ParseError,
>)
    ensures
        match first_parse_error(transfer_msg.backup_transactions@, 0) {
            Some(e) => r == Err::<Vec<BackupTransaction>, ParseError>(e),
            None => r is Ok && chain_reads_as(transfer_msg.backup_transactions@, r->Ok_0@),
        },
{
    let items = &transfer_msg.backup_transactions;
    let mut chain: Vec<BackupTransaction> = Vec::new();
    let mut i: usize = 0;
    while i < items.len()
        invariant
            i <= items@.len(),
            chain@.len() == i,
            first_parse_error(items@, 0) == first_parse_error(items@, i as int),
            forall|j: int| 0 <= j < i ==> reads_as(&items@[j], #[trigger] &chain@[j]),
        decreases items@.len() - i,
    {
        assert(first_parse_error(items@, i as int) == match parse_error(&items@[i as int]) {
            Some(e) => Some(e),
            None => first_parse_error(items@, i + 1),
        });
        match items[i].deserialize() {
            Ok(link) => {
                chain.push(link);
            },
            Err(e) => {
                return Err(e);
            },
        }
        i = i + 1;
    }
    Ok(chain)
}

/// Calls `ecies::decrypt` with the receiver's secret key. What comes out
/// depends on the process-wide configuration of that crate as well, so
/// nothing is said of it here.
#[verifier::external_body]
pub(crate) fn ecies_decrypt(secret_key: &[u8], ciphertext: &[u8]) -> (plain: Option<Vec<u8>>) {
    ecies::decrypt(secret_key, ciphertext).ok()
}

/// Calls `String::from_utf8`: the text that the bytes encode, where they are
/// well-formed UTF-8.
#[verifier::external_body]
pub(crate) fn string_from_utf8(bytes: Vec<u8>) -> (text: Option<String>)
    ensures
        match text {
            Some(t) => valid_utf8(bytes@) && t@ == decode_utf8(bytes@),
            None => !valid_utf8(bytes@),
        },
{
    String::from_utf8(bytes).ok()
}

/// The text of a decrypted message: the decrypted bytes as UTF-8.
pub fn plaintext_of(decrypted: Option<Vec<u8>>) -> (r: Result<String, TransferError>)
    ensures
        match decrypted {
            None => r == Err::<String, TransferError>(TransferError::DecryptionFailed),
            Some(bytes) => if valid_utf8(bytes@) {
                r is Ok && r->Ok_0@ == decode_utf8(bytes@)
            } else {
                r == Err::<String, TransferError>(TransferError::MalformedPlaintext)
            },
        },
{
    match decrypted {
        None => Err(TransferError::DecryptionFailed),
        Some(bytes) => match string_from_utf8(bytes) {
            Some(text) => Ok(text),
            None => Err(TransferError::MalformedPlaintext),
        },
    }
}

/// Opens one encrypted message that was left for the receiver: the message
/// is hexadecimal, encrypted to the receiver's authentication key, and holds
/// text. Whether it decrypts is for the cipher to say; a message that is not
/// hexadecimal is never handed to it.
pub fn process_encrypted_message(auth_key: &Vec<u8>, enc_message: &str) -> (r: Result<
    String,
    TransferError,
>)
    ensures
        hex_decoding(enc_message@) is None ==> r == Err::<String, TransferError>(
            TransferError::MalformedCiphertext,
        ),
        hex_decoding(enc_message@) is Some ==> r is Ok || r == Err::<String, TransferError>(
            TransferError::DecryptionFailed,
        ) || r == Err::<String, TransferError>(TransferError::MalformedPlaintext),
{
    let ciphertext = match hex_decode(enc_message) {
        Some(ciphertext) => ciphertext,
        None => {
            return Err(TransferError::MalformedCiphertext);
        },
    };
    plaintext_of(ecies_decrypt(auth_key.as_slice(), ciphertext.as_slice()))
}

/// Whether the chain ends at the receiver: its last backup transaction has
/// one output, which pays to the taproot key derived from `receiver_key`,
/// the aggregate of the receiver's key share and the custodian's.
pub open spec fn receiver_verdict(chain: Seq<BackupTransaction>, receiver_key: Seq<u8>) -> Result<
    (),
    TransferError,
> {
    if chain.len() == 0 {
        Err(TransferError::EmptyChain)
    } else {
        match taproot_script(receiver_key) {
            None => Err(TransferError::MalformedReceiverKey),
            Some(script) => if chain.last().tx.output@.len() == 1
                && chain.last().tx.output@[0].script_pubkey@ == script {
                Ok(())
            } else {
                Err(TransferError::NotPaidToReceiver)
            },
        }
    }
}

/// Checks that the last backup transaction of a chain pays to the receiver:
/// its one output must pay to the taproot output key that is derived, with
/// no script tree, from `aggregate_pubkey`. That key is the key under
/// which the receiver will hold the coin: the aggregate of the receiver's
/// key share and the custodian's.
pub fn verify_latest_backup_tx_pays_to_user_pubkey(
    chain: &Vec<BackupTransaction>,
    aggregate_pubkey: &Vec<u8>,
) -> (r: Result<(), TransferError>)
    ensures
        r == receiver_verdict(chain@, aggregate_pubkey@),
{
    if chain.len() == 0 {
        return Err(TransferError::EmptyChain);
    }
    let script = match taproot_script_of_key(aggregate_pubkey.as_slice()) {
        Some(script) => script,
        None => {
            return Err(TransferError::MalformedReceiverKey);
        },
    };
    let last = &chain[chain.len() - 1];
    if last.tx.output.len() == 1 && bytes_eq(&last.tx.output[0].script_pubkey, &script) {
        Ok(())
    } else {
        Err(TransferError::NotPaidToReceiver)
    }
}

/// The transaction that the link at `i` spends from: the funding transaction
/// for the first link, else the link before.
pub open spec fn spent_by(chain: Seq<BackupTransaction>, funding: Transaction, i: int) -> Transaction {
    if i == 0 {
        funding
    } else {
        chain[i - 1].tx
    }
}

/// The verdict on the link at `i`: it must be validly signed, and its
/// co-signing must check out against the custodian's record and the
/// challenge of its session.
pub open spec fn link_verdict(
    chain: Seq<BackupTransaction>,
    funding: Transaction,
    infos: Seq<StatechainInfo>,
    challenges: Seq<Vec<u8>>,
    i: int,
) -> Result<(), TransferError> {
    if !signature_verifies(chain[i].tx@, spent_by(chain, funding, i)@) {
        Err(TransferError::InvalidSignature)
    } else {
        match scheme_verdict(&chain[i], &infos[i], challenges[i]@) {
            Err(e) => Err(TransferError::Scheme(e)),
            Ok(()) => Ok(()),
        }
    }
}

/// The verdict on the links from position `from` on: the first failure, or
/// success where every link passes.
pub open spec fn links_verdict(
    chain: Seq<BackupTransaction>,
    funding: Transaction,
    infos: Seq<StatechainInfo>,
    challenges: Seq<Vec<u8>>,
    from: int,
) -> Result<(), TransferError>
    decreases chain.len() - from,
{
    if from < 0 || from >= chain.len() {
        Ok(())
    } else {
        match link_verdict(chain, funding, infos, challenges, from) {
            Err(e) => Err(e),
            Ok(()) => links_verdict(chain, funding, infos, challenges, from + 1),
        }
    }
}

/// Every transaction of the chain, and the funding transaction, holds the
/// values that its bytes serialise.
pub open spec fn all_decoded(chain: Seq<BackupTransaction>, funding: Transaction) -> bool {
    &&& funding.is_decoded()
    &&& forall|i: int| 0 <= i < chain.len() ==> (#[trigger] chain[i]).tx.is_decoded()
}

/// The verdict on a transfer. Every transaction must hold the values that
/// its bytes serialise, since the chain rules read the values and the
/// signatures cover the bytes. The chain must end at the receiver; the
/// funding output must be unspent; the custodian must have made as many
/// signatures as the chain is long, and a record and a challenge must be at
/// hand for every link; the chain must be in order; and every link must be
/// signed and co-signed as published. The first of these that fails decides.
pub open spec fn transfer_verdict(
    chain: Seq<BackupTransaction>,
    receiver_key: Seq<u8>,
    funding: Transaction,
    funding_unspent: bool,
    info: &StatechainInfoResponsePayload,
    challenges: Seq<Vec<u8>>,
    interval: u32,
) -> Result<(), TransferError> {
    if !all_decoded(chain, funding) {
        Err(TransferError::Parse(ParseError::MalformedTransaction))
    } else if receiver_verdict(chain, receiver_key) is Err {
        receiver_verdict(chain, receiver_key)
    } else if !funding_unspent {
        Err(TransferError::FundingSpent)
    } else if info.num_sigs != chain.len() || info.statechain_info@.len() != chain.len()
        || challenges.len() != chain.len() {
        Err(TransferError::SignatureCountMismatch)
    } else if chain_verdict(chain, interval) is Err {
        Err(TransferError::Chain(chain_verdict(chain, interval)->Err_0))
    } else {
        links_verdict(chain, funding, info.statechain_info@, challenges, 0)
    }
}

/// Two links hold the same values.
pub open spec fn same_link(a: &BackupTransaction, b: &BackupTransaction) -> bool {
    &&& a.tx_n == b.tx_n
    &&& a.tx@ == b.tx@
    &&& a.client_public_nonce@ == b.client_public_nonce@
    &&& a.server_public_nonce@ == b.server_public_nonce@
    &&& a.client_public_key@ == b.client_public_key@
    &&& a.server_public_key@ == b.server_public_key@
    &&& a.blinding_factor@ == b.blinding_factor@
}

/// Two chains hold the same values, link by link.
pub open spec fn same_links(a: Seq<BackupTransaction>, b: Seq<BackupTransaction>) -> bool {
    &&& a.len() == b.len()
    &&& forall|i: int| 0 <= i < a.len() ==> same_link(#[trigger] &a[i], &b[i])
}

/// Two readings of the same backup transactions hold the same values.
pub proof fn lemma_one_reading(
    items: Seq<SerializedBackupTransaction>,
    a: Seq<BackupTransaction>,
    b: Seq<BackupTransaction>,
)
    requires
        chain_reads_as(items, a),
        chain_reads_as(items, b),
    ensures
        same_links(a, b),
{
    assert forall|i: int| 0 <= i < a.len() implies same_link(#[trigger] &a[i], &b[i]) by {
        assert(reads_as(&items[i], &a[i]));
        assert(reads_as(&items[i], &b[i]));
    }
}

/// What a transaction shows of its inputs and outputs is what its values
/// hold.
pub proof fn lemma_fields_by_values(a: &Transaction, b: &Transaction)
    requires
        a@ == b@,
    ensures
        a.raw@ == b.raw@,
        a.txid@ == b.txid@,
        a.lock_time == b.lock_time,
        a.is_decoded() == b.is_decoded(),
        a.input@.len() == b.input@.len(),
        a.output@.len() == b.output@.len(),
        forall|k: int| 0 <= k < a.input@.len() ==> (#[trigger] a.input@[k])@ == b.input@[k]@,
        forall|k: int| 0 <= k < a.output@.len() ==> (#[trigger] a.output@[k])@ == b.output@[k]@,
{
    assert(a@.input.len() == a.input@.len());
    assert(b@.input.len() == b.input@.len());
    assert(a@.output.len() == a.output@.len());
    assert(b@.output.len() == b.output@.len());
    assert forall|k: int| 0 <= k < a.input@.len() implies (#[trigger] a.input@[k])@
        == b.input@[k]@ by {
        assert(a@.input[k] == a.input@[k]@);
        assert(b@.input[k] == b.input@[k]@);
    }
    assert forall|k: int| 0 <= k < a.output@.len() implies (#[trigger] a.output@[k])@
        == b.output@[k]@ by {
        assert(a@.output[k] == a.output@[k]@);
        assert(b@.output[k] == b.output@[k]@);
    }
}

/// Chains that hold the same values get the same verdicts on their links.
pub proof fn lemma_links_verdict_by_values(
    a: Seq<BackupTransaction>,
    b: Seq<BackupTransaction>,
    funding: Transaction,
    infos: Seq<StatechainInfo>,
    challenges: Seq<Vec<u8>>,
    from: int,
)
    requires
        same_links(a, b),
    ensures
        links_verdict(a, funding, infos, challenges, from) == links_verdict(
            b,
            funding,
            infos,
            challenges,
            from,
        ),
    decreases a.len() - from,
{
    if 0 <= from < a.len() {
        assert(same_link(&a[from], &b[from]));
        if from > 0 {
            assert(same_link(&a[from - 1], &b[from - 1]));
        }
        assert(link_verdict(a, funding, infos, challenges, from) == link_verdict(
            b,
            funding,
            infos,
            challenges,
            from,
        ));
        lemma_links_verdict_by_values(a, b, funding, infos, challenges, from + 1);
    }
}

/// The verdict on a transfer depends on the values that the chain holds and
/// on nothing else of it: chains that hold the same values, such as two
/// readings of one message, get the same verdict.
pub proof fn lemma_verdict_by_values(
    a: Seq<BackupTransaction>,
    b: Seq<BackupTransaction>,
    receiver_key: Seq<u8>,
    funding: Transaction,
    funding_unspent: bool,
    info: &StatechainInfoResponsePayload,
    challenges: Seq<Vec<u8>>,
    interval: u32,
)
    requires
        same_links(a, b),
    ensures
        transfer_verdict(a, receiver_key, funding, funding_unspent, info, challenges, interval)
            == transfer_verdict(
            b,
            receiver_key,
            funding,
            funding_unspent,
            info,
            challenges,
            interval,
        ),
{
    assert forall|i: int| 0 <= i < a.len() implies (#[trigger] a[i]).tx.is_decoded()
        == b[i].tx.is_decoded() by {
        assert(same_link(&a[i], &b[i]));
        lemma_fields_by_values(&a[i].tx, &b[i].tx);
    }
    assert(all_decoded(a, funding) == all_decoded(b, funding)) by {
        if all_decoded(a, funding) {
            assert forall|i: int| 0 <= i < b.len() implies (#[trigger] b[i]).tx.is_decoded() by {
                assert(a[i].tx.is_decoded());
            }
        }
        if all_decoded(b, funding) {
            assert forall|i: int| 0 <= i < a.len() implies (#[trigger] a[i]).tx.is_decoded() by {
                assert(b[i].tx.is_decoded());
            }
        }
    }
    if a.len() > 0 {
        assert(same_link(&a[a.len() - 1], &b[b.len() - 1]));
        lemma_fields_by_values(&a.last().tx, &b.last().tx);
    }
    assert(receiver_verdict(a, receiver_key) == receiver_verdict(b, receiver_key));
    assert forall|i: int| 0 <= i < a.len() - 1 implies (#[trigger] pair_error(a, i, interval))
        == pair_error(b, i, interval) by {
        assert(same_link(&a[i], &b[i]));
        assert(same_link(&a[i + 1], &b[i + 1]));
        lemma_fields_by_values(&a[i].tx, &b[i].tx);
        lemma_fields_by_values(&a[i + 1].tx, &b[i + 1].tx);
    }
    lemma_verdict_by_pairs(a, b, interval);
    lemma_links_verdict_by_values(a, b, funding, info.statechain_info@, challenges, 0);
}

/// Where nothing before the chain rules rejects a transfer, the chain rules
/// decide: a chain that is out of order is rejected with its error, be it a
/// broken link, a wrong lock time step or a sequence number out of order,
/// and a chain that is in order is not rejected over the chain.
pub proof fn lemma_chain_rules_decide(
    chain: Seq<BackupTransaction>,
    receiver_key: Seq<u8>,
    funding: Transaction,
    info: &StatechainInfoResponsePayload,
    challenges: Seq<Vec<u8>>,
    interval: u32,
)
    requires
        all_decoded(chain, funding),
        receiver_verdict(chain, receiver_key) is Ok,
        info.num_sigs == chain.len(),
        info.statechain_info@.len() == chain.len(),
        challenges.len() == chain.len(),
    ensures
        ({
            let verdict = transfer_verdict(
                chain,
                receiver_key,
                funding,
                true,
                info,
                challenges,
                interval,
            );
            &&& chain_verdict(chain, interval) matches Err(e) ==> verdict == Err::<
                (),
                TransferError,
            >(TransferError::Chain(e))
            &&& chain_verdict(chain, interval) is Ok ==> !(verdict matches Err(
                TransferError::Chain(_),
            )) && verdict == links_verdict(chain, funding, info.statechain_info@, challenges, 0)
        }),
{
    lemma_links_never_fail_over_the_chain(chain, funding, info.statechain_info@, challenges, 0);
}

/// The checks of the links fail over a signature or over the co-signing
/// scheme, and over nothing else.
pub proof fn lemma_links_never_fail_over_the_chain(
    chain: Seq<BackupTransaction>,
    funding: Transaction,
    infos: Seq<StatechainInfo>,
    challenges: Seq<Vec<u8>>,
    from: int,
)
    ensures
        match links_verdict(chain, funding, infos, challenges, from) {
            Ok(()) => true,
            Err(TransferError::InvalidSignature) => true,
            Err(TransferError::Scheme(_)) => true,
            Err(_) => false,
        },
    decreases chain.len() - from,
{
    if 0 <= from < chain.len() {
        lemma_links_never_fail_over_the_chain(chain, funding, infos, challenges, from + 1);
    }
}

/// A transfer that is rejected changes nothing, and a transfer is taken only
/// if it was verified.
pub proof fn lemma_rejected_transfer_changes_nothing(
    coins: Seq<CoinView>,
    verdict: Result<(), TransferError>,
    id: Seq<char>,
    user_pubkey: Seq<u8>,
    address: Seq<char>,
    incoming: Seq<IncomingView>,
    r: Result<bool, TransferError>,
    after: Seq<CoinView>,
)
    requires
        received_as(
            coins,
            receive_result(coins, verdict, id, user_pubkey, address, incoming),
            r,
            after,
        ),
    ensures
        verdict matches Err(e) ==> r == Err::<bool, TransferError>(e) && after == coins,
        r is Err ==> after == coins,
        r is Ok ==> verdict is Ok,
        r == Ok::<bool, TransferError>(true) ==> after.len() == coins.len() + incoming.len(),
{
}

/// Verifies a transfer before the receiver takes the coin.
/// `aggregate_pubkey` is the key under which the receiver will hold the
/// coin, the aggregate of its key share and the custodian's. `funding` is the
/// transaction that the first backup transaction spends from, as the
/// block-chain query service gave it, and `funding_unspent` what that
/// service says of its output; `statechain_info` is the custodian's record
/// of its signatures; `challenges` holds, for each link, the challenge of
/// the blinded session rebuilt from that link. Nothing is accepted in part:
/// the first failure rejects the transfer.
#[verifier::loop_isolation(false)]
pub fn verify_transfer(
    chain: &Vec<BackupTransaction>,
    aggregate_pubkey: &Vec<u8>,
    funding: &Transaction,
    funding_unspent: bool,
    statechain_info: &StatechainInfoResponsePayload,
    challenges: &Vec<Vec<u8>>,
    interval: u32,
) -> (r: Result<(), TransferError>)
    ensures
        r == transfer_verdict(
            chain@,
            aggregate_pubkey@,
            *funding,
            funding_unspent,
            statechain_info,
            challenges@,
            interval,
        ),
{
    if !funding.check_decoded() {
        return Err(TransferError::Parse(ParseError::MalformedTransaction));
    }
    let mut k: usize = 0;
    while k < chain.len()
        invariant
            k <= chain@.len(),
            forall|j: int| 0 <= j < k ==> (#[trigger] chain@[j]).tx.is_decoded(),
        decreases chain@.len() - k,
    {
        if !chain[k].tx.check_decoded() {
            return Err(TransferError::Parse(ParseError::MalformedTransaction));
        }
        k = k + 1;
    }
    match verify_latest_backup_tx_pays_to_user_pubkey(chain, aggregate_pubkey) {
        Ok(()) => {},
        Err(e) => {
            return Err(e);
        },
    }
    if !funding_unspent {
        return Err(TransferError::FundingSpent);
    }
    if statechain_info.num_sigs as u64 != chain.len() as u64 || statechain_info.statechain_info.len()
        != chain.len() || challenges.len() != chain.len() {
        return Err(TransferError::SignatureCountMismatch);
    }
    match validate_chain(chain, interval) {
        Ok(()) => {},
        Err(e) => {
            return Err(TransferError::Chain(e));
        },
    }
    let mut i: usize = 0;
    while i < chain.len()
        invariant
            i <= chain@.len(),
            statechain_info.statechain_info@.len() == chain@.len(),
            challenges@.len() == chain@.len(),
            links_verdict(chain@, *funding, statechain_info.statechain_info@, challenges@, 0)
                == links_verdict(
                chain@,
                *funding,
                statechain_info.statechain_info@,
                challenges@,
                i as int,
            ),
        decreases chain@.len() - i,
    {
        assert(links_verdict(
            chain@,
            *funding,
            statechain_info.statechain_info@,
            challenges@,
            i as int,
        ) == match link_verdict(
            chain@,
            *funding,
            statechain_info.statechain_info@,
            challenges@,
            i as int,
        ) {
            Err(e) => Err(e),
            Ok(()) => links_verdict(
                chain@,
                *funding,
                statechain_info.statechain_info@,
                challenges@,
                i + 1,
            ),
        });
        let signed = if i == 0 {
            verify_transaction_signature(&chain[i].tx, funding)
        } else {
            verify_transaction_signature(&chain[i].tx, &chain[i - 1].tx)
        };
        if !signed {
            return Err(TransferError::InvalidSignature);
        }
        match verify_blinded_musig_scheme(
            &chain[i],
            &statechain_info.statechain_info[i],
            &challenges[i],
        ) {
            Ok(()) => {},
            Err(e) => {
                return Err(TransferError::Scheme(e));
            },
        }
        i = i + 1;
    }
    Ok(())
}

/// Where the receiving of a statechain stands.
#[derive(Clone, Copy, Debug, PartialEq, Eq, Structural)]
pub enum ReceiverState {
    /// Waiting for a message.
    Awaiting,
    /// A transfer was verified in full.
    ReceivedVerified,
    /// The coin is in the receiver's store.
    Owned,
    /// A verification failed; the transfer is not taken.
    Rejected,
}

/// What happened on the receiver's side.
#[derive(Clone, Copy, Debug, PartialEq, Eq, Structural)]
pub enum ReceiverEvent {
    /// The verification of a transfer ended, well or not.
    Verified { passed: bool },
    /// The coin was put into the store.
    Registered,
}

/// Where the sending of a statechain stands.
#[derive(Clone, Copy, Debug, PartialEq, Eq, Structural)]
pub enum SenderState {
    /// The coin is the sender's.
    Owned,
    /// The sender asked the custodian to co-sign the handoff.
    SendRequested,
    /// The transfer message is left for the receiver.
    InTransfer,
}

/// What happened on the sender's side.
#[derive(Clone, Copy, Debug, PartialEq, Eq, Structural)]
pub enum SenderEvent {
    /// The sender asks for a transfer.
    Request,
    /// The message was left for the receiver.
    Delivered,
    /// The transfer failed.
    Failed,
}

/// The receiver's next state: a verified transfer is taken into the store,
/// a failed verification rejects it, and nothing leads out of `Owned` or
/// `Rejected`.
pub open spec fn receiver_next(state: ReceiverState, event: ReceiverEvent) -> ReceiverState {
    match (state, event) {
        (ReceiverState::Awaiting, ReceiverEvent::Verified { passed }) => if passed {
            ReceiverState::ReceivedVerified
        } else {
            ReceiverState::Rejected
        },
        (ReceiverState::ReceivedVerified, ReceiverEvent::Registered) => ReceiverState::Owned,
        _ => state,
    }
}

/// The sender's next state: a request is followed by the delivery of the
/// message; a transfer that fails leaves the coin with the sender.
pub open spec fn sender_next(state: SenderState, event: SenderEvent) -> SenderState {
    match (state, event) {
        (SenderState::Owned, SenderEvent::Request) => SenderState::SendRequested,
        (SenderState::SendRequested, SenderEvent::Delivered) => SenderState::InTransfer,
        (_, SenderEvent::Failed) => SenderState::Owned,
        _ => state,
    }
}

/// Moves the receiver's side on by one event.
pub fn receiver_step(state: ReceiverState, event: ReceiverEvent) -> (next: ReceiverState)
    ensures
        next == receiver_next(state, event),
{
    match (state, event) {
        (ReceiverState::Awaiting, ReceiverEvent::Verified { passed }) => if passed {
            ReceiverState::ReceivedVerified
        } else {
            ReceiverState::Rejected
        },
        (ReceiverState::ReceivedVerified, ReceiverEvent::Registered) => ReceiverState::Owned,
        _ => state,
    }
}

/// Moves the sender's side on by one event.
pub fn sender_step(state: SenderState, event: SenderEvent) -> (next: SenderState)
    ensures
        next == sender_next(state, event),
{
    match (state, event) {
        (SenderState::Owned, SenderEvent::Request) => SenderState::SendRequested,
        (SenderState::SendRequested, SenderEvent::Delivered) => SenderState::InTransfer,
        (_, SenderEvent::Failed) => SenderState::Owned,
        _ => state,
    }
}

/// The receiver's state after a run of events.
pub open spec fn receiver_run(state: ReceiverState, events: Seq<ReceiverEvent>) -> ReceiverState
    decreases events.len(),
{
    if events.len() == 0 {
        state
    } else {
        receiver_next(receiver_run(state, events.drop_last()), events.last())
    }
}

/// A receiver that starts out waiting owns the coin only after a
/// verification that passed, and a rejected transfer is never owned.
pub proof fn lemma_owned_only_after_verification(events: Seq<ReceiverEvent>)
    ensures
        receiver_run(ReceiverState::Awaiting, events) == ReceiverState::Owned ==> exists|i: int|
            0 <= i < events.len() && events[i] == (ReceiverEvent::Verified { passed: true }),
        receiver_run(ReceiverState::Awaiting, events) == ReceiverState::ReceivedVerified
            ==> exists|i: int|
            0 <= i < events.len() && events[i] == (ReceiverEvent::Verified { passed: true }),
        receiver_run(ReceiverState::Awaiting, events) == ReceiverState::Rejected ==> exists|i: int|
            0 <= i < events.len() && events[i] == (ReceiverEvent::Verified { passed: false }),
    decreases events.len(),
{
    if events.len() > 0 {
        let front = events.drop_last();
        lemma_owned_only_after_verification(front);
        let before = receiver_run(ReceiverState::Awaiting, front);
        let after = receiver_run(ReceiverState::Awaiting, events);
        if after != ReceiverState::Awaiting {
            if before == after {
                let i = choose|i: int|
                    0 <= i < front.len() && (front[i] == (ReceiverEvent::Verified { passed: true })
                        || front[i] == (ReceiverEvent::Verified { passed: false }));
                assert(events[i] == front[i]);
                if after == ReceiverState::Rejected {
                    let k = choose|k: int|
                        0 <= k < front.len() && front[k] == (ReceiverEvent::Verified {
                            passed: false,
                        });
                    assert(events[k] == front[k]);
                } else {
                    let k = choose|k: int|
                        0 <= k < front.len() && front[k] == (ReceiverEvent::Verified {
                            passed: true,
                        });
                    assert(events[k] == front[k]);
                }
            } else if before == ReceiverState::Awaiting {
                assert(events[events.len() - 1] == events.last());
            } else {
                let k = choose|k: int|
                    0 <= k < front.len() && front[k] == (ReceiverEvent::Verified { passed: true });
                assert(events[k] == front[k]);
            }
        }
    }
}

/// What taking a transfer does to the receiver's store and whether coins
/// were added, given the verdict on the transfer: a rejected transfer
/// changes nothing; a verified one is put into the store, once.
pub open spec fn receive_result(
    coins: Seq<CoinView>,
    verdict: Result<(), TransferError>,
    id: Seq<char>,
    user_pubkey: Seq<u8>,
    address: Seq<char>,
    incoming: Seq<IncomingView>,
) -> Result<(Seq<CoinView>, bool), TransferError> {
    match verdict {
        Err(e) => Err(e),
        Ok(()) => match receive_outcome(coins, id, user_pubkey, address, incoming) {
            Ok(done) => Ok(done),
            Err(e) => Err(TransferError::Store(e)),
        },
    }
}

/// Receives a statechain: reads the chain that the message brings, verifies
/// the transfer in full and, only if every check passes, puts its coins into
/// the store: the first output as the canonical coin, the others as
/// duplicates, held under the receiver's key share `client_pubkey_share`.
/// `aggregate_pubkey` is the aggregate of that share and the custodian's
/// key, to which the chain must pay. Returns whether coins were added; a
/// statechain that the store holds already is not added again. A transfer
/// that cannot be read or is rejected leaves the store as it was. The
/// verdict is the one on the chain that the message spells, whichever
/// reading of the message it is taken on.
pub fn receive(
    store: &mut CoinStore,
    transfer_msg: &TransferMsg,
    aggregated_address: &String,
    incoming: &Vec<IncomingCoin>,
    client_pubkey_share: &Vec<u8>,
    aggregate_pubkey: &Vec<u8>,
    funding: &Transaction,
    funding_unspent: bool,
    statechain_info: &StatechainInfoResponsePayload,
    challenges: &Vec<Vec<u8>>,
    interval: u32,
) -> (r: Result<bool, TransferError>)
    requires
        old(store).wf(),
    ensures
        final(store).wf(),
        match first_parse_error(transfer_msg.backup_transactions@, 0) {
            Some(e) => r == Err::<bool, TransferError>(TransferError::Parse(e)) && final(store)@
                == old(store)@,
            None => forall|chain: Seq<BackupTransaction>|
                #[trigger] chain_reads_as(transfer_msg.backup_transactions@, chain) ==> received_as(
                    old(store)@,
                    receive_result(
                        old(store)@,
                        transfer_verdict(
                            chain,
                            aggregate_pubkey@,
                            *funding,
                            funding_unspent,
                            statechain_info,
                            challenges@,
                            interval,
                        ),
                        transfer_msg.statechain_id@,
                        client_pubkey_share@,
                        aggregated_address@,
                        incoming_views(incoming@),
                    ),
                    r,
                    final(store)@,
                ),
        },
{
    let chain = match deserialize_chain(transfer_msg) {
        Ok(chain) => chain,
        Err(e) => {
            return Err(TransferError::Parse(e));
        },
    };
    proof {
        assert forall|other: Seq<BackupTransaction>| #[trigger]
            chain_reads_as(transfer_msg.backup_transactions@, other) implies transfer_verdict(
            other,
            aggregate_pubkey@,
            *funding,
            funding_unspent,
            statechain_info,
            challenges@,
            interval,
        ) == transfer_verdict(
            chain@,
            aggregate_pubkey@,
            *funding,
            funding_unspent,
            statechain_info,
            challenges@,
            interval,
        ) by {
            lemma_one_reading(transfer_msg.backup_transactions@, other, chain@);
            lemma_verdict_by_values(
                other,
                chain@,
                aggregate_pubkey@,
                *funding,
                funding_unspent,
                statechain_info,
                challenges@,
                interval,
            );
        }
    }
    match verify_transfer(
        &chain,
        aggregate_pubkey,
        funding,
        funding_unspent,
        statechain_info,
        challenges,
        interval,
    ) {
        Ok(()) => {},
        Err(e) => {
            return Err(e);
        },
    }
    match store.receive(
        &transfer_msg.statechain_id,
        client_pubkey_share,
        aggregated_address,
        incoming,
    ) {
        Ok(added) => Ok(added),
        Err(e) => Err(TransferError::Store(e)),
    }
}

/// The result `r` and the store `after` are what `outcome` owes for a store
/// that held `before`: the new coins on success, the old ones on refusal.
pub open spec fn received_as(
    before: Seq<CoinView>,
    outcome: Result<(Seq<CoinView>, bool), TransferError>,
    r: Result<bool, TransferError>,
    after: Seq<CoinView>,
) -> bool {
    match outcome {
        Ok((coins, added)) => r == Ok::<bool, TransferError>(added) && after == coins,
        Err(e) => r == Err::<bool, TransferError>(e) && after == before,
    }
}

/// Receiving the same transfer a second time changes nothing: the store is
/// as it was after the first time, and no coin is added.
pub proof fn lemma_second_receive_is_a_no_op(
    coins: Seq<CoinView>,
    verdict: Result<(), TransferError>,
    id: Seq<char>,
    user_pubkey: Seq<u8>,
    address: Seq<char>,
    incoming: Seq<IncomingView>,
)
    requires
        receive_result(coins, verdict, id, user_pubkey, address, incoming) is Ok,
    ensures
        ({
            let once = receive_result(coins, verdict, id, user_pubkey, address, incoming)->Ok_0.0;
            receive_result(once, verdict, id, user_pubkey, address, incoming) == Ok::<
                (Seq<CoinView>, bool),
                TransferError,
            >((once, false))
        }),
{
    crate::coin::lemma_receive_idempotent(coins, id, user_pubkey, address, incoming);
}

} // verus!
