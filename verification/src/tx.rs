//! The library's own picture of a Bitcoin transaction: the plain values that
//! the statechain rules read.

use vstd::prelude::*;
use crate::bytes::{bytes_clone, bytes_eq};

verus! {

/// A reference to one output of an earlier transaction.
#[derive(Clone, Debug)]
pub struct OutPoint {
    /// Identifier of the transaction that holds the output, 32 bytes.
    pub txid: Vec<u8>,
    /// Position of the output in that transaction.
    pub vout: u32,
}

/// One input of a transaction.
#[derive(Clone, Debug)]
pub struct TxIn {
    pub previous_output: OutPoint,
    pub sequence: u32,
    /// The witness stack, first element first.
    pub witness: Vec<Vec<u8>>,
}

/// One output of a transaction.
#[derive(Clone, Debug)]
pub struct TxOut {
    /// Amount in satoshis.
    pub value: u64,
    pub script_pubkey: Vec<u8>,
}

/// A transaction as plain values, together with the bytes it was read from.
#[derive(Clone, Debug)]
pub struct Transaction {
    /// Consensus serialisation.
    pub raw: Vec<u8>,
    /// Identifier of this transaction, 32 bytes.
    pub txid: Vec<u8>,
    pub version: i32,
    /// Absolute lock time (a block height in a backup transaction).
    pub lock_time: u32,
    pub input: Vec<TxIn>,
    pub output: Vec<TxOut>,
}

impl OutPoint {
    /// The outpoint as mathematical values.
    pub open spec fn key(&self) -> (Seq<u8>, u32) {
        (self.txid@, self.vout)
    }
}

/// An input as mathematical values.
pub struct TxInView {
    pub previous_output: (Seq<u8>, u32),
    pub sequence: u32,
    pub witness: Seq<Seq<u8>>,
}

/// An output as mathematical values.
pub struct TxOutView {
    pub value: u64,
    pub script_pubkey: Seq<u8>,
}

/// A transaction as mathematical values.
pub struct TransactionView {
    pub raw: Seq<u8>,
    pub txid: Seq<u8>,
    pub version: i32,
    pub lock_time: u32,
    pub input: Seq<TxInView>,
    pub output: Seq<TxOutView>,
}

impl View for TxIn {
    type V = TxInView;

    open spec fn view(&self) -> TxInView {
        TxInView {
            previous_output: self.previous_output.key(),
            sequence: self.sequence,
            witness: self.witness@.map_values(|w: Vec<u8>| w@),
        }
    }
}

impl View for TxOut {
    type V = TxOutView;

    open spec fn view(&self) -> TxOutView {
        TxOutView { value: self.value, script_pubkey: self.script_pubkey@ }
    }
}

impl View for Transaction {
    type V = TransactionView;

    open spec fn view(&self) -> TransactionView {
        TransactionView {
            raw: self.raw@,
            txid: self.txid@,
            version: self.version,
            lock_time: self.lock_time,
            input: self.input@.map_values(|i: TxIn| i@),
            output: self.output@.map_values(|o: TxOut| o@),
        }
    }
}

/// The version, lock time, inputs and outputs of the transaction that the
/// bytes `raw` are the consensus serialisation of; `None` where they are none.
pub uninterp spec fn decoded_fields(raw: Seq<u8>) -> Option<(i32, u32, Seq<TxInView>, Seq<TxOutView>)>;

/// The identifier of the transaction that the bytes `raw` serialise, in the
/// byte order of the hash; `None` where they are no transaction.
pub uninterp spec fn transaction_id(raw: Seq<u8>) -> Option<Seq<u8>>;

/// The transaction that the bytes `raw` serialise, with its identifier;
/// `None` where they are no transaction.
pub open spec fn decoded_transaction(raw: Seq<u8>) -> Option<TransactionView> {
    match (decoded_fields(raw), transaction_id(raw)) {
        (Some(fields), Some(txid)) => Some(
            TransactionView {
                raw,
                txid,
                version: fields.0,
                lock_time: fields.1,
                input: fields.2,
                output: fields.3,
            },
        ),
        _ => None,
    }
}

/// The consensus serialisation of the transaction with the given version and
/// lock time, one input that spends output `prev_vout` of the transaction
/// `prev_txid` with an empty script and witness, and one output; `None` where
/// `prev_txid` is not 32 bytes long.
pub uninterp spec fn encoded_transaction(
    version: i32,
    lock_time: u32,
    prev_txid: Seq<u8>,
    prev_vout: u32,
    sequence: u32,
    value: u64,
    script_pubkey: Seq<u8>,
) -> Option<Seq<u8>>;

/// The script that pays to the taproot output key derived from the public
/// key `pubkey` (33 bytes compressed, or 65 uncompressed) with no script tree;
/// `None` where `pubkey` is no public key.
pub uninterp spec fn taproot_script(pubkey: Seq<u8>) -> Option<Seq<u8>>;

/// Why an address gives no script.
#[derive(Clone, Copy, Debug, PartialEq, Eq, Structural)]
pub enum AddressFault {
    /// The text is no address.
    Unreadable,
    /// The network's name is none of `bitcoin`, `testnet`, `signet`, `regtest`.
    UnknownNetwork,
    /// The address is not valid on the network.
    OffNetwork,
}

/// The script that the address `address` pays to, where it is an address
/// that is valid on the network named `network`; else what is wrong, the
/// address being looked at first, then the network's name.
pub uninterp spec fn address_script(address: Seq<char>, network: Seq<char>) -> Result<
    Seq<u8>,
    AddressFault,
>;

/// Reads a transaction with `bitcoin::consensus::encode::deserialize` and
/// hands out its version, lock time, inputs and outputs. The identifier in an
/// input's outpoint is in the byte order of the hash, not the reversed order
/// in which it is printed.
#[verifier::external_body]
pub(crate) fn decode_fields(raw: &[u8]) -> (fields: Option<(i32, u32, Vec<TxIn>, Vec<TxOut>)>)
    ensures
        match fields {
            Some(f) => decoded_fields(raw@) == Some(
                (f.0, f.1, f.2@.map_values(|i: TxIn| i@), f.3@.map_values(|o: TxOut| o@)),
            ),
            None => decoded_fields(raw@) is None,
        },
{
    let tx: bitcoin::Transaction = bitcoin::consensus::encode::deserialize(raw).ok()?;
    let input = tx.input.iter().map(|i| {
        let prev: &[u8; 32] = i.previous_output.txid.as_ref();
        let previous_output = OutPoint { txid: prev.to_vec(), vout: i.previous_output.vout };
        TxIn { previous_output, sequence: i.sequence.0, witness: i.witness.to_vec() }
    }).collect();
    let output = tx.output.iter().map(|o| TxOut { value: o.value, script_pubkey: o.script_pubkey.to_bytes() }).collect();
    Some((tx.version, tx.lock_time.to_consensus_u32(), input, output))
}

/// Reads a transaction with `bitcoin::consensus::encode::deserialize` and
/// gives the 32 bytes of `Transaction::txid`.
#[verifier::external_body]
pub(crate) fn compute_txid(raw: &[u8]) -> (txid: Option<Vec<u8>>)
    ensures
        match txid {
            Some(id) => transaction_id(raw@) == Some(id@) && id@.len() == 32,
            None => transaction_id(raw@) is None,
        },
{
    let tx: bitcoin::Transaction = bitcoin::consensus::encode::deserialize(raw).ok()?;
    let txid = tx.txid();
    let id: &[u8; 32] = txid.as_ref();
    Some(id.to_vec())
}

/// Builds a transaction of one input and one output as a
/// `bitcoin::Transaction` and serialises it with
/// `bitcoin::consensus::encode::serialize`.
#[verifier::external_body]
pub(crate) fn encode_transaction(
    version: i32,
    lock_time: u32,
    prev_txid: &[u8],
    prev_vout: u32,
    sequence: u32,
    value: u64,
    script_pubkey: &[u8],
) -> (raw: Option<Vec<u8>>)
    ensures
        match raw {
            Some(r) => encoded_transaction(
                version,
                lock_time,
                prev_txid@,
                prev_vout,
                sequence,
                value,
                script_pubkey@,
            ) == Some(r@),
            None => encoded_transaction(
                version,
                lock_time,
                prev_txid@,
                prev_vout,
                sequence,
                value,
                script_pubkey@,
            ) is None,
        },
{
    let txid = <bitcoin::Txid as bitcoin::hashes::Hash>::from_slice(prev_txid).ok()?;
    let input = bitcoin::TxIn {
        previous_output: bitcoin::OutPoint::new(txid, prev_vout),
        script_sig: bitcoin::ScriptBuf::new(),
        sequence: bitcoin::Sequence(sequence),
        witness: bitcoin::Witness::new(),
    };
    let output = bitcoin::TxOut { value, script_pubkey: bitcoin::ScriptBuf::from_bytes(script_pubkey.to_vec()) };
    let lock_time = bitcoin::absolute::LockTime::from_consensus(lock_time);
    let tx = bitcoin::Transaction { version, lock_time, input: vec![input], output: vec![output] };
    Some(bitcoin::consensus::encode::serialize(&tx))
}

/// Parses a public key with `secp256k1::PublicKey::from_slice` and gives the
/// script of `bitcoin::ScriptBuf::new_v1_p2tr` for its x-only key, with no
/// script tree.
#[verifier::external_body]
pub(crate) fn taproot_script_of_key(pubkey: &[u8]) -> (script: Option<Vec<u8>>)
    ensures
        match script {
            Some(s) => taproot_script(pubkey@) == Some(s@),
            None => taproot_script(pubkey@) is None,
        },
{
    let key = bitcoin::secp256k1::PublicKey::from_slice(pubkey).ok()?;
    let secp = bitcoin::secp256k1::Secp256k1::verification_only();
    Some(bitcoin::ScriptBuf::new_v1_p2tr(&secp, key.x_only_public_key().0, None).to_bytes())
}

/// Parses the address with `bitcoin::Address::from_str` and the network's
/// name with `bitcoin::Network::from_str`, checks the one against the other
/// with `Address::require_network`, and gives the script of
/// `Address::script_pubkey`.
#[verifier::external_body]
pub(crate) fn script_of_address(address: &str, network: &str) -> (script: Result<
    Vec<u8>,
    AddressFault,
>)
    ensures
        match script {
            Ok(s) => address_script(address@, network@) == Ok::<Seq<u8>, AddressFault>(s@),
            Err(e) => address_script(address@, network@) == Err::<Seq<u8>, AddressFault>(e),
        },
{
    let parsed = match <bitcoin::Address<bitcoin::address::NetworkUnchecked> as core::str::FromStr>::from_str(address) {
        Ok(a) => a,
        Err(_) => return Err(AddressFault::Unreadable),
    };
    let net = match <bitcoin::Network as core::str::FromStr>::from_str(network) {
        Ok(n) => n,
        Err(_) => return Err(AddressFault::UnknownNetwork),
    };
    match parsed.require_network(net) {
        Ok(a) => Ok(a.script_pubkey().to_bytes()),
        Err(_) => Err(AddressFault::OffNetwork),
    }
}

impl Transaction {
    /// Reads a transaction from its consensus serialisation. `None` where the
    /// bytes are no transaction.
    pub fn decode(raw: &Vec<u8>) -> (tx: Option<Transaction>)
        ensures
            match tx {
                Some(t) => decoded_transaction(raw@) == Some(t@) && t@.txid.len() == 32
                    && t.is_decoded(),
                None => decoded_transaction(raw@) is None,
            },
    {
        let fields = match decode_fields(raw.as_slice()) {
            Some(fields) => fields,
            None => {
                return None;
            },
        };
        let txid = match compute_txid(raw.as_slice()) {
            Some(txid) => txid,
            None => {
                return None;
            },
        };
        Some(
            Transaction {
                raw: bytes_clone(raw),
                txid,
                version: fields.0,
                lock_time: fields.1,
                input: fields.2,
                output: fields.3,
            },
        )
    }
}

/// Whether two witness stacks hold the same elements.
fn same_witness(a: &Vec<Vec<u8>>, b: &Vec<Vec<u8>>) -> (same: bool)
    ensures
        same == (a@.map_values(|w: Vec<u8>| w@) == b@.map_values(|w: Vec<u8>| w@)),
{
    let ghost av = a@.map_values(|w: Vec<u8>| w@);
    let ghost bv = b@.map_values(|w: Vec<u8>| w@);
    if a.len() != b.len() {
        assert(av.len() != bv.len());
        return false;
    }
    let mut i: usize = 0;
    while i < a.len()
        invariant
            i <= a@.len(),
            a@.len() == b@.len(),
            av == a@.map_values(|w: Vec<u8>| w@),
            bv == b@.map_values(|w: Vec<u8>| w@),
            forall|j: int| 0 <= j < i ==> av[j] == bv[j],
        decreases a@.len() - i,
    {
        if !bytes_eq(&a[i], &b[i]) {
            assert(av[i as int] != bv[i as int]);
            return false;
        }
        i = i + 1;
    }
    assert(av =~= bv);
    true
}

/// Whether two inputs hold the same values.
fn same_input(a: &TxIn, b: &TxIn) -> (same: bool)
    ensures
        same == (a@ == b@),
{
    bytes_eq(&a.previous_output.txid, &b.previous_output.txid) && a.previous_output.vout
        == b.previous_output.vout && a.sequence == b.sequence && same_witness(
        &a.witness,
        &b.witness,
    )
}

/// Whether two outputs hold the same values.
fn same_output(a: &TxOut, b: &TxOut) -> (same: bool)
    ensures
        same == (a@ == b@),
{
    a.value == b.value && bytes_eq(&a.script_pubkey, &b.script_pubkey)
}

/// Whether two lists of inputs hold the same values.
fn same_inputs(a: &Vec<TxIn>, b: &Vec<TxIn>) -> (same: bool)
    ensures
        same == (a@.map_values(|i: TxIn| i@) == b@.map_values(|i: TxIn| i@)),
{
    let ghost av = a@.map_values(|i: TxIn| i@);
    let ghost bv = b@.map_values(|i: TxIn| i@);
    if a.len() != b.len() {
        assert(av.len() != bv.len());
        return false;
    }
    let mut i: usize = 0;
    while i < a.len()
        invariant
            i <= a@.len(),
            a@.len() == b@.len(),
            av == a@.map_values(|i: TxIn| i@),
            bv == b@.map_values(|i: TxIn| i@),
            forall|j: int| 0 <= j < i ==> av[j] == bv[j],
        decreases a@.len() - i,
    {
        if !same_input(&a[i], &b[i]) {
            assert(av[i as int] != bv[i as int]);
            return false;
        }
        i = i + 1;
    }
    assert(av =~= bv);
    true
}

/// Whether two lists of outputs hold the same values.
fn same_outputs(a: &Vec<TxOut>, b: &Vec<TxOut>) -> (same: bool)
    ensures
        same == (a@.map_values(|o: TxOut| o@) == b@.map_values(|o: TxOut| o@)),
{
    let ghost av = a@.map_values(|o: TxOut| o@);
    let ghost bv = b@.map_values(|o: TxOut| o@);
    if a.len() != b.len() {
        assert(av.len() != bv.len());
        return false;
    }
    let mut i: usize = 0;
    while i < a.len()
        invariant
            i <= a@.len(),
            a@.len() == b@.len(),
            av == a@.map_values(|o: TxOut| o@),
            bv == b@.map_values(|o: TxOut| o@),
            forall|j: int| 0 <= j < i ==> av[j] == bv[j],
        decreases a@.len() - i,
    {
        if !same_output(&a[i], &b[i]) {
            assert(av[i as int] != bv[i as int]);
            return false;
        }
        i = i + 1;
    }
    assert(av =~= bv);
    true
}

impl Transaction {
    /// The values of the transaction are those that its bytes serialise: its
    /// identifier, version, lock time, inputs and outputs are what reading
    /// `raw` gives.
    pub open spec fn is_decoded(&self) -> bool {
        decoded_transaction(self.raw@) == Some(self@)
    }

    /// Whether two transactions hold the same values.
    pub fn same_values(&self, other: &Transaction) -> (same: bool)
        ensures
            same == (self@ == other@),
    {
        bytes_eq(&self.raw, &other.raw) && bytes_eq(&self.txid, &other.txid) && self.version
            == other.version && self.lock_time == other.lock_time && same_inputs(
            &self.input,
            &other.input,
        ) && same_outputs(&self.output, &other.output)
    }

    /// Reads the bytes of the transaction again and holds its values against
    /// what comes out.
    pub fn check_decoded(&self) -> (ok: bool)
        ensures
            ok == self.is_decoded(),
    {
        match Transaction::decode(&self.raw) {
            Some(read) => read.same_values(self),
            None => false,
        }
    }
}

} // verus!
