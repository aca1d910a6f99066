//! The chain of backup transactions of one coin: each link is a pre-signed
//! exit transaction, later links unlock earlier than the links before them.

use vstd::prelude::*;
use crate::bytes::bytes_eq;
use crate::tx::{
    address_script,
    decoded_transaction,
    encode_transaction,
    encoded_transaction,
    script_of_address,
    AddressFault,
    Transaction,
    TransactionView,
};

verus! {

/// One link in the exit chain of a coin.
#[derive(Clone, Debug)]
pub struct BackupTransaction {
    pub statechain_id: String,
    /// Sequence number of the link, counted from 1.
    pub tx_n: u32,
    pub tx: Transaction,
    /// Serialised public nonce of the owner, 66 bytes.
    pub client_public_nonce: Vec<u8>,
    /// Serialised public nonce of the co-signer, 66 bytes.
    pub server_public_nonce: Vec<u8>,
    /// Compressed public key of the owner, 33 bytes.
    pub client_public_key: Vec<u8>,
    /// Compressed public key of the co-signer, 33 bytes.
    pub server_public_key: Vec<u8>,
    /// Blinding factor of the signing session, 32 bytes.
    pub blinding_factor: Vec<u8>,
    pub recipient_address: String,
}

/// Why a chain of backup transactions is refused.
#[derive(Clone, Copy, Debug, PartialEq, Eq, Structural)]
pub enum ChainError {
    /// A link does not spend the single output of the link before it.
    BrokenChainLink,
    /// A link's lock time is not the one before it less the interval.
    LocktimeViolation,
    /// A link's sequence number is not above the one before it.
    OutOfOrder,
}

/// Whether `next` spends exactly the single output of `prev`.
pub open spec fn spends_output_of(next: &BackupTransaction, prev: &BackupTransaction) -> bool {
    &&& prev.tx.output@.len() == 1
    &&& next.tx.input@.len() == 1
    &&& next.tx.input@[0].previous_output.txid@ == prev.tx.txid@
    &&& next.tx.input@[0].previous_output.vout == 0
}

/// Whether the lock time of `next` is the lock time of `prev` less `interval`.
pub open spec fn locktime_steps_down(
    next: &BackupTransaction,
    prev: &BackupTransaction,
    interval: u32,
) -> bool {
    next.tx.lock_time as int == prev.tx.lock_time as int - interval as int
}

/// What is wrong with `next` as the successor of `prev`, if anything. The
/// outpoint is looked at first, then the lock time, then the sequence number.
pub open spec fn link_error(
    prev: &BackupTransaction,
    next: &BackupTransaction,
    interval: u32,
) -> Option<ChainError> {
    if !spends_output_of(next, prev) {
        Some(ChainError::BrokenChainLink)
    } else if !locktime_steps_down(next, prev, interval) {
        Some(ChainError::LocktimeViolation)
    } else if !(next.tx_n > prev.tx_n) {
        Some(ChainError::OutOfOrder)
    } else {
        None
    }
}

/// The verdict on the pair of links at positions `i` and `i + 1`.
pub open spec fn pair_error(chain: Seq<BackupTransaction>, i: int, interval: u32) -> Option<
    ChainError,
> {
    link_error(&chain[i], &chain[i + 1], interval)
}

/// Every adjacent pair of the chain is in order.
pub open spec fn is_valid_chain(chain: Seq<BackupTransaction>, interval: u32) -> bool {
    forall|i: int| 0 <= i < chain.len() - 1 ==> (#[trigger] pair_error(chain, i, interval)) is None
}

/// The pair at `i` is the first one that is out of order.
pub open spec fn first_violation_at(chain: Seq<BackupTransaction>, i: int, interval: u32) -> bool {
    &&& 0 <= i < chain.len() - 1
    &&& pair_error(chain, i, interval) is Some
    &&& forall|j: int| 0 <= j < i ==> (#[trigger] pair_error(chain, j, interval)) is None
}

/// The result that validation owes for a chain: success if every pair is in
/// order, else the error of the first pair that is not.
pub open spec fn chain_verdict(chain: Seq<BackupTransaction>, interval: u32) -> Result<
    (),
    ChainError,
> {
    if is_valid_chain(chain, interval) {
        Ok(())
    } else {
        let i = choose|i: int| first_violation_at(chain, i, interval);
        Err(pair_error(chain, i, interval)->Some_0)
    }
}

/// Checks one link against the link before it.
pub fn check_link(prev: &BackupTransaction, next: &BackupTransaction, interval: u32) -> (r: Result<
    (),
    ChainError,
>)
    ensures
        r is Ok <==> link_error(prev, next, interval) is None,
        r matches Err(e) ==> link_error(prev, next, interval) == Some(e),
{
    if prev.tx.output.len() != 1 || next.tx.input.len() != 1 {
        return Err(ChainError::BrokenChainLink);
    }
    let spent = &next.tx.input[0].previous_output;
    if !bytes_eq(&spent.txid, &prev.tx.txid) || spent.vout != 0 {
        return Err(ChainError::BrokenChainLink);
    }
    if next.tx.lock_time as u64 + interval as u64 != prev.tx.lock_time as u64 {
        return Err(ChainError::LocktimeViolation);
    }
    if next.tx_n <= prev.tx_n {
        return Err(ChainError::OutOfOrder);
    }
    Ok(())
}

/// Two positions cannot both hold the first violation of a chain.
pub proof fn lemma_first_violation_unique(
    chain: Seq<BackupTransaction>,
    interval: u32,
    i: int,
    j: int,
)
    requires
        first_violation_at(chain, i, interval),
        first_violation_at(chain, j, interval),
    ensures
        i == j,
{
    if i < j {
        assert(pair_error(chain, i, interval) is None);
    } else if j < i {
        assert(pair_error(chain, j, interval) is None);
    }
}

/// A chain with a pair that is out of order has a first such pair.
pub proof fn lemma_first_violation_exists(chain: Seq<BackupTransaction>, interval: u32, bad: int)
    requires
        0 <= bad < chain.len() - 1,
        pair_error(chain, bad, interval) is Some,
    ensures
        exists|i: int| first_violation_at(chain, i, interval),
    decreases bad,
{
    if forall|j: int| 0 <= j < bad ==> (#[trigger] pair_error(chain, j, interval)) is None {
        assert(first_violation_at(chain, bad, interval));
    } else {
        let j = choose|j: int| 0 <= j < bad && (#[trigger] pair_error(chain, j, interval)) is Some;
        lemma_first_violation_exists(chain, interval, j);
    }
}

/// Chains whose pairs get the same verdicts get the same verdict.
pub proof fn lemma_verdict_by_pairs(
    a: Seq<BackupTransaction>,
    b: Seq<BackupTransaction>,
    interval: u32,
)
    requires
        a.len() == b.len(),
        forall|i: int|
            0 <= i < a.len() - 1 ==> (#[trigger] pair_error(a, i, interval)) == pair_error(
                b,
                i,
                interval,
            ),
    ensures
        chain_verdict(a, interval) == chain_verdict(b, interval),
{
    if is_valid_chain(a, interval) {
        assert forall|i: int| 0 <= i < b.len() - 1 implies (#[trigger] pair_error(
            b,
            i,
            interval,
        )) is None by {
            assert(pair_error(a, i, interval) is None);
        }
    } else {
        let bad = choose|i: int|
            0 <= i < a.len() - 1 && !((#[trigger] pair_error(a, i, interval)) is None);
        lemma_first_violation_exists(a, interval, bad);
        let first = choose|i: int| first_violation_at(a, i, interval);
        assert forall|j: int| 0 <= j < first implies (#[trigger] pair_error(b, j, interval)) is None by {
            assert(pair_error(a, j, interval) is None);
        }
        assert(first_violation_at(b, first, interval));
        lemma_verdict_of_first_violation(a, interval, first);
        lemma_verdict_of_first_violation(b, interval, first);
    }
}

/// A chain whose first violation is at `i` gets the error of that pair.
pub proof fn lemma_verdict_of_first_violation(chain: Seq<BackupTransaction>, interval: u32, i: int)
    requires
        first_violation_at(chain, i, interval),
    ensures
        chain_verdict(chain, interval) == Err::<(), ChainError>(
            pair_error(chain, i, interval)->Some_0,
        ),
{
    assert(!is_valid_chain(chain, interval));
    let k = choose|k: int| first_violation_at(chain, k, interval);
    lemma_first_violation_unique(chain, interval, i, k);
}

/// Validates a chain of backup transactions: every link must spend the single
/// output of the link before it, unlock exactly `interval` blocks earlier, and
/// carry a higher sequence number. The first pair that fails decides the error.
pub fn validate_chain(chain: &Vec<BackupTransaction>, interval: u32) -> (r: Result<(), ChainError>)
    ensures
        r == chain_verdict(chain@, interval),
        r is Ok <==> is_valid_chain(chain@, interval),
        r matches Err(e) ==> exists|i: int|
            first_violation_at(chain@, i, interval) && pair_error(chain@, i, interval) == Some(e),
{
    let mut i: usize = 1;
    while i < chain.len()
        invariant
            1 <= i,
            forall|j: int| 0 <= j < i - 1 && j < chain@.len() - 1 ==> (#[trigger] pair_error(
                chain@,
                j,
                interval,
            )) is None,
        decreases chain@.len() - i,
    {
        match check_link(&chain[i - 1], &chain[i], interval) {
            Ok(()) => {},
            Err(e) => {
                proof {
                    assert(pair_error(chain@, i - 1, interval) == Some(e));
                    assert(first_violation_at(chain@, i - 1, interval));
                    lemma_verdict_of_first_violation(chain@, interval, i - 1);
                }
                return Err(e);
            },
        }
        assert(pair_error(chain@, i - 1, interval) is None);
        i = i + 1;
    }
    Ok(())
}

/// The link `link` with its lock time replaced.
pub open spec fn with_lock_time(link: BackupTransaction, lock_time: u32) -> BackupTransaction {
    BackupTransaction { tx: Transaction { lock_time, ..link.tx }, ..link }
}

/// The link `link` with its sequence number replaced.
pub open spec fn with_tx_n(link: BackupTransaction, tx_n: u32) -> BackupTransaction {
    BackupTransaction { tx_n, ..link }
}

/// Every valid chain is accepted, and only valid chains are.
pub proof fn lemma_valid_chain_accepted(chain: Seq<BackupTransaction>, interval: u32)
    ensures
        is_valid_chain(chain, interval) <==> chain_verdict(chain, interval) == Ok::<
            (),
            ChainError,
        >(()),
{
}

/// Replacing a link after the first by one that does not spend the single
/// output of its predecessor makes a valid chain fail with `BrokenChainLink`.
pub proof fn lemma_mutated_outpoint_rejected(
    chain: Seq<BackupTransaction>,
    interval: u32,
    k: int,
    mutated: BackupTransaction,
)
    requires
        is_valid_chain(chain, interval),
        1 <= k < chain.len(),
        !spends_output_of(&mutated, &chain[k - 1]),
    ensures
        chain_verdict(chain.update(k, mutated), interval) == Err::<(), ChainError>(
            ChainError::BrokenChainLink,
        ),
{
    let bad = chain.update(k, mutated);
    assert forall|j: int| 0 <= j < k - 1 implies (#[trigger] pair_error(bad, j, interval)) is None by {
        assert(pair_error(chain, j, interval) is None);
    }
    assert(pair_error(bad, k - 1, interval) == Some(ChainError::BrokenChainLink));
    lemma_verdict_of_first_violation(bad, interval, k - 1);
}

/// Changing nothing but the lock time of one link makes a valid chain of two
/// or more links fail with `LocktimeViolation`.
pub proof fn lemma_mutated_locktime_rejected(
    chain: Seq<BackupTransaction>,
    interval: u32,
    k: int,
    lock_time: u32,
)
    requires
        is_valid_chain(chain, interval),
        chain.len() >= 2,
        0 <= k < chain.len(),
        lock_time != chain[k].tx.lock_time,
    ensures
        chain_verdict(chain.update(k, with_lock_time(chain[k], lock_time)), interval) == Err::<
            (),
            ChainError,
        >(ChainError::LocktimeViolation),
{
    let bad = chain.update(k, with_lock_time(chain[k], lock_time));
    let at = if k >= 1 { k - 1 } else { 0 };
    assert forall|j: int| 0 <= j < at implies (#[trigger] pair_error(bad, j, interval)) is None by {
        assert(pair_error(chain, j, interval) is None);
    }
    assert(pair_error(chain, at, interval) is None);
    assert(pair_error(bad, at, interval) == Some(ChainError::LocktimeViolation));
    lemma_verdict_of_first_violation(bad, interval, at);
}

/// Changing nothing but the sequence number of one link, so that it no longer
/// lies strictly between its neighbours', makes a valid chain fail with
/// `OutOfOrder`.
pub proof fn lemma_mutated_order_rejected(
    chain: Seq<BackupTransaction>,
    interval: u32,
    k: int,
    tx_n: u32,
)
    requires
        is_valid_chain(chain, interval),
        0 <= k < chain.len(),
        (k >= 1 && tx_n <= chain[k - 1].tx_n) || (k + 1 < chain.len() && chain[k + 1].tx_n
            <= tx_n),
    ensures
        chain_verdict(chain.update(k, with_tx_n(chain[k], tx_n)), interval) == Err::<
            (),
            ChainError,
        >(ChainError::OutOfOrder),
{
    let bad = chain.update(k, with_tx_n(chain[k], tx_n));
    let at = if k >= 1 && tx_n <= chain[k - 1].tx_n { k - 1 } else { k };
    assert forall|j: int| 0 <= j < at implies (#[trigger] pair_error(bad, j, interval)) is None by {
        assert(pair_error(chain, j, interval) is None);
    }
    assert(pair_error(chain, at, interval) is None);
    assert(pair_error(bad, at, interval) == Some(ChainError::OutOfOrder));
    lemma_verdict_of_first_violation(bad, interval, at);
}

/// Version of a backup transaction.
pub const BACKUP_TX_VERSION: i32 = 2;

/// Sequence number of the input of a backup transaction: the lock time
/// counts, and the transaction does not signal replacement.
pub const BACKUP_TX_SEQUENCE: u32 = 0xFFFF_FFFE;

/// Why a chain cannot be extended.
#[derive(Clone, Copy, Debug, PartialEq, Eq, Structural)]
pub enum ExtendError {
    /// The chain has no link to extend from.
    EmptyChain,
    /// The last link does not have exactly one output.
    BrokenTip,
    /// The lock time of the last link is below the interval.
    LocktimeExhausted,
    /// The sequence number of the last link is the highest there is.
    SequenceExhausted,
    /// The new owner's address gives no script.
    BadAddress(AddressFault),
    /// The transaction that was built does not read back as it was asked for.
    Encoding,
}

/// What stops a chain from being extended to an address, before any
/// transaction is built.
pub open spec fn extend_refusal(
    chain: Seq<BackupTransaction>,
    address: Seq<char>,
    network: Seq<char>,
    interval: u32,
) -> Option<ExtendError> {
    if chain.len() == 0 {
        Some(ExtendError::EmptyChain)
    } else if chain.last().tx.output@.len() != 1 {
        Some(ExtendError::BrokenTip)
    } else if chain.last().tx.lock_time < interval {
        Some(ExtendError::LocktimeExhausted)
    } else if chain.last().tx_n == u32::MAX {
        Some(ExtendError::SequenceExhausted)
    } else {
        match address_script(address, network) {
            Err(fault) => Some(ExtendError::BadAddress(fault)),
            Ok(_) => None,
        }
    }
}

/// The transaction `t` is the unsigned template that follows `tip`: one
/// input, which spends the single output of `tip` and carries no witness,
/// and one output, which pays the amount of that output to `script`, with
/// the lock time `lock_time`.
pub open spec fn is_template_after(
    t: &Transaction,
    tip: &BackupTransaction,
    script: Seq<u8>,
    lock_time: u32,
) -> bool {
    &&& tip.tx.output@.len() == 1
    &&& t.input@.len() == 1
    &&& t.output@.len() == 1
    &&& t.input@[0].previous_output.txid@ == tip.tx.txid@
    &&& t.input@[0].previous_output.vout == 0
    &&& t.input@[0].sequence == BACKUP_TX_SEQUENCE
    &&& t.input@[0].witness@.len() == 0
    &&& t.output@[0].value == tip.tx.output@[0].value
    &&& t.output@[0].script_pubkey@ == script
    &&& t.lock_time == lock_time
    &&& t.version == BACKUP_TX_VERSION
}

/// The link `link` is the unsigned successor of `tip` that pays to `script`:
/// it carries the template as its transaction and the next sequence number,
/// and has no nonces, keys or blinding factor yet.
pub open spec fn is_extension_of(
    link: &BackupTransaction,
    tip: &BackupTransaction,
    script: Seq<u8>,
    lock_time: u32,
    address: Seq<char>,
) -> bool {
    &&& is_template_after(&link.tx, tip, script, lock_time)
    &&& link.tx_n == tip.tx_n + 1
    &&& link.statechain_id@ == tip.statechain_id@
    &&& link.recipient_address@ == address
    &&& link.client_public_nonce@.len() == 0
    &&& link.server_public_nonce@.len() == 0
    &&& link.client_public_key@.len() == 0
    &&& link.server_public_key@.len() == 0
    &&& link.blinding_factor@.len() == 0
}

/// The transaction `t` is, by its values, the unsigned template that spends
/// output 0 of the transaction `prev_txid`: one input without witness, one
/// output of `value` to `script`, the lock time `lock_time`, and the version
/// and sequence number of a backup transaction.
pub open spec fn is_template(
    t: TransactionView,
    prev_txid: Seq<u8>,
    value: u64,
    script: Seq<u8>,
    lock_time: u32,
) -> bool {
    &&& t.input.len() == 1
    &&& t.output.len() == 1
    &&& t.input[0].previous_output == (prev_txid, 0u32)
    &&& t.input[0].sequence == BACKUP_TX_SEQUENCE
    &&& t.input[0].witness.len() == 0
    &&& t.output[0].value == value
    &&& t.output[0].script_pubkey == script
    &&& t.lock_time == lock_time
    &&& t.version == BACKUP_TX_VERSION
}

/// The bytes that are built for the successor of `tip` that pays to `script`
/// with the lock time `lock_time`.
pub open spec fn template_bytes(tip: &BackupTransaction, script: Seq<u8>, lock_time: u32) -> Option<
    Seq<u8>,
> {
    encoded_transaction(
        BACKUP_TX_VERSION,
        lock_time,
        tip.tx.txid@,
        0,
        BACKUP_TX_SEQUENCE,
        tip.tx.output@[0].value,
        script,
    )
}

/// The bytes that are built for the successor of `tip` are a transaction, and
/// it reads back as the template that was asked for.
pub open spec fn template_reads_back(tip: &BackupTransaction, script: Seq<u8>, lock_time: u32) -> bool {
    match template_bytes(tip, script, lock_time) {
        None => false,
        Some(raw) => match decoded_transaction(raw) {
            None => false,
            Some(t) => is_template(t, tip.tx.txid@, tip.tx.output@[0].value, script, lock_time),
        },
    }
}

/// For a last link with one output, a transaction is the template after it
/// exactly if its values are those of the template.
pub proof fn lemma_template_by_values(
    t: &Transaction,
    tip: &BackupTransaction,
    script: Seq<u8>,
    lock_time: u32,
)
    requires
        tip.tx.output@.len() == 1,
    ensures
        is_template_after(t, tip, script, lock_time) <==> is_template(
            t@,
            tip.tx.txid@,
            tip.tx.output@[0].value,
            script,
            lock_time,
        ),
{
    assert(t@.input.len() == t.input@.len());
    assert(t@.output.len() == t.output@.len());
    if t.input@.len() == 1 && t.output@.len() == 1 {
        assert(t@.input[0] == t.input@[0]@);
        assert(t@.output[0] == t.output@[0]@);
        assert(t@.input[0].witness.len() == t.input@[0].witness@.len());
    }
}

/// Makes the next link of a chain from the template that was built for it,
/// where the template reads back as it was asked for. A last link with the
/// highest sequence number has no successor.
pub fn link_from_template(
    tip: &BackupTransaction,
    template: Option<Transaction>,
    script: &Vec<u8>,
    lock_time: u32,
    new_owner_address: &str,
) -> (r: Result<BackupTransaction, ExtendError>)
    ensures
        tip.tx_n == u32::MAX ==> r == Err::<BackupTransaction, ExtendError>(
            ExtendError::SequenceExhausted,
        ),
        tip.tx_n < u32::MAX ==> match template {
            Some(t) => if is_template_after(&t, tip, script@, lock_time) {
                r is Ok && r->Ok_0.tx == t && is_extension_of(
                    &r->Ok_0,
                    tip,
                    script@,
                    lock_time,
                    new_owner_address@,
                )
            } else {
                r == Err::<BackupTransaction, ExtendError>(ExtendError::Encoding)
            },
            None => r == Err::<BackupTransaction, ExtendError>(ExtendError::Encoding),
        },
{
    if tip.tx_n == u32::MAX {
        return Err(ExtendError::SequenceExhausted);
    }
    let tx = match template {
        Some(tx) => tx,
        None => {
            return Err(ExtendError::Encoding);
        },
    };
    if tip.tx.output.len() != 1 || tx.input.len() != 1 || tx.output.len() != 1 {
        return Err(ExtendError::Encoding);
    }
    let input = &tx.input[0];
    let output = &tx.output[0];
    if !bytes_eq(&input.previous_output.txid, &tip.tx.txid) || input.previous_output.vout != 0
        || input.sequence != BACKUP_TX_SEQUENCE || input.witness.len() != 0 {
        return Err(ExtendError::Encoding);
    }
    if output.value != tip.tx.output[0].value || !bytes_eq(&output.script_pubkey, script)
        || tx.lock_time != lock_time || tx.version != BACKUP_TX_VERSION {
        return Err(ExtendError::Encoding);
    }
    Ok(
        BackupTransaction {
            statechain_id: tip.statechain_id.clone(),
            tx_n: tip.tx_n + 1,
            tx,
            client_public_nonce: Vec::new(),
            server_public_nonce: Vec::new(),
            client_public_key: Vec::new(),
            server_public_key: Vec::new(),
            blinding_factor: Vec::new(),
            recipient_address: String::from_str(new_owner_address),
        },
    )
}

/// Builds the next link of a chain: an unsigned transaction that spends the
/// single output of the last link to the new owner's address and unlocks
/// `interval` blocks before the last link does. The link has to be co-signed
/// before it is of use. The transaction is built and read back by the
/// `bitcoin` crate; the link is handed out exactly where what was built
/// reads back as the template that was asked for, so that a link that is
/// handed out holds the serialisation of exactly the template that it shows.
pub fn extend(
    chain: &Vec<BackupTransaction>,
    new_owner_address: &str,
    network: &str,
    interval: u32,
) -> (r: Result<BackupTransaction, ExtendError>)
    ensures
        match extend_refusal(chain@, new_owner_address@, network@, interval) {
            Some(e) => r == Err::<BackupTransaction, ExtendError>(e),
            None => match r {
                Ok(link) => is_extension_of(
                    &link,
                    &chain@.last(),
                    address_script(new_owner_address@, network@)->Ok_0,
                    (chain@.last().tx.lock_time - interval) as u32,
                    new_owner_address@,
                ) && decoded_transaction(link.tx.raw@) == Some(link.tx@) && encoded_transaction(
                    BACKUP_TX_VERSION,
                    (chain@.last().tx.lock_time - interval) as u32,
                    chain@.last().tx.txid@,
                    0,
                    BACKUP_TX_SEQUENCE,
                    chain@.last().tx.output@[0].value,
                    address_script(new_owner_address@, network@)->Ok_0,
                ) == Some(link.tx.raw@),
                Err(e) => e == ExtendError::Encoding,
            },
        },
        extend_refusal(chain@, new_owner_address@, network@, interval) is None ==> (r is Ok
            <==> template_reads_back(
            &chain@.last(),
            address_script(new_owner_address@, network@)->Ok_0,
            (chain@.last().tx.lock_time - interval) as u32,
        )),
{
    if chain.len() == 0 {
        return Err(ExtendError::EmptyChain);
    }
    let tip = &chain[chain.len() - 1];
    if tip.tx.output.len() != 1 {
        return Err(ExtendError::BrokenTip);
    }
    if tip.tx.lock_time < interval {
        return Err(ExtendError::LocktimeExhausted);
    }
    if tip.tx_n == u32::MAX {
        return Err(ExtendError::SequenceExhausted);
    }
    let script = match script_of_address(new_owner_address, network) {
        Ok(script) => script,
        Err(fault) => {
            return Err(ExtendError::BadAddress(fault));
        },
    };
    let lock_time = tip.tx.lock_time - interval;
    let raw = match encode_transaction(
        BACKUP_TX_VERSION,
        lock_time,
        tip.tx.txid.as_slice(),
        0,
        BACKUP_TX_SEQUENCE,
        tip.tx.output[0].value,
        script.as_slice(),
    ) {
        Some(raw) => raw,
        None => {
            return Err(ExtendError::Encoding);
        },
    };
    let template = Transaction::decode(&raw);
    proof {
        if template is Some {
            lemma_template_by_values(&template->Some_0, tip, script@, lock_time);
        }
    }
    link_from_template(tip, template, &script, lock_time, new_owner_address)
}

/// A valid chain stays valid when it is extended: an unsigned successor of
/// its last link, with the lock time one interval lower, is in order behind
/// that link.
pub proof fn lemma_extension_keeps_validity(
    chain: Seq<BackupTransaction>,
    interval: u32,
    link: BackupTransaction,
    script: Seq<u8>,
    address: Seq<char>,
)
    requires
        is_valid_chain(chain, interval),
        chain.len() > 0,
        chain.last().tx.lock_time >= interval,
        is_extension_of(
            &link,
            &chain.last(),
            script,
            (chain.last().tx.lock_time - interval) as u32,
            address,
        ),
    ensures
        is_valid_chain(chain.push(link), interval),
{
    let longer = chain.push(link);
    assert forall|i: int| 0 <= i < longer.len() - 1 implies (#[trigger] pair_error(
        longer,
        i,
        interval,
    )) is None by {
        if i < chain.len() - 1 {
            assert(pair_error(chain, i, interval) is None);
        } else {
            assert(longer[i] == chain.last());
            assert(longer[i + 1] == link);
        }
    }
}

} // verus!
