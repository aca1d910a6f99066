use statechain::chain::{
    extend, link_from_template, validate_chain, BackupTransaction, ChainError, ExtendError,
};
use statechain::tx::{AddressFault, OutPoint, Transaction, TxIn, TxOut};

const INTERVAL: u32 = 144;

fn id(tag: u8) -> Vec<u8> {
    vec![tag; 32]
}

fn link(tx_n: u32, own: u8, spends: u8, lock_time: u32) -> BackupTransaction {
    BackupTransaction {
        statechain_id: String::from("sc"),
        tx_n,
        tx: Transaction {
            raw: Vec::new(),
            txid: id(own),
            version: 2,
            lock_time,
            input: vec![TxIn {
                previous_output: OutPoint { txid: id(spends), vout: 0 },
                sequence: 0xFFFF_FFFE,
                witness: Vec::new(),
            }],
            output: vec![TxOut { value: 1000, script_pubkey: vec![0x51, 0x20] }],
        },
        client_public_nonce: Vec::new(),
        server_public_nonce: Vec::new(),
        client_public_key: Vec::new(),
        server_public_key: Vec::new(),
        blinding_factor: Vec::new(),
        recipient_address: String::new(),
    }
}

fn good_chain() -> Vec<BackupTransaction> {
    vec![link(1, 1, 0, 1000), link(2, 2, 1, 856), link(3, 3, 2, 712), link(4, 4, 3, 568)]
}

#[test]
fn valid_chain_is_accepted() {
    assert_eq!(validate_chain(&good_chain(), INTERVAL), Ok(()));
}

#[test]
fn empty_and_single_chains_are_valid() {
    assert_eq!(validate_chain(&Vec::new(), INTERVAL), Ok(()));
    assert_eq!(validate_chain(&vec![link(1, 1, 0, 1000)], INTERVAL), Ok(()));
}

#[test]
fn mutated_outpoint_is_a_broken_link() {
    for k in 1..4 {
        let mut chain = good_chain();
        chain[k].tx.input[0].previous_output.txid[5] ^= 1;
        assert_eq!(validate_chain(&chain, INTERVAL), Err(ChainError::BrokenChainLink));
    }
    let mut chain = good_chain();
    chain[2].tx.input[0].previous_output.vout = 1;
    assert_eq!(validate_chain(&chain, INTERVAL), Err(ChainError::BrokenChainLink));
}

#[test]
fn link_with_two_inputs_or_a_predecessor_with_two_outputs_is_broken() {
    let mut chain = good_chain();
    let extra = chain[1].tx.input[0].clone();
    chain[1].tx.input.push(extra);
    assert_eq!(validate_chain(&chain, INTERVAL), Err(ChainError::BrokenChainLink));

    let mut chain = good_chain();
    chain[0].tx.output.push(TxOut { value: 1, script_pubkey: Vec::new() });
    assert_eq!(validate_chain(&chain, INTERVAL), Err(ChainError::BrokenChainLink));
}

#[test]
fn mutated_locktime_is_a_locktime_violation() {
    for k in 0..4 {
        let mut chain = good_chain();
        chain[k].tx.lock_time += 1;
        assert_eq!(validate_chain(&chain, INTERVAL), Err(ChainError::LocktimeViolation));
    }
}

#[test]
fn locktime_step_must_be_the_interval_exactly() {
    assert_eq!(validate_chain(&good_chain(), 143), Err(ChainError::LocktimeViolation));
    assert_eq!(validate_chain(&good_chain(), 145), Err(ChainError::LocktimeViolation));
    let rising = vec![link(1, 1, 0, 100), link(2, 2, 1, 244)];
    assert_eq!(validate_chain(&rising, INTERVAL), Err(ChainError::LocktimeViolation));
}

#[test]
fn locktime_below_the_interval_does_not_wrap() {
    let chain = vec![link(1, 1, 0, 100), link(2, 2, 1, u32::MAX - 43)];
    assert_eq!(validate_chain(&chain, INTERVAL), Err(ChainError::LocktimeViolation));
}

#[test]
fn mutated_order_is_out_of_order() {
    let mut chain = good_chain();
    chain[2].tx_n = 2;
    assert_eq!(validate_chain(&chain, INTERVAL), Err(ChainError::OutOfOrder));
    let mut chain = good_chain();
    chain[2].tx_n = 1;
    assert_eq!(validate_chain(&chain, INTERVAL), Err(ChainError::OutOfOrder));
    let mut chain = good_chain();
    chain[0].tx_n = 2;
    assert_eq!(validate_chain(&chain, INTERVAL), Err(ChainError::OutOfOrder));
}

#[test]
fn sequence_numbers_may_skip() {
    let chain = vec![link(1, 1, 0, 1000), link(5, 2, 1, 856), link(9, 3, 2, 712)];
    assert_eq!(validate_chain(&chain, INTERVAL), Ok(()));
}

#[test]
fn first_bad_pair_decides_and_outpoint_is_looked_at_first() {
    let mut chain = good_chain();
    chain[3].tx.input[0].previous_output.txid[0] ^= 1;
    chain[1].tx_n = 1;
    assert_eq!(validate_chain(&chain, INTERVAL), Err(ChainError::OutOfOrder));

    let mut chain = good_chain();
    chain[1].tx.input[0].previous_output.txid[0] ^= 1;
    chain[1].tx.lock_time = 1;
    chain[1].tx_n = 0;
    assert_eq!(validate_chain(&chain, INTERVAL), Err(ChainError::BrokenChainLink));

    let mut chain = good_chain();
    chain[1].tx.lock_time = 1;
    chain[1].tx_n = 0;
    assert_eq!(validate_chain(&chain, INTERVAL), Err(ChainError::LocktimeViolation));
}

fn regtest_address(seed: u8) -> (String, Vec<u8>) {
    let secp = bitcoin::secp256k1::Secp256k1::new();
    let keypair = bitcoin::secp256k1::KeyPair::from_seckey_slice(&secp, &[seed; 32]).unwrap();
    let address = bitcoin::Address::p2tr(
        &secp,
        keypair.x_only_public_key().0,
        None,
        bitcoin::Network::Regtest,
    );
    (address.to_string(), address.script_pubkey().to_bytes())
}

fn decoded_tip(lock_time: u32, tx_n: u32) -> BackupTransaction {
    let tx = bitcoin::Transaction {
        version: 2,
        lock_time: bitcoin::absolute::LockTime::from_consensus(lock_time),
        input: vec![bitcoin::TxIn {
            previous_output: bitcoin::OutPoint::null(),
            script_sig: bitcoin::ScriptBuf::new(),
            sequence: bitcoin::Sequence(0xFFFF_FFFE),
            witness: bitcoin::Witness::new(),
        }],
        output: vec![bitcoin::TxOut { value: 5000, script_pubkey: regtest_address(9).1.into() }],
    };
    let raw = bitcoin::consensus::encode::serialize(&tx);
    let mut tip = link(tx_n, 0, 0, lock_time);
    tip.tx = Transaction::decode(&raw).unwrap();
    tip
}

#[test]
fn extend_builds_the_next_link() {
    let (address, script) = regtest_address(7);
    let chain = vec![decoded_tip(1000, 1)];
    let next = extend(&chain, &address, "regtest", INTERVAL).unwrap();
    assert_eq!(next.tx_n, 2);
    assert_eq!(next.tx.lock_time, 856);
    assert_eq!(next.tx.version, 2);
    assert_eq!(next.tx.input.len(), 1);
    assert_eq!(next.tx.input[0].previous_output.txid, chain[0].tx.txid);
    assert_eq!(next.tx.input[0].previous_output.vout, 0);
    assert_eq!(next.tx.input[0].sequence, 0xFFFF_FFFE);
    assert!(next.tx.input[0].witness.is_empty());
    assert_eq!(next.tx.output.len(), 1);
    assert_eq!(next.tx.output[0].value, 5000);
    assert_eq!(next.tx.output[0].script_pubkey, script);
    assert_eq!(next.recipient_address, address);
    assert_eq!(next.statechain_id, "sc");
    assert!(next.client_public_nonce.is_empty());
    assert!(next.blinding_factor.is_empty());

    let reread: bitcoin::Transaction = bitcoin::consensus::encode::deserialize(&next.tx.raw).unwrap();
    assert_eq!(reread.lock_time.to_consensus_u32(), 856);
    let txid = reread.txid();
    let txid_bytes: &[u8; 32] = txid.as_ref();
    assert_eq!(next.tx.txid, txid_bytes.to_vec());

    let mut longer = chain;
    longer.push(next);
    assert_eq!(validate_chain(&longer, INTERVAL), Ok(()));
}

#[test]
fn extending_twice_keeps_the_chain_valid() {
    let mut chain = vec![decoded_tip(1000, 1)];
    for seed in 3..6 {
        let (address, _) = regtest_address(seed);
        let next = extend(&chain, &address, "regtest", INTERVAL).unwrap();
        chain.push(next);
    }
    assert_eq!(chain.len(), 4);
    assert_eq!(chain[3].tx.lock_time, 1000 - 3 * INTERVAL);
    assert_eq!(chain[3].tx_n, 4);
    assert_eq!(validate_chain(&chain, INTERVAL), Ok(()));
}

#[test]
fn extend_refuses_what_it_cannot_extend() {
    let (address, _) = regtest_address(7);
    assert_eq!(extend(&Vec::new(), &address, "regtest", INTERVAL).err(), Some(ExtendError::EmptyChain));

    let mut two_outputs = decoded_tip(1000, 1);
    two_outputs.tx.output.push(TxOut { value: 1, script_pubkey: Vec::new() });
    assert_eq!(
        extend(&vec![two_outputs], &address, "regtest", INTERVAL).err(),
        Some(ExtendError::BrokenTip)
    );

    assert_eq!(
        extend(&vec![decoded_tip(100, 1)], &address, "regtest", INTERVAL).err(),
        Some(ExtendError::LocktimeExhausted)
    );
    assert!(extend(&vec![decoded_tip(144, 1)], &address, "regtest", INTERVAL).is_ok());

    assert_eq!(
        extend(&vec![decoded_tip(1000, u32::MAX)], &address, "regtest", INTERVAL).err(),
        Some(ExtendError::SequenceExhausted)
    );
}

#[test]
fn extend_refuses_a_bad_address() {
    let (address, _) = regtest_address(7);
    let chain = vec![decoded_tip(1000, 1)];
    assert_eq!(
        extend(&chain, "not an address", "regtest", INTERVAL).err(),
        Some(ExtendError::BadAddress(AddressFault::Unreadable))
    );
    assert_eq!(
        extend(&chain, &address, "mainnet", INTERVAL).err(),
        Some(ExtendError::BadAddress(AddressFault::UnknownNetwork))
    );
    assert_eq!(
        extend(&chain, &address, "bitcoin", INTERVAL).err(),
        Some(ExtendError::BadAddress(AddressFault::OffNetwork))
    );
}

#[test]
fn decode_reads_the_fields_of_a_transaction() {
    let tip = decoded_tip(777, 1);
    assert_eq!(tip.tx.lock_time, 777);
    assert_eq!(tip.tx.version, 2);
    assert_eq!(tip.tx.txid.len(), 32);
    assert_eq!(tip.tx.input.len(), 1);
    assert_eq!(tip.tx.input[0].previous_output.txid, vec![0u8; 32]);
    assert_eq!(tip.tx.input[0].previous_output.vout, u32::MAX);
    assert_eq!(tip.tx.output[0].value, 5000);
    assert_eq!(tip.tx.output[0].script_pubkey, regtest_address(9).1);
    assert!(Transaction::decode(&vec![1, 2, 3]).is_none());
    let mut trailing = tip.tx.raw.clone();
    trailing.push(0);
    assert!(Transaction::decode(&trailing).is_none());
}

#[test]
fn a_template_that_is_not_the_one_asked_for_is_not_taken() {
    let (address, script) = regtest_address(7);
    let tip = decoded_tip(1000, 1);
    let good = extend(&vec![decoded_tip(1000, 1)], &address, "regtest", INTERVAL).unwrap().tx;
    let taken = link_from_template(&tip, Some(good.clone()), &script, 856, &address).unwrap();
    assert_eq!(taken.tx_n, 2);
    assert_eq!(taken.tx.raw, good.raw);
    assert_eq!(taken.recipient_address, address);

    let refused = |change: &dyn Fn(&mut Transaction)| {
        let mut template = good.clone();
        change(&mut template);
        link_from_template(&tip, Some(template), &script, 856, &address).err()
    };
    assert_eq!(link_from_template(&tip, None, &script, 856, &address).err(), Some(ExtendError::Encoding));
    assert_eq!(refused(&|t| t.lock_time = 857), Some(ExtendError::Encoding));
    assert_eq!(refused(&|t| t.version = 1), Some(ExtendError::Encoding));
    assert_eq!(refused(&|t| t.output[0].value = 4999), Some(ExtendError::Encoding));
    assert_eq!(refused(&|t| t.output[0].script_pubkey.push(0)), Some(ExtendError::Encoding));
    assert_eq!(refused(&|t| t.input[0].previous_output.vout = 1), Some(ExtendError::Encoding));
    assert_eq!(refused(&|t| t.input[0].previous_output.txid[0] ^= 1), Some(ExtendError::Encoding));
    assert_eq!(refused(&|t| t.input[0].sequence = 0), Some(ExtendError::Encoding));
    assert_eq!(refused(&|t| t.input[0].witness.push(vec![1])), Some(ExtendError::Encoding));
    assert_eq!(refused(&|t| t.output.clear()), Some(ExtendError::Encoding));
    assert_eq!(refused(&|_| ()), None);
    assert_eq!(
        link_from_template(&decoded_tip(1000, u32::MAX), Some(good.clone()), &script, 856, &address).err(),
        Some(ExtendError::SequenceExhausted)
    );
    assert_eq!(link_from_template(&tip, Some(good.clone()), &script, 855, &address).err(), Some(ExtendError::Encoding));
}
