use bitcoin::key::TapTweak;
use bitcoin::secp256k1::{KeyPair, Message, Secp256k1};
use statechain::chain::{validate_chain, BackupTransaction};
use statechain::coin::{CoinStatus, CoinStore, IncomingCoin};
use statechain::custodian::{Custodian, CustodianError};
use statechain::deposit::{post_deposit, DepositAction, DepositEvent, DepositMsg1, DepositStage};
use statechain::enclave::Enclave;
use statechain::payload::{StatechainInfo, StatechainInfoResponsePayload};
use statechain::token::{get_token_no_server, new_token_id, Token};
use statechain::transfer::{
    deserialize_chain, process_encrypted_message, receive, SerializedBackupTransaction, TransferMsg,
};
use statechain::tx::{OutPoint, Transaction};

const INTERVAL: u32 = 144;

fn keypair(seed: u8) -> KeyPair {
    KeyPair::from_seckey_slice(&Secp256k1::new(), &[seed; 32]).unwrap()
}

fn p2tr(key: &KeyPair) -> bitcoin::ScriptBuf {
    bitcoin::ScriptBuf::new_v1_p2tr(&Secp256k1::new(), key.x_only_public_key().0, None)
}

fn sha256(data: &[u8]) -> Vec<u8> {
    let digest = <bitcoin::hashes::sha256::Hash as bitcoin::hashes::Hash>::hash(data);
    let bytes: &[u8] = digest.as_ref();
    bytes.to_vec()
}

fn spend(
    prev: &bitcoin::Transaction,
    signer: &KeyPair,
    payee: &KeyPair,
    lock_time: u32,
) -> bitcoin::Transaction {
    let secp = Secp256k1::new();
    let spent = prev.output[0].clone();
    let mut tx = bitcoin::Transaction {
        version: 2,
        lock_time: bitcoin::absolute::LockTime::from_consensus(lock_time),
        input: vec![bitcoin::TxIn {
            previous_output: bitcoin::OutPoint::new(prev.txid(), 0),
            script_sig: bitcoin::ScriptBuf::new(),
            sequence: bitcoin::Sequence(0xFFFF_FFFE),
            witness: bitcoin::Witness::new(),
        }],
        output: vec![bitcoin::TxOut { value: spent.value, script_pubkey: p2tr(payee) }],
    };
    let hash = bitcoin::sighash::SighashCache::new(&tx)
        .taproot_key_spend_signature_hash(
            0,
            &bitcoin::sighash::Prevouts::All(&[spent]),
            bitcoin::sighash::TapSighashType::All,
        )
        .unwrap();
    let hash_bytes: &[u8; 32] = hash.as_ref();
    let tweaked = signer.tap_tweak(&secp, None).to_inner();
    let signature = secp.sign_schnorr_no_aux_rand(&Message::from_slice(hash_bytes).unwrap(), &tweaked);
    let mut element = signature.as_ref().to_vec();
    element.push(0x01);
    tx.input[0].witness = bitcoin::Witness::from_slice(&[element]);
    tx
}

fn on_the_wire(tx: &bitcoin::Transaction, tx_n: u32, owner: &KeyPair, server: &KeyPair) -> SerializedBackupTransaction {
    SerializedBackupTransaction {
        tx_n,
        tx: hex::encode(bitcoin::consensus::encode::serialize(tx)),
        client_public_nonce: hex::encode(vec![tx_n as u8; 66]),
        server_public_nonce: hex::encode(vec![0x80 | tx_n as u8; 66]),
        client_public_key: owner.public_key().to_string(),
        server_public_key: server.public_key().to_string(),
        blinding_factor: hex::encode(vec![0x40 | tx_n as u8; 32]),
    }
}

fn published(statechain_id: &str, tx_n: u32, challenge: &[u8]) -> StatechainInfo {
    StatechainInfo {
        statechain_id: String::from(statechain_id),
        r2_commitment: hex::encode(sha256(&vec![tx_n as u8; 66])),
        blind_commitment: hex::encode(sha256(&vec![0x40 | tx_n as u8; 32])),
        server_pubnonce: hex::encode(vec![0x80 | tx_n as u8; 66]),
        challenge: hex::encode(challenge),
        tx_n,
    }
}

#[test]
fn deposit_of_1000_sats_is_transferred_to_another_wallet() {
    let secp = Secp256k1::new();
    let enclaves = vec![
        Enclave { url: String::from("http://enclave-0"), allow_deposit: true },
        Enclave { url: String::from("http://enclave-1"), allow_deposit: true },
    ];
    let auth_a = keypair(1);
    let owner_a = keypair(2);
    let owner_b = keypair(3);
    let auth_b = keypair(4);
    let server = keypair(5);

    // A token, free on regtest, which the store knows as confirmed.
    let response = get_token_no_server("regtest", new_token_id()).unwrap();
    let mut token = Token::new(response.token_id.clone());
    token.confirm();

    // Admission of the statechain.
    let digest = sha256(response.token_id.as_bytes());
    let request = DepositMsg1 {
        auth_key: auth_a.x_only_public_key().0.to_string(),
        token_id: response.token_id.clone(),
        signed_token_id: secp
            .sign_schnorr_no_aux_rand(&Message::from_slice(&digest).unwrap(), &auth_a)
            .to_string(),
    };
    let step = post_deposit(DepositStage::Start, DepositEvent::Request { msg: request }, &enclaves);
    assert!(matches!(step.1, DepositAction::CheckExistingKey));
    let step = post_deposit(step.0, DepositEvent::ExistingKey { exists: false }, &enclaves);
    assert!(matches!(step.1, DepositAction::LookUpToken));
    let step = post_deposit(step.0, DepositEvent::Token { info: Some(token.info()) }, &enclaves);
    assert!(matches!(step.1, DepositAction::AskEnclave { .. }));
    let step = post_deposit(
        step.0,
        DepositEvent::EnclaveKey { answer: Ok(server.public_key().to_string()) },
        &enclaves,
    );
    let statechain_id = match step {
        (DepositStage::Finished, DepositAction::Store { response, .. }) => {
            assert_eq!(response.server_pubkey, server.public_key().to_string());
            response.statechain_id
        }
        other => panic!("unexpected {:?}", other),
    };
    assert!(token.spend());
    assert!(!token.spend());
    let mut custodian = Custodian::new();
    custodian
        .register(statechain_id.clone(), auth_a.x_only_public_key().0.serialize().to_vec())
        .unwrap();

    // The deposit: 1000 sats to address A, with the first backup transaction.
    let address_a = bitcoin::Address::p2tr(
        &secp,
        owner_a.x_only_public_key().0,
        None,
        bitcoin::Network::Regtest,
    );
    let funding = bitcoin::Transaction {
        version: 2,
        lock_time: bitcoin::absolute::LockTime::ZERO,
        input: vec![bitcoin::TxIn {
            previous_output: bitcoin::OutPoint::null(),
            script_sig: bitcoin::ScriptBuf::new(),
            sequence: bitcoin::Sequence(0xFFFF_FFFF),
            witness: bitcoin::Witness::new(),
        }],
        output: vec![bitcoin::TxOut { value: 1000, script_pubkey: address_a.script_pubkey() }],
    };
    let funding_txid = funding.txid();
    let funding_id: &[u8; 32] = funding_txid.as_ref();
    let funding_outpoint = OutPoint { txid: funding_id.to_vec(), vout: 0 };
    let mut wallet_a = CoinStore::new();
    wallet_a
        .register_deposit(
            statechain_id.clone(),
            owner_a.public_key().serialize().to_vec(),
            address_a.to_string(),
        )
        .unwrap();
    assert_eq!(
        wallet_a.confirm_utxo(
            &statechain_id,
            OutPoint { txid: funding_id.to_vec(), vout: 0 },
            1000
        ),
        Ok(0)
    );
    assert_eq!(wallet_a.status_of(&statechain_id, 0), Some(CoinStatus::Confirmed));
    let backup_1 = spend(&funding, &owner_a, &owner_a, 1000);
    let owner_key_a = auth_a.x_only_public_key().0.serialize().to_vec();
    custodian.begin_session(&statechain_id, &owner_key_a).unwrap();
    custodian.end_session(&statechain_id, true, None).unwrap();

    // The transfer of the full chain to wallet B.
    custodian.begin_session(&statechain_id, &owner_key_a).unwrap();
    assert_eq!(
        custodian.begin_session(&statechain_id, &owner_key_a),
        Err(CustodianError::SessionActive)
    );
    assert_eq!(wallet_a.transfer_send(&statechain_id, &Vec::new()), Ok(()));
    let backup_2 = spend(&backup_1, &owner_a, &owner_b, 1000 - INTERVAL);
    let owner_key_b = auth_b.x_only_public_key().0.serialize().to_vec();
    custodian.end_session(&statechain_id, true, Some(owner_key_b.clone())).unwrap();
    let message = TransferMsg {
        statechain_id: statechain_id.clone(),
        transfer_signature: String::from("signature"),
        backup_transactions: vec![
            on_the_wire(&backup_1, 1, &owner_a, &server),
            on_the_wire(&backup_2, 2, &owner_a, &server),
        ],
        t1: vec![9; 32],
    };
    let challenges = vec![sha256(b"session 1"), sha256(b"session 2")];
    let info = StatechainInfoResponsePayload {
        num_sigs: custodian.num_sigs(&statechain_id).unwrap(),
        statechain_info: vec![
            published(&statechain_id, 1, &challenges[0]),
            published(&statechain_id, 2, &challenges[1]),
        ],
    };
    assert_eq!(info.num_sigs, 2);

    // Wallet B opens what was left for it and verifies all of it.
    let ciphertext = ecies::encrypt(&auth_b.public_key().serialize(), statechain_id.as_bytes()).unwrap();
    assert_eq!(
        process_encrypted_message(&auth_b.secret_bytes().to_vec(), &hex::encode(ciphertext)),
        Ok(statechain_id.clone())
    );
    let chain: Vec<BackupTransaction> = deserialize_chain(&message).unwrap();
    assert_eq!(validate_chain(&chain, INTERVAL), Ok(()));
    let address_b = bitcoin::Address::p2tr(
        &secp,
        owner_b.x_only_public_key().0,
        None,
        bitcoin::Network::Regtest,
    );
    let mut wallet_b = CoinStore::new();
    let incoming = vec![IncomingCoin { utxo_outpoint: funding_outpoint, amount: 1000, backup_tx_n: 2 }];
    let funding_tx = Transaction::decode(&bitcoin::consensus::encode::serialize(&funding)).unwrap();
    let taken = receive(
        &mut wallet_b,
        &message,
        &address_b.to_string(),
        &incoming,
        &owner_b.public_key().serialize().to_vec(),
        &owner_b.public_key().serialize().to_vec(),
        &funding_tx,
        true,
        &info,
        &challenges,
        INTERVAL,
    );
    assert_eq!(taken, Ok(true));

    assert_eq!(wallet_b.len(), 1);
    let coin = wallet_b.get(0).unwrap();
    assert_eq!(coin.statechain_id, statechain_id);
    assert_eq!(coin.status, CoinStatus::Confirmed);
    assert_eq!(coin.amount, 1000);
    assert_eq!(coin.duplicate_index, 0);
    assert_eq!(coin.aggregated_address, address_b.to_string());

    assert!(wallet_a.complete_transfer(&statechain_id));
    assert_eq!(wallet_a.status_of(&statechain_id, 0), Some(CoinStatus::Transferred));
    assert_eq!(
        custodian.begin_session(&statechain_id, &owner_key_a),
        Err(CustodianError::NotOwner)
    );
    assert_eq!(custodian.begin_session(&statechain_id, &owner_key_b), Ok(()));
}
