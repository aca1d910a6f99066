use bitcoin::secp256k1::{KeyPair, Message, Secp256k1};
use statechain::deposit::{
    assign_statechain, post_deposit, verify_token_signature, DepositAction, DepositError,
    DepositEvent, DepositMsg1, DepositStage, Rejection,
};
use statechain::enclave::Enclave;
use statechain::token::{
    check_token_status, find_fee_payment, get_descriptor_index, get_token_from_server,
    get_token_no_server, get_token_status, has_confirmations, new_statechain_id, new_token_id,
    derive_token_address, find_hardened_wildcard, next_key_index, status_from_code,
    status_or_internal_error, token_gen, token_verify, TokenGenError, TokenError, TokenInfo, TokenRecord,
    TokenStatusResponse, Unspent, VerifyAction, VerifyEvent, VerifyOutcome, VerifyStage,
};

fn keypair(seed: u8) -> KeyPair {
    KeyPair::from_seckey_slice(&Secp256k1::new(), &[seed; 32]).unwrap()
}

fn signed_request(token_id: &str, signer: &KeyPair, claimed: &KeyPair) -> DepositMsg1 {
    let digest = <bitcoin::hashes::sha256::Hash as bitcoin::hashes::Hash>::hash(token_id.as_bytes());
    let bytes: &[u8] = digest.as_ref();
    let signature =
        Secp256k1::new().sign_schnorr_no_aux_rand(&Message::from_slice(bytes).unwrap(), signer);
    DepositMsg1 {
        auth_key: claimed.x_only_public_key().0.to_string(),
        token_id: String::from(token_id),
        signed_token_id: signature.to_string(),
    }
}

fn enclaves(flags: &[bool]) -> Vec<Enclave> {
    flags
        .iter()
        .enumerate()
        .map(|(i, allow)| Enclave { url: format!("http://enclave-{}", i), allow_deposit: *allow })
        .collect()
}

fn rejected(next: &(DepositStage, DepositAction)) -> Option<DepositError> {
    match next {
        (DepositStage::Finished, DepositAction::Reject { rejection: Rejection::Rule(e) }) => Some(*e),
        _ => None,
    }
}

#[test]
fn token_status_from_the_store() {
    assert_eq!(get_token_status(None), None);
    assert_eq!(get_token_status(Some(TokenInfo { confirmed: true, spent: false })), Some(true));
    assert_eq!(get_token_status(Some(TokenInfo { confirmed: true, spent: true })), Some(false));
    assert_eq!(get_token_status(Some(TokenInfo { confirmed: false, spent: false })), Some(false));
    assert_eq!(get_token_status(Some(TokenInfo { confirmed: false, spent: true })), Some(false));
}

#[test]
fn free_tokens_are_not_made_on_mainnet() {
    assert_eq!(
        get_token_no_server("mainnet", String::from("t")).err(),
        Some(TokenError::MainnetUnsupported)
    );
    assert_eq!(TokenError::MainnetUnsupported.status(), 500);
    assert_eq!(TokenError::MainnetUnsupported.error(), "Internal Server Error");
    assert_eq!(
        TokenError::MainnetUnsupported.message(),
        "Token generation not supported on mainnet."
    );
    let token = get_token_no_server("regtest", String::from("token-1")).unwrap();
    assert_eq!(token.token_id, "token-1");
    assert_eq!(token.payment_method, "free");
    assert_eq!(token.deposit_address, None);
    assert_eq!(token.fee, 0);
    assert_eq!(token.confirmation_target, 0);
    assert!(get_token_no_server("Mainnet", String::from("t")).is_ok());
}

#[test]
fn tokens_of_the_token_server_are_paid_on_chain() {
    let token = get_token_from_server(String::from("token-2"), String::from("bcrt1qaddr"), 10_000, 3);
    assert_eq!(token.token_id, "token-2");
    assert_eq!(token.payment_method, "onchain");
    assert_eq!(token.deposit_address, Some(String::from("bcrt1qaddr")));
    assert_eq!(token.fee, 10_000);
    assert_eq!(token.confirmation_target, 3);
}

#[test]
fn fresh_identifiers() {
    let token = new_token_id();
    assert_eq!(token.len(), 36);
    assert_eq!(token.matches('-').count(), 4);
    assert_ne!(token, new_token_id());
    let statechain = new_statechain_id();
    assert_eq!(statechain.len(), 32);
    assert!(statechain.chars().all(|c| c.is_ascii_hexdigit()));
    assert_ne!(statechain, new_statechain_id());
}

#[test]
fn relayed_statuses() {
    assert_eq!(status_from_code(None), 500);
    assert_eq!(status_from_code(Some(404)), 404);
    assert_eq!(status_from_code(Some(100)), 100);
    assert_eq!(status_from_code(Some(511)), 511);
    assert_eq!(status_from_code(Some(418)), 418);
    assert_eq!(status_from_code(Some(299)), 500);
    assert_eq!(status_from_code(Some(599)), 500);
    assert_eq!(status_from_code(Some(99)), 500);
    assert_eq!(status_from_code(Some(600)), 500);
    assert_eq!(status_from_code(Some(0)), 500);
    assert_eq!(status_or_internal_error(None), 500);
    assert_eq!(status_or_internal_error(Some(503)), 503);
}

#[test]
fn token_status_answers() {
    let good = check_token_status(Ok((true, false)));
    assert!(good.confirmed && !good.spent && !good.err);
    assert_eq!(good.status, None);
    assert_eq!(good.err_message, None);
    let spent = check_token_status(Ok((false, true)));
    assert!(!spent.confirmed && spent.spent && !spent.err);

    let failed = check_token_status(Err((Some(503), String::from("unavailable"))));
    assert!(!failed.confirmed && !failed.spent && failed.err);
    assert_eq!(failed.status, Some(503));
    assert_eq!(failed.err_message, Some(String::from("unavailable")));
    let unknown = check_token_status(Err((None, String::from("connection refused"))));
    assert_eq!(unknown.status, Some(500));
}

#[test]
fn derivation_indexes() {
    assert_eq!(next_key_index(0), Some(1));
    assert_eq!(next_key_index(41), Some(42));
    assert_eq!(next_key_index(i32::MAX as u64 - 1), Some(i32::MAX as u64));
    assert_eq!(next_key_index(i32::MAX as u64), None);
    assert_eq!(next_key_index(u64::MAX), None);
    assert_eq!(get_descriptor_index(None), 0);
    assert_eq!(get_descriptor_index(Some(17)), 17);
    assert_eq!(get_descriptor_index(Some(-1)), 0);
}

#[test]
fn the_first_output_that_pays_the_fee_is_found() {
    let list = vec![
        Unspent { value: 999, height: 5 },
        Unspent { value: 1000, height: 7 },
        Unspent { value: 1000, height: 9 },
    ];
    assert_eq!(find_fee_payment(&list, 1000), Some(Unspent { value: 1000, height: 7 }));
    assert_eq!(find_fee_payment(&list, 1001), None);
    assert_eq!(find_fee_payment(&Vec::new(), 0), None);
}

#[test]
fn confirmations_count_the_block_of_the_output() {
    assert!(has_confirmations(100, 100, 1));
    assert!(!has_confirmations(100, 100, 2));
    assert!(has_confirmations(102, 100, 3));
    assert!(!has_confirmations(102, 100, 4));
    assert!(has_confirmations(5, 100, 0));
    assert!(!has_confirmations(5, 100, 1));
    assert!(has_confirmations(usize::MAX, 1, u32::MAX));
}

fn regtest_address() -> (String, Vec<u8>) {
    let secp = Secp256k1::new();
    let address = bitcoin::Address::p2tr(
        &secp,
        keypair(7).x_only_public_key().0,
        None,
        bitcoin::Network::Regtest,
    );
    (address.to_string(), address.script_pubkey().to_bytes())
}

fn record(confirmed: bool, spent: bool, address: &str) -> VerifyEvent {
    VerifyEvent::Record {
        record: Some(TokenRecord { confirmed, spent, onchain_address: String::from(address) }),
    }
}

fn answered(next: &(VerifyStage, VerifyAction)) -> Option<(VerifyOutcome, bool)> {
    match next {
        (VerifyStage::Finished, VerifyAction::Respond { outcome, confirm }) => Some((*outcome, *confirm)),
        _ => None,
    }
}

const UNCONFIRMED: VerifyOutcome = VerifyOutcome::State { confirmed: false, spent: false };
const CONFIRMED: VerifyOutcome = VerifyOutcome::State { confirmed: true, spent: false };

#[test]
fn token_check_answers_at_once_for_known_states() {
    let (address, _) = regtest_address();
    let unknown = token_verify(VerifyStage::Lookup, VerifyEvent::Record { record: None }, "regtest", 1000, 3);
    assert_eq!(answered(&unknown), Some((VerifyOutcome::NotFound, false)));
    let spent = token_verify(VerifyStage::Lookup, record(true, true, &address), "regtest", 1000, 3);
    assert_eq!(
        answered(&spent),
        Some((VerifyOutcome::State { confirmed: true, spent: true }, false))
    );
    let confirmed = token_verify(VerifyStage::Lookup, record(true, false, &address), "regtest", 1000, 3);
    assert_eq!(answered(&confirmed), Some((CONFIRMED, false)));
    let only_spent = token_verify(VerifyStage::Lookup, record(false, true, "x"), "regtest", 1000, 3);
    assert_eq!(
        answered(&only_spent),
        Some((VerifyOutcome::State { confirmed: false, spent: true }, false))
    );
}

#[test]
fn token_check_reads_the_address() {
    let (address, script) = regtest_address();
    let next = token_verify(VerifyStage::Lookup, record(false, false, &address), "regtest", 1000, 3);
    match next {
        (VerifyStage::Listing, VerifyAction::ListUnspent { script: got }) => assert_eq!(got, script),
        other => panic!("unexpected {:?}", other),
    }
    let unreadable = token_verify(VerifyStage::Lookup, record(false, false, "nonsense"), "regtest", 1000, 3);
    assert_eq!(answered(&unreadable), Some((VerifyOutcome::AddressUnreadable, false)));
    let off = token_verify(VerifyStage::Lookup, record(false, false, &address), "bitcoin", 1000, 3);
    assert_eq!(answered(&off), Some((VerifyOutcome::AddressOffNetwork, false)));
    let no_net = token_verify(VerifyStage::Lookup, record(false, false, &address), "moon", 1000, 3);
    assert_eq!(answered(&no_net), Some((VerifyOutcome::AddressOffNetwork, false)));
}

#[test]
fn token_check_looks_for_the_fee() {
    let list = |l: Vec<Unspent>| VerifyEvent::Unspent { list: Some(l) };
    let failed = token_verify(VerifyStage::Listing, VerifyEvent::Unspent { list: None }, "regtest", 1000, 3);
    assert_eq!(answered(&failed), Some((VerifyOutcome::UtxoListFailed, false)));

    let unpaid = token_verify(
        VerifyStage::Listing,
        list(vec![Unspent { value: 999, height: 10 }, Unspent { value: 1001, height: 10 }]),
        "regtest",
        1000,
        3,
    );
    assert_eq!(answered(&unpaid), Some((UNCONFIRMED, false)));

    let no_target = token_verify(
        VerifyStage::Listing,
        list(vec![Unspent { value: 1000, height: 0 }]),
        "regtest",
        1000,
        0,
    );
    assert_eq!(answered(&no_target), Some((CONFIRMED, true)));

    let in_mempool = token_verify(
        VerifyStage::Listing,
        list(vec![Unspent { value: 1000, height: 0 }, Unspent { value: 1000, height: 50 }]),
        "regtest",
        1000,
        3,
    );
    assert_eq!(answered(&in_mempool), Some((UNCONFIRMED, false)));

    let mined = token_verify(
        VerifyStage::Listing,
        list(vec![Unspent { value: 1, height: 3 }, Unspent { value: 1000, height: 50 }]),
        "regtest",
        1000,
        3,
    );
    match mined {
        (VerifyStage::Height { utxo_height: 50 }, VerifyAction::FetchTip) => {}
        other => panic!("unexpected {:?}", other),
    }
}

#[test]
fn token_check_counts_confirmations() {
    let at = |tip: Option<usize>| {
        token_verify(VerifyStage::Height { utxo_height: 50 }, VerifyEvent::Tip { height: tip }, "regtest", 1000, 3)
    };
    assert_eq!(answered(&at(None)), Some((VerifyOutcome::HeaderFailed, false)));
    assert_eq!(answered(&at(Some(51))), Some((UNCONFIRMED, false)));
    assert_eq!(answered(&at(Some(52))), Some((CONFIRMED, true)));
    assert_eq!(answered(&at(Some(500))), Some((CONFIRMED, true)));
    assert_eq!(answered(&at(Some(49))), Some((UNCONFIRMED, false)));
}

#[test]
fn token_check_refuses_what_comes_out_of_turn() {
    let next = token_verify(VerifyStage::Lookup, VerifyEvent::Tip { height: Some(1) }, "regtest", 1000, 3);
    assert_eq!(answered(&next), Some((VerifyOutcome::OutOfTurn, false)));
    let done = token_verify(VerifyStage::Finished, VerifyEvent::Record { record: None }, "regtest", 1000, 3);
    assert_eq!(answered(&done), Some((VerifyOutcome::OutOfTurn, false)));
}

#[test]
fn token_check_outcomes_have_status_and_text() {
    assert_eq!(VerifyOutcome::NotFound.status(), 404);
    assert_eq!(
        VerifyOutcome::NotFound.message(),
        Some(String::from("Token not found in the database."))
    );
    assert_eq!(CONFIRMED.status(), 200);
    assert_eq!(CONFIRMED.message(), None);
    assert_eq!(VerifyOutcome::AddressUnreadable.status(), 500);
    assert_eq!(
        VerifyOutcome::AddressUnreadable.message(),
        Some(String::from("Invalid onchain address (network unchecked)."))
    );
    assert_eq!(
        VerifyOutcome::AddressOffNetwork.message(),
        Some(String::from("Invalid onchain address (network checked)."))
    );
    assert_eq!(
        VerifyOutcome::UtxoListFailed.message(),
        Some(String::from("Error fetching UTXO list."))
    );
    assert_eq!(
        VerifyOutcome::HeaderFailed.message(),
        Some(String::from("Error fetching block header."))
    );
    assert_eq!(VerifyOutcome::OutOfTurn.status(), 500);
    assert!(VerifyOutcome::OutOfTurn.message().is_some());
}

#[test]
fn a_request_must_be_signed_with_the_authentication_key() {
    let owner = keypair(21);
    assert!(verify_token_signature(&signed_request("token-1", &owner, &owner)));
    assert!(!verify_token_signature(&signed_request("token-1", &keypair(22), &owner)));

    let mut other_token = signed_request("token-1", &owner, &owner);
    other_token.token_id = String::from("token-2");
    assert!(!verify_token_signature(&other_token));

    let mut not_hex = signed_request("token-1", &owner, &owner);
    not_hex.signed_token_id = String::from("signature");
    assert!(!verify_token_signature(&not_hex));

    let mut short_key = signed_request("token-1", &owner, &owner);
    short_key.auth_key.truncate(62);
    assert!(!verify_token_signature(&short_key));

    let mut upper = signed_request("token-1", &owner, &owner);
    upper.signed_token_id = upper.signed_token_id.to_uppercase();
    assert!(verify_token_signature(&upper));
}

#[test]
fn admission_of_a_confirmed_token() {
    let owner = keypair(21);
    let all = enclaves(&[true, true, true]);
    let first = post_deposit(
        DepositStage::Start,
        DepositEvent::Request { msg: signed_request("token-1", &owner, &owner) },
        &all,
    );
    assert!(matches!(first, (DepositStage::KeyCheck, DepositAction::CheckExistingKey)));
    let second = post_deposit(first.0, DepositEvent::ExistingKey { exists: false }, &all);
    assert!(matches!(second, (DepositStage::TokenLookup, DepositAction::LookUpToken)));
    let third = post_deposit(
        second.0,
        DepositEvent::Token { info: Some(TokenInfo { confirmed: true, spent: false }) },
        &all,
    );
    let (statechain_id, enclave_index) = match &third {
        (
            DepositStage::EnclaveKey { statechain_id, enclave_index },
            DepositAction::AskEnclave { enclave_index: asked, statechain_id: asked_id },
        ) => {
            assert_eq!(statechain_id, asked_id);
            assert_eq!(enclave_index, asked);
            (statechain_id.clone(), *enclave_index)
        }
        other => panic!("unexpected {:?}", other),
    };
    assert_eq!(statechain_id.len(), 32);
    assert_eq!(
        enclave_index,
        statechain::enclave::get_enclave_index_from_statechain_id(&statechain_id, 3)
    );

    let server = keypair(90).public_key();
    let last = post_deposit(
        third.0,
        DepositEvent::EnclaveKey { answer: Ok(format!("0x{}", server)) },
        &all,
    );
    match last {
        (DepositStage::Finished, DepositAction::Store { server_pubkey, enclave_index: stored, response }) => {
            assert_eq!(server_pubkey, server.serialize().to_vec());
            assert_eq!(stored, enclave_index);
            assert_eq!(response.server_pubkey, server.to_string());
            assert_eq!(response.statechain_id, statechain_id);
        }
        other => panic!("unexpected {:?}", other),
    }
}

#[test]
fn the_enclave_key_is_read_with_and_without_prefix() {
    let all = enclaves(&[true]);
    let server = keypair(90).public_key();
    let stage = || DepositStage::EnclaveKey { statechain_id: String::from("id"), enclave_index: 0 };
    for text in [server.to_string(), format!("0x{}", server), server.to_string().to_uppercase()] {
        let next = post_deposit(stage(), DepositEvent::EnclaveKey { answer: Ok(text) }, &all);
        match next {
            (DepositStage::Finished, DepositAction::Store { response, .. }) => {
                assert_eq!(response.server_pubkey, server.to_string())
            }
            other => panic!("unexpected {:?}", other),
        }
    }
    for text in ["", "0x", "0X02", "xyz", "0x0x02"] {
        let next =
            post_deposit(stage(), DepositEvent::EnclaveKey { answer: Ok(String::from(text)) }, &all);
        assert_eq!(rejected(&next), Some(DepositError::MalformedServerKey));
    }
    let failed = post_deposit(
        stage(),
        DepositEvent::EnclaveKey { answer: Err(String::from("connection refused")) },
        &all,
    );
    match failed {
        (DepositStage::Finished, DepositAction::Reject { rejection }) => {
            assert_eq!(rejection.status(), 500);
            assert_eq!(rejection.message(), "connection refused");
            assert!(matches!(rejection, Rejection::Enclave { .. }));
        }
        other => panic!("unexpected {:?}", other),
    }
}

#[test]
fn every_refusal_has_its_input() {
    let owner = keypair(21);
    let all = enclaves(&[true, true, true]);
    let unsigned = post_deposit(
        DepositStage::Start,
        DepositEvent::Request { msg: signed_request("token-1", &keypair(22), &owner) },
        &all,
    );
    assert_eq!(rejected(&unsigned), Some(DepositError::InvalidSignature));

    let taken = post_deposit(DepositStage::KeyCheck, DepositEvent::ExistingKey { exists: true }, &all);
    assert_eq!(rejected(&taken), Some(DepositError::KeyAlreadyAssigned));

    let token = |info| post_deposit(DepositStage::TokenLookup, DepositEvent::Token { info }, &all);
    assert_eq!(rejected(&token(None)), Some(DepositError::TokenNotFound));
    assert_eq!(
        rejected(&token(Some(TokenInfo { confirmed: true, spent: true }))),
        Some(DepositError::TokenSpent)
    );
    assert_eq!(
        rejected(&token(Some(TokenInfo { confirmed: false, spent: true }))),
        Some(DepositError::TokenSpent)
    );
    assert!(matches!(
        token(Some(TokenInfo { confirmed: false, spent: false })),
        (DepositStage::TokenStatus, DepositAction::QueryTokenStatus)
    ));

    let status = |s: TokenStatusResponse| {
        post_deposit(DepositStage::TokenStatus, DepositEvent::Status { status: s }, &all)
    };
    assert_eq!(rejected(&status(check_token_status(Ok((true, true))))), Some(DepositError::TokenSpent));
    assert_eq!(
        rejected(&status(check_token_status(Ok((false, false))))),
        Some(DepositError::TokenNotConfirmed)
    );
    assert!(matches!(
        status(check_token_status(Ok((true, false)))),
        (DepositStage::EnclaveKey { .. }, DepositAction::AskEnclave { .. })
    ));
    match status(check_token_status(Err((Some(502), String::from("bad gateway"))))) {
        (DepositStage::Finished, DepositAction::Reject { rejection }) => {
            assert_eq!(rejection.status(), 502);
            assert_eq!(rejection.message(), "bad gateway");
        }
        other => panic!("unexpected {:?}", other),
    }

    let none = enclaves(&[false, false]);
    let stranded = post_deposit(
        DepositStage::TokenLookup,
        DepositEvent::Token { info: Some(TokenInfo { confirmed: true, spent: false }) },
        &none,
    );
    assert_eq!(rejected(&stranded), Some(DepositError::NoEnclaveAvailable));

    let out_of_turn = post_deposit(DepositStage::Start, DepositEvent::ExistingKey { exists: false }, &all);
    assert_eq!(rejected(&out_of_turn), Some(DepositError::OutOfTurn));
    let finished = post_deposit(DepositStage::Finished, DepositEvent::Token { info: None }, &all);
    assert_eq!(rejected(&finished), Some(DepositError::OutOfTurn));
}

#[test]
fn a_statechain_goes_to_its_enclave() {
    let retired = enclaves(&[false, false, false, true, true]);
    match assign_statechain(String::from("abc"), &retired) {
        (
            DepositStage::EnclaveKey { statechain_id, enclave_index: 3 },
            DepositAction::AskEnclave { enclave_index: 3, statechain_id: asked },
        ) => {
            assert_eq!(statechain_id, "abc");
            assert_eq!(asked, "abc");
        }
        other => panic!("unexpected {:?}", other),
    }
    let all = enclaves(&[true, true, true, true, true]);
    assert!(matches!(
        assign_statechain(String::from("abc"), &all),
        (DepositStage::EnclaveKey { enclave_index: 1, .. }, DepositAction::AskEnclave { enclave_index: 1, .. })
    ));
}

#[test]
fn refusals_have_status_and_text() {
    let cases = [
        (DepositError::InvalidSignature, 500, "Signature does not match authentication key."),
        (
            DepositError::KeyAlreadyAssigned,
            400,
            "The authentication key is already assigned to a statecoin.",
        ),
        (DepositError::TokenNotFound, 404, "Token ID not found."),
        (DepositError::TokenSpent, 410, "Token already spent."),
        (DepositError::TokenNotConfirmed, 410, "Token not confirmed."),
        (
            DepositError::NoEnclaveAvailable,
            500,
            "No valid enclave found with allow_deposit set to true",
        ),
        (DepositError::MalformedServerKey, 500, "The enclave returned no public key."),
        (DepositError::OutOfTurn, 500, "Unexpected step in deposit admission."),
    ];
    for (error, status, text) in cases {
        assert_eq!(error.status(), status);
        assert_eq!(error.message(), text);
        assert_eq!(Rejection::Rule(error).status(), status);
        assert_eq!(Rejection::Rule(error).message(), text);
    }
}

#[test]
fn a_token_pays_for_one_statechain() {
    let mut token = statechain::token::Token::new(String::from("token-1"));
    assert_eq!(token.info(), TokenInfo { confirmed: false, spent: false });
    assert!(!token.spend());
    assert!(!token.spent);
    token.confirm();
    assert_eq!(token.info(), TokenInfo { confirmed: true, spent: false });
    assert!(token.spend());
    assert_eq!(token.info(), TokenInfo { confirmed: true, spent: true });
    assert!(!token.spend());
    assert!(token.spent);
    assert_eq!(token.token_id, "token-1");
}

#[test]
fn the_checksum_stands_behind_the_first_hash() {
    use_checksum("wpkh([656a457c/84'/1'/0']tpubD/0/*)#vn0n5xcd", Some("vn0n5xcd"));
    use_checksum("no checksum", None);
    use_checksum("", None);
    use_checksum("#", Some(""));
    use_checksum("abc#", Some(""));
    use_checksum("#abc", Some("abc"));
    use_checksum("a#b#c", Some("b"));
    use_checksum("a##c", Some(""));
    use_checksum("é#ü#", Some("ü"));
}

fn use_checksum(text: &str, expected: Option<&str>) {
    assert_eq!(statechain::token::descriptor_checksum(text), expected.map(String::from));
    assert_eq!(text.split('#').nth(1).map(String::from), expected.map(String::from));
}

const DESCRIPTOR: &str = "wpkh([656a457c/84'/1'/0']tpubDCTXiLu1wcqUwQK6QMPPUTBzbRjsqMABzCvd5vG22KGoA95cTG1VkszQQJyx24UP8KEJVKrKRDRtUPodHVV59CfNqUkXjKUagowHJVSWq4C/0/*)#vn0n5xcd";

fn address_of(descriptor: &str, index: u32) -> String {
    let parsed = <miniscript::Descriptor<miniscript::DescriptorPublicKey> as std::str::FromStr>::from_str(
        descriptor,
    )
    .unwrap();
    parsed
        .at_derivation_index(index)
        .unwrap()
        .address(miniscript::bitcoin::Network::Regtest)
        .unwrap()
        .to_string()
}

#[test]
fn a_new_token_gets_the_address_at_the_next_index() {
    for key_index in [0u64, 1, 41] {
        let (index, address) = token_gen(key_index, DESCRIPTOR, "regtest").unwrap();
        assert_eq!(index, key_index + 1);
        assert_eq!(address, address_of(DESCRIPTOR, index as u32));
        assert!(address.starts_with("bcrt1q"));
    }
    let first = token_gen(0, DESCRIPTOR, "regtest").unwrap().1;
    let second = token_gen(1, DESCRIPTOR, "regtest").unwrap().1;
    assert_ne!(first, second);
    assert_eq!(derive_token_address(DESCRIPTOR, 7, "regtest"), Ok(address_of(DESCRIPTOR, 7)));
    assert!(derive_token_address(DESCRIPTOR, 7, "bitcoin").unwrap().starts_with("bc1q"));
}

#[test]
fn token_generation_refusals() {
    assert_eq!(
        token_gen(i32::MAX as u64, DESCRIPTOR, "regtest"),
        Err(TokenGenError::IndexExhausted)
    );
    assert_eq!(token_gen(0, "no descriptor", "regtest"), Err(TokenGenError::NoAddress));
    assert_eq!(token_gen(0, DESCRIPTOR, "moon"), Err(TokenGenError::NoAddress));
    assert_eq!(
        derive_token_address(DESCRIPTOR, 1 << 31, "regtest"),
        Err(TokenGenError::NoAddress)
    );
    let key = "tpubDCTXiLu1wcqUwQK6QMPPUTBzbRjsqMABzCvd5vG22KGoA95cTG1VkszQQJyx24UP8KEJVKrKRDRtUPodHVV59CfNqUkXjKUagowHJVSWq4C";
    for path in ["/0/*'", "/0/*h", "/0'/*", "/0h/1/*", "/0'/1"] {
        let hardened = format!("wpkh({}{})", key, path);
        assert_eq!(
            token_gen(0, &hardened, "regtest"),
            Err(TokenGenError::HardenedDerivation),
            "{}",
            path
        );
    }
    let fixed = format!("wpkh({}/0/5)", key);
    assert_eq!(token_gen(0, &fixed, "regtest").map(|made| made.1), Ok(address_of(&fixed, 1)));
}

#[test]
fn hardened_wildcards_are_found_in_the_text() {
    assert!(find_hardened_wildcard("a/*'"));
    assert!(find_hardened_wildcard("*h)"));
    assert!(!find_hardened_wildcard("a/*"));
    assert!(!find_hardened_wildcard("84'/1h/*)#h"));
    assert!(!find_hardened_wildcard(""));
    assert!(!find_hardened_wildcard("*"));
    assert!(!find_hardened_wildcard("'*"));
}
