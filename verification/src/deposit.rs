//! Admission of a new statechain by the deposit server: the request must be
//! signed with the authentication key, the key must be new, and the token
//! must be confirmed and unspent. The statechain then gets an identifier and
//! an enclave, and the enclave's public key is asked for.

use vstd::prelude::*;
use vstd::utf8::encode_utf8;
use crate::enclave::{any_accepts, assigned_enclave, get_random_enclave_index, Enclave};
use crate::hashing::{sha256, sha256_digest};
use crate::hexcode::{hex_decode, hex_decoding, hex_encode, hex_encoding};
use crate::signature::{parse_public_key, parsed_public_key, schnorr_valid, schnorr_verify};
use crate::text::{strip_hex_prefix, without_hex_prefix};
use crate::token::{
    new_statechain_id,
    TokenInfo,
    TokenStatusResponse,
    STATUS_BAD_REQUEST,
    STATUS_GONE,
    STATUS_INTERNAL_SERVER_ERROR,
    STATUS_NOT_FOUND,
};

verus! {

/// The request for a new statechain.
#[derive(Debug)]
pub struct DepositMsg1 {
    /// The x-only authentication key of the owner, in hexadecimal.
    pub auth_key: String,
    pub token_id: String,
    /// Schnorr signature of the SHA-256 digest of the token's identifier
    /// under the authentication key, in hexadecimal.
    pub signed_token_id: String,
}

/// The answer to an admitted request.
#[derive(Debug)]
pub struct DepositMsg1Response {
    /// The enclave's public key for the statechain, in hexadecimal.
    pub server_pubkey: String,
    pub statechain_id: String,
}

/// Why a request for a new statechain is refused by the server's own rules.
#[derive(Clone, Copy, Debug, PartialEq, Eq, Structural)]
pub enum DepositError {
    /// The signature is not one of the token's identifier under the key.
    InvalidSignature,
    /// The authentication key already has a statechain.
    KeyAlreadyAssigned,
    /// The store does not know the token.
    TokenNotFound,
    /// The token has paid for a statechain already.
    TokenSpent,
    /// The token is not paid for yet.
    TokenNotConfirmed,
    /// No enclave accepts deposits.
    NoEnclaveAvailable,
    /// The enclave's answer holds no public key.
    MalformedServerKey,
    /// What came back does not answer what was asked for.
    OutOfTurn,
}

/// A refusal: one by the server's own rules, or one that passes on the
/// failure of another service.
#[derive(Debug)]
pub enum Rejection {
    Rule(DepositError),
    /// The token server could not be asked.
    TokenService { status: u16, message: String },
    /// The enclave could not be asked.
    Enclave { message: String },
}

/// Where the admission of a request stands.
#[derive(Debug)]
pub enum DepositStage {
    /// The request has not been looked at.
    Start,
    /// The store is being asked whether the key has a statechain.
    KeyCheck,
    /// The token is being looked up in the store.
    TokenLookup,
    /// The token server is being asked about the token.
    TokenStatus,
    /// The enclave is being asked for its public key.
    EnclaveKey { statechain_id: String, enclave_index: usize },
    /// The admission has ended.
    Finished,
}

/// What came back from outside for the admission of a request.
#[derive(Debug)]
pub enum DepositEvent {
    /// The request itself.
    Request { msg: DepositMsg1 },
    /// Whether the authentication key has a statechain.
    ExistingKey { exists: bool },
    /// The store's record of the token.
    Token { info: Option<TokenInfo> },
    /// The token server's answer.
    Status { status: TokenStatusResponse },
    /// The enclave's public key as text, or the text of the failure to ask.
    EnclaveKey { answer: Result<String, String> },
}

/// What is to be done next for the admission of a request.
#[derive(Debug)]
pub enum DepositAction {
    /// Ask the store whether the authentication key has a statechain.
    CheckExistingKey,
    /// Look the token up in the store.
    LookUpToken,
    /// Ask the token server about the token.
    QueryTokenStatus,
    /// Ask the enclave at `enclave_index` for its public key for the
    /// statechain.
    AskEnclave { enclave_index: usize, statechain_id: String },
    /// Record the statechain with the enclave's public key, mark the token
    /// spent, and answer.
    Store { server_pubkey: Vec<u8>, enclave_index: usize, response: DepositMsg1Response },
    /// Refuse.
    Reject { rejection: Rejection },
}

impl DepositError {
    /// The status that the refusal carries.
    pub open spec fn status_spec(&self) -> u16 {
        match self {
            DepositError::KeyAlreadyAssigned => STATUS_BAD_REQUEST,
            DepositError::TokenNotFound => STATUS_NOT_FOUND,
            DepositError::TokenSpent => STATUS_GONE,
            DepositError::TokenNotConfirmed => STATUS_GONE,
            _ => STATUS_INTERNAL_SERVER_ERROR,
        }
    }

    /// The text that the refusal carries.
    pub open spec fn message_spec(&self) -> Seq<char> {
        match self {
            DepositError::InvalidSignature => "Signature does not match authentication key."@,
            DepositError::KeyAlreadyAssigned => "The authentication key is already assigned to a statecoin."@,
            DepositError::TokenNotFound => "Token ID not found."@,
            DepositError::TokenSpent => "Token already spent."@,
            DepositError::TokenNotConfirmed => "Token not confirmed."@,
            DepositError::NoEnclaveAvailable => "No valid enclave found with allow_deposit set to true"@,
            DepositError::MalformedServerKey => "The enclave returned no public key."@,
            DepositError::OutOfTurn => "Unexpected step in deposit admission."@,
        }
    }

    /// The status that the refusal carries.
    pub fn status(&self) -> (code: u16)
        ensures
            code == self.status_spec(),
    {
        match self {
            DepositError::KeyAlreadyAssigned => STATUS_BAD_REQUEST,
            DepositError::TokenNotFound => STATUS_NOT_FOUND,
            DepositError::TokenSpent => STATUS_GONE,
            DepositError::TokenNotConfirmed => STATUS_GONE,
            _ => STATUS_INTERNAL_SERVER_ERROR,
        }
    }

    /// The text that the refusal carries.
    pub fn message(&self) -> (text: String)
        ensures
            text@ == self.message_spec(),
    {
        match self {
            DepositError::InvalidSignature => String::from_str(
                "Signature does not match authentication key.",
            ),
            DepositError::KeyAlreadyAssigned => String::from_str(
                "The authentication key is already assigned to a statecoin.",
            ),
            DepositError::TokenNotFound => String::from_str("Token ID not found."),
            DepositError::TokenSpent => String::from_str("Token already spent."),
            DepositError::TokenNotConfirmed => String::from_str("Token not confirmed."),
            DepositError::NoEnclaveAvailable => String::from_str(
                "No valid enclave found with allow_deposit set to true",
            ),
            DepositError::MalformedServerKey => String::from_str(
                "The enclave returned no public key.",
            ),
            DepositError::OutOfTurn => String::from_str("Unexpected step in deposit admission."),
        }
    }
}

impl Rejection {
    /// The status that the refusal carries.
    pub open spec fn status_spec(&self) -> u16 {
        match self {
            Rejection::Rule(e) => e.status_spec(),
            Rejection::TokenService { status, .. } => *status,
            Rejection::Enclave { .. } => STATUS_INTERNAL_SERVER_ERROR,
        }
    }

    /// The status that the refusal carries.
    pub fn status(&self) -> (code: u16)
        ensures
            code == self.status_spec(),
    {
        match self {
            Rejection::Rule(e) => e.status(),
            Rejection::TokenService { status, .. } => *status,
            Rejection::Enclave { .. } => STATUS_INTERNAL_SERVER_ERROR,
        }
    }

    /// The text that the refusal carries.
    pub fn message(&self) -> (text: String)
        ensures
            text@ == (match self {
                Rejection::Rule(e) => e.message_spec(),
                Rejection::TokenService { message, .. } => message@,
                Rejection::Enclave { message } => message@,
            }),
    {
        match self {
            Rejection::Rule(e) => e.message(),
            Rejection::TokenService { message, .. } => message.clone(),
            Rejection::Enclave { message } => message.clone(),
        }
    }
}

/// Whether the request is signed: the signature and the key must be
/// hexadecimal, and the signature a valid one of the SHA-256 digest of the
/// token's identifier under the key.
pub open spec fn token_signature_valid(msg: &DepositMsg1) -> bool {
    match (hex_decoding(msg.signed_token_id@), hex_decoding(msg.auth_key@)) {
        (Some(signature), Some(key)) => schnorr_valid(
            signature,
            sha256(encode_utf8(msg.token_id@)),
            key,
        ),
        _ => false,
    }
}

/// Checks the signature of a request.
pub fn verify_token_signature(msg: &DepositMsg1) -> (valid: bool)
    ensures
        valid == token_signature_valid(msg),
{
    let signature = match hex_decode(msg.signed_token_id.as_str()) {
        Some(signature) => signature,
        None => {
            return false;
        },
    };
    let key = match hex_decode(msg.auth_key.as_str()) {
        Some(key) => key,
        None => {
            return false;
        },
    };
    let digest = sha256_digest(msg.token_id.as_str().as_bytes());
    schnorr_verify(signature.as_slice(), digest.as_slice(), key.as_slice())
}

/// The refusal by a rule, which ends the admission.
pub open spec fn refused(stage: DepositStage, action: DepositAction, error: DepositError) -> bool {
    stage == DepositStage::Finished && action == (DepositAction::Reject {
        rejection: Rejection::Rule(error),
    })
}

/// What follows once the token is found good: the statechain is assigned to
/// an enclave, which is asked for its public key; where no enclave accepts
/// deposits the request is refused.
pub open spec fn admitted(
    statechain_id: String,
    enclaves: Seq<Enclave>,
    stage: DepositStage,
    action: DepositAction,
) -> bool {
    if any_accepts(enclaves) {
        &&& stage matches DepositStage::EnclaveKey { statechain_id: id, enclave_index: index }
        &&& id == statechain_id
        &&& assigned_enclave(statechain_id@, enclaves, index as int)
        &&& action == (DepositAction::AskEnclave { enclave_index: index, statechain_id })
    } else {
        refused(stage, action, DepositError::NoEnclaveAvailable)
    }
}

/// Assigns a statechain to an enclave and asks that enclave for its key.
pub fn assign_statechain(statechain_id: String, enclaves: &Vec<Enclave>) -> (next: (
    DepositStage,
    DepositAction,
))
    ensures
        admitted(statechain_id, enclaves@, next.0, next.1),
{
    match get_random_enclave_index(statechain_id.as_str(), enclaves) {
        Ok(index) => (
            DepositStage::EnclaveKey { statechain_id: statechain_id.clone(), enclave_index: index },
            DepositAction::AskEnclave { enclave_index: index, statechain_id },
        ),
        Err(_) => (
            DepositStage::Finished,
            DepositAction::Reject { rejection: Rejection::Rule(DepositError::NoEnclaveAvailable) },
        ),
    }
}

/// What the store's record of the token leads to.
pub open spec fn after_token(
    info: Option<TokenInfo>,
    enclaves: Seq<Enclave>,
    stage: DepositStage,
    action: DepositAction,
) -> bool {
    match info {
        None => refused(stage, action, DepositError::TokenNotFound),
        Some(i) => if i.spent {
            refused(stage, action, DepositError::TokenSpent)
        } else if !i.confirmed {
            stage == DepositStage::TokenStatus && action == DepositAction::QueryTokenStatus
        } else {
            exists|id: String| id@.len() == 32 && admitted(id, enclaves, stage, action)
        },
    }
}

/// What the token server's answer leads to.
pub open spec fn after_status(
    status: TokenStatusResponse,
    enclaves: Seq<Enclave>,
    stage: DepositStage,
    action: DepositAction,
) -> bool {
    if status.err {
        &&& stage == DepositStage::Finished
        &&& action matches DepositAction::Reject {
            rejection: Rejection::TokenService { status: code, message },
        }
        &&& code == (match status.status {
            Some(c) => c,
            None => STATUS_INTERNAL_SERVER_ERROR,
        })
        &&& message@ == (match status.err_message {
            Some(m) => m@,
            None => Seq::<char>::empty(),
        })
    } else if status.spent {
        refused(stage, action, DepositError::TokenSpent)
    } else if !status.confirmed {
        refused(stage, action, DepositError::TokenNotConfirmed)
    } else {
        exists|id: String| id@.len() == 32 && admitted(id, enclaves, stage, action)
    }
}

/// What the enclave's answer leads to: the statechain is recorded with the
/// key that the answer spells, with or without a leading `0x`, and the
/// client is told the key in lower-case hexadecimal.
pub open spec fn after_enclave_key(
    statechain_id: String,
    enclave_index: usize,
    answer: Result<String, String>,
    stage: DepositStage,
    action: DepositAction,
) -> bool {
    match answer {
        Err(text) => {
            &&& stage == DepositStage::Finished
            &&& action matches DepositAction::Reject { rejection: Rejection::Enclave { message } }
            &&& message == text
        },
        Ok(text) => match parsed_public_key(without_hex_prefix(text@)) {
            None => refused(stage, action, DepositError::MalformedServerKey),
            Some(key) => {
                &&& stage == DepositStage::Finished
                &&& action matches DepositAction::Store { server_pubkey, enclave_index: index, response }
                &&& server_pubkey@ == key
                &&& index == enclave_index
                &&& response.server_pubkey@ == hex_encoding(key)
                &&& response.statechain_id == statechain_id
            },
        },
    }
}

/// What a step of the admission owes: the next stage and what is to be done,
/// for a stage and what came back for it. What comes back out of turn ends
/// the admission with a refusal.
pub open spec fn deposit_step(
    stage: DepositStage,
    event: DepositEvent,
    enclaves: Seq<Enclave>,
    next_stage: DepositStage,
    action: DepositAction,
) -> bool {
    match (stage, event) {
        (DepositStage::Start, DepositEvent::Request { msg }) => if token_signature_valid(&msg) {
            next_stage == DepositStage::KeyCheck && action == DepositAction::CheckExistingKey
        } else {
            refused(next_stage, action, DepositError::InvalidSignature)
        },
        (DepositStage::KeyCheck, DepositEvent::ExistingKey { exists }) => if exists {
            refused(next_stage, action, DepositError::KeyAlreadyAssigned)
        } else {
            next_stage == DepositStage::TokenLookup && action == DepositAction::LookUpToken
        },
        (DepositStage::TokenLookup, DepositEvent::Token { info }) => after_token(
            info,
            enclaves,
            next_stage,
            action,
        ),
        (DepositStage::TokenStatus, DepositEvent::Status { status }) => after_status(
            status,
            enclaves,
            next_stage,
            action,
        ),
        (
            DepositStage::EnclaveKey { statechain_id, enclave_index },
            DepositEvent::EnclaveKey { answer },
        ) => after_enclave_key(statechain_id, enclave_index, answer, next_stage, action),
        _ => refused(next_stage, action, DepositError::OutOfTurn),
    }
}

/// One step of the admission of a new statechain. The server checks the
/// signature of the request, asks its store whether the key is new and what
/// it knows of the token, asks the token server where the token is not
/// confirmed, and asks the chosen enclave for its public key, in that order
/// and as far as needed; this function says after each what comes next.
pub fn post_deposit(stage: DepositStage, event: DepositEvent, enclaves: &Vec<Enclave>) -> (next: (
    DepositStage,
    DepositAction,
))
    ensures
        deposit_step(stage, event, enclaves@, next.0, next.1),
{
    match (stage, event) {
        (DepositStage::Start, DepositEvent::Request { msg }) => {
            if verify_token_signature(&msg) {
                (DepositStage::KeyCheck, DepositAction::CheckExistingKey)
            } else {
                reject(DepositError::InvalidSignature)
            }
        },
        (DepositStage::KeyCheck, DepositEvent::ExistingKey { exists }) => {
            if exists {
                reject(DepositError::KeyAlreadyAssigned)
            } else {
                (DepositStage::TokenLookup, DepositAction::LookUpToken)
            }
        },
        (DepositStage::TokenLookup, DepositEvent::Token { info }) => {
            match info {
                None => reject(DepositError::TokenNotFound),
                Some(info) => {
                    if info.spent {
                        reject(DepositError::TokenSpent)
                    } else if !info.confirmed {
                        (DepositStage::TokenStatus, DepositAction::QueryTokenStatus)
                    } else {
                        assign_statechain(new_statechain_id(), enclaves)
                    }
                },
            }
        },
        (DepositStage::TokenStatus, DepositEvent::Status { status }) => {
            if status.err {
                let code = match status.status {
                    Some(code) => code,
                    None => STATUS_INTERNAL_SERVER_ERROR,
                };
                let message = match status.err_message {
                    Some(message) => message,
                    None => String::new(),
                };
                (
                    DepositStage::Finished,
                    DepositAction::Reject {
                        rejection: Rejection::TokenService { status: code, message },
                    },
                )
            } else if status.spent {
                reject(DepositError::TokenSpent)
            } else if !status.confirmed {
                reject(DepositError::TokenNotConfirmed)
            } else {
                assign_statechain(new_statechain_id(), enclaves)
            }
        },
        (
            DepositStage::EnclaveKey { statechain_id, enclave_index },
            DepositEvent::EnclaveKey { answer },
        ) => {
            match answer {
                Err(message) => (
                    DepositStage::Finished,
                    DepositAction::Reject { rejection: Rejection::Enclave { message } },
                ),
                Ok(text) => {
                    let bare = strip_hex_prefix(text.as_str());
                    match parse_public_key(bare.as_str()) {
                        None => reject(DepositError::MalformedServerKey),
                        Some(key) => {
                            let response = DepositMsg1Response {
                                server_pubkey: hex_encode(key.as_slice()),
                                statechain_id,
                            };
                            (
                                DepositStage::Finished,
                                DepositAction::Store { server_pubkey: key, enclave_index, response },
                            )
                        },
                    }
                },
            }
        },
        _ => reject(DepositError::OutOfTurn),
    }
}

/// The refusal by a rule.
fn reject(error: DepositError) -> (next: (DepositStage, DepositAction))
    ensures
        refused(next.0, next.1, error),
{
    (DepositStage::Finished, DepositAction::Reject { rejection: Rejection::Rule(error) })
}

/// No step records a statechain for a token that the store knows as spent,
/// and none goes on to an enclave for a token that is unknown, spent or
/// unconfirmed.
pub proof fn lemma_spent_token_never_admitted(
    info: Option<TokenInfo>,
    enclaves: Seq<Enclave>,
    next_stage: DepositStage,
    action: DepositAction,
)
    requires
        deposit_step(
            DepositStage::TokenLookup,
            DepositEvent::Token { info },
            enclaves,
            next_stage,
            action,
        ),
        info is None || info->Some_0.spent || !info->Some_0.confirmed,
    ensures
        !(action is AskEnclave),
        !(action is Store),
        info is Some && info->Some_0.spent ==> action == (DepositAction::Reject {
            rejection: Rejection::Rule(DepositError::TokenSpent),
        }),
{
}

} // verus!
