//! Admission tokens: what the deposit server hands out, and how the token
//! server decides whether one is paid for.

use vstd::prelude::*;
use crate::text::str_eq;
use crate::tx::{address_script, script_of_address, AddressFault};

verus! {

/// An admission ticket: one token pays for one new statechain.
#[derive(Debug)]
pub struct Token {
    pub token_id: String,
    pub confirmed: bool,
    pub spent: bool,
}

/// What the deposit server's store holds of a token.
#[derive(Clone, Copy, Debug, PartialEq, Eq, Structural)]
pub struct TokenInfo {
    pub confirmed: bool,
    pub spent: bool,
}

/// What a client is told of a token that was made for it.
#[derive(Debug)]
pub struct TokenResponse {
    pub token_id: String,
    /// `free` or `onchain`.
    pub payment_method: String,
    pub deposit_address: Option<String>,
    /// Fee in satoshis.
    pub fee: u64,
    pub confirmation_target: u64,
}

/// What the deposit server learns from the token server about a token.
#[derive(Debug)]
pub struct TokenStatusResponse {
    pub confirmed: bool,
    pub spent: bool,
    /// The token server could not be asked.
    pub err: bool,
    /// The status to answer with, where `err` is set.
    pub status: Option<u16>,
    /// The text to answer with, where `err` is set.
    pub err_message: Option<String>,
}

/// The status of an answer that went well.
pub const STATUS_OK: u16 = 200;

/// The status for a request that the server refuses as such.
pub const STATUS_BAD_REQUEST: u16 = 400;

/// The status for something that is not there.
pub const STATUS_NOT_FOUND: u16 = 404;

/// The status for something that was there and is used up.
pub const STATUS_GONE: u16 = 410;

/// The status for a failure on the server's side.
pub const STATUS_INTERNAL_SERVER_ERROR: u16 = 500;

/// Why no token is made.
#[derive(Clone, Copy, Debug, PartialEq, Eq, Structural)]
pub enum TokenError {
    /// Free tokens are not made on the main network.
    MainnetUnsupported,
}

impl TokenError {
    /// The status that the refusal carries.
    pub open spec fn status_spec(&self) -> u16 {
        STATUS_INTERNAL_SERVER_ERROR
    }

    /// The heading that the refusal carries.
    pub open spec fn error_spec(&self) -> Seq<char> {
        "Internal Server Error"@
    }

    /// The text that the refusal carries.
    pub open spec fn message_spec(&self) -> Seq<char> {
        match self {
            TokenError::MainnetUnsupported => "Token generation not supported on mainnet."@,
        }
    }

    /// The status that the refusal carries.
    pub fn status(&self) -> (code: u16)
        ensures
            code == self.status_spec(),
    {
        STATUS_INTERNAL_SERVER_ERROR
    }

    /// The heading that the refusal carries.
    pub fn error(&self) -> (text: String)
        ensures
            text@ == self.error_spec(),
    {
        String::from_str("Internal Server Error")
    }

    /// The text that the refusal carries.
    pub fn message(&self) -> (text: String)
        ensures
            text@ == self.message_spec(),
    {
        match self {
            TokenError::MainnetUnsupported => String::from_str(
                "Token generation not supported on mainnet.",
            ),
        }
    }
}

impl TokenInfo {
    /// Whether the token can pay for a statechain: it is confirmed and not
    /// yet spent.
    pub open spec fn is_usable(&self) -> bool {
        self.confirmed && !self.spent
    }
}

impl Token {
    /// A token as it is made: neither paid for nor spent.
    pub fn new(token_id: String) -> (token: Token)
        ensures
            token.token_id == token_id,
            !token.confirmed,
            !token.spent,
    {
        Token { token_id, confirmed: false, spent: false }
    }

    /// What the store holds of the token.
    pub fn info(&self) -> (info: TokenInfo)
        ensures
            info.confirmed == self.confirmed,
            info.spent == self.spent,
    {
        TokenInfo { confirmed: self.confirmed, spent: self.spent }
    }

    /// Marks the token as paid for.
    pub fn confirm(&mut self)
        ensures
            final(self).confirmed,
            final(self).spent == old(self).spent,
            final(self).token_id == old(self).token_id,
    {
        self.confirmed = true;
    }

    /// Spends the token on a new statechain. Returns whether it was spent:
    /// a token pays for one statechain, once it is confirmed, and for no
    /// second one.
    pub fn spend(&mut self) -> (spent: bool)
        ensures
            spent == (old(self).confirmed && !old(self).spent),
            final(self).spent == (old(self).spent || spent),
            final(self).confirmed == old(self).confirmed,
            final(self).token_id == old(self).token_id,
    {
        if self.confirmed && !self.spent {
            self.spent = true;
            true
        } else {
            false
        }
    }
}

/// The text between the first `#` of a descriptor and its next `#`, or its
/// end: the checksum of a descriptor that is written with one. `None` where
/// the text has no `#`.
pub open spec fn checksum_part(text: Seq<char>) -> Option<Seq<char>> {
    if exists|i: int| 0 <= i < text.len() && text[i] == '#' {
        let start = first_hash(text, 0) + 1;
        Some(text.subrange(start, first_hash(text, start)))
    } else {
        None
    }
}

/// The position of the first `#` at or after `from`, or the length of the
/// text where there is none.
pub open spec fn first_hash(text: Seq<char>, from: int) -> int
    decreases text.len() - from,
{
    if from < 0 || from >= text.len() {
        text.len() as int
    } else if text[from] == '#' {
        from
    } else {
        first_hash(text, from + 1)
    }
}

/// The first `#` at or after `from` lies between `from` and the end of the
/// text, and no `#` stands before it.
pub proof fn lemma_first_hash(text: Seq<char>, from: int)
    requires
        0 <= from <= text.len(),
    ensures
        from <= first_hash(text, from) <= text.len(),
        first_hash(text, from) < text.len() ==> text[first_hash(text, from)] == '#',
        forall|k: int| from <= k < first_hash(text, from) ==> text[k] != '#',
    decreases text.len() - from,
{
    if from < text.len() && text[from] != '#' {
        lemma_first_hash(text, from + 1);
    }
}

/// Finds the first `#` at or after `from`.
fn find_hash(text: &str, from: usize, len: usize) -> (at: usize)
    requires
        from <= len,
        len == text@.len(),
    ensures
        at == first_hash(text@, from as int),
        from <= at <= len,
{
    let mut i: usize = from;
    while i < len
        invariant
            from <= i <= len,
            len == text@.len(),
            first_hash(text@, from as int) == first_hash(text@, i as int),
        decreases len - i,
    {
        if text.get_char(i) == '#' {
            return i;
        }
        i = i + 1;
    }
    i
}

/// The checksum of a descriptor that is written with one: what stands
/// behind its first `#`.
pub fn descriptor_checksum(descriptor: &str) -> (checksum: Option<String>)
    ensures
        match checksum {
            Some(c) => checksum_part(descriptor@) == Some(c@),
            None => checksum_part(descriptor@) is None,
        },
{
    let len = descriptor.unicode_len();
    let hash = find_hash(descriptor, 0, len);
    proof {
        lemma_first_hash(descriptor@, 0);
    }
    if hash >= len {
        return None;
    }
    let end = find_hash(descriptor, hash + 1, len);
    Some(String::from_str(descriptor.substring_char(hash + 1, end)))
}

/// Whether a token can pay for a statechain, `None` where the store does not
/// know the token.
pub fn get_token_status(row: Option<TokenInfo>) -> (usable: Option<bool>)
    ensures
        usable == match row {
            Some(info) => Some(info.is_usable()),
            None => None,
        },
{
    match row {
        Some(info) => Some(info.confirmed && !info.spent),
        None => None,
    }
}

/// Whether a code is one of the standard statuses that `rocket` knows by
/// name.
pub uninterp spec fn is_standard_status(code: u16) -> bool;

/// Calls `rocket::http::Status::from_code`, which knows the standard
/// statuses, all between 100 and 511, and hands out the code of the status
/// that it found, which is the code that it was given.
#[verifier::external_body]
pub(crate) fn standard_status(code: u16) -> (status: Option<u16>)
    ensures
        match status {
            Some(c) => is_standard_status(code) && c == code && 100 <= c <= 511,
            None => !is_standard_status(code),
        },
{
    rocket::http::Status::from_code(code).map(|status| status.code)
}

/// The status that an answer carries for a failed request to another
/// service: the status that came with the failure where it is a standard
/// one, else an internal server error.
pub open spec fn relayed_status(code: Option<u16>) -> u16 {
    match code {
        Some(c) => if is_standard_status(c) {
            c
        } else {
            STATUS_INTERNAL_SERVER_ERROR
        },
        None => STATUS_INTERNAL_SERVER_ERROR,
    }
}

/// The status to answer with for the status that a failure came with, given
/// what is known of that status: `known` is the standard status with the
/// code of the failure, where there is one.
pub fn status_or_internal_error(known: Option<u16>) -> (status: u16)
    ensures
        status == match known {
            Some(c) => c,
            None => STATUS_INTERNAL_SERVER_ERROR,
        },
{
    match known {
        Some(c) => c,
        None => STATUS_INTERNAL_SERVER_ERROR,
    }
}

/// The status that an answer carries for a failed request to another
/// service, which may have come with a status of its own.
pub fn status_from_code(code: Option<u16>) -> (status: u16)
    ensures
        status == relayed_status(code),
        100 <= status <= 511,
{
    match code {
        Some(c) => status_or_internal_error(standard_status(c)),
        None => STATUS_INTERNAL_SERVER_ERROR,
    }
}

/// Calls `uuid::Uuid::new_v4` and writes the identifier with hyphens. The
/// identifier is random; only its length is known.
#[verifier::external_body]
pub(crate) fn random_uuid_hyphenated() -> (id: String)
    ensures
        id@.len() == 36,
{
    uuid::Uuid::new_v4().to_string()
}

/// Calls `uuid::Uuid::new_v4` and writes the identifier without hyphens. The
/// identifier is random; only its length is known.
#[verifier::external_body]
pub(crate) fn random_uuid_simple() -> (id: String)
    ensures
        id@.len() == 32,
{
    uuid::Uuid::new_v4().as_simple().to_string()
}

/// A fresh random identifier for a token, 36 characters long.
pub fn new_token_id() -> (id: String)
    ensures
        id@.len() == 36,
{
    random_uuid_hyphenated()
}

/// A fresh random identifier for a statechain, 32 characters long.
pub fn new_statechain_id() -> (id: String)
    ensures
        id@.len() == 32,
{
    random_uuid_simple()
}

/// The token that a deployment without a token server hands out: free, and
/// not on the main network.
pub fn get_token_no_server(network: &str, token_id: String) -> (r: Result<TokenResponse, TokenError>)
    ensures
        network@ == "mainnet"@ ==> r is Err && r->Err_0 == TokenError::MainnetUnsupported,
        network@ != "mainnet"@ ==> r is Ok && r->Ok_0.token_id == token_id
            && r->Ok_0.payment_method@ == "free"@ && r->Ok_0.deposit_address is None
            && r->Ok_0.fee == 0 && r->Ok_0.confirmation_target == 0,
{
    if str_eq(network, "mainnet") {
        return Err(TokenError::MainnetUnsupported);
    }
    Ok(
        TokenResponse {
            token_id,
            payment_method: String::from_str("free"),
            deposit_address: None,
            fee: 0,
            confirmation_target: 0,
        },
    )
}

/// The token that the client gets when the token server made one: to be paid
/// for on chain, at the address and for the fee that the token server named.
pub fn get_token_from_server(
    token_id: String,
    deposit_address: String,
    fee: u64,
    confirmation_target: u64,
) -> (token: TokenResponse)
    ensures
        token.token_id == token_id,
        token.payment_method@ == "onchain"@,
        token.deposit_address == Some(deposit_address),
        token.fee == fee,
        token.confirmation_target == confirmation_target,
{
    TokenResponse {
        token_id,
        payment_method: String::from_str("onchain"),
        deposit_address: Some(deposit_address),
        fee,
        confirmation_target,
    }
}

/// What the deposit server makes of the token server's answer on a token.
/// `answer` is the pair of flags that came back, or the status and the text
/// of the failure to ask.
pub fn check_token_status(answer: Result<(bool, bool), (Option<u16>, String)>) -> (r:
    TokenStatusResponse)
    ensures
        match answer {
            Ok((confirmed, spent)) => r.confirmed == confirmed && r.spent == spent && !r.err
                && r.status is None && r.err_message is None,
            Err((code, message)) => !r.confirmed && !r.spent && r.err && r.status == Some(
                relayed_status(code),
            ) && r.err_message == Some(message),
        },
{
    match answer {
        Ok((confirmed, spent)) => TokenStatusResponse {
            confirmed,
            spent,
            err: false,
            status: None,
            err_message: None,
        },
        Err((code, message)) => TokenStatusResponse {
            confirmed: false,
            spent: false,
            err: true,
            status: Some(status_from_code(code)),
            err_message: Some(message),
        },
    }
}

/// Why the token server makes no token.
#[derive(Clone, Copy, Debug, PartialEq, Eq, Structural)]
pub enum TokenGenError {
    /// The indexes that an address can be derived at are used up.
    IndexExhausted,
    /// The descriptor asks for a hardened derivation, which public keys do
    /// not allow.
    HardenedDerivation,
    /// The descriptor or the network's name cannot be read, or the
    /// descriptor has no address at the index.
    NoAddress,
}

/// Whether a descriptor reads and has a key with a hardened step on its
/// derivation path; `None` where the text is no descriptor.
pub uninterp spec fn hardened_steps(descriptor: Seq<char>) -> Option<bool>;

/// The address, on the network named `network`, of the descriptor with its
/// wildcards replaced by `index`; `None` where the descriptor or the
/// network's name cannot be read, where the index is at or above two to the
/// 31, or where the descriptor has no address. Meaningful for a descriptor
/// without hardened steps and hardened wildcards.
pub uninterp spec fn derived_address(descriptor: Seq<char>, index: u32, network: Seq<char>) -> Option<
    Seq<char>,
>;

/// Whether the text holds a hardened wildcard: a `*` followed by `'` or `h`.
pub open spec fn has_hardened_wildcard(text: Seq<char>) -> bool {
    exists|i: int|
        0 <= i < text.len() - 1 && is_hardened_wildcard_at(text, i)
}

/// Whether a hardened wildcard stands at position `i` of the text.
pub open spec fn is_hardened_wildcard_at(text: Seq<char>, i: int) -> bool {
    text[i] == '*' && (text[i + 1] == '\'' || text[i + 1] == 'h')
}

/// Parses a descriptor with `Descriptor::<DescriptorPublicKey>::from_str`
/// and asks with `ForEachKey::for_any_key` whether
/// `DescriptorPublicKey::has_hardened_step` holds of one of its keys.
#[verifier::external_body]
pub(crate) fn descriptor_has_hardened_step(descriptor: &str) -> (hardened: Option<bool>)
    ensures
        hardened == hardened_steps(descriptor@),
{
    let parsed = <miniscript::Descriptor<miniscript::DescriptorPublicKey> as core::str::FromStr>::from_str(descriptor).ok()?;
    Some(miniscript::ForEachKey::for_any_key(&parsed, |key| key.has_hardened_step()))
}

/// Parses a descriptor, replaces its wildcards with
/// `Descriptor::at_derivation_index` and gives the text of
/// `Descriptor::address` on the network that `Network::from_str` reads.
/// `at_derivation_index` does not return for a key with a hardened step or a
/// hardened wildcard, so such descriptors are not handed to it.
#[verifier::external_body]
pub(crate) fn derive_address(descriptor: &str, index: u32, network: &str) -> (address: Option<
    String,
>)
    requires
        hardened_steps(descriptor@) == Some(false),
        !has_hardened_wildcard(descriptor@),
    ensures
        match address {
            Some(a) => derived_address(descriptor@, index, network@) == Some(a@),
            None => derived_address(descriptor@, index, network@) is None,
        },
{
    let parsed = <miniscript::Descriptor<miniscript::DescriptorPublicKey> as core::str::FromStr>::from_str(descriptor).ok()?;
    let net = <miniscript::bitcoin::Network as core::str::FromStr>::from_str(network).ok()?;
    let address = parsed.at_derivation_index(index).ok()?.address(net).ok()?;
    Some(address.to_string())
}

/// Looks for a hardened wildcard in a text.
pub fn find_hardened_wildcard(text: &str) -> (found: bool)
    ensures
        found == has_hardened_wildcard(text@),
{
    let len = text.unicode_len();
    if len < 2 {
        return false;
    }
    let mut i: usize = 0;
    while i < len - 1
        invariant
            len == text@.len(),
            len >= 2,
            i <= len - 1,
            forall|j: int| 0 <= j < i ==> !is_hardened_wildcard_at(text@, j),
        decreases len - 1 - i,
    {
        if text.get_char(i) == '*' {
            let after = text.get_char(i + 1);
            if after == '\'' || after == 'h' {
                assert(is_hardened_wildcard_at(text@, i as int));
                return true;
            }
        }
        i = i + 1;
    }
    false
}

/// The address of a descriptor at an index, or the reason why there is
/// none. A descriptor that asks for a hardened derivation is refused first,
/// then one that cannot be read.
pub open spec fn address_at(descriptor: Seq<char>, index: u32, network: Seq<char>) -> Result<
    Seq<char>,
    TokenGenError,
> {
    if has_hardened_wildcard(descriptor) || hardened_steps(descriptor) == Some(true) {
        Err(TokenGenError::HardenedDerivation)
    } else if hardened_steps(descriptor) is None {
        Err(TokenGenError::NoAddress)
    } else {
        match derived_address(descriptor, index, network) {
            Some(address) => Ok(address),
            None => Err(TokenGenError::NoAddress),
        }
    }
}

/// The address at which a token is paid for: the address of the token
/// server's descriptor at a derivation index.
pub fn derive_token_address(descriptor: &str, index: u32, network: &str) -> (r: Result<
    String,
    TokenGenError,
>)
    ensures
        match address_at(descriptor@, index, network@) {
            Ok(address) => r is Ok && r->Ok_0@ == address,
            Err(e) => r == Err::<String, TokenGenError>(e),
        },
{
    if find_hardened_wildcard(descriptor) {
        return Err(TokenGenError::HardenedDerivation);
    }
    match descriptor_has_hardened_step(descriptor) {
        Some(true) => {
            return Err(TokenGenError::HardenedDerivation);
        },
        None => {
            return Err(TokenGenError::NoAddress);
        },
        Some(false) => {},
    }
    match derive_address(descriptor, index, network) {
        Some(address) => Ok(address),
        None => Err(TokenGenError::NoAddress),
    }
}

/// The next derivation index of the token server: one more than the last.
/// `None` where the indexes that an address can be derived at are used up.
pub fn next_key_index(key_index: u64) -> (next: Option<u64>)
    ensures
        next == (if key_index < i32::MAX as u64 {
            Some((key_index + 1) as u64)
        } else {
            None
        }),
{
    if key_index < i32::MAX as u64 {
        Some(key_index + 1)
    } else {
        None
    }
}

/// What the token server needs for a new token: the next derivation index,
/// one more than the last, and the address of its descriptor at that index,
/// at which the token is to be paid for.
pub fn token_gen(key_index: u64, descriptor: &str, network: &str) -> (r: Result<
    (u64, String),
    TokenGenError,
>)
    ensures
        key_index >= i32::MAX ==> r == Err::<(u64, String), TokenGenError>(
            TokenGenError::IndexExhausted,
        ),
        key_index < i32::MAX ==> match address_at(
            descriptor@,
            (key_index + 1) as u32,
            network@,
        ) {
            Ok(address) => r is Ok && r->Ok_0.0 == key_index + 1 && r->Ok_0.1@ == address,
            Err(e) => r == Err::<(u64, String), TokenGenError>(e),
        },
{
    let index = match next_key_index(key_index) {
        Some(index) => index,
        None => {
            return Err(TokenGenError::IndexExhausted);
        },
    };
    match derive_token_address(descriptor, index as u32, network) {
        Ok(address) => Ok((index, address)),
        Err(e) => Err(e),
    }
}

/// The index that the token server starts from: the highest that its store
/// holds for the descriptor, 0 where it holds none or a negative one.
pub fn get_descriptor_index(highest: Option<i32>) -> (index: u64)
    ensures
        index == match highest {
            Some(i) => if i >= 0 {
                i as u64
            } else {
                0
            },
            None => 0,
        },
{
    match highest {
        Some(i) => if i >= 0 {
            i as u64
        } else {
            0
        },
        None => 0,
    }
}

/// What the token server's store holds of a token.
#[derive(Debug)]
pub struct TokenRecord {
    pub confirmed: bool,
    pub spent: bool,
    pub onchain_address: String,
}

/// One unspent output at a token's address, as the block-chain query service
/// lists it.
#[derive(Clone, Copy, Debug, PartialEq, Eq, Structural)]
pub struct Unspent {
    /// Amount in satoshis.
    pub value: u64,
    /// Height of the block that holds it, 0 while it is unconfirmed.
    pub height: usize,
}

/// How the check of a token by the token server ends.
#[derive(Clone, Copy, Debug, PartialEq, Eq, Structural)]
pub enum VerifyOutcome {
    /// The store does not know the token.
    NotFound,
    /// The token's address cannot be read.
    AddressUnreadable,
    /// The token's address is for another network.
    AddressOffNetwork,
    /// The list of unspent outputs could not be had.
    UtxoListFailed,
    /// The height of the chain could not be had.
    HeaderFailed,
    /// What came back does not answer what was asked for.
    OutOfTurn,
    /// The flags of the token.
    State { confirmed: bool, spent: bool },
}

/// Where the check of a token stands.
#[derive(Clone, Copy, Debug, PartialEq, Eq, Structural)]
pub enum VerifyStage {
    /// The token is being looked up in the store.
    Lookup,
    /// The unspent outputs at the token's address are being listed.
    Listing,
    /// The height of the chain is being asked for; `utxo_height` is the height
    /// of the output that pays the fee.
    Height { utxo_height: usize },
    /// The check has ended.
    Finished,
}

/// What came back from outside for the check of a token.
#[derive(Debug)]
pub enum VerifyEvent {
    /// The store's record of the token.
    Record { record: Option<TokenRecord> },
    /// The unspent outputs at the address, or a failure to list them.
    Unspent { list: Option<Vec<Unspent>> },
    /// The height of the chain, or a failure to ask for it.
    Tip { height: Option<usize> },
}

/// What is to be done next for the check of a token.
#[derive(Debug)]
pub enum VerifyAction {
    /// List the unspent outputs that pay to this script.
    ListUnspent { script: Vec<u8> },
    /// Ask for the height of the chain.
    FetchTip,
    /// Answer; where `confirm` is set, mark the token confirmed in the store
    /// first.
    Respond { outcome: VerifyOutcome, confirm: bool },
}

impl VerifyOutcome {
    /// The status that the answer carries.
    pub open spec fn status_spec(&self) -> u16 {
        match self {
            VerifyOutcome::NotFound => STATUS_NOT_FOUND,
            VerifyOutcome::State { .. } => STATUS_OK,
            _ => STATUS_INTERNAL_SERVER_ERROR,
        }
    }

    /// The text that the answer carries, where it carries one.
    pub open spec fn message_spec(&self) -> Option<Seq<char>> {
        match self {
            VerifyOutcome::NotFound => Some("Token not found in the database."@),
            VerifyOutcome::AddressUnreadable => Some(
                "Invalid onchain address (network unchecked)."@,
            ),
            VerifyOutcome::AddressOffNetwork => Some("Invalid onchain address (network checked)."@),
            VerifyOutcome::UtxoListFailed => Some("Error fetching UTXO list."@),
            VerifyOutcome::HeaderFailed => Some("Error fetching block header."@),
            VerifyOutcome::OutOfTurn => Some("Unexpected step in token verification."@),
            VerifyOutcome::State { .. } => None,
        }
    }

    /// The status that the answer carries.
    pub fn status(&self) -> (code: u16)
        ensures
            code == self.status_spec(),
    {
        match self {
            VerifyOutcome::NotFound => STATUS_NOT_FOUND,
            VerifyOutcome::State { .. } => STATUS_OK,
            _ => STATUS_INTERNAL_SERVER_ERROR,
        }
    }

    /// The text that the answer carries, where it carries one.
    pub fn message(&self) -> (text: Option<String>)
        ensures
            text is Some <==> self.message_spec() is Some,
            text matches Some(t) ==> Some(t@) == self.message_spec(),
    {
        match self {
            VerifyOutcome::NotFound => Some(String::from_str("Token not found in the database.")),
            VerifyOutcome::AddressUnreadable => Some(
                String::from_str("Invalid onchain address (network unchecked)."),
            ),
            VerifyOutcome::AddressOffNetwork => Some(
                String::from_str("Invalid onchain address (network checked)."),
            ),
            VerifyOutcome::UtxoListFailed => Some(String::from_str("Error fetching UTXO list.")),
            VerifyOutcome::HeaderFailed => Some(String::from_str("Error fetching block header.")),
            VerifyOutcome::OutOfTurn => Some(
                String::from_str("Unexpected step in token verification."),
            ),
            VerifyOutcome::State { .. } => None,
        }
    }
}

/// The output at `i` is the first in the list that pays exactly the fee.
pub open spec fn first_paying(list: Seq<Unspent>, fee: u64, i: int) -> bool {
    &&& 0 <= i < list.len()
    &&& list[i].value == fee
    &&& forall|j: int| 0 <= j < i ==> (#[trigger] list[j]).value != fee
}

/// Some output in the list pays exactly the fee.
pub open spec fn fee_is_paid(list: Seq<Unspent>, fee: u64) -> bool {
    exists|i: int| 0 <= i < list.len() && (#[trigger] list[i]).value == fee
}

/// The first output in the list that pays exactly the fee.
pub fn find_fee_payment(list: &Vec<Unspent>, fee: u64) -> (found: Option<Unspent>)
    ensures
        found is Some <==> fee_is_paid(list@, fee),
        found matches Some(u) ==> exists|i: int| first_paying(list@, fee, i) && list@[i] == u,
{
    let mut i: usize = 0;
    while i < list.len()
        invariant
            i <= list@.len(),
            forall|j: int| 0 <= j < i ==> (#[trigger] list@[j]).value != fee,
        decreases list@.len() - i,
    {
        if list[i].value == fee {
            assert(first_paying(list@, fee, i as int));
            return Some(list[i]);
        }
        i = i + 1;
    }
    None
}

/// The confirmations of an output at height `utxo_height` when the chain is
/// `tip` blocks high: the blocks from its own to the tip, none where the tip
/// is below it.
pub open spec fn confirmations(tip: usize, utxo_height: usize) -> int {
    if tip >= utxo_height {
        tip - utxo_height + 1
    } else {
        0
    }
}

/// Whether an output has the confirmations that the token server asks for.
pub fn has_confirmations(tip: usize, utxo_height: usize, confirmation_target: u32) -> (enough: bool)
    ensures
        enough == (confirmations(tip, utxo_height) >= confirmation_target),
{
    if tip < utxo_height {
        confirmation_target == 0
    } else {
        let depth = tip - utxo_height;
        confirmation_target == 0 || depth as u64 >= (confirmation_target - 1) as u64
    }
}

/// The answer that ends a check without a change to the store.
pub open spec fn respond(outcome: VerifyOutcome) -> (VerifyStage, VerifyAction) {
    (VerifyStage::Finished, VerifyAction::Respond { outcome, confirm: false })
}

/// The answer for a token that is not paid for, or not deep enough yet.
pub open spec fn respond_unconfirmed() -> (VerifyStage, VerifyAction) {
    respond(VerifyOutcome::State { confirmed: false, spent: false })
}

/// The answer for a token that is paid for: it is marked confirmed.
pub open spec fn respond_confirmed() -> (VerifyStage, VerifyAction) {
    (
        VerifyStage::Finished,
        VerifyAction::Respond {
            outcome: VerifyOutcome::State { confirmed: true, spent: false },
            confirm: true,
        },
    )
}

/// What the record of a token leads to: an answer at once for an unknown,
/// spent or confirmed token and for an address that cannot be used on the
/// server's network, else the listing of the outputs at its address.
pub open spec fn after_lookup(
    record: Option<TokenRecord>,
    network: Seq<char>,
    stage: VerifyStage,
    action: VerifyAction,
) -> bool {
    match record {
        None => (stage, action) == respond(VerifyOutcome::NotFound),
        Some(r) => if r.spent || r.confirmed {
            (stage, action) == respond(
                VerifyOutcome::State { confirmed: r.confirmed, spent: r.spent },
            )
        } else {
            match address_script(r.onchain_address@, network) {
                Err(AddressFault::Unreadable) => (stage, action) == respond(
                    VerifyOutcome::AddressUnreadable,
                ),
                Err(_) => (stage, action) == respond(VerifyOutcome::AddressOffNetwork),
                Ok(wanted) => {
                    &&& stage == VerifyStage::Listing
                    &&& action matches VerifyAction::ListUnspent { script }
                    &&& script@ == wanted
                },
            }
        },
    }
}

/// What the list of unspent outputs leads to.
pub open spec fn after_listing(
    list: Option<Seq<Unspent>>,
    fee: u64,
    confirmation_target: u32,
    stage: VerifyStage,
    action: VerifyAction,
) -> bool {
    match list {
        None => (stage, action) == respond(VerifyOutcome::UtxoListFailed),
        Some(l) => if !fee_is_paid(l, fee) {
            (stage, action) == respond_unconfirmed()
        } else if confirmation_target == 0 {
            (stage, action) == respond_confirmed()
        } else {
            exists|i: int|
                first_paying(l, fee, i) && (if l[i].height == 0 {
                    (stage, action) == respond_unconfirmed()
                } else {
                    stage == (VerifyStage::Height { utxo_height: l[i].height }) && action
                        == VerifyAction::FetchTip
                })
        },
    }
}

/// What the height of the chain leads to.
pub open spec fn after_tip(
    tip: Option<usize>,
    utxo_height: usize,
    confirmation_target: u32,
    stage: VerifyStage,
    action: VerifyAction,
) -> bool {
    match tip {
        None => (stage, action) == respond(VerifyOutcome::HeaderFailed),
        Some(t) => if confirmations(t, utxo_height) >= confirmation_target {
            (stage, action) == respond_confirmed()
        } else {
            (stage, action) == respond_unconfirmed()
        },
    }
}

/// The unspent outputs of an event as a mathematical list.
pub open spec fn listed(list: Option<Vec<Unspent>>) -> Option<Seq<Unspent>> {
    match list {
        Some(l) => Some(l@),
        None => None,
    }
}

/// What a step of the check owes: the next stage and what is to be done, for
/// a stage and what came back for it. What comes back out of turn ends the
/// check.
pub open spec fn verify_step(
    stage: VerifyStage,
    event: VerifyEvent,
    network: Seq<char>,
    fee: u64,
    confirmation_target: u32,
    next_stage: VerifyStage,
    action: VerifyAction,
) -> bool {
    match (stage, event) {
        (VerifyStage::Lookup, VerifyEvent::Record { record }) => after_lookup(
            record,
            network,
            next_stage,
            action,
        ),
        (VerifyStage::Listing, VerifyEvent::Unspent { list }) => after_listing(
            listed(list),
            fee,
            confirmation_target,
            next_stage,
            action,
        ),
        (VerifyStage::Height { utxo_height }, VerifyEvent::Tip { height }) => after_tip(
            height,
            utxo_height,
            confirmation_target,
            next_stage,
            action,
        ),
        _ => (next_stage, action) == respond(VerifyOutcome::OutOfTurn),
    }
}

/// One step of the token server's check of a token. The server looks the
/// token up, lists the unspent outputs at its address, and asks for the
/// height of the chain, in that order and as far as needed; this function
/// says after each what comes next. A token is confirmed when an output pays
/// exactly `fee` to its address and has `confirmation_target` confirmations.
pub fn token_verify(
    stage: VerifyStage,
    event: VerifyEvent,
    network: &str,
    fee: u64,
    confirmation_target: u32,
) -> (next: (VerifyStage, VerifyAction))
    ensures
        verify_step(stage, event, network@, fee, confirmation_target, next.0, next.1),
{
    let unconfirmed = VerifyOutcome::State { confirmed: false, spent: false };
    let confirmed = VerifyOutcome::State { confirmed: true, spent: false };
    match (stage, event) {
        (VerifyStage::Lookup, VerifyEvent::Record { record }) => {
            let record = match record {
                Some(record) => record,
                None => {
                    return (
                        VerifyStage::Finished,
                        VerifyAction::Respond { outcome: VerifyOutcome::NotFound, confirm: false },
                    );
                },
            };
            if record.spent || record.confirmed {
                let outcome = VerifyOutcome::State {
                    confirmed: record.confirmed,
                    spent: record.spent,
                };
                return (VerifyStage::Finished, VerifyAction::Respond { outcome, confirm: false });
            }
            match script_of_address(record.onchain_address.as_str(), network) {
                Ok(script) => (VerifyStage::Listing, VerifyAction::ListUnspent { script }),
                Err(AddressFault::Unreadable) => (
                    VerifyStage::Finished,
                    VerifyAction::Respond {
                        outcome: VerifyOutcome::AddressUnreadable,
                        confirm: false,
                    },
                ),
                Err(_) => (
                    VerifyStage::Finished,
                    VerifyAction::Respond {
                        outcome: VerifyOutcome::AddressOffNetwork,
                        confirm: false,
                    },
                ),
            }
        },
        (VerifyStage::Listing, VerifyEvent::Unspent { list }) => {
            let list = match list {
                Some(list) => list,
                None => {
                    return (
                        VerifyStage::Finished,
                        VerifyAction::Respond {
                            outcome: VerifyOutcome::UtxoListFailed,
                            confirm: false,
                        },
                    );
                },
            };
            match find_fee_payment(&list, fee) {
                None => (
                    VerifyStage::Finished,
                    VerifyAction::Respond { outcome: unconfirmed, confirm: false },
                ),
                Some(utxo) => {
                    if confirmation_target == 0 {
                        (
                            VerifyStage::Finished,
                            VerifyAction::Respond { outcome: confirmed, confirm: true },
                        )
                    } else if utxo.height == 0 {
                        (
                            VerifyStage::Finished,
                            VerifyAction::Respond { outcome: unconfirmed, confirm: false },
                        )
                    } else {
                        (VerifyStage::Height { utxo_height: utxo.height }, VerifyAction::FetchTip)
                    }
                },
            }
        },
        (VerifyStage::Height { utxo_height }, VerifyEvent::Tip { height }) => {
            match height {
                None => (
                    VerifyStage::Finished,
                    VerifyAction::Respond { outcome: VerifyOutcome::HeaderFailed, confirm: false },
                ),
                Some(tip) => {
                    if has_confirmations(tip, utxo_height, confirmation_target) {
                        (
                            VerifyStage::Finished,
                            VerifyAction::Respond { outcome: confirmed, confirm: true },
                        )
                    } else {
                        (
                            VerifyStage::Finished,
                            VerifyAction::Respond { outcome: unconfirmed, confirm: false },
                        )
                    }
                },
            }
        },
        _ => (
            VerifyStage::Finished,
            VerifyAction::Respond { outcome: VerifyOutcome::OutOfTurn, confirm: false },
        ),
    }
}

/// A token is marked confirmed only by a step that answers that it is
/// confirmed and not spent, and every answer ends the check.
pub proof fn lemma_confirmation_is_answered(
    stage: VerifyStage,
    event: VerifyEvent,
    network: Seq<char>,
    fee: u64,
    confirmation_target: u32,
    next_stage: VerifyStage,
    action: VerifyAction,
)
    requires
        verify_step(stage, event, network, fee, confirmation_target, next_stage, action),
    ensures
        action matches VerifyAction::Respond { outcome, confirm } ==> next_stage
            == VerifyStage::Finished && (confirm ==> outcome == VerifyOutcome::State {
            confirmed: true,
            spent: false,
        }),
{
}

} // verus!
