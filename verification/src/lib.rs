//! Core of a statechain: a protocol in which a user and a custodial co-signer
//! jointly control a Bitcoin output, and ownership moves between users without
//! an on-chain transaction.
//!
//! - [`chain`]: the chain of backup transactions of a coin, its validation
//!   and its extension.
//! - [`signature`]: the signature hash of a backup transaction and the check
//!   of its signature.
//! - [`cosign`]: the receiver's check of the blinded co-signing scheme.
//! - [`transfer`]: the handoff of a coin, as the receiver reads and verifies
//!   it.
//! - [`coin`]: the coins of a wallet and their lifecycle, duplicates included.
//! - [`custodian`]: the custodian's record of owners and sessions.
//! - [`token`], [`deposit`], [`enclave`]: admission of new statechains and
//!   their sharding over the enclaves.
//! - [`tx`], [`hashing`], [`hexcode`], [`text`], [`bytes`], [`payload`],
//!   [`cors`]: the values and encodings that the rest is built on.

pub mod bytes;
pub mod tx;
pub mod chain;
pub mod coin;
pub mod hexcode;
pub mod hashing;
pub mod enclave;
pub mod payload;
pub mod signature;
pub mod cosign;
pub mod text;
pub mod token;
pub mod deposit;
pub mod transfer;
pub mod cors;
pub mod custodian;
