//! Custodial wallet backend core: address encoding, transaction ledger
//! aggregates, the trust score, the reputation-gated transfer decision and
//! the in-memory signer vault.
use vstd::prelude::*;

pub mod admin;
pub mod bank;
pub mod config;
pub mod convert;
pub mod crypto;
pub mod error;
pub mod ledger;
pub mod reputation;
pub mod text;
pub mod vault;
pub mod wallet;

verus! {

} // verus!
