//! Answers of the administrative endpoints.
use vstd::prelude::*;

verus! {

/// Counts of stored rows and registered signers.
#[derive(Debug, Clone)]
pub struct AdminStatsResponse {
    pub total_wallets: i64,
    pub total_transactions: i64,
    pub total_bank_transfers: i64,
    pub aa_wallets_count: usize,
}

/// State of the service and of its storage connection.
#[derive(Debug, Clone)]
pub struct HealthDetailsResponse {
    pub status: String,
    pub version: String,
    pub database_connected: bool,
    pub stellar_horizon_url: String,
    pub reputation_threshold: u8,
}

} // verus!
