//! The library's error type, and how each error is shown to a caller.
use vstd::prelude::*;

use crate::text::{decimal_digits, push_decimal};

verus! {

/// Every failure the wallet backend reports.
#[allow(inconsistent_fields)]
#[derive(Debug, Clone)]
pub enum AppError {
    WalletNotFound(String),
    InvalidPublicKey(String),
    InsufficientBalance { required: String, available: String },
    ReputationTooLow { current: u8, required: u8 },
    BadRequest(String),
    AccountAbstractionError(String),
    StellarNetworkError(String),
    DatabaseError(String),
    ExternalApiError(String),
    ConfigError(String),
    InternalError(String),
    NotImplemented(String),
}

/// The HTTP status code that stands for `e`.
pub open spec fn status_of(e: AppError) -> u16 {
    match e {
        AppError::WalletNotFound(_) => 404,
        AppError::InvalidPublicKey(_) => 400,
        AppError::InsufficientBalance { .. } => 400,
        AppError::ReputationTooLow { .. } => 403,
        AppError::BadRequest(_) => 400,
        AppError::AccountAbstractionError(_) => 400,
        AppError::StellarNetworkError(_) => 502,
        AppError::DatabaseError(_) => 500,
        AppError::ExternalApiError(_) => 502,
        AppError::ConfigError(_) => 500,
        AppError::InternalError(_) => 500,
        AppError::NotImplemented(_) => 501,
    }
}

/// The machine-readable code of `e`.
pub open spec fn code_of(e: AppError) -> Seq<char> {
    match e {
        AppError::WalletNotFound(_) => "WALLET_NOT_FOUND"@,
        AppError::InvalidPublicKey(_) => "INVALID_PUBLIC_KEY"@,
        AppError::InsufficientBalance { .. } => "INSUFFICIENT_BALANCE"@,
        AppError::ReputationTooLow { .. } => "REPUTATION_TOO_LOW"@,
        AppError::BadRequest(_) => "BAD_REQUEST"@,
        AppError::AccountAbstractionError(_) => "AA_ERROR"@,
        AppError::StellarNetworkError(_) => "STELLAR_ERROR"@,
        AppError::DatabaseError(_) => "DATABASE_ERROR"@,
        AppError::ExternalApiError(_) => "EXTERNAL_API_ERROR"@,
        AppError::ConfigError(_) => "CONFIG_ERROR"@,
        AppError::InternalError(_) => "INTERNAL_ERROR"@,
        AppError::NotImplemented(_) => "NOT_IMPLEMENTED"@,
    }
}

/// The full text of `e`, detail included.
pub open spec fn message_of(e: AppError) -> Seq<char> {
    match e {
        AppError::WalletNotFound(s) => "Wallet not found: "@ + s@,
        AppError::InvalidPublicKey(s) => "Invalid public key format: "@ + s@,
        AppError::InsufficientBalance { required, available } => "Insufficient balance: required "@
            + required@ + ", available "@ + available@,
        AppError::ReputationTooLow { current, required } => "Reputation score too low: current "@
            + decimal_digits(current as nat) + ", required "@ + decimal_digits(required as nat),
        AppError::BadRequest(s) => "Invalid request: "@ + s@,
        AppError::AccountAbstractionError(s) => "Account abstraction error: "@ + s@,
        AppError::StellarNetworkError(s) => "Stellar network error: "@ + s@,
        AppError::DatabaseError(s) => "Database error: "@ + s@,
        AppError::ExternalApiError(s) => "External API error: "@ + s@,
        AppError::ConfigError(s) => "Configuration error: "@ + s@,
        AppError::InternalError(_) => "Internal server error"@,
        AppError::NotImplemented(s) => "Not implemented: "@ + s@,
    }
}

/// The text a caller is shown: storage, configuration and internal failures
/// keep their detail to themselves.
pub open spec fn client_message_of(e: AppError) -> Seq<char> {
    match e {
        AppError::DatabaseError(_) => "Database operation failed"@,
        AppError::ConfigError(_) => "Configuration error"@,
        AppError::InternalError(_) => "Internal server error"@,
        _ => message_of(e),
    }
}

fn text_with_detail(prefix: &str, detail: &String) -> (r: String)
    ensures
        r@ == prefix@ + detail@,
{
    let mut out = String::from_str(prefix);
    out.append(detail.as_str());
    out
}

impl AppError {
    /// HTTP status code of this error.
    pub fn status_code(&self) -> (r: u16)
        ensures
            r == status_of(*self),
    {
        match self {
            AppError::WalletNotFound(_) => 404,
            AppError::InvalidPublicKey(_) => 400,
            AppError::InsufficientBalance { .. } => 400,
            AppError::ReputationTooLow { .. } => 403,
            AppError::BadRequest(_) => 400,
            AppError::AccountAbstractionError(_) => 400,
            AppError::StellarNetworkError(_) => 502,
            AppError::DatabaseError(_) => 500,
            AppError::ExternalApiError(_) => 502,
            AppError::ConfigError(_) => 500,
            AppError::InternalError(_) => 500,
            AppError::NotImplemented(_) => 501,
        }
    }

    /// Machine-readable code of this error.
    pub fn error_code(&self) -> (r: &'static str)
        ensures
            r@ == code_of(*self),
    {
        match self {
            AppError::WalletNotFound(_) => "WALLET_NOT_FOUND",
            AppError::InvalidPublicKey(_) => "INVALID_PUBLIC_KEY",
            AppError::InsufficientBalance { .. } => "INSUFFICIENT_BALANCE",
            AppError::ReputationTooLow { .. } => "REPUTATION_TOO_LOW",
            AppError::BadRequest(_) => "BAD_REQUEST",
            AppError::AccountAbstractionError(_) => "AA_ERROR",
            AppError::StellarNetworkError(_) => "STELLAR_ERROR",
            AppError::DatabaseError(_) => "DATABASE_ERROR",
            AppError::ExternalApiError(_) => "EXTERNAL_API_ERROR",
            AppError::ConfigError(_) => "CONFIG_ERROR",
            AppError::InternalError(_) => "INTERNAL_ERROR",
            AppError::NotImplemented(_) => "NOT_IMPLEMENTED",
        }
    }

    /// Full text of this error, detail included.
    pub fn message(&self) -> (r: String)
        ensures
            r@ == message_of(*self),
    {
        match self {
            AppError::WalletNotFound(s) => text_with_detail("Wallet not found: ", s),
            AppError::InvalidPublicKey(s) => text_with_detail("Invalid public key format: ", s),
            AppError::InsufficientBalance { required, available } => {
                let mut out = text_with_detail("Insufficient balance: required ", required);
                out.append(", available ");
                out.append(available.as_str());
                out
            },
            AppError::ReputationTooLow { current, required } => {
                let mut out = String::from_str("Reputation score too low: current ");
                push_decimal(&mut out, *current as u64);
                out.append(", required ");
                push_decimal(&mut out, *required as u64);
                out
            },
            AppError::BadRequest(s) => text_with_detail("Invalid request: ", s),
            AppError::AccountAbstractionError(s) => text_with_detail(
                "Account abstraction error: ",
                s,
            ),
            AppError::StellarNetworkError(s) => text_with_detail("Stellar network error: ", s),
            AppError::DatabaseError(s) => text_with_detail("Database error: ", s),
            AppError::ExternalApiError(s) => text_with_detail("External API error: ", s),
            AppError::ConfigError(s) => text_with_detail("Configuration error: ", s),
            AppError::InternalError(_) => String::from_str("Internal server error"),
            AppError::NotImplemented(s) => text_with_detail("Not implemented: ", s),
        }
    }

    /// Text shown to a caller; see `client_message_of`.
    pub fn client_message(&self) -> (r: String)
        ensures
            r@ == client_message_of(*self),
    {
        match self {
            AppError::DatabaseError(_) => String::from_str("Database operation failed"),
            AppError::ConfigError(_) => String::from_str("Configuration error"),
            AppError::InternalError(_) => String::from_str("Internal server error"),
            _ => self.message(),
        }
    }
}

} // verus!
