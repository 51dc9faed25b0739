//! Service configuration and the checks it must pass before start-up.
use vstd::prelude::*;

verus! {

/// Highest trust score threshold a configuration may ask for.
pub const MAX_THRESHOLD: u8 = 100;

#[derive(Debug, Clone)]
pub struct Config {
    pub server: ServerConfig,
    pub stellar: StellarConfig,
    pub database: DatabaseConfig,
    pub aa: AccountAbstractionConfig,
    pub reputation: ReputationConfig,
    pub external_apis: ExternalApisConfig,
}

#[derive(Debug, Clone)]
pub struct ServerConfig {
    pub port: u16,
    pub host: String,
    pub frontend_url: String,
}

#[derive(Debug, Clone)]
pub struct StellarConfig {
    pub network: String,
    pub horizon_url: String,
    pub friendbot_url: String,
}

#[derive(Debug, Clone)]
pub struct DatabaseConfig {
    pub url: String,
}

#[derive(Debug, Clone)]
pub struct AccountAbstractionConfig {
    pub bundler_url: String,
    pub signer_memory: bool,
}

#[derive(Debug, Clone)]
pub struct ReputationConfig {
    pub threshold: u8,
}

#[derive(Debug, Clone)]
pub struct ExternalApisConfig {
    pub circle_api_key: Option<String>,
    pub stripe_secret_key: Option<String>,
    pub coingecko_api_url: String,
}

/// The first problem of `c`, in the order the checks run; `None` when it has none.
pub open spec fn config_problem(c: Config) -> Option<Seq<char>> {
    if c.server.port == 0 {
        Some("Invalid port configuration"@)
    } else if c.stellar.horizon_url@.len() == 0 {
        Some("Stellar Horizon URL is required"@)
    } else if c.reputation.threshold > MAX_THRESHOLD {
        Some("Reputation threshold must be between 0-100"@)
    } else {
        None
    }
}

impl Config {
    /// Checks the port, the Horizon URL and the reputation threshold.
    pub fn validate(&self) -> (r: Result<(), String>)
        ensures
            r is Ok <==> config_problem(*self) is None,
            r matches Err(m) ==> config_problem(*self) == Some(m@),
    {
        if self.server.port == 0 {
            return Err(String::from_str("Invalid port configuration"));
        }
        if self.stellar.horizon_url.as_str().is_empty() {
            return Err(String::from_str("Stellar Horizon URL is required"));
        }
        if self.reputation.threshold > MAX_THRESHOLD {
            return Err(String::from_str("Reputation threshold must be between 0-100"));
        }
        Ok(())
    }
}

} // verus!
