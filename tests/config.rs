use wallet_backend::config::{
    AccountAbstractionConfig, Config, DatabaseConfig, ExternalApisConfig, ReputationConfig,
    ServerConfig, StellarConfig,
};
use wallet_backend::convert::{coin_id, coin_id_of_symbol};

fn config() -> Config {
    Config {
        server: ServerConfig {
            port: 4000,
            host: "0.0.0.0".to_string(),
            frontend_url: "http://localhost:3000".to_string(),
        },
        stellar: StellarConfig {
            network: "testnet".to_string(),
            horizon_url: "https://horizon-testnet.stellar.org".to_string(),
            friendbot_url: "https://friendbot.stellar.org".to_string(),
        },
        database: DatabaseConfig { url: "sqlite://./wallet.db".to_string() },
        aa: AccountAbstractionConfig {
            bundler_url: "http://localhost:4100".to_string(),
            signer_memory: true,
        },
        reputation: ReputationConfig { threshold: 50 },
        external_apis: ExternalApisConfig {
            circle_api_key: None,
            stripe_secret_key: None,
            coingecko_api_url: "https://api.coingecko.com/api/v3".to_string(),
        },
    }
}

#[test]
fn valid_config_passes() {
    assert!(config().validate().is_ok());
    let mut c = config();
    c.reputation.threshold = 100;
    assert!(c.validate().is_ok());
}

#[test]
fn invalid_configs_fail() {
    let mut c = config();
    c.server.port = 0;
    assert_eq!(c.validate(), Err("Invalid port configuration".to_string()));
    let mut c = config();
    c.stellar.horizon_url = String::new();
    assert_eq!(c.validate(), Err("Stellar Horizon URL is required".to_string()));
    let mut c = config();
    c.reputation.threshold = 101;
    assert_eq!(c.validate(), Err("Reputation threshold must be between 0-100".to_string()));
}

#[test]
fn coin_ids() {
    assert_eq!(coin_id("XLM"), "stellar");
    assert_eq!(coin_id("Eth"), "ethereum");
    assert_eq!(coin_id("btc"), "bitcoin");
    assert_eq!(coin_id("DOGE"), "doge");
    assert_eq!(coin_id_of_symbol("xlm"), "stellar");
    assert_eq!(coin_id_of_symbol("XLM"), "XLM");
}
