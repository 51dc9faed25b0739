use wallet_backend::error::AppError;
use wallet_backend::ledger::{TransactionStatus, TransactionType};
use wallet_backend::wallet::{
    collect_tx_hashes, extract_balances, funding_transaction, generate_wallet,
    recent_tx_hashes, send_transaction, BalanceEntry, Wallet,
};

fn wallet() -> Wallet {
    Wallet {
        id: "w-9".to_string(),
        public_key: "GFROM".to_string(),
        is_aa_wallet: true,
        created_at: 1,
        updated_at: 1,
    }
}

#[test]
fn generate_aa_wallet_with_secret() {
    let g = generate_wallet(true, true, "id-1", 77);
    assert_eq!(g.wallet.id, "id-1");
    assert_eq!(g.response.id, "id-1");
    assert!(g.wallet.is_aa_wallet);
    assert!(g.response.aa_enabled);
    assert_eq!(g.wallet.created_at, 77);
    assert_eq!(g.wallet.updated_at, 77);
    assert_eq!(g.response.public_key, g.wallet.public_key);
    assert_eq!(g.wallet.public_key.len(), 56);
    assert!(g.wallet.public_key.starts_with('G'));
    let secret = g.response.secret_key.clone().unwrap();
    assert!(secret.starts_with('S'));
    assert_eq!(g.signer_secret, Some(secret));
}

#[test]
fn generate_plain_wallet_hides_secret() {
    let g = generate_wallet(false, false, "id-2", 5);
    assert!(!g.wallet.is_aa_wallet);
    assert!(!g.response.aa_enabled);
    assert_eq!(g.response.secret_key, None);
    assert_eq!(g.signer_secret, None);
}

#[test]
fn funding_row() {
    let t = funding_transaction("tx-1", "w-9", "abc123", "GFROM", 42);
    assert_eq!(t.tx_type, TransactionType::Receive);
    assert_eq!(t.from_address, Some("Friendbot".to_string()));
    assert_eq!(t.to_address, Some("GFROM".to_string()));
    assert_eq!(t.amount, "10000.0000000");
    assert_eq!(t.asset, "XLM");
    assert_eq!(t.status, TransactionStatus::Completed);
    assert_eq!(t.tx_hash, "abc123");
    assert_eq!(t.wallet_id, "w-9");
    assert_eq!(t.created_at, 42);
}

#[test]
fn send_row_and_missing_account() {
    let w = wallet();
    let t = send_transaction(&w, true, "tx-2", "GFROM", "GTO", "12.5", None, 9).unwrap();
    assert_eq!(t.tx_type, TransactionType::Send);
    assert_eq!(t.asset, "XLM");
    assert_eq!(t.amount, "12.5");
    assert_eq!(t.from_address, Some("GFROM".to_string()));
    assert_eq!(t.to_address, Some("GTO".to_string()));
    assert_eq!(t.wallet_id, "w-9");
    assert!(t.tx_hash.starts_with("tx_"));
    assert_eq!(t.tx_hash.len(), 3 + 36);
    let u = send_transaction(&w, true, "tx-3", "GFROM", "GTO", "1", Some("USDC"), 9).unwrap();
    assert_eq!(u.asset, "USDC");
    assert_ne!(u.tx_hash, t.tx_hash);
    match send_transaction(&w, false, "tx-4", "GFROM", "GTO", "1", None, 9) {
        Err(AppError::InternalError(m)) => {
            assert_eq!(m, "Source account does not exist on Stellar network")
        }
        other => panic!("unexpected {:?}", other),
    }
}

#[test]
fn balances_are_extracted() {
    let entries = vec![
        BalanceEntry {
            asset_type: Some("native".to_string()),
            asset_code: None,
            balance: Some("100.5".to_string()),
        },
        BalanceEntry {
            asset_type: Some("credit_alphanum4".to_string()),
            asset_code: Some("USDC".to_string()),
            balance: None,
        },
        BalanceEntry { asset_type: None, asset_code: None, balance: Some("3".to_string()) },
    ];
    let out = extract_balances(&entries);
    assert_eq!(
        out,
        vec![
            ("XLM".to_string(), "100.5".to_string()),
            ("USDC".to_string(), "0".to_string()),
            ("UNKNOWN".to_string(), "3".to_string()),
        ]
    );
}

#[test]
fn hashes_are_collected() {
    let records = vec![Some("h1".to_string()), None, Some("h3".to_string())];
    assert_eq!(collect_tx_hashes(&records), vec!["h1".to_string(), "h3".to_string()]);
    let w = wallet();
    let rows = vec![
        funding_transaction("a", "w-9", "x1", "GFROM", 1),
        send_transaction(&w, true, "b", "GFROM", "GTO", "1", None, 2).unwrap(),
    ];
    let sent_hash = rows[1].tx_hash.clone();
    assert_eq!(recent_tx_hashes(&rows), vec!["x1".to_string(), sent_hash]);
}
