use wallet_backend::error::AppError;
use wallet_backend::vault::AaService;

#[test]
fn register_distinct_keys_then_list() {
    let mut vault = AaService::new();
    let n = 25;
    for i in 0..n {
        vault.register_signer(&format!("GKEY{}", i), &format!("SSEED{}", i)).unwrap();
    }
    let mut listed = vault.list_signers();
    assert_eq!(listed.len(), n);
    listed.sort();
    listed.dedup();
    assert_eq!(listed.len(), n);
    for i in 0..n {
        assert!(vault.has_signer(&format!("GKEY{}", i)));
    }
}

#[test]
fn register_overwrites() {
    let mut vault = AaService::default();
    vault.register_signer("GA", "S1").unwrap();
    vault.register_signer("GA", "S2").unwrap();
    assert_eq!(vault.list_signers(), vec!["GA".to_string()]);
    assert_eq!(vault.get_signer("GA"), Some("S2".to_string()));
}

#[test]
fn get_has_remove() {
    let mut vault = AaService::new();
    assert!(!vault.has_signer("GA"));
    assert_eq!(vault.get_signer("GA"), None);
    vault.register_signer("GA", "S1").unwrap();
    vault.register_signer("GB", "S2").unwrap();
    assert!(vault.has_signer("GA"));
    assert_eq!(vault.get_signer("GB"), Some("S2".to_string()));
    vault.remove_signer("GA").unwrap();
    assert!(!vault.has_signer("GA"));
    assert!(vault.has_signer("GB"));
    vault.remove_signer("GZ").unwrap();
    assert_eq!(vault.list_signers(), vec!["GB".to_string()]);
    assert!(AaService::new().list_signers().is_empty());
}

#[test]
fn relay_needs_a_signer() {
    let mut vault = AaService::new();
    match vault.relay_transaction("GA", "AAAA") {
        Err(AppError::AccountAbstractionError(m)) => {
            assert_eq!(m, "No signer registered for this account")
        }
        other => panic!("unexpected {:?}", other),
    }
    vault.register_signer("GA", "SSECRETSEED").unwrap();
    let receipt = vault.relay_transaction("GA", "AAAA").unwrap();
    assert!(receipt.starts_with("aa_relayed_"));
    assert_eq!(receipt.len(), "aa_relayed_".len() + 36);
    assert_ne!(receipt, vault.relay_transaction("GA", "AAAA").unwrap());
}
