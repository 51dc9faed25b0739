use wallet_backend::bank::{
    create_transfer, mask_account, rejection_error, rejection_reason, BankTransferRequest,
    TransferStatus,
};
use wallet_backend::error::AppError;
use wallet_backend::reputation::{calculate_trust_score, get_trust_level, Reputation};
use wallet_backend::wallet::Wallet;

fn wallet() -> Wallet {
    Wallet {
        id: "w-1".to_string(),
        public_key: "GPUB".to_string(),
        is_aa_wallet: false,
        created_at: 100,
        updated_at: 100,
    }
}

fn request() -> BankTransferRequest {
    BankTransferRequest {
        public_key: "GPUB".to_string(),
        amount_fiat: "250.5".to_string(),
        currency: "MXN".to_string(),
        bank_account: "1234567890".to_string(),
    }
}

fn reputation(score: u8) -> Reputation {
    Reputation {
        public_key: "GPUB".to_string(),
        trust_score: score,
        level: get_trust_level(score),
        tx_count: 5,
        total_volume: 10_000_000_000,
        account_age_days: 20,
        last_calculated: 200,
    }
}

#[test]
fn mask_account_rule() {
    assert_eq!(mask_account("1234567890"), "****7890");
    assert_eq!(mask_account("123"), "***");
    assert_eq!(mask_account("1234"), "****");
    assert_eq!(mask_account("12345"), "****2345");
    assert_eq!(mask_account(""), "");
}

#[test]
fn rejection_reason_text() {
    assert_eq!(rejection_reason(52, 60), "Reputation score too low: 52 (required: 60)");
    assert_eq!(rejection_reason(0, 100), "Reputation score too low: 0 (required: 100)");
}

#[test]
fn transfer_below_threshold_is_rejected() {
    let w = wallet();
    let t = create_transfer(Some(&w), &request(), &reputation(40), 50, "t-1", 300).unwrap();
    assert_eq!(t.status, TransferStatus::Rejected);
    assert_eq!(t.status.as_str(), "rejected");
    let reason = t.rejection_reason.clone().unwrap();
    assert!(!reason.is_empty());
    assert_eq!(reason, "Reputation score too low: 40 (required: 50)");
    assert_eq!(t.completed_at, None);
    assert_eq!(t.reputation_score, Some(40));
    assert_eq!(t.bank_account_masked, "****7890");
    assert_eq!(t.id, "t-1");
    assert_eq!(t.wallet_id, "w-1");
    assert_eq!(t.created_at, 300);
}

#[test]
fn transfer_at_threshold_is_completed() {
    let w = wallet();
    let t = create_transfer(Some(&w), &request(), &reputation(50), 50, "t-2", 400).unwrap();
    assert_eq!(t.status, TransferStatus::Completed);
    assert_eq!(t.status.as_str(), "completed");
    assert_eq!(t.rejection_reason, None);
    assert_eq!(t.completed_at, Some(400));
    assert_eq!(t.bank_account_masked, "****7890");
    assert_eq!(t.amount_fiat, "250.5");
    assert_eq!(t.currency, "MXN");
    assert_eq!(t.public_key, "GPUB");
}

#[test]
fn transfer_without_wallet_fails() {
    let r = create_transfer(None, &request(), &reputation(90), 50, "t-3", 500);
    match r {
        Err(AppError::WalletNotFound(k)) => assert_eq!(k, "GPUB"),
        other => panic!("unexpected {:?}", other),
    }
}

#[test]
fn end_to_end_transfer_decisions() {
    let score = calculate_trust_score(5, Some(300), 20);
    assert_eq!(score, 52);
    let w = wallet();
    let ok = create_transfer(Some(&w), &request(), &reputation(score), 50, "a", 1).unwrap();
    assert_eq!(ok.status, TransferStatus::Completed);
    let no = create_transfer(Some(&w), &request(), &reputation(score), 60, "b", 2).unwrap();
    assert_eq!(no.status, TransferStatus::Rejected);
    let reason = no.rejection_reason.unwrap();
    assert!(reason.contains("52"));
    assert!(reason.contains("60"));
}

#[test]
fn rejected_transfer_reports_reputation_too_low() {
    let w = wallet();
    let no = create_transfer(Some(&w), &request(), &reputation(52), 60, "r", 1).unwrap();
    match rejection_error(&no, 52, 60) {
        Some(AppError::ReputationTooLow { current, required }) => {
            assert_eq!(current, 52);
            assert_eq!(required, 60);
        }
        other => panic!("unexpected {:?}", other),
    }
    let ok = create_transfer(Some(&w), &request(), &reputation(60), 60, "c", 1).unwrap();
    assert!(rejection_error(&ok, 60, 60).is_none());
}
