use wallet_backend::ledger::{
    count_by_wallet_id, is_by_creation_time, list_recent, parse_amount, sum_volume_by_wallet_id, Transaction,
    TransactionStatus,
    TransactionType,
};

fn row(wallet: &str, amount: &str, status: TransactionStatus) -> Transaction {
    Transaction {
        id: "id".to_string(),
        wallet_id: wallet.to_string(),
        tx_hash: "hash".to_string(),
        tx_type: TransactionType::Send,
        from_address: None,
        to_address: None,
        amount: amount.to_string(),
        asset: "XLM".to_string(),
        status,
        created_at: 0,
    }
}

#[test]
fn parse_amount_reads_stroops() {
    assert_eq!(parse_amount("10000.0000000"), Some(100_000_000_000));
    assert_eq!(parse_amount("1"), Some(10_000_000));
    assert_eq!(parse_amount("0.5"), Some(5_000_000));
    assert_eq!(parse_amount("12.0000001"), Some(120_000_001));
    assert_eq!(parse_amount("0"), Some(0));
    assert_eq!(parse_amount("922337203685.4775807"), Some(9_223_372_036_854_775_807));
    assert_eq!(parse_amount("999999999999.9999999"), Some(9_999_999_999_999_999_999));
}

#[test]
fn parse_amount_rejects_malformed() {
    assert_eq!(parse_amount(""), None);
    assert_eq!(parse_amount("."), None);
    assert_eq!(parse_amount("5."), None);
    assert_eq!(parse_amount(".5"), None);
    assert_eq!(parse_amount("1.2.3"), None);
    assert_eq!(parse_amount("-1"), None);
    assert_eq!(parse_amount("abc"), None);
    assert_eq!(parse_amount("1.00000001"), None);
    assert_eq!(parse_amount("1000000000000"), None);
    assert_eq!(parse_amount(" 1"), None);
}

#[test]
fn count_and_volume_by_wallet() {
    let rows = vec![
        row("a", "10", TransactionStatus::Completed),
        row("a", "5.5", TransactionStatus::Pending),
        row("b", "100", TransactionStatus::Completed),
        row("a", "not a number", TransactionStatus::Completed),
        row("a", "0.25", TransactionStatus::Completed),
        row("a", "7", TransactionStatus::Failed),
    ];
    assert_eq!(count_by_wallet_id(&rows, "a"), 5);
    assert_eq!(count_by_wallet_id(&rows, "b"), 1);
    assert_eq!(count_by_wallet_id(&rows, "c"), 0);
    assert_eq!(sum_volume_by_wallet_id(&rows, "a"), 102_500_000);
    assert_eq!(sum_volume_by_wallet_id(&rows, "b"), 1_000_000_000);
    assert_eq!(sum_volume_by_wallet_id(&rows, "c"), 0);
    assert_eq!(count_by_wallet_id(&Vec::new(), "a"), 0);
}

#[test]
fn transaction_names() {
    assert_eq!(TransactionType::Send.as_str(), "send");
    assert_eq!(TransactionType::Receive.as_str(), "receive");
    assert_eq!(TransactionType::Convert.as_str(), "convert");
    assert_eq!(TransactionStatus::Pending.as_str(), "pending");
    assert_eq!(TransactionStatus::Completed.as_str(), "completed");
    assert_eq!(TransactionStatus::Failed.as_str(), "failed");
}

fn stamped(wallet: &str, hash: &str) -> Transaction {
    let mut t = row(wallet, "1", TransactionStatus::Completed);
    t.tx_hash = hash.to_string();
    t
}

#[test]
fn list_recent_pages_newest_first() {
    let rows = vec![
        stamped("a", "a1"),
        stamped("b", "b1"),
        stamped("a", "a2"),
        stamped("a", "a3"),
        stamped("b", "b2"),
        stamped("a", "a4"),
    ];
    let hashes = |v: Vec<Transaction>| v.into_iter().map(|t| t.tx_hash).collect::<Vec<_>>();
    assert_eq!(hashes(list_recent(&rows, "a", 10, 0)), vec!["a4", "a3", "a2", "a1"]);
    assert_eq!(hashes(list_recent(&rows, "a", 2, 0)), vec!["a4", "a3"]);
    assert_eq!(hashes(list_recent(&rows, "a", 2, 2)), vec!["a2", "a1"]);
    assert_eq!(hashes(list_recent(&rows, "a", 2, 3)), vec!["a1"]);
    assert!(list_recent(&rows, "a", 2, 9).is_empty());
    assert!(list_recent(&rows, "a", 0, 0).is_empty());
    assert_eq!(hashes(list_recent(&rows, "b", 1, 0)), vec!["b2"]);
    assert!(list_recent(&rows, "z", 5, 0).is_empty());
}

#[test]
fn list_recent_orders_by_creation_time() {
    let mut rows = Vec::new();
    for (hash, at) in [("a1", 10), ("a2", 20), ("a3", 20), ("a4", 35)] {
        let mut t = stamped("a", hash);
        t.created_at = at;
        rows.push(t);
    }
    assert!(is_by_creation_time(&rows));
    let page = list_recent(&rows, "a", 3, 0);
    let times: Vec<i64> = page.iter().map(|t| t.created_at).collect();
    assert_eq!(times, vec![35, 20, 20]);
    assert_eq!(page[0].tx_hash, "a4");
    rows.swap(0, 3);
    assert!(!is_by_creation_time(&rows));
    assert!(is_by_creation_time(&Vec::new()));
}
