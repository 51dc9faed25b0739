use wallet_backend::reputation::{
    calculate_reputation, calculate_trust_score, get_account_age, get_trust_level,
};

#[test]
fn level_bands() {
    assert_eq!(get_trust_level(0), "Unverified");
    assert_eq!(get_trust_level(30), "Unverified");
    assert_eq!(get_trust_level(31), "Verified L1");
    assert_eq!(get_trust_level(60), "Verified L1");
    assert_eq!(get_trust_level(61), "Verified L2");
    assert_eq!(get_trust_level(80), "Verified L2");
    assert_eq!(get_trust_level(81), "Trusted");
    assert_eq!(get_trust_level(100), "Trusted");
    assert_eq!(get_trust_level(101), "Unknown");
}

#[test]
fn end_to_end_score_is_52() {
    // 5 transactions, volume 1000 (log10 = 3, so 300 hundredths), 20 days.
    let score = calculate_trust_score(5, Some(300), 20);
    assert_eq!(score, 52);
    assert_eq!(get_trust_level(score), "Verified L1");
}

#[test]
fn score_formula_values() {
    assert_eq!(calculate_trust_score(0, None, 0), 10);
    assert_eq!(calculate_trust_score(20, Some(300), 200), 100);
    assert_eq!(calculate_trust_score(u32::MAX, Some(i64::MAX), u32::MAX), 100);
    assert_eq!(calculate_trust_score(3, Some(30), 5), 19);
    assert_eq!(calculate_trust_score(0, Some(-15), 0), 8);
    assert_eq!(calculate_trust_score(0, Some(-200), 0), 0);
    assert_eq!(calculate_trust_score(0, Some(i64::MIN), 0), 0);
    // Fractions of the volume and age bonuses add up before rounding down.
    assert_eq!(calculate_trust_score(0, Some(35), 5), 14);
    assert_eq!(calculate_trust_score(0, Some(34), 5), 13);
    assert_eq!(calculate_trust_score(25, None, 0), 50);
}

#[test]
fn score_grows_with_each_input() {
    let mut last = 0;
    for tx in 0..30u32 {
        let s = calculate_trust_score(tx, Some(150), 45);
        assert!(s >= last);
        last = s;
    }
    let mut last = 0;
    for d in 0..400i64 {
        let s = calculate_trust_score(4, Some(d), 45);
        assert!(s >= last);
        assert!(s <= 100);
        last = s;
    }
    let mut last = 0;
    for age in 0..300u32 {
        let s = calculate_trust_score(4, Some(150), age);
        assert!(s >= last);
        last = s;
    }
    assert!(calculate_trust_score(4, Some(0), 45) >= calculate_trust_score(4, None, 45));
}

#[test]
fn account_age_is_placeholder() {
    assert_eq!(get_account_age(true), 30);
    assert_eq!(get_account_age(false), 0);
}

#[test]
fn reputation_carries_inputs() {
    let r = calculate_reputation("GKEY", 5, 10_000_000_000, Some(300), true, 1_700_000_000);
    assert_eq!(r.public_key, "GKEY");
    assert_eq!(r.tx_count, 5);
    assert_eq!(r.total_volume, 10_000_000_000);
    assert_eq!(r.account_age_days, 30);
    assert_eq!(r.trust_score, 53);
    assert_eq!(r.level, "Verified L1");
    assert_eq!(r.last_calculated, 1_700_000_000);

    let unknown = calculate_reputation("GNONE", 0, 0, None, false, 5);
    assert_eq!(unknown.trust_score, 10);
    assert_eq!(unknown.level, "Unverified");
    assert_eq!(unknown.account_age_days, 0);
}
