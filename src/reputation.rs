//! Trust score engine: a 0 to 100 score from ledger aggregates and account age.
//!
//! The volume enters as its decimal logarithm in hundredths, rounded down
//! (`floor(100 * log10(volume))`), or `None` when the volume is not positive.
//! With the bonuses counted in tenths of a point, the score is then exact
//! integer arithmetic: `floor(x / 10) == floor(floor(10 * y) / 10)` whenever
//! `x` and `10 * y` differ by a whole number.
use vstd::prelude::*;

verus! {

/// Score every account starts from.
pub const BASE_SCORE: i64 = 10;

/// Cap of the transaction-count bonus, in points.
pub const MAX_TX_BONUS: i64 = 40;

/// Cap of the volume bonus, in tenths of a point.
pub const MAX_VOLUME_BONUS_TENTHS: i64 = 300;

/// Cap of the account-age bonus, in tenths of a point.
pub const MAX_AGE_BONUS_TENTHS: i64 = 200;

/// Highest score.
pub const MAX_SCORE: i64 = 100;

/// Age given to every account that exists on the ledger network. The network
/// is only asked whether the account exists, not when it was created.
pub const PLACEHOLDER_ACCOUNT_AGE_DAYS: u32 = 30;

/// `min(2 * tx_count, 40)`.
pub open spec fn tx_bonus(tx_count: nat) -> int {
    if 2 * tx_count < MAX_TX_BONUS {
        (2 * tx_count) as int
    } else {
        MAX_TX_BONUS as int
    }
}

/// `min(10 * log10(volume), 30)` in tenths of a point, rounded down; 0 when
/// the volume is not positive.
pub open spec fn volume_bonus_tenths(volume_log_centi: Option<i64>) -> int {
    match volume_log_centi {
        Some(d) => if d < MAX_VOLUME_BONUS_TENTHS {
            d as int
        } else {
            MAX_VOLUME_BONUS_TENTHS as int
        },
        None => 0,
    }
}

/// `min(age_days / 10, 20)` in tenths of a point.
pub open spec fn age_bonus_tenths(age_days: nat) -> int {
    if age_days < MAX_AGE_BONUS_TENTHS {
        age_days as int
    } else {
        MAX_AGE_BONUS_TENTHS as int
    }
}

/// `floor(10 + tx bonus + volume bonus + age bonus)`, before clamping.
pub open spec fn raw_score(tx_count: nat, volume_log_centi: Option<i64>, age_days: nat) -> int {
    BASE_SCORE + tx_bonus(tx_count) + (volume_bonus_tenths(volume_log_centi) + age_bonus_tenths(
        age_days,
    )) / 10
}

/// The trust score: the raw score held to `[0, 100]`.
pub open spec fn trust_score(tx_count: nat, volume_log_centi: Option<i64>, age_days: nat) -> int {
    let s = raw_score(tx_count, volume_log_centi, age_days);
    if s < 0 {
        0
    } else if s > MAX_SCORE {
        MAX_SCORE as int
    } else {
        s
    }
}

/// Name of the band a score falls in.
pub open spec fn level_of(score: int) -> Seq<char> {
    if score <= 30 {
        "Unverified"@
    } else if score <= 60 {
        "Verified L1"@
    } else if score <= 80 {
        "Verified L2"@
    } else if score <= 100 {
        "Trusted"@
    } else {
        "Unknown"@
    }
}

/// Age in days credited to an account.
pub open spec fn account_age_of(account_exists: bool) -> nat {
    if account_exists {
        PLACEHOLDER_ACCOUNT_AGE_DAYS as nat
    } else {
        0
    }
}

/// The trust score of an account with `tx_count` transactions, a completed
/// volume whose logarithm is `volume_log_centi` (see the module text) and an
/// age of `age_days` days.
pub fn calculate_trust_score(tx_count: u32, volume_log_centi: Option<i64>, age_days: u32) -> (r: u8)
    ensures
        r as int == trust_score(tx_count as nat, volume_log_centi, age_days as nat),
        0 <= r <= 100,
{
    let tx: i64 = if tx_count < 20 {
        2 * tx_count as i64
    } else {
        MAX_TX_BONUS
    };
    // Below -1000 tenths the score is 0 whatever the other bonuses are.
    let volume: i64 = match volume_log_centi {
        Some(d) => if d > MAX_VOLUME_BONUS_TENTHS {
            MAX_VOLUME_BONUS_TENTHS
        } else if d < -1000 {
            -1000
        } else {
            d
        },
        None => 0,
    };
    let age: i64 = if (age_days as i64) < MAX_AGE_BONUS_TENTHS {
        age_days as i64
    } else {
        MAX_AGE_BONUS_TENTHS
    };
    let tenths: i64 = volume + age;
    let points: i64 = (tenths + 1000) / 10 - 100;
    assert(points == tenths / 10);
    let raw: i64 = BASE_SCORE + tx + points;
    proof {
        let exact = raw_score(tx_count as nat, volume_log_centi, age_days as nat);
        if volume_bonus_tenths(volume_log_centi) >= -1000 {
            assert(raw == exact);
        } else {
            assert(exact < 0);
            assert(raw < 0);
        }
    }
    let score: i64 = if raw < 0 {
        0
    } else if raw > MAX_SCORE {
        MAX_SCORE
    } else {
        raw
    };
    score as u8
}

/// Name of the band that `score` falls in.
pub fn get_trust_level(score: u8) -> (r: String)
    ensures
        r@ == level_of(score as int),
{
    if score <= 30 {
        String::from_str("Unverified")
    } else if score <= 60 {
        String::from_str("Verified L1")
    } else if score <= 80 {
        String::from_str("Verified L2")
    } else if score <= 100 {
        String::from_str("Trusted")
    } else {
        String::from_str("Unknown")
    }
}

/// Age in days credited to an account, from whether the ledger network knows it.
pub fn get_account_age(account_exists: bool) -> (r: u32)
    ensures
        r as nat == account_age_of(account_exists),
{
    if account_exists {
        PLACEHOLDER_ACCOUNT_AGE_DAYS
    } else {
        0
    }
}

/// A computed trust score with the inputs it was computed from. Never stored.
#[derive(Debug, Clone)]
pub struct Reputation {
    pub public_key: String,
    pub trust_score: u8,
    pub level: String,
    pub tx_count: u32,
    /// Completed volume in stroops (ten-millionths of a unit).
    pub total_volume: u128,
    pub account_age_days: u32,
    /// Seconds since the Unix epoch.
    pub last_calculated: i64,
}

/// Whether `r` is the reputation of `public_key` computed at `now` from the
/// given aggregates and account existence.
pub open spec fn is_reputation_of(
    r: Reputation,
    public_key: Seq<char>,
    tx_count: u32,
    total_volume: u128,
    volume_log_centi: Option<i64>,
    account_exists: bool,
    now: i64,
) -> bool {
    &&& r.public_key@ == public_key
    &&& r.tx_count == tx_count
    &&& r.total_volume == total_volume
    &&& r.account_age_days as nat == account_age_of(account_exists)
    &&& r.trust_score as int == trust_score(
        tx_count as nat,
        volume_log_centi,
        account_age_of(account_exists),
    )
    &&& r.level@ == level_of(r.trust_score as int)
    &&& r.last_calculated == now
}

/// The reputation of `public_key`. A key without a wallet has no ledger
/// activity: pass 0, 0 and `None`. `volume_log_centi` is the logarithm of
/// `total_volume` in units (see the module text).
pub fn calculate_reputation(
    public_key: &str,
    tx_count: u32,
    total_volume: u128,
    volume_log_centi: Option<i64>,
    account_exists: bool,
    now: i64,
) -> (r: Reputation)
    ensures
        is_reputation_of(
            r,
            public_key@,
            tx_count,
            total_volume,
            volume_log_centi,
            account_exists,
            now,
        ),
{
    let age = get_account_age(account_exists);
    let score = calculate_trust_score(tx_count, volume_log_centi, age);
    let level = get_trust_level(score);
    Reputation {
        public_key: String::from_str(public_key),
        trust_score: score,
        level,
        tx_count,
        total_volume,
        account_age_days: age,
        last_calculated: now,
    }
}

/// The score never leaves `[0, 100]`, and it never falls when the transaction
/// count, the account age or a volume of at least one unit grows, the other
/// inputs staying the same.
pub proof fn lemma_trust_score_monotonic(
    tx_count: nat,
    tx_count2: nat,
    volume_log_centi: Option<i64>,
    volume_log_centi2: Option<i64>,
    age_days: nat,
    age_days2: nat,
)
    requires
        tx_count <= tx_count2,
        age_days <= age_days2,
        volume_bonus_tenths(volume_log_centi) <= volume_bonus_tenths(volume_log_centi2),
    ensures
        0 <= trust_score(tx_count, volume_log_centi, age_days) <= 100,
        trust_score(tx_count, volume_log_centi, age_days) <= trust_score(
            tx_count2,
            volume_log_centi2,
            age_days2,
        ),
{
    let a = volume_bonus_tenths(volume_log_centi) + age_bonus_tenths(age_days);
    let b = volume_bonus_tenths(volume_log_centi2) + age_bonus_tenths(age_days2);
    assert(a <= b);
    assert(a / 10 <= b / 10) by {
        vstd::arithmetic::div_mod::lemma_div_is_ordered(a, b, 10);
    }
}

/// Along volumes of at least one unit, the volume bonus grows with the
/// logarithm: the premise of the lemma above for a larger volume. Below one
/// unit the logarithm is negative and the bonus falls under that of no volume.
pub proof fn lemma_volume_bonus_monotonic(d1: i64, d2: i64)
    requires
        0 <= d1 <= d2,
    ensures
        volume_bonus_tenths(None) <= volume_bonus_tenths(Some(d1)),
        volume_bonus_tenths(Some(d1)) <= volume_bonus_tenths(Some(d2)),
{
}

} // verus!
