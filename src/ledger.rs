//! Transaction ledger: the rows a wallet's activity leaves, their amounts, and
//! the aggregates the trust score is computed from.
//!
//! Amounts are decimal text. They are read exactly, as a whole number of
//! stroops (ten-millionths of a unit): one to twelve digits, then optionally a
//! point and one to seven digits. Any other text is malformed and adds nothing
//! to a volume.
use vstd::prelude::*;

verus! {

/// Stroops in one unit.
pub const STROOPS_PER_UNIT: u64 = 10_000_000;

/// Most digits of an amount before the point.
pub const MAX_WHOLE_DIGITS: u8 = 12;

/// Most digits of an amount after the point.
pub const MAX_FRACTION_DIGITS: u8 = 7;

#[derive(Debug, Clone, Copy, PartialEq, Eq, Structural)]
pub enum TransactionType {
    Send,
    Receive,
    Convert,
}

#[derive(Debug, Clone, Copy, PartialEq, Eq, Structural)]
pub enum TransactionStatus {
    Pending,
    Completed,
    Failed,
}

pub open spec fn transaction_type_name(t: TransactionType) -> Seq<char> {
    match t {
        TransactionType::Send => "send"@,
        TransactionType::Receive => "receive"@,
        TransactionType::Convert => "convert"@,
    }
}

pub open spec fn status_name(s: TransactionStatus) -> Seq<char> {
    match s {
        TransactionStatus::Pending => "pending"@,
        TransactionStatus::Completed => "completed"@,
        TransactionStatus::Failed => "failed"@,
    }
}

impl TransactionType {
    /// Stored name of the type.
    pub fn as_str(&self) -> (r: &'static str)
        ensures
            r@ == transaction_type_name(*self),
    {
        match self {
            TransactionType::Send => "send",
            TransactionType::Receive => "receive",
            TransactionType::Convert => "convert",
        }
    }
}

impl TransactionStatus {
    /// Stored name of the status.
    pub fn as_str(&self) -> (r: &'static str)
        ensures
            r@ == status_name(*self),
    {
        match self {
            TransactionStatus::Pending => "pending",
            TransactionStatus::Completed => "completed",
            TransactionStatus::Failed => "failed",
        }
    }
}

/// One wallet-affecting event. Rows are appended and never changed.
#[derive(Debug, Clone)]
pub struct Transaction {
    pub id: String,
    pub wallet_id: String,
    pub tx_hash: String,
    pub tx_type: TransactionType,
    pub from_address: Option<String>,
    pub to_address: Option<String>,
    pub amount: String,
    pub asset: String,
    pub status: TransactionStatus,
    /// Seconds since the Unix epoch.
    pub created_at: i64,
}

/// State of a left-to-right scan of an amount.
#[derive(Debug, Clone, Copy)]
pub struct AmountScan {
    pub valid: bool,
    pub whole: u64,
    pub whole_digits: u8,
    pub seen_point: bool,
    pub fraction: u64,
    pub fraction_digits: u8,
}

pub open spec fn scan_start() -> AmountScan {
    AmountScan {
        valid: true,
        whole: 0,
        whole_digits: 0,
        seen_point: false,
        fraction: 0,
        fraction_digits: 0,
    }
}

pub open spec fn is_digit(c: char) -> bool {
    '0' <= c <= '9'
}

pub open spec fn invalid(st: AmountScan) -> AmountScan {
    AmountScan { valid: false, ..st }
}

/// The scan after reading `c`.
pub open spec fn scan_step(st: AmountScan, c: char) -> AmountScan {
    if !st.valid {
        st
    } else if is_digit(c) {
        let d = (c as int - 48) as u64;
        if !st.seen_point {
            if st.whole_digits < MAX_WHOLE_DIGITS {
                AmountScan {
                    whole: (st.whole * 10 + d) as u64,
                    whole_digits: (st.whole_digits + 1) as u8,
                    ..st
                }
            } else {
                invalid(st)
            }
        } else {
            if st.fraction_digits < MAX_FRACTION_DIGITS {
                AmountScan {
                    fraction: (st.fraction * 10 + d) as u64,
                    fraction_digits: (st.fraction_digits + 1) as u8,
                    ..st
                }
            } else {
                invalid(st)
            }
        }
    } else if c == '.' && !st.seen_point && st.whole_digits > 0 {
        AmountScan { seen_point: true, ..st }
    } else {
        invalid(st)
    }
}

/// The scan after reading all of `s`.
pub open spec fn scan_amount(s: Seq<char>) -> AmountScan
    decreases s.len(),
{
    if s.len() == 0 {
        scan_start()
    } else {
        scan_step(scan_amount(s.drop_last()), s.last())
    }
}

/// `fraction` as stroops, given that it was written with `digits` digits.
pub open spec fn fraction_stroops(fraction: nat, digits: nat) -> nat
    decreases MAX_FRACTION_DIGITS - digits,
{
    if digits >= MAX_FRACTION_DIGITS {
        fraction
    } else {
        fraction_stroops(fraction * 10, digits + 1)
    }
}

/// The amount `s` in stroops, or `None` when `s` is malformed.
pub open spec fn amount_stroops(s: Seq<char>) -> Option<nat> {
    let st = scan_amount(s);
    if st.valid && st.whole_digits > 0 && (!st.seen_point || st.fraction_digits > 0) {
        Some(
            (st.whole * STROOPS_PER_UNIT + fraction_stroops(
                st.fraction as nat,
                st.fraction_digits as nat,
            )) as nat,
        )
    } else {
        None
    }
}

/// What the amount `s` adds to a volume: 0 when it is malformed.
pub open spec fn amount_contribution(s: Seq<char>) -> nat {
    match amount_stroops(s) {
        Some(v) => v,
        None => 0,
    }
}

/// The bounds that a scan keeps.
pub open spec fn scan_bounded(st: AmountScan) -> bool {
    &&& st.whole_digits <= MAX_WHOLE_DIGITS
    &&& st.fraction_digits <= MAX_FRACTION_DIGITS
    &&& st.whole < pow10(st.whole_digits as nat)
    &&& st.fraction < pow10(st.fraction_digits as nat)
}

pub open spec fn pow10(n: nat) -> nat
    decreases n,
{
    if n == 0 {
        1
    } else {
        10 * pow10((n - 1) as nat)
    }
}

proof fn lemma_pow10_values()
    ensures
        pow10(7) == 10_000_000,
        pow10(11) == 100_000_000_000,
        pow10(12) == 1_000_000_000_000,
        pow10(6) == 1_000_000,
{
    reveal_with_fuel(pow10, 13);
}

proof fn lemma_pow10_monotonic(a: nat, b: nat)
    requires
        a <= b,
    ensures
        pow10(a) <= pow10(b),
    decreases b - a,
{
    if a < b {
        lemma_pow10_monotonic(a, (b - 1) as nat);
    }
}

proof fn lemma_fraction_stroops_bound(fraction: nat, digits: nat)
    requires
        digits <= MAX_FRACTION_DIGITS,
        fraction < pow10(digits),
    ensures
        fraction_stroops(fraction, digits) < pow10(MAX_FRACTION_DIGITS as nat),
    decreases MAX_FRACTION_DIGITS - digits,
{
    if digits < MAX_FRACTION_DIGITS {
        lemma_fraction_stroops_bound(fraction * 10, digits + 1);
    }
}

fn scan_next(st: AmountScan, c: char) -> (r: AmountScan)
    requires
        scan_bounded(st),
    ensures
        r == scan_step(st, c),
        scan_bounded(r),
{
    proof {
        lemma_pow10_values();
        lemma_pow10_monotonic(st.whole_digits as nat, MAX_WHOLE_DIGITS as nat);
        lemma_pow10_monotonic(st.fraction_digits as nat, MAX_FRACTION_DIGITS as nat);
    }
    if !st.valid {
        st
    } else if '0' <= c && c <= '9' {
        let d: u64 = (c as u32 - 48) as u64;
        if !st.seen_point {
            if st.whole_digits < MAX_WHOLE_DIGITS {
                AmountScan { whole: st.whole * 10 + d, whole_digits: st.whole_digits + 1, ..st }
            } else {
                AmountScan { valid: false, ..st }
            }
        } else {
            if st.fraction_digits < MAX_FRACTION_DIGITS {
                AmountScan {
                    fraction: st.fraction * 10 + d,
                    fraction_digits: st.fraction_digits + 1,
                    ..st
                }
            } else {
                AmountScan { valid: false, ..st }
            }
        }
    } else if c == '.' && !st.seen_point && st.whole_digits > 0 {
        AmountScan { seen_point: true, ..st }
    } else {
        AmountScan { valid: false, ..st }
    }
}

/// The amount `s` in stroops; `None` when it is malformed.
pub fn parse_amount(s: &str) -> (r: Option<u64>)
    ensures
        match amount_stroops(s@) {
            Some(v) => r == Some(v as u64) && v <= u64::MAX,
            None => r is None,
        },
{
    let n = s.unicode_len();
    let mut st = AmountScan {
        valid: true,
        whole: 0,
        whole_digits: 0,
        seen_point: false,
        fraction: 0,
        fraction_digits: 0,
    };
    let mut i: usize = 0;
    while i < n
        invariant
            i <= n,
            n == s@.len(),
            st == scan_amount(s@.subrange(0, i as int)),
            scan_bounded(st),
        decreases n - i,
    {
        let c = s.get_char(i);
        st = scan_next(st, c);
        assert(s@.subrange(0, i + 1).drop_last() =~= s@.subrange(0, i as int));
        i = i + 1;
    }
    assert(s@.subrange(0, n as int) =~= s@);
    if !(st.valid && st.whole_digits > 0 && (!st.seen_point || st.fraction_digits > 0)) {
        return None;
    }
    let mut fraction: u64 = st.fraction;
    let mut digits: u8 = st.fraction_digits;
    proof {
        lemma_pow10_values();
        lemma_pow10_monotonic(st.whole_digits as nat, MAX_WHOLE_DIGITS as nat);
    }
    while digits < MAX_FRACTION_DIGITS
        invariant
            digits <= MAX_FRACTION_DIGITS,
            fraction < pow10(digits as nat),
            fraction_stroops(fraction as nat, digits as nat) == fraction_stroops(
                st.fraction as nat,
                st.fraction_digits as nat,
            ),
        decreases MAX_FRACTION_DIGITS - digits,
    {
        proof {
            lemma_pow10_monotonic(digits as nat, 6);
            lemma_pow10_values();
        }
        fraction = fraction * 10;
        digits = digits + 1;
    }
    proof {
        lemma_fraction_stroops_bound(st.fraction as nat, st.fraction_digits as nat);
    }
    Some(st.whole * STROOPS_PER_UNIT + fraction)
}

/// Number of rows of `rows` that belong to `wallet_id`.
pub open spec fn count_for(rows: Seq<Transaction>, wallet_id: Seq<char>) -> nat
    decreases rows.len(),
{
    if rows.len() == 0 {
        0
    } else {
        count_for(rows.drop_last(), wallet_id) + if rows.last().wallet_id@ == wallet_id {
            1nat
        } else {
            0nat
        }
    }
}

/// Sum, in stroops, of the completed rows of `rows` that belong to `wallet_id`.
pub open spec fn completed_volume(rows: Seq<Transaction>, wallet_id: Seq<char>) -> nat
    decreases rows.len(),
{
    if rows.len() == 0 {
        0
    } else {
        let last = rows.last();
        completed_volume(rows.drop_last(), wallet_id) + if last.wallet_id@ == wallet_id
            && last.status == TransactionStatus::Completed {
            amount_contribution(last.amount@)
        } else {
            0nat
        }
    }
}

proof fn lemma_count_bound(rows: Seq<Transaction>, wallet_id: Seq<char>)
    ensures
        count_for(rows, wallet_id) <= rows.len(),
    decreases rows.len(),
{
    if rows.len() > 0 {
        lemma_count_bound(rows.drop_last(), wallet_id);
    }
}

/// Number of rows that belong to `wallet_id`.
pub fn count_by_wallet_id(rows: &Vec<Transaction>, wallet_id: &str) -> (r: u64)
    ensures
        r == count_for(rows@, wallet_id@),
{
    let wanted = String::from_str(wallet_id);
    let mut count: u64 = 0;
    let mut i: usize = 0;
    while i < rows.len()
        invariant
            i <= rows@.len(),
            wanted@ == wallet_id@,
            count == count_for(rows@.subrange(0, i as int), wallet_id@),
        decreases rows@.len() - i,
    {
        proof {
            assert(rows@.subrange(0, i + 1).drop_last() =~= rows@.subrange(0, i as int));
            lemma_count_bound(rows@.subrange(0, i as int), wallet_id@);
        }
        if rows[i].wallet_id == wanted {
            count = count + 1;
        }
        i = i + 1;
    }
    assert(rows@.subrange(0, rows@.len() as int) =~= rows@);
    count
}

proof fn lemma_volume_bound(rows: Seq<Transaction>, wallet_id: Seq<char>)
    ensures
        completed_volume(rows, wallet_id) <= rows.len() * (u64::MAX as nat),
    decreases rows.len(),
{
    if rows.len() > 0 {
        lemma_volume_bound(rows.drop_last(), wallet_id);
        let last = rows.last();
        assert(amount_contribution(last.amount@) <= u64::MAX) by {
            if amount_stroops(last.amount@) is Some {
                amount_bound(last.amount@);
            }
        }
        assert(rows.len() * (u64::MAX as nat) == (rows.len() - 1) * (u64::MAX as nat) + (
        u64::MAX as nat)) by (nonlinear_arith)
            requires
                rows.len() >= 1,
        ;
    }
}

proof fn amount_bound(s: Seq<char>)
    requires
        amount_stroops(s) is Some,
    ensures
        amount_stroops(s).unwrap() <= u64::MAX,
{
    let st = scan_amount(s);
    lemma_scan_bounded(s);
    lemma_pow10_values();
    lemma_pow10_monotonic(st.whole_digits as nat, MAX_WHOLE_DIGITS as nat);
    lemma_fraction_stroops_bound(st.fraction as nat, st.fraction_digits as nat);
}

proof fn lemma_scan_bounded(s: Seq<char>)
    ensures
        scan_bounded(scan_amount(s)),
    decreases s.len(),
{
    if s.len() > 0 {
        lemma_scan_bounded(s.drop_last());
        let st = scan_amount(s.drop_last());
        lemma_pow10_values();
        lemma_pow10_monotonic(st.whole_digits as nat, MAX_WHOLE_DIGITS as nat);
        lemma_pow10_monotonic(st.fraction_digits as nat, MAX_FRACTION_DIGITS as nat);
    }
}

/// Sum, in stroops, of the amounts of the completed rows that belong to
/// `wallet_id`; malformed amounts add nothing.
pub fn sum_volume_by_wallet_id(rows: &Vec<Transaction>, wallet_id: &str) -> (r: u128)
    ensures
        r == completed_volume(rows@, wallet_id@),
{
    let wanted = String::from_str(wallet_id);
    let mut total: u128 = 0;
    let mut i: usize = 0;
    while i < rows.len()
        invariant
            i <= rows@.len(),
            wanted@ == wallet_id@,
            total == completed_volume(rows@.subrange(0, i as int), wallet_id@),
        decreases rows@.len() - i,
    {
        proof {
            assert(rows@.subrange(0, i + 1).drop_last() =~= rows@.subrange(0, i as int));
            lemma_volume_bound(rows@.subrange(0, i + 1), wallet_id@);
            assert((i + 1) * (u64::MAX as nat) <= u128::MAX) by (nonlinear_arith)
                requires
                    i < usize::MAX,
            ;
        }
        let row = &rows[i];
        if row.wallet_id == wanted && row.status == TransactionStatus::Completed {
            match parse_amount(row.amount.as_str()) {
                Some(v) => {
                    total = total + v as u128;
                },
                None => {},
            }
        }
        i = i + 1;
    }
    assert(rows@.subrange(0, rows@.len() as int) =~= rows@);
    total
}

fn copy_text(s: &Option<String>) -> (r: Option<String>)
    ensures
        r == *s,
{
    match s {
        Some(t) => Some(t.clone()),
        None => None,
    }
}

/// An equal copy of `t`.
pub fn copy_transaction(t: &Transaction) -> (r: Transaction)
    ensures
        r == *t,
{
    Transaction {
        id: t.id.clone(),
        wallet_id: t.wallet_id.clone(),
        tx_hash: t.tx_hash.clone(),
        tx_type: t.tx_type,
        from_address: copy_text(&t.from_address),
        to_address: copy_text(&t.to_address),
        amount: t.amount.clone(),
        asset: t.asset.clone(),
        status: t.status,
        created_at: t.created_at,
    }
}

/// The rows of `rows` that belong to `wallet_id`, newest first: `rows` is in
/// the order of insertion.
pub open spec fn newest_first(rows: Seq<Transaction>, wallet_id: Seq<char>) -> Seq<Transaction>
    decreases rows.len(),
{
    if rows.len() == 0 {
        seq![]
    } else {
        let rest = newest_first(rows.drop_first(), wallet_id);
        if rows[0].wallet_id@ == wallet_id {
            rest.push(rows[0])
        } else {
            rest
        }
    }
}

/// At most `limit` rows of `wallet_id`, newest first, after skipping the
/// `offset` newest.
pub open spec fn recent_page(
    rows: Seq<Transaction>,
    wallet_id: Seq<char>,
    limit: nat,
    offset: nat,
) -> Seq<Transaction> {
    let all = newest_first(rows, wallet_id);
    let start = if offset < all.len() {
        offset as int
    } else {
        all.len() as int
    };
    let end = if start + limit < all.len() {
        start + limit
    } else {
        all.len() as int
    };
    all.subrange(start, end)
}

/// Whether `rows` is in order of creation time, oldest first.
pub open spec fn by_creation_time(rows: Seq<Transaction>) -> bool {
    forall|i: int, j: int| 0 <= i < j < rows.len() ==> rows[i].created_at <= rows[j].created_at
}

/// Tells whether `rows` is in order of creation time, oldest first.
pub fn is_by_creation_time(rows: &Vec<Transaction>) -> (r: bool)
    ensures
        r == by_creation_time(rows@),
{
    if rows.len() == 0 {
        return true;
    }
    let mut i: usize = 0;
    while i < rows.len() - 1
        invariant
            rows@.len() > 0,
            i < rows@.len(),
            forall|a: int, b: int|
                0 <= a < b <= i ==> rows@[a].created_at <= rows@[b].created_at,
        decreases rows@.len() - i,
    {
        if rows[i].created_at > rows[i + 1].created_at {
            return false;
        }
        i = i + 1;
    }
    true
}

proof fn lemma_count_first(rows: Seq<Transaction>, wallet_id: Seq<char>)
    requires
        rows.len() > 0,
    ensures
        count_for(rows, wallet_id) == count_for(rows.drop_first(), wallet_id) + if rows[0].wallet_id@
            == wallet_id {
            1nat
        } else {
            0nat
        },
    decreases rows.len(),
{
    if rows.len() > 1 {
        lemma_count_first(rows.drop_last(), wallet_id);
        assert(rows.drop_first().drop_last() =~= rows.drop_last().drop_first());
        assert(rows.drop_first().last() == rows.last());
        assert(rows.drop_last()[0] == rows[0]);
        assert(count_for(rows.drop_first(), wallet_id) == count_for(
            rows.drop_first().drop_last(),
            wallet_id,
        ) + if rows.last().wallet_id@ == wallet_id {
            1nat
        } else {
            0nat
        });
    } else {
        assert(rows.drop_first().len() == 0);
        assert(rows.drop_last().len() == 0);
        assert(rows.last() == rows[0]);
        assert(count_for(rows.drop_last(), wallet_id) == 0);
        assert(count_for(rows.drop_first(), wallet_id) == 0);
    }
}

/// The newest-first list of a wallet's rows holds exactly its rows, each
/// once: as many as `count_for` counts.
pub proof fn lemma_newest_first_len(rows: Seq<Transaction>, wallet_id: Seq<char>)
    ensures
        newest_first(rows, wallet_id).len() == count_for(rows, wallet_id),
    decreases rows.len(),
{
    if rows.len() > 0 {
        lemma_newest_first_len(rows.drop_first(), wallet_id);
        lemma_count_first(rows, wallet_id);
    }
}

proof fn lemma_newest_first_members(rows: Seq<Transaction>, wallet_id: Seq<char>)
    ensures
        forall|k: int|
            0 <= k < newest_first(rows, wallet_id).len() ==> exists|j: int|
                0 <= j < rows.len() && #[trigger] newest_first(rows, wallet_id)[k] == rows[j]
                    && rows[j].wallet_id@ == wallet_id,
    decreases rows.len(),
{
    if rows.len() > 0 {
        let rest = rows.drop_first();
        lemma_newest_first_members(rest, wallet_id);
        assert forall|k: int| 0 <= k < newest_first(rows, wallet_id).len() implies exists|j: int|
            0 <= j < rows.len() && #[trigger] newest_first(rows, wallet_id)[k] == rows[j]
                && rows[j].wallet_id@ == wallet_id by {
            if k < newest_first(rest, wallet_id).len() {
                let j = choose|j: int|
                    0 <= j < rest.len() && #[trigger] newest_first(rest, wallet_id)[k] == rest[j]
                        && rest[j].wallet_id@ == wallet_id;
                assert(rows[j + 1] == rest[j]);
            } else {
                assert(newest_first(rows, wallet_id)[k] == rows[0]);
            }
        }
    }
}

proof fn lemma_newest_first_descending(rows: Seq<Transaction>, wallet_id: Seq<char>)
    requires
        by_creation_time(rows),
    ensures
        forall|a: int, b: int|
            0 <= a < b < newest_first(rows, wallet_id).len() ==> newest_first(rows, wallet_id)[a].created_at
                >= newest_first(rows, wallet_id)[b].created_at,
    decreases rows.len(),
{
    if rows.len() > 0 {
        let rest = rows.drop_first();
        assert(by_creation_time(rest)) by {
            assert forall|i: int, j: int| 0 <= i < j < rest.len() implies rest[i].created_at
                <= rest[j].created_at by {
                assert(rest[i] == rows[i + 1] && rest[j] == rows[j + 1]);
            }
        }
        lemma_newest_first_descending(rest, wallet_id);
        lemma_newest_first_members(rest, wallet_id);
        let nf = newest_first(rows, wallet_id);
        let nr = newest_first(rest, wallet_id);
        assert forall|a: int, b: int| 0 <= a < b < nf.len() implies nf[a].created_at
            >= nf[b].created_at by {
            if b < nr.len() {
                assert(nf[a] == nr[a] && nf[b] == nr[b]);
            } else {
                let j = choose|j: int|
                    0 <= j < rest.len() && #[trigger] nr[a] == rest[j] && rest[j].wallet_id@
                        == wallet_id;
                assert(rest[j] == rows[j + 1]);
                assert(nf[a] == nr[a]);
                assert(nf[b] == rows[0]);
            }
        }
    }
}

/// A page of the rows of `wallet_id`, newest first by creation time; `rows`
/// must be oldest first. A later call with a larger `offset` resumes where
/// this stopped.
pub fn list_recent(rows: &Vec<Transaction>, wallet_id: &str, limit: usize, offset: usize) -> (r:
    Vec<Transaction>)
    requires
        by_creation_time(rows@),
    ensures
        r@.len() == recent_page(rows@, wallet_id@, limit as nat, offset as nat).len(),
        forall|i: int|
            0 <= i < r@.len() ==> #[trigger] r@[i] == recent_page(
                rows@,
                wallet_id@,
                limit as nat,
                offset as nat,
            )[i],
        forall|i: int| 0 <= i < r@.len() ==> (#[trigger] r@[i]).wallet_id@ == wallet_id@,
        forall|a: int, b: int| 0 <= a < b < r@.len() ==> r@[a].created_at >= r@[b].created_at,
        offset == 0 ==> r@.len() == if limit < count_for(rows@, wallet_id@) {
            limit as nat
        } else {
            count_for(rows@, wallet_id@)
        },
{
    let wanted = String::from_str(wallet_id);
    let mut all: Vec<Transaction> = Vec::new();
    let mut i: usize = rows.len();
    while i > 0
        invariant
            i <= rows@.len(),
            wanted@ == wallet_id@,
            all@.len() == newest_first(rows@.subrange(i as int, rows@.len() as int), wallet_id@).len(),
            forall|j: int|
                0 <= j < all@.len() ==> #[trigger] all@[j] == newest_first(
                    rows@.subrange(i as int, rows@.len() as int),
                    wallet_id@,
                )[j],
        decreases i,
    {
        i = i - 1;
        assert(rows@.subrange(i as int, rows@.len() as int).drop_first() =~= rows@.subrange(
            i + 1,
            rows@.len() as int,
        ));
        if rows[i].wallet_id == wanted {
            all.push(copy_transaction(&rows[i]));
        }
    }
    assert(rows@.subrange(0, rows@.len() as int) =~= rows@);
    let ghost every = newest_first(rows@, wallet_id@);
    let start: usize = if offset < all.len() {
        offset
    } else {
        all.len()
    };
    let end: usize = if limit < all.len() - start {
        start + limit
    } else {
        all.len()
    };
    let mut page: Vec<Transaction> = Vec::new();
    let mut k: usize = start;
    while k < end
        invariant
            start <= k <= end <= all@.len(),
            all@.len() == every.len(),
            forall|j: int| 0 <= j < all@.len() ==> #[trigger] all@[j] == every[j],
            page@.len() == k - start,
            forall|j: int| 0 <= j < page@.len() ==> #[trigger] page@[j] == every[start + j],
        decreases end - k,
    {
        page.push(copy_transaction(&all[k]));
        k = k + 1;
    }
    proof {
        lemma_newest_first_len(rows@, wallet_id@);
        lemma_newest_first_members(rows@, wallet_id@);
        lemma_newest_first_descending(rows@, wallet_id@);
        assert forall|i: int| 0 <= i < page@.len() implies (#[trigger] page@[i]).wallet_id@
            == wallet_id@ by {
            assert(page@[i] == every[start + i]);
            let j = choose|j: int|
                0 <= j < rows@.len() && #[trigger] every[start + i] == rows@[j] && rows@[j].wallet_id@
                    == wallet_id@;
        }
        assert forall|a: int, b: int| 0 <= a < b < page@.len() implies page@[a].created_at
            >= page@[b].created_at by {
            assert(page@[a] == every[start + a] && page@[b] == every[start + b]);
        }
    }
    page
}

} // verus!
