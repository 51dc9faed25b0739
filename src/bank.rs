//! Transfer authorization gate: turns a trust score into an accepted or
//! rejected fiat transfer, with the audit record of the attempt.
use vstd::prelude::*;

use crate::crypto::stars;
use crate::error::AppError;
use crate::reputation::Reputation;
use crate::text::{decimal_digits, lemma_decimal_digits_nonempty, push_decimal};
use crate::wallet::Wallet;

verus! {

/// Characters of a bank account left visible.
pub const VISIBLE_ACCOUNT_CHARS: usize = 4;

#[derive(Debug, Clone, Copy, PartialEq, Eq, Structural)]
pub enum TransferStatus {
    Completed,
    Rejected,
}

pub open spec fn transfer_status_name(s: TransferStatus) -> Seq<char> {
    match s {
        TransferStatus::Completed => "completed"@,
        TransferStatus::Rejected => "rejected"@,
    }
}

impl TransferStatus {
    /// Stored name of the status.
    pub fn as_str(&self) -> (r: &'static str)
        ensures
            r@ == transfer_status_name(*self),
    {
        match self {
            TransferStatus::Completed => "completed",
            TransferStatus::Rejected => "rejected",
        }
    }
}

/// A request to pay out to a bank account.
#[derive(Debug, Clone)]
pub struct BankTransferRequest {
    pub public_key: String,
    /// Decimal text of the fiat amount.
    pub amount_fiat: String,
    pub currency: String,
    pub bank_account: String,
}

/// The audit record of one authorization attempt.
#[derive(Debug, Clone)]
pub struct BankTransfer {
    pub id: String,
    pub wallet_id: String,
    pub public_key: String,
    pub amount_fiat: String,
    pub currency: String,
    pub bank_account_masked: String,
    pub status: TransferStatus,
    pub rejection_reason: Option<String>,
    pub reputation_score: Option<i64>,
    /// Seconds since the Unix epoch.
    pub created_at: i64,
    pub completed_at: Option<i64>,
}

/// `account` as shown in a record: four asterisks and its last four
/// characters, or only asterisks when it has four characters or fewer.
pub open spec fn masked_account(account: Seq<char>) -> Seq<char> {
    if account.len() <= VISIBLE_ACCOUNT_CHARS {
        stars(account.len())
    } else {
        stars(VISIBLE_ACCOUNT_CHARS as nat) + account.subrange(
            account.len() - VISIBLE_ACCOUNT_CHARS,
            account.len() as int,
        )
    }
}

/// Why a transfer with `score` was refused under `threshold`.
pub open spec fn rejection_reason_of(score: u8, threshold: u8) -> Seq<char> {
    "Reputation score too low: "@ + decimal_digits(score as nat) + " (required: "@
        + decimal_digits(threshold as nat) + ")"@
}

/// Masks a bank account number for storage.
pub fn mask_account(account: &str) -> (r: String)
    ensures
        r@ == masked_account(account@),
{
    let n = account.unicode_len();
    let mut out = String::new();
    if n <= VISIBLE_ACCOUNT_CHARS {
        crate::crypto::push_stars(&mut out, n);
        assert(out@ =~= masked_account(account@));
    } else {
        crate::crypto::push_stars(&mut out, VISIBLE_ACCOUNT_CHARS);
        out.append(account.substring_char(n - VISIBLE_ACCOUNT_CHARS, n));
        assert(out@ =~= masked_account(account@));
    }
    out
}

/// The reason stored with a refused transfer.
pub fn rejection_reason(score: u8, threshold: u8) -> (r: String)
    ensures
        r@ == rejection_reason_of(score, threshold),
{
    let mut out = String::from_str("Reputation score too low: ");
    push_decimal(&mut out, score as u64);
    out.append(" (required: ");
    push_decimal(&mut out, threshold as u64);
    out.append(")");
    out
}

/// Whether `t` is the record of a transfer for `wallet` and `request`,
/// decided on `score` against `threshold`, with id `id` at time `now`.
pub open spec fn is_transfer_decision(
    t: BankTransfer,
    wallet: Wallet,
    request: BankTransferRequest,
    score: u8,
    threshold: u8,
    id: Seq<char>,
    now: i64,
) -> bool {
    &&& t.id@ == id
    &&& t.wallet_id@ == wallet.id@
    &&& t.public_key@ == request.public_key@
    &&& t.amount_fiat@ == request.amount_fiat@
    &&& t.currency@ == request.currency@
    &&& t.bank_account_masked@ == masked_account(request.bank_account@)
    &&& t.reputation_score == Some(score as i64)
    &&& t.created_at == now
    &&& if score < threshold {
        &&& t.status == TransferStatus::Rejected
        &&& t.rejection_reason is Some
        &&& t.rejection_reason.unwrap()@ == rejection_reason_of(score, threshold)
        &&& t.completed_at is None
    } else {
        &&& t.status == TransferStatus::Completed
        &&& t.rejection_reason is None
        &&& t.completed_at == Some(now)
    }
}

/// Decides a transfer request. Without a wallet it fails with
/// `WalletNotFound` and no record; otherwise it returns the one record of
/// this attempt, completed when the reputation reaches `threshold` and
/// rejected below it. A rejected record is a reported outcome, not a fault.
pub fn create_transfer(
    wallet: Option<&Wallet>,
    request: &BankTransferRequest,
    reputation: &Reputation,
    threshold: u8,
    transfer_id: &str,
    now: i64,
) -> (r: Result<BankTransfer, AppError>)
    ensures
        wallet is None <==> r is Err,
        r matches Err(e) ==> e matches AppError::WalletNotFound(k) && k@ == request.public_key@,
        r matches Ok(t) ==> is_transfer_decision(
            t,
            *wallet.unwrap(),
            *request,
            reputation.trust_score,
            threshold,
            transfer_id@,
            now,
        ),
{
    let wallet = match wallet {
        Some(w) => w,
        None => {
            return Err(AppError::WalletNotFound(request.public_key.clone()));
        },
    };
    let score = reputation.trust_score;
    let rejected = score < threshold;
    let reason = if rejected {
        Some(rejection_reason(score, threshold))
    } else {
        None
    };
    let record = BankTransfer {
        id: String::from_str(transfer_id),
        wallet_id: wallet.id.clone(),
        public_key: request.public_key.clone(),
        amount_fiat: request.amount_fiat.clone(),
        currency: request.currency.clone(),
        bank_account_masked: mask_account(request.bank_account.as_str()),
        status: if rejected {
            TransferStatus::Rejected
        } else {
            TransferStatus::Completed
        },
        rejection_reason: reason,
        reputation_score: Some(score as i64),
        created_at: now,
        completed_at: if rejected {
            None
        } else {
            Some(now)
        },
    };
    Ok(record)
}

/// The error a caller is given for a decided transfer: `ReputationTooLow`
/// with the score and threshold for a rejected one, none for a completed one.
pub fn rejection_error(record: &BankTransfer, score: u8, threshold: u8) -> (r: Option<AppError>)
    ensures
        r is Some <==> record.status == TransferStatus::Rejected,
        r matches Some(e) ==> e matches AppError::ReputationTooLow { current, required } && current
            == score && required == threshold,
{
    match record.status {
        TransferStatus::Rejected => Some(AppError::ReputationTooLow { current: score, required: threshold }),
        TransferStatus::Completed => None,
    }
}

/// Every decided transfer is one of two outcomes: below the threshold it is
/// rejected with a non-empty reason and no completion time; at or above it,
/// completed at the time of the decision with no reason. A reason is present
/// exactly when the transfer is rejected, and the account is always masked.
pub proof fn lemma_transfer_outcome(
    t: BankTransfer,
    wallet: Wallet,
    request: BankTransferRequest,
    score: u8,
    threshold: u8,
    id: Seq<char>,
    now: i64,
)
    requires
        is_transfer_decision(t, wallet, request, score, threshold, id, now),
    ensures
        score < threshold ==> {
            &&& t.status == TransferStatus::Rejected
            &&& t.rejection_reason is Some
            &&& t.rejection_reason.unwrap()@.len() > 0
            &&& t.completed_at is None
        },
        score >= threshold ==> t.status == TransferStatus::Completed && t.completed_at == Some(now),
        t.rejection_reason is Some <==> t.status == TransferStatus::Rejected,
        t.bank_account_masked@ == masked_account(request.bank_account@),
        t.reputation_score == Some(score as i64),
{
    lemma_decimal_digits_nonempty(score as nat);
}

} // verus!
