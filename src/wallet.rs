//! Wallets: creation of a keypair-backed wallet, the ledger rows that funding
//! and sending leave, and the views of balances handed back to callers.
use vstd::prelude::*;

use crate::crypto::{
    encoded_address, ed25519_public_of, generate_stellar_keypair, ACCOUNT_VERSION_BYTE,
    SEED_VERSION_BYTE,
};
use crate::error::AppError;
use crate::ledger::{Transaction, TransactionStatus, TransactionType};
use crate::text::str_equal;
use crate::vault::random_uuid;

verus! {

/// Amount the test network's funding service pays into a new account.
pub const FUNDING_AMOUNT: &'static str = "10000.0000000";

/// Asset of the network itself.
pub const NATIVE_ASSET: &'static str = "XLM";

/// Prefix of the hash recorded for a payment.
pub const SEND_HASH_PREFIX: &'static str = "tx_";

/// Sender recorded for a funding transaction.
pub const FUNDING_SOURCE: &'static str = "Friendbot";

/// A wallet: an address the backend holds, immutable once created.
#[derive(Debug, Clone)]
pub struct Wallet {
    pub id: String,
    pub public_key: String,
    pub is_aa_wallet: bool,
    /// Seconds since the Unix epoch.
    pub created_at: i64,
    pub updated_at: i64,
}

#[derive(Debug, Clone)]
pub struct GenerateWalletRequest {
    pub aa_mode: bool,
    pub reveal_secret: bool,
}

#[derive(Debug, Clone)]
pub struct GenerateWalletResponse {
    pub id: String,
    pub public_key: String,
    pub secret_key: Option<String>,
    pub aa_enabled: bool,
}

#[derive(Debug, Clone)]
pub struct FundWalletRequest {
    pub public_key: String,
}

#[derive(Debug, Clone)]
pub struct FundWalletResponse {
    pub public_key: String,
    pub status: String,
    pub tx_hash: Option<String>,
}

#[derive(Debug, Clone)]
pub struct Balance {
    pub asset_code: String,
    pub balance: String,
    pub asset_issuer: Option<String>,
}

#[derive(Debug, Clone)]
pub struct BalanceResponse {
    pub public_key: String,
    pub balances: Vec<Balance>,
    pub recent_transactions: Vec<String>,
}

#[derive(Debug, Clone)]
pub struct SendTransactionRequest {
    pub destination: String,
    pub amount: String,
    pub asset_code: Option<String>,
    pub memo: Option<String>,
}

#[derive(Debug, Clone)]
pub struct SendTransactionResponse {
    pub tx_hash: String,
    pub status: String,
}

#[derive(Debug, Clone)]
pub struct RelayTransactionRequest {
    pub public_key: String,
    pub tx_xdr: String,
}

#[derive(Debug, Clone)]
pub struct RelayTransactionResponse {
    pub tx_hash: String,
    pub status: String,
}

/// A freshly generated wallet: the row to store, the seed to hand to the
/// signer vault (account-abstraction wallets only) and the caller's answer.
#[derive(Debug, Clone)]
pub struct GeneratedWallet {
    pub wallet: Wallet,
    pub signer_secret: Option<String>,
    pub response: GenerateWalletResponse,
}

/// Whether `g` is a wallet generated with id `id` at `now`, its address and
/// seed being the encodings of one keypair.
pub open spec fn is_generated_wallet(
    g: GeneratedWallet,
    aa_mode: bool,
    reveal_secret: bool,
    id: Seq<char>,
    now: i64,
) -> bool {
    &&& exists|s: Seq<u8>|
        s.len() == 32 && g.wallet.public_key@ == encoded_address(
            ACCOUNT_VERSION_BYTE,
            ed25519_public_of(s),
        ) && (g.signer_secret matches Some(x) ==> x@ == encoded_address(SEED_VERSION_BYTE, s)) && (
        g.response.secret_key matches Some(x) ==> x@ == encoded_address(SEED_VERSION_BYTE, s))
    &&& g.wallet.id@ == id
    &&& g.wallet.is_aa_wallet == aa_mode
    &&& g.wallet.created_at == now
    &&& g.wallet.updated_at == now
    &&& g.signer_secret is Some <==> aa_mode
    &&& g.response.id@ == id
    &&& g.response.public_key@ == g.wallet.public_key@
    &&& g.response.secret_key is Some <==> reveal_secret
    &&& g.response.aa_enabled == aa_mode
}

/// Generates a keypair and the wallet built on it.
pub fn generate_wallet(aa_mode: bool, reveal_secret: bool, id: &str, now: i64) -> (r:
    GeneratedWallet)
    ensures
        is_generated_wallet(r, aa_mode, reveal_secret, id@, now),
{
    let (public_key, secret_key) = generate_stellar_keypair();
    let wallet = Wallet {
        id: String::from_str(id),
        public_key: public_key.clone(),
        is_aa_wallet: aa_mode,
        created_at: now,
        updated_at: now,
    };
    let signer_secret = if aa_mode {
        Some(secret_key.clone())
    } else {
        None
    };
    let response = GenerateWalletResponse {
        id: String::from_str(id),
        public_key,
        secret_key: if reveal_secret {
            Some(secret_key)
        } else {
            None
        },
        aa_enabled: aa_mode,
    };
    GeneratedWallet { wallet, signer_secret, response }
}

/// The ledger row of a funding payment of `tx_hash` into `public_key`.
pub fn funding_transaction(
    id: &str,
    wallet_id: &str,
    tx_hash: &str,
    public_key: &str,
    now: i64,
) -> (r: Transaction)
    ensures
        r.id@ == id@,
        r.wallet_id@ == wallet_id@,
        r.tx_hash@ == tx_hash@,
        r.tx_type == TransactionType::Receive,
        r.from_address matches Some(f) && f@ == FUNDING_SOURCE@,
        r.to_address matches Some(t) && t@ == public_key@,
        r.amount@ == FUNDING_AMOUNT@,
        r.asset@ == NATIVE_ASSET@,
        r.status == TransactionStatus::Completed,
        r.created_at == now,
{
    Transaction {
        id: String::from_str(id),
        wallet_id: String::from_str(wallet_id),
        tx_hash: String::from_str(tx_hash),
        tx_type: TransactionType::Receive,
        from_address: Some(String::from_str(FUNDING_SOURCE)),
        to_address: Some(String::from_str(public_key)),
        amount: String::from_str(FUNDING_AMOUNT),
        asset: String::from_str(NATIVE_ASSET),
        status: TransactionStatus::Completed,
        created_at: now,
    }
}

/// The asset recorded for a payment: the one named, or the network's own.
pub open spec fn asset_or_native(asset_code: Option<&str>) -> Seq<char> {
    match asset_code {
        Some(a) => a@,
        None => NATIVE_ASSET@,
    }
}

/// The ledger row of a payment of `amount` from `from_pubkey` to `to_pubkey`,
/// under a fresh hash: `tx_` and a random UUID. It fails when the sender's
/// account does not exist on the network.
pub fn send_transaction(
    wallet: &Wallet,
    account_exists: bool,
    id: &str,
    from_pubkey: &str,
    to_pubkey: &str,
    amount: &str,
    asset_code: Option<&str>,
    now: i64,
) -> (r: Result<Transaction, AppError>)
    ensures
        !account_exists <==> r is Err,
        r matches Err(e) ==> e is InternalError,
        r matches Ok(t) ==> {
            &&& t.id@ == id@
            &&& t.wallet_id@ == wallet.id@
            &&& t.tx_hash@.len() == SEND_HASH_PREFIX@.len() + 36
            &&& t.tx_hash@.subrange(0, SEND_HASH_PREFIX@.len() as int) == SEND_HASH_PREFIX@
            &&& t.tx_type == TransactionType::Send
            &&& t.from_address matches Some(f) && f@ == from_pubkey@
            &&& t.to_address matches Some(d) && d@ == to_pubkey@
            &&& t.amount@ == amount@
            &&& t.asset@ == asset_or_native(asset_code)
            &&& t.status == TransactionStatus::Completed
            &&& t.created_at == now
        },
{
    if !account_exists {
        return Err(
            AppError::InternalError(
                String::from_str("Source account does not exist on Stellar network"),
            ),
        );
    }
    let asset = match asset_code {
        Some(a) => String::from_str(a),
        None => String::from_str(NATIVE_ASSET),
    };
    let mut tx_hash = String::from_str(SEND_HASH_PREFIX);
    let unique = random_uuid();
    tx_hash.append(unique.as_str());
    assert(tx_hash@.subrange(0, SEND_HASH_PREFIX@.len() as int) =~= SEND_HASH_PREFIX@);
    Ok(
        Transaction {
            id: String::from_str(id),
            wallet_id: wallet.id.clone(),
            tx_hash,
            tx_type: TransactionType::Send,
            from_address: Some(String::from_str(from_pubkey)),
            to_address: Some(String::from_str(to_pubkey)),
            amount: String::from_str(amount),
            asset,
            status: TransactionStatus::Completed,
            created_at: now,
        },
    )
}

/// The hashes of `rows`, in order.
pub fn recent_tx_hashes(rows: &Vec<Transaction>) -> (r: Vec<String>)
    ensures
        r@.len() == rows@.len(),
        forall|i: int| 0 <= i < rows@.len() ==> #[trigger] r@[i]@ == rows@[i].tx_hash@,
{
    let mut out: Vec<String> = Vec::new();
    let mut i: usize = 0;
    while i < rows.len()
        invariant
            i <= rows@.len(),
            out@.len() == i,
            forall|j: int| 0 <= j < i ==> #[trigger] out@[j]@ == rows@[j].tx_hash@,
        decreases rows@.len() - i,
    {
        out.push(rows[i].tx_hash.clone());
        i = i + 1;
    }
    out
}

/// One balance as the network reports it; each field may be missing.
#[derive(Debug, Clone)]
pub struct BalanceEntry {
    pub asset_type: Option<String>,
    pub asset_code: Option<String>,
    pub balance: Option<String>,
}

/// The asset code shown for a balance: the network's own asset for the
/// native type, else the code given, else `UNKNOWN`.
pub open spec fn asset_code_of(e: BalanceEntry) -> Seq<char> {
    if e.asset_type matches Some(t) && t@ == "native"@ {
        NATIVE_ASSET@
    } else {
        match e.asset_code {
            Some(c) => c@,
            None => "UNKNOWN"@,
        }
    }
}

/// The amount shown for a balance: the one given, else `0`.
pub open spec fn balance_amount_of(e: BalanceEntry) -> Seq<char> {
    match e.balance {
        Some(b) => b@,
        None => "0"@,
    }
}

fn balance_pair(e: &BalanceEntry) -> (r: (String, String))
    ensures
        r.0@ == asset_code_of(*e),
        r.1@ == balance_amount_of(*e),
{
    let native = match &e.asset_type {
        Some(t) => str_equal(t.as_str(), "native"),
        None => false,
    };
    let code = if native {
        String::from_str(NATIVE_ASSET)
    } else {
        match &e.asset_code {
            Some(c) => c.clone(),
            None => String::from_str("UNKNOWN"),
        }
    };
    let amount = match &e.balance {
        Some(b) => b.clone(),
        None => String::from_str("0"),
    };
    (code, amount)
}

/// `(asset code, amount)` for each reported balance, in order.
pub fn extract_balances(entries: &Vec<BalanceEntry>) -> (r: Vec<(String, String)>)
    ensures
        r@.len() == entries@.len(),
        forall|i: int|
            0 <= i < entries@.len() ==> #[trigger] r@[i].0@ == asset_code_of(entries@[i])
                && r@[i].1@ == balance_amount_of(entries@[i]),
{
    let mut out: Vec<(String, String)> = Vec::new();
    let mut i: usize = 0;
    while i < entries.len()
        invariant
            i <= entries@.len(),
            out@.len() == i,
            forall|j: int|
                0 <= j < i ==> #[trigger] out@[j].0@ == asset_code_of(entries@[j]) && out@[j].1@
                    == balance_amount_of(entries@[j]),
        decreases entries@.len() - i,
    {
        out.push(balance_pair(&entries[i]));
        i = i + 1;
    }
    out
}

/// The hashes present among `records`, in order.
pub open spec fn present_hashes(records: Seq<Option<String>>) -> Seq<Seq<char>>
    decreases records.len(),
{
    if records.len() == 0 {
        seq![]
    } else {
        let rest = present_hashes(records.drop_last());
        match records.last() {
            Some(h) => rest.push(h@),
            None => rest,
        }
    }
}

/// The hashes present among reported transaction records, in order.
pub fn collect_tx_hashes(records: &Vec<Option<String>>) -> (r: Vec<String>)
    ensures
        r@.len() == present_hashes(records@).len(),
        forall|i: int| 0 <= i < r@.len() ==> #[trigger] r@[i]@ == present_hashes(records@)[i],
{
    let mut out: Vec<String> = Vec::new();
    let mut i: usize = 0;
    while i < records.len()
        invariant
            i <= records@.len(),
            out@.len() == present_hashes(records@.subrange(0, i as int)).len(),
            forall|j: int|
                0 <= j < out@.len() ==> #[trigger] out@[j]@ == present_hashes(
                    records@.subrange(0, i as int),
                )[j],
        decreases records@.len() - i,
    {
        assert(records@.subrange(0, i + 1).drop_last() =~= records@.subrange(0, i as int));
        match &records[i] {
            Some(h) => {
                out.push(h.clone());
            },
            None => {},
        }
        i = i + 1;
    }
    assert(records@.subrange(0, records@.len() as int) =~= records@);
    out
}

} // verus!
