//! Token conversion requests and the rate source's name for a token.
use vstd::prelude::*;

use crate::text::str_equal;

verus! {

#[derive(Debug, Clone)]
pub struct ConvertRequest {
    pub from_token: String,
    pub amount: String,
}

#[derive(Debug, Clone)]
pub struct ConvertResponse {
    pub from_token: String,
    pub from_amount: String,
    pub usdc_amount: String,
    pub fiat_amount: String,
    pub fiat_currency: String,
    pub rate_source: String,
}

#[derive(Debug, Clone)]
pub struct RatesQuery {
    pub from: String,
    pub to: String,
}

/// Lower-case form of `s`.
pub uninterp spec fn lowercase_of(s: Seq<char>) -> Seq<char>;

/// Relies on `str::to_lowercase`: the lower-case form of `s`, which depends
/// on its characters alone.
#[verifier::external_body]
fn to_lowercase(s: &str) -> (r: String)
    ensures
        r@ == lowercase_of(s@),
{
    s.to_lowercase()
}

/// The rate source's identifier of a lower-case token symbol: its coin name
/// for the three known symbols, else the symbol itself.
pub open spec fn coin_id_of(symbol: Seq<char>) -> Seq<char> {
    if symbol == "xlm"@ {
        "stellar"@
    } else if symbol == "eth"@ {
        "ethereum"@
    } else if symbol == "btc"@ {
        "bitcoin"@
    } else {
        symbol
    }
}

/// The rate source's identifier of an already lower-case token symbol.
pub fn coin_id_of_symbol(symbol: &str) -> (r: String)
    ensures
        r@ == coin_id_of(symbol@),
{
    if str_equal(symbol, "xlm") {
        String::from_str("stellar")
    } else if str_equal(symbol, "eth") {
        String::from_str("ethereum")
    } else if str_equal(symbol, "btc") {
        String::from_str("bitcoin")
    } else {
        String::from_str(symbol)
    }
}

/// The rate source's identifier of a token symbol, in any case.
pub fn coin_id(from_token: &str) -> (r: String)
    ensures
        r@ == coin_id_of(lowercase_of(from_token@)),
{
    let lower = to_lowercase(from_token);
    coin_id_of_symbol(lower.as_str())
}

} // verus!
