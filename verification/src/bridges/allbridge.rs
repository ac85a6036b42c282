//! Allbridge Core: stable-coin pools quoted by
//! `core.api.allbridgecoreapi.net/swap/calculator`.

use vstd::prelude::*;
use crate::booth::{BoothId, BoothQuote, QuoteRequest, SecurityRating};
use crate::bridges::{param, param_str};
use crate::chain::ChainId;
use crate::errors::RouterError;
use crate::text::{micro_chars, micro_text, pairs_view};

verus! {

/// The Allbridge chain symbols.
pub open spec fn allbridge_chain(c: ChainId) -> Option<Seq<char>> {
    match c {
        ChainId::Ethereum => Some("ETH"@),
        ChainId::Arbitrum => Some("ARB"@),
        ChainId::Polygon => Some("POL"@),
        ChainId::Bnb => Some("BSC"@),
        ChainId::Avalanche => Some("AVA"@),
        ChainId::Solana => Some("SOL"@),
        _ => None,
    }
}

/// The query Allbridge is sent for an amount in millionths.
pub open spec fn allbridge_query(amount: u64) -> Seq<(Seq<char>, Seq<char>)> {
    seq![("amount"@, micro_chars(amount as nat)), ("messenger"@, "ALLBRIDGE"@)]
}

/// The quote made of Allbridge's reply (amounts in millionths, missing ones
/// counting as zero).
pub open spec fn allbridge_quote(amount_out: Option<u64>, fee: Option<u64>) -> BoothQuote {
    BoothQuote {
        booth: BoothId::Allbridge,
        amount_out: match amount_out {
            Some(v) => v as i128,
            None => 0,
        },
        duration_sec: 240,
        fee_usd: match fee {
            Some(v) => v as u128,
            None => 0,
        },
        slippage_pct: 20,
        security_rating: SecurityRating::B,
    }
}

/// Allbridge serves Ethereum (ETH), Arbitrum (ARB), Polygon (POL), BNB Chain
/// (BSC), Avalanche (AVA) and Solana (SOL), and not Base or Sui.
pub proof fn lemma_allbridge_chains(c: ChainId)
    ensures
        allbridge_chain(ChainId::Ethereum) == Some("ETH"@),
        allbridge_chain(ChainId::Arbitrum) == Some("ARB"@),
        allbridge_chain(ChainId::Polygon) == Some("POL"@),
        allbridge_chain(ChainId::Bnb) == Some("BSC"@),
        allbridge_chain(ChainId::Avalanche) == Some("AVA"@),
        allbridge_chain(ChainId::Solana) == Some("SOL"@),
        allbridge_chain(c) is None <==> (c == ChainId::Base || c == ChainId::Sui),
{
}

/// An Allbridge quote delivers the amount to be received and charges the
/// fee (each nothing when missing), takes four minutes, allows 0.2% slippage
/// and is rated B.
pub proof fn lemma_allbridge_quote(amount_out: Option<u64>, fee: Option<u64>)
    ensures
        allbridge_quote(amount_out, fee).booth == BoothId::Allbridge,
        amount_out matches Some(v) ==> allbridge_quote(amount_out, fee).amount_out == v,
        amount_out is None ==> allbridge_quote(amount_out, fee).amount_out == 0,
        fee matches Some(f) ==> allbridge_quote(amount_out, fee).fee_usd == f,
        fee is None ==> allbridge_quote(amount_out, fee).fee_usd == 0,
        allbridge_quote(amount_out, fee).duration_sec == 240,
        allbridge_quote(amount_out, fee).slippage_pct == 20,
        allbridge_quote(amount_out, fee).security_rating == SecurityRating::B,
{
}

/// The Allbridge symbol of a chain.
pub fn chain(c: ChainId) -> (r: Option<&'static str>)
    ensures
        r matches Some(s) ==> allbridge_chain(c) == Some(s@),
        r is None ==> allbridge_chain(c) is None,
{
    match c {
        ChainId::Ethereum => Some("ETH"),
        ChainId::Arbitrum => Some("ARB"),
        ChainId::Polygon => Some("POL"),
        ChainId::Bnb => Some("BSC"),
        ChainId::Avalanche => Some("AVA"),
        ChainId::Solana => Some("SOL"),
        _ => None,
    }
}

/// The query string for a quote; a lane Allbridge does not serve is refused.
pub fn quote_query(request: &QuoteRequest) -> (r: Result<Vec<(String, String)>, RouterError>)
    ensures
        (allbridge_chain(request.from) is None || allbridge_chain(request.to) is None) ==> (r matches Err(
            e,
        ) && e is QuoteUnavailable),
        (allbridge_chain(request.from) is Some && allbridge_chain(request.to) is Some) ==> (r matches Ok(
            v,
        ) && pairs_view(v@) == allbridge_query(request.amount)),
{
    if chain(request.from).is_none() || chain(request.to).is_none() {
        return Err(RouterError::QuoteUnavailable);
    }
    let mut q: Vec<(String, String)> = Vec::new();
    q.push(param("amount", micro_text(request.amount)));
    q.push(param_str("messenger", "ALLBRIDGE"));
    assert(pairs_view(q@) =~= allbridge_query(request.amount));
    Ok(q)
}

/// The quote made of Allbridge's reply: `amount_to_be_received` and `fee` are
/// the reply's `amountToBeReceived` and `fee`, in millionths.
pub fn quote_from_response(amount_to_be_received: Option<u64>, fee: Option<u64>) -> (r: BoothQuote)
    ensures
        r == allbridge_quote(amount_to_be_received, fee),
{
    BoothQuote {
        booth: BoothId::Allbridge,
        amount_out: match amount_to_be_received {
            Some(v) => v as i128,
            None => 0,
        },
        duration_sec: 240,
        fee_usd: match fee {
            Some(v) => v as u128,
            None => 0,
        },
        slippage_pct: 20,
        security_rating: SecurityRating::B,
    }
}

} // verus!
