//! Mayan Swift: auction-based routes quoted by
//! `price-api.mayan.finance/v3/quote`.

use vstd::prelude::*;
use crate::booth::{BoothId, BoothQuote, QuoteRequest, SecurityRating};
use crate::bridges::{param, param_str};
use crate::chain::ChainId;
use crate::errors::RouterError;
use crate::text::{micro_chars, micro_text, pairs_view};

verus! {

/// The Mayan chain names; Mayan serves every seated chain.
pub open spec fn mayan_chain(c: ChainId) -> Option<Seq<char>> {
    match c {
        ChainId::Solana => Some("solana"@),
        ChainId::Ethereum => Some("ethereum"@),
        ChainId::Arbitrum => Some("arbitrum"@),
        ChainId::Base => Some("base"@),
        ChainId::Polygon => Some("polygon"@),
        ChainId::Bnb => Some("bsc"@),
        ChainId::Avalanche => Some("avalanche"@),
        ChainId::Sui => Some("sui"@),
    }
}

/// The query Mayan is sent for a lane and an amount in millionths: 0.5%
/// slippage, no referrer fee.
pub open spec fn mayan_query(from: Seq<char>, to: Seq<char>, amount: u64) -> Seq<
    (Seq<char>, Seq<char>),
> {
    seq![
        ("amountIn"@, micro_chars(amount as nat)),
        ("fromChain"@, from),
        ("toChain"@, to),
        ("slippageBps"@, "50"@),
        ("referrerBps"@, "0"@),
    ]
}

/// The fields of the first route of Mayan's reply.
pub struct MayanRoute {
    /// `expectedAmountOut`, in millionths.
    pub expected_amount_out: Option<u64>,
    /// `eta`, in seconds.
    pub eta: Option<u64>,
    /// `totalFeeUsd`, in millionths of a dollar.
    pub total_fee_usd: Option<u64>,
}

/// The quote made of Mayan's first route: nothing delivered, 12 seconds and
/// a 0.50 USD fee stand in for missing fields; the eta is cut to 32 bits.
pub open spec fn mayan_quote(route: MayanRoute) -> BoothQuote {
    BoothQuote {
        booth: BoothId::Mayan,
        amount_out: match route.expected_amount_out {
            Some(v) => v as i128,
            None => 0,
        },
        duration_sec: match route.eta {
            Some(e) => e as u32,
            None => 12,
        },
        fee_usd: match route.total_fee_usd {
            Some(v) => v as u128,
            None => 500_000,
        },
        slippage_pct: 10,
        security_rating: SecurityRating::A,
    }
}

/// Mayan serves every seated chain, each under its lower-case name, BNB
/// Chain as "bsc".
pub proof fn lemma_mayan_chains(c: ChainId)
    ensures
        mayan_chain(c) is Some,
        mayan_chain(ChainId::Solana) == Some("solana"@),
        mayan_chain(ChainId::Ethereum) == Some("ethereum"@),
        mayan_chain(ChainId::Arbitrum) == Some("arbitrum"@),
        mayan_chain(ChainId::Base) == Some("base"@),
        mayan_chain(ChainId::Polygon) == Some("polygon"@),
        mayan_chain(ChainId::Bnb) == Some("bsc"@),
        mayan_chain(ChainId::Avalanche) == Some("avalanche"@),
        mayan_chain(ChainId::Sui) == Some("sui"@),
{
}

/// A Mayan quote delivers the route's expected amount (nothing when
/// missing), takes its eta (twelve seconds when missing), charges its total
/// fee (0.50 USD when missing), allows 0.1% slippage and is rated A.
pub proof fn lemma_mayan_quote(route: MayanRoute)
    ensures
        mayan_quote(route).booth == BoothId::Mayan,
        route.expected_amount_out matches Some(v) ==> mayan_quote(route).amount_out == v,
        route.expected_amount_out is None ==> mayan_quote(route).amount_out == 0,
        route.eta matches Some(e) ==> e <= u32::MAX ==> mayan_quote(route).duration_sec == e,
        route.eta is None ==> mayan_quote(route).duration_sec == 12,
        route.total_fee_usd matches Some(f) ==> mayan_quote(route).fee_usd == f,
        route.total_fee_usd is None ==> mayan_quote(route).fee_usd == 500_000,
        mayan_quote(route).slippage_pct == 10,
        mayan_quote(route).security_rating == SecurityRating::A,
{
}

/// The Mayan name of a chain.
pub fn chain(c: ChainId) -> (r: Option<&'static str>)
    ensures
        r matches Some(s) ==> mayan_chain(c) == Some(s@),
        r is None ==> mayan_chain(c) is None,
{
    Some(
        match c {
            ChainId::Solana => "solana",
            ChainId::Ethereum => "ethereum",
            ChainId::Arbitrum => "arbitrum",
            ChainId::Base => "base",
            ChainId::Polygon => "polygon",
            ChainId::Bnb => "bsc",
            ChainId::Avalanche => "avalanche",
            ChainId::Sui => "sui",
        },
    )
}

/// The query string for a quote.
pub fn quote_query(request: &QuoteRequest) -> (r: Result<Vec<(String, String)>, RouterError>)
    ensures
        (mayan_chain(request.from) is None || mayan_chain(request.to) is None) ==> (r matches Err(
            e,
        ) && e is QuoteUnavailable),
        mayan_chain(request.from) matches Some(f) ==> mayan_chain(request.to) matches Some(t) ==> (r matches Ok(
            v,
        ) && pairs_view(v@) == mayan_query(f, t, request.amount)),
{
    let from = match chain(request.from) {
        Some(f) => f,
        None => {
            return Err(RouterError::QuoteUnavailable);
        },
    };
    let to = match chain(request.to) {
        Some(t) => t,
        None => {
            return Err(RouterError::QuoteUnavailable);
        },
    };
    let mut q: Vec<(String, String)> = Vec::new();
    q.push(param("amountIn", micro_text(request.amount)));
    q.push(param_str("fromChain", from));
    q.push(param_str("toChain", to));
    q.push(param_str("slippageBps", "50"));
    q.push(param_str("referrerBps", "0"));
    assert(pairs_view(q@) =~= mayan_query(from@, to@, request.amount));
    Ok(q)
}

/// The quote made of Mayan's reply; a reply without routes is refused.
pub fn quote_from_first(first: Option<MayanRoute>) -> (r: Result<BoothQuote, RouterError>)
    ensures
        first matches Some(route) ==> (r matches Ok(q) && q == mayan_quote(route)),
        first is None ==> (r matches Err(e) && e is QuoteUnavailable),
{
    let route = match first {
        Some(route) => route,
        None => {
            return Err(RouterError::QuoteUnavailable);
        },
    };
    let duration_sec: u32 = match route.eta {
        Some(e) => e as u32,
        None => 12,
    };
    Ok(
        BoothQuote {
            booth: BoothId::Mayan,
            amount_out: match route.expected_amount_out {
                Some(v) => v as i128,
                None => 0,
            },
            duration_sec,
            fee_usd: match route.total_fee_usd {
                Some(v) => v as u128,
                None => 500_000,
            },
            slippage_pct: 10,
            security_rating: SecurityRating::A,
        },
    )
}

} // verus!
