//! deBridge DLN: solver network quoted by `dln.debridge.finance`.

use vstd::prelude::*;
use crate::booth::{BoothId, BoothQuote, QuoteRequest, SecurityRating};
use crate::bridges::{param, param_str};
use crate::chain::{evm_chain_id_of, ChainId};
use crate::errors::RouterError;
use crate::text::{decimal_chars, decimal_string, pairs_view};

verus! {

/// The DLN chain ids.
pub open spec fn debridge_chain(c: ChainId) -> Option<u64> {
    match c {
        ChainId::Ethereum => Some(1u64),
        ChainId::Arbitrum => Some(42161u64),
        ChainId::Base => Some(8453u64),
        ChainId::Polygon => Some(137u64),
        ChainId::Bnb => Some(56u64),
        ChainId::Avalanche => Some(43114u64),
        ChainId::Solana => Some(7565164u64),
        ChainId::Sui => None,
    }
}

/// The query DLN is sent for a lane: a fixed probe of 100 USDC from the
/// Ethereum USDC contract to the Arbitrum one, with the operating expenses
/// prepended, and the referral code last when there is one.
pub open spec fn debridge_query(from: u64, to: u64, referral: Option<Seq<char>>) -> Seq<
    (Seq<char>, Seq<char>),
> {
    let base = seq![
        ("srcChainId"@, decimal_chars(from as nat)),
        ("dstChainId"@, decimal_chars(to as nat)),
        ("srcChainTokenIn"@, "0xA0b86991c6218b36c1d19D4a2e9Eb0cE3606eB48"@),
        ("dstChainTokenOut"@, "0xaf88d065e77c8cC2239327C5EDb3A432268e5831"@),
        ("srcChainTokenInAmount"@, "100000000"@),
        ("dstChainTokenOutAmount"@, "auto"@),
        ("prependOperatingExpenses"@, "true"@),
    ];
    match referral {
        Some(rc) => base.push(("referralCode"@, rc)),
        None => base,
    }
}

/// The quote made of the estimated output in millionths of USDC; a missing
/// estimate counts as nothing delivered.
pub open spec fn debridge_quote(amount: Option<u64>) -> BoothQuote {
    BoothQuote {
        booth: BoothId::Debridge,
        amount_out: match amount {
            Some(v) => v as i128,
            None => 0,
        },
        duration_sec: 30,
        fee_usd: 600_000,
        slippage_pct: 5,
        security_rating: SecurityRating::A,
    }
}

/// DLN serves every seated chain but Sui: an EVM chain under its EIP-155
/// chain id, Solana under 7565164.
pub proof fn lemma_debridge_chains(c: ChainId)
    ensures
        evm_chain_id_of(c) is Some ==> debridge_chain(c) == evm_chain_id_of(c),
        debridge_chain(ChainId::Solana) == Some(7565164u64),
        debridge_chain(c) is None <==> c == ChainId::Sui,
{
}

/// A DLN quote delivers the estimated amount (nothing when missing),
/// charges a flat 0.60 USD, takes thirty seconds, allows 0.05% slippage and is
/// rated A.
pub proof fn lemma_debridge_quote(amount: Option<u64>)
    ensures
        debridge_quote(amount).booth == BoothId::Debridge,
        amount matches Some(v) ==> debridge_quote(amount).amount_out == v,
        amount is None ==> debridge_quote(amount).amount_out == 0,
        debridge_quote(amount).fee_usd == 600_000,
        debridge_quote(amount).duration_sec == 30,
        debridge_quote(amount).slippage_pct == 5,
        debridge_quote(amount).security_rating == SecurityRating::A,
{
}

/// The DLN chain id of a chain.
pub fn chain_id(c: ChainId) -> (r: Option<u64>)
    ensures
        r == debridge_chain(c),
{
    match c {
        ChainId::Ethereum => Some(1),
        ChainId::Arbitrum => Some(42161),
        ChainId::Base => Some(8453),
        ChainId::Polygon => Some(137),
        ChainId::Bnb => Some(56),
        ChainId::Avalanche => Some(43114),
        ChainId::Solana => Some(7565164),
        ChainId::Sui => None,
    }
}

/// The query string for a quote; a lane DLN does not serve is refused.
pub fn quote_query(request: &QuoteRequest, referral_code: Option<&String>) -> (r: Result<
    Vec<(String, String)>,
    RouterError,
>)
    ensures
        (debridge_chain(request.from) is None || debridge_chain(request.to) is None) ==> (r matches Err(
            e,
        ) && e is QuoteUnavailable),
        debridge_chain(request.from) matches Some(f) ==> debridge_chain(request.to) matches Some(t)
            ==> (r matches Ok(v) && pairs_view(v@) == debridge_query(
            f,
            t,
            match referral_code {
                Some(rc) => Some(rc@),
                None => None,
            },
        )),
{
    let src = match chain_id(request.from) {
        Some(f) => f,
        None => {
            return Err(RouterError::QuoteUnavailable);
        },
    };
    let dst = match chain_id(request.to) {
        Some(t) => t,
        None => {
            return Err(RouterError::QuoteUnavailable);
        },
    };
    let mut q: Vec<(String, String)> = Vec::new();
    q.push(param("srcChainId", decimal_string(src as u128)));
    q.push(param("dstChainId", decimal_string(dst as u128)));
    q.push(param_str("srcChainTokenIn", "0xA0b86991c6218b36c1d19D4a2e9Eb0cE3606eB48"));
    q.push(param_str("dstChainTokenOut", "0xaf88d065e77c8cC2239327C5EDb3A432268e5831"));
    q.push(param_str("srcChainTokenInAmount", "100000000"));
    q.push(param_str("dstChainTokenOutAmount", "auto"));
    q.push(param_str("prependOperatingExpenses", "true"));
    if let Some(rc) = referral_code {
        q.push(param("referralCode", rc.clone()));
    }
    assert(pairs_view(q@) =~= debridge_query(
        src,
        dst,
        match referral_code {
            Some(rc) => Some(rc@),
            None => None,
        },
    ));
    Ok(q)
}

/// The quote made of DLN's reply: `amount` is the reply's
/// `estimation.dstChainTokenOut.amount`, in millionths of USDC: a numeric
/// string in the reply, present when it reads as a number, rounded to whole
/// millionths.
pub fn quote_from_response(amount: Option<u64>) -> (r: BoothQuote)
    ensures
        r == debridge_quote(amount),
{
    let amount_out: i128 = match amount {
        Some(v) => v as i128,
        None => 0,
    };
    BoothQuote {
        booth: BoothId::Debridge,
        amount_out,
        duration_sec: 30,
        fee_usd: 600_000,
        slippage_pct: 5,
        security_rating: SecurityRating::A,
    }
}

} // verus!
