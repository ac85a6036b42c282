//! Synapse: bridge routes quoted by `api.synapseprotocol.com/bridge`.

use vstd::prelude::*;
use crate::booth::{BoothId, BoothQuote, QuoteRequest, SecurityRating};
use crate::bridges::param;
use crate::chain::{evm_chain_id_of, ChainId};
use crate::errors::RouterError;
use crate::text::{decimal_chars, decimal_string, pairs_view};

verus! {

/// The chain ids Synapse bridges between.
pub open spec fn synapse_chain(c: ChainId) -> Option<u64> {
    match c {
        ChainId::Ethereum => Some(1u64),
        ChainId::Arbitrum => Some(42161u64),
        ChainId::Base => Some(8453u64),
        ChainId::Polygon => Some(137u64),
        ChainId::Bnb => Some(56u64),
        ChainId::Avalanche => Some(43114u64),
        _ => None,
    }
}

/// The query Synapse is sent for a lane and an amount in millionths.
pub open spec fn synapse_query(from: u64, to: u64, amount: u64) -> Seq<(Seq<char>, Seq<char>)> {
    seq![
        ("fromChain"@, decimal_chars(from as nat)),
        ("toChain"@, decimal_chars(to as nat)),
        ("amount"@, decimal_chars(amount as nat)),
    ]
}

/// A reply field in millionths: 0 when missing.
pub open spec fn micro_field(v: Option<u64>) -> u64 {
    match v {
        Some(x) => x,
        None => 0,
    }
}

/// The quote made of Synapse's reply; a zero bridge fee is reported as the
/// flat 0.50 USD.
pub open spec fn synapse_quote(max_out: Option<u64>, bridge_fee: Option<u64>) -> BoothQuote {
    BoothQuote {
        booth: BoothId::Synapse,
        amount_out: micro_field(max_out) as i128,
        duration_sec: 600,
        fee_usd: if micro_field(bridge_fee) > 0 {
            micro_field(bridge_fee) as u128
        } else {
            500_000
        },
        slippage_pct: 8,
        security_rating: SecurityRating::B,
    }
}

/// Synapse bridges between exactly the six EVM chains, each named by its
/// EIP-155 chain id; Solana and Sui are refused.
pub proof fn lemma_synapse_chains(c: ChainId)
    ensures
        synapse_chain(c) == evm_chain_id_of(c),
{
}

/// A Synapse quote delivers `maxAmountOut` (nothing when missing), charges
/// the bridge fee or, when that is zero or missing, a flat 0.50 USD, takes
/// ten minutes, allows 0.08% slippage and is rated B.
pub proof fn lemma_synapse_quote(max_out: Option<u64>, bridge_fee: Option<u64>)
    ensures
        synapse_quote(max_out, bridge_fee).booth == BoothId::Synapse,
        max_out matches Some(v) ==> synapse_quote(max_out, bridge_fee).amount_out == v,
        max_out is None ==> synapse_quote(max_out, bridge_fee).amount_out == 0,
        bridge_fee is Some && bridge_fee.unwrap() > 0 ==> synapse_quote(max_out, bridge_fee).fee_usd
            == bridge_fee.unwrap(),
        !(bridge_fee is Some && bridge_fee.unwrap() > 0) ==> synapse_quote(max_out, bridge_fee).fee_usd
            == 500_000,
        synapse_quote(max_out, bridge_fee).duration_sec == 600,
        synapse_quote(max_out, bridge_fee).slippage_pct == 8,
        synapse_quote(max_out, bridge_fee).security_rating == SecurityRating::B,
{
}

/// The Synapse chain id of a chain.
pub fn chain_id(c: ChainId) -> (r: Option<u64>)
    ensures
        r == synapse_chain(c),
{
    match c {
        ChainId::Ethereum => Some(1),
        ChainId::Arbitrum => Some(42161),
        ChainId::Base => Some(8453),
        ChainId::Polygon => Some(137),
        ChainId::Bnb => Some(56),
        ChainId::Avalanche => Some(43114),
        _ => None,
    }
}

/// The query string for a quote; a lane Synapse does not serve is refused.
pub fn quote_query(request: &QuoteRequest) -> (r: Result<Vec<(String, String)>, RouterError>)
    ensures
        (synapse_chain(request.from) is None || synapse_chain(request.to) is None) ==> (r matches Err(
            e,
        ) && e is QuoteUnavailable),
        synapse_chain(request.from) matches Some(f) ==> synapse_chain(request.to) matches Some(t)
            ==> (r matches Ok(v) && pairs_view(v@) == synapse_query(f, t, request.amount)),
{
    let from = match chain_id(request.from) {
        Some(f) => f,
        None => {
            return Err(RouterError::QuoteUnavailable);
        },
    };
    let to = match chain_id(request.to) {
        Some(t) => t,
        None => {
            return Err(RouterError::QuoteUnavailable);
        },
    };
    let mut q: Vec<(String, String)> = Vec::new();
    q.push(param("fromChain", decimal_string(from as u128)));
    q.push(param("toChain", decimal_string(to as u128)));
    q.push(param("amount", decimal_string(request.amount as u128)));
    assert(pairs_view(q@) =~= synapse_query(from, to, request.amount));
    Ok(q)
}

fn micro_of(v: Option<u64>) -> (r: u64)
    ensures
        r == micro_field(v),
{
    match v {
        Some(x) => x,
        None => 0,
    }
}

/// The quote made of Synapse's reply: `max_amount_out` and `bridge_fee` are
/// the reply's `maxAmountOut` and `bridgeFee`, in millionths: numeric
/// strings in the reply, present when they read as numbers, rounded to whole
/// millionths.
pub fn quote_from_response(max_amount_out: Option<u64>, bridge_fee: Option<u64>) -> (r: BoothQuote)
    ensures
        r == synapse_quote(max_amount_out, bridge_fee),
{
    let amount_out = micro_of(max_amount_out);
    let fee = micro_of(bridge_fee);
    BoothQuote {
        booth: BoothId::Synapse,
        amount_out: amount_out as i128,
        duration_sec: 600,
        fee_usd: if fee > 0 {
            fee as u128
        } else {
            500_000
        },
        slippage_pct: 8,
        security_rating: SecurityRating::B,
    }
}

} // verus!
