//! Wormhole: canonical NTT / Portal lanes, estimated offline.

use vstd::prelude::*;
use crate::booth::{BoothId, BoothQuote, QuoteRequest, SecurityRating};
use crate::chain::{finality_of, ChainId};
use crate::errors::RouterError;

verus! {

pub struct WormholeBooth;

/// The larger of two integers.
pub open spec fn max_u32(a: u32, b: u32) -> u32 {
    if a >= b { a } else { b }
}

/// Wormhole's quote: the principal is preserved and only gas is paid; the
/// duration is dominated by VAA publication and finality of the slower lane
/// (at least five seconds each), twelve rounds of it plus a minute.
pub open spec fn wormhole_quote(from: ChainId, to: ChainId, amount: u64) -> BoothQuote {
    BoothQuote {
        booth: BoothId::Wormhole,
        amount_out: amount as i128,
        duration_sec: (max_u32(max_u32(finality_of(from), 5), max_u32(finality_of(to), 5)) * 12
            + 60) as u32,
        fee_usd: if from == ChainId::Ethereum || to == ChainId::Ethereum {
            6_000_000
        } else {
            1_500_000
        },
        slippage_pct: 0,
        security_rating: SecurityRating::A,
    }
}

/// Wormhole charges the Ethereum gas fee of 6 USD whenever Ethereum is at
/// either end of the lane and 1.50 USD otherwise; it delivers the whole
/// principal, and a lane is quoted the same in both directions.
pub proof fn lemma_wormhole_lane(from: ChainId, to: ChainId, amount: u64)
    ensures
        wormhole_quote(from, to, amount) == wormhole_quote(to, from, amount),
        from == ChainId::Ethereum || to == ChainId::Ethereum ==> wormhole_quote(
            from,
            to,
            amount,
        ).fee_usd == 6_000_000,
        from != ChainId::Ethereum && to != ChainId::Ethereum ==> wormhole_quote(
            from,
            to,
            amount,
        ).fee_usd == 1_500_000,
        wormhole_quote(from, to, amount).amount_out == amount,
        wormhole_quote(from, to, amount).duration_sec >= 120,
        wormhole_quote(from, to, amount).duration_sec >= 12 * finality_of(from) + 60,
        wormhole_quote(from, to, amount).duration_sec >= 12 * finality_of(to) + 60,
{
}

impl WormholeBooth {
    pub fn new() -> (r: WormholeBooth) {
        WormholeBooth
    }

    pub fn id(&self) -> (r: BoothId)
        ensures
            r == BoothId::Wormhole,
    {
        BoothId::Wormhole
    }

    /// Quotes a transfer; every seated chain has a Wormhole lane.
    pub fn quote(&self, request: &QuoteRequest) -> (r: Result<BoothQuote, RouterError>)
        ensures
            r matches Ok(q) && q == wormhole_quote(request.from, request.to, request.amount),
    {
        let supported = matches!(
            request.from,
            ChainId::Solana | ChainId::Ethereum | ChainId::Arbitrum | ChainId::Base
                | ChainId::Polygon | ChainId::Bnb | ChainId::Avalanche | ChainId::Sui
        ) && matches!(
            request.to,
            ChainId::Solana | ChainId::Ethereum | ChainId::Arbitrum | ChainId::Base
                | ChainId::Polygon | ChainId::Bnb | ChainId::Avalanche | ChainId::Sui
        );
        if !supported {
            return Err(RouterError::QuoteUnavailable);
        }
        let f_src = request.from.average_finality_sec();
        let finality_src = if f_src >= 5 { f_src } else { 5 };
        let f_dst = request.to.average_finality_sec();
        let finality_dst = if f_dst >= 5 { f_dst } else { 5 };
        let slowest = if finality_src >= finality_dst { finality_src } else { finality_dst };
        let duration_sec = slowest * 12 + 60;
        let fee_usd: u128 = if request.from == ChainId::Ethereum || request.to == ChainId::Ethereum {
            6_000_000
        } else {
            1_500_000
        };
        Ok(BoothQuote {
            booth: BoothId::Wormhole,
            amount_out: request.amount as i128,
            duration_sec,
            fee_usd,
            slippage_pct: 0,
            security_rating: SecurityRating::A,
        })
    }
}

impl Default for WormholeBooth {
    fn default() -> (r: WormholeBooth) {
        WormholeBooth::new()
    }
}

} // verus!
