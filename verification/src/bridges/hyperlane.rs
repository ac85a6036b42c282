//! Hyperlane: warp routes between the EVM chains it connects, estimated
//! offline.

use vstd::prelude::*;
use crate::booth::{BoothId, BoothQuote, QuoteRequest, SecurityRating};
use crate::chain::{evm_chain_id_of, ChainId};
use crate::errors::RouterError;

verus! {

pub struct HyperlaneBooth;

/// The chains Hyperlane's warp routes connect.
pub open spec fn hyperlane_serves(c: ChainId) -> bool {
    c == ChainId::Ethereum || c == ChainId::Arbitrum || c == ChainId::Base || c
        == ChainId::Polygon || c == ChainId::Bnb
}

/// Hyperlane's quote on a served lane: the principal is preserved and a flat
/// relayer fee of 0.80 USD is charged; Ethereum lanes take four minutes,
/// others one.
pub open spec fn hyperlane_quote(from: ChainId, to: ChainId, amount: u64) -> BoothQuote {
    BoothQuote {
        booth: BoothId::Hyperlane,
        amount_out: amount as i128,
        duration_sec: if from == ChainId::Ethereum || to == ChainId::Ethereum {
            240
        } else {
            60
        },
        fee_usd: 800_000,
        slippage_pct: 0,
        security_rating: SecurityRating::B,
    }
}

/// A Hyperlane lane with Ethereum at either end takes four minutes and any
/// other lane one; the relayer fee is a flat 0.80 USD, the whole principal is
/// delivered, and a lane is quoted the same in both directions.
pub proof fn lemma_hyperlane_lane(from: ChainId, to: ChainId, amount: u64)
    ensures
        hyperlane_quote(from, to, amount) == hyperlane_quote(to, from, amount),
        from == ChainId::Ethereum || to == ChainId::Ethereum ==> hyperlane_quote(
            from,
            to,
            amount,
        ).duration_sec == 240,
        from != ChainId::Ethereum && to != ChainId::Ethereum ==> hyperlane_quote(
            from,
            to,
            amount,
        ).duration_sec == 60,
        hyperlane_quote(from, to, amount).fee_usd == 800_000,
        hyperlane_quote(from, to, amount).amount_out == amount,
        hyperlane_serves(from) <==> evm_chain_id_of(from) is Some && from != ChainId::Avalanche,
{
}

impl HyperlaneBooth {
    pub fn new() -> (r: HyperlaneBooth) {
        HyperlaneBooth
    }

    pub fn id(&self) -> (r: BoothId)
        ensures
            r == BoothId::Hyperlane,
    {
        BoothId::Hyperlane
    }

    /// Quotes a transfer; a lane touching an unserved chain is refused.
    pub fn quote(&self, request: &QuoteRequest) -> (r: Result<BoothQuote, RouterError>)
        ensures
            hyperlane_serves(request.from) && hyperlane_serves(request.to) ==> (r matches Ok(q)
                && q == hyperlane_quote(request.from, request.to, request.amount)),
            !(hyperlane_serves(request.from) && hyperlane_serves(request.to)) ==> (r matches Err(
                e,
            ) && e is QuoteUnavailable),
    {
        let supported = matches!(
            request.from,
            ChainId::Ethereum | ChainId::Arbitrum | ChainId::Base | ChainId::Polygon | ChainId::Bnb
        ) && matches!(
            request.to,
            ChainId::Ethereum | ChainId::Arbitrum | ChainId::Base | ChainId::Polygon | ChainId::Bnb
        );
        if !supported {
            return Err(RouterError::QuoteUnavailable);
        }
        Ok(BoothQuote {
            booth: BoothId::Hyperlane,
            amount_out: request.amount as i128,
            duration_sec: if request.from == ChainId::Ethereum || request.to == ChainId::Ethereum {
                240
            } else {
                60
            },
            fee_usd: 800_000,
            slippage_pct: 0,
            security_rating: SecurityRating::B,
        })
    }
}

impl Default for HyperlaneBooth {
    fn default() -> (r: HyperlaneBooth) {
        HyperlaneBooth::new()
    }
}

} // verus!
