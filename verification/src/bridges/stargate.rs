//! Stargate: LayerZero routes quoted by `stargate.finance/api/v1/quotes`.

use vstd::prelude::*;
use crate::booth::{BoothId, BoothQuote, QuoteRequest, SecurityRating};
use crate::bridges::{param, param_str};
use crate::chain::{evm_chain_id_of, ChainId};
use crate::errors::RouterError;
use crate::text::{decimal_chars, decimal_string, pairs_view, same_text};

verus! {

/// The Stargate chain keys.
pub open spec fn stargate_chain(c: ChainId) -> Option<Seq<char>> {
    match c {
        ChainId::Ethereum => Some("ethereum"@),
        ChainId::Arbitrum => Some("arbitrum"@),
        ChainId::Base => Some("base"@),
        ChainId::Polygon => Some("polygon"@),
        ChainId::Bnb => Some("bnb"@),
        ChainId::Avalanche => Some("avalanche"@),
        _ => None,
    }
}

/// The query Stargate is sent for a lane and an amount in millionths.
pub open spec fn stargate_query(from: Seq<char>, to: Seq<char>, amount: u64) -> Seq<
    (Seq<char>, Seq<char>),
> {
    seq![
        ("srcChainKey"@, from),
        ("dstChainKey"@, to),
        ("srcAddress"@, "0x0000000000000000000000000000000000000001"@),
        ("dstAddress"@, "0x0000000000000000000000000000000000000001"@),
        ("srcAmount"@, decimal_chars(amount as nat)),
        ("dstAmountMin"@, "0"@),
    ]
}

/// The fields of one route of Stargate's reply.
pub struct StargateRoute {
    /// `route`, when it is a string.
    pub route: Option<String>,
    /// `dstAmount`, the destination amount in millionths of the token. The
    /// reply carries it as a numeric string; it is present when that string
    /// reads as a number, rounded to whole millionths.
    pub dst_amount: Option<u64>,
}

/// The route is named `name`.
pub open spec fn route_is(r: StargateRoute, name: Seq<char>) -> bool {
    r.route matches Some(t) && t@ == name
}

/// Index of the route Stargate is taken at: the first "taxi" route, else the
/// first route.
pub open spec fn chosen_route(routes: Seq<StargateRoute>) -> int {
    if exists|i: int| 0 <= i < routes.len() && route_is(#[trigger] routes[i], "taxi"@) {
        choose|i: int|
            0 <= i < routes.len() && route_is(routes[i], "taxi"@) && forall|j: int|
                0 <= j < i ==> !route_is(#[trigger] routes[j], "taxi"@)
    } else {
        0
    }
}

/// The quote made of a route: its destination amount (nothing when
/// missing); a "bus" route takes twelve minutes, others two.
pub open spec fn stargate_quote(route: StargateRoute) -> BoothQuote {
    BoothQuote {
        booth: BoothId::Stargate,
        amount_out: match route.dst_amount {
            Some(v) => v as i128,
            None => 0,
        },
        duration_sec: if route_is(route, "bus"@) {
            720
        } else {
            120
        },
        fee_usd: 400_000,
        slippage_pct: 2,
        security_rating: SecurityRating::A,
    }
}

/// Stargate serves exactly the six EVM chains, each under its lower-case
/// name ("bnb" for BNB Chain); Solana and Sui have no key. So a lane between
/// two EVM chains is never refused.
pub proof fn lemma_stargate_keys(c: ChainId)
    ensures
        stargate_chain(c) is Some <==> evm_chain_id_of(c) is Some,
        stargate_chain(ChainId::Ethereum) == Some("ethereum"@),
        stargate_chain(ChainId::Arbitrum) == Some("arbitrum"@),
        stargate_chain(ChainId::Base) == Some("base"@),
        stargate_chain(ChainId::Polygon) == Some("polygon"@),
        stargate_chain(ChainId::Bnb) == Some("bnb"@),
        stargate_chain(ChainId::Avalanche) == Some("avalanche"@),
        stargate_chain(ChainId::Solana) is None,
        stargate_chain(ChainId::Sui) is None,
{
}

/// A Stargate quote delivers the chosen route's destination amount (nothing
/// when the reply gives none), charges a flat 0.40 USD, allows 0.02%
/// slippage, is rated A, and takes twelve minutes on a "bus" route and two on
/// any other.
pub proof fn lemma_stargate_quote(route: StargateRoute)
    ensures
        stargate_quote(route).booth == BoothId::Stargate,
        route.dst_amount matches Some(v) ==> stargate_quote(route).amount_out == v,
        route.dst_amount is None ==> stargate_quote(route).amount_out == 0,
        stargate_quote(route).fee_usd == 400_000,
        stargate_quote(route).slippage_pct == 2,
        stargate_quote(route).security_rating == SecurityRating::A,
        (route.route matches Some(t) && t@ == "bus"@) ==> stargate_quote(route).duration_sec == 720,
        !(route.route matches Some(t) && t@ == "bus"@) ==> stargate_quote(route).duration_sec
            == 120,
{
}

/// The Stargate key of a chain.
pub fn chain(c: ChainId) -> (r: Option<&'static str>)
    ensures
        r matches Some(s) ==> stargate_chain(c) == Some(s@),
        r is None ==> stargate_chain(c) is None,
{
    match c {
        ChainId::Ethereum => Some("ethereum"),
        ChainId::Arbitrum => Some("arbitrum"),
        ChainId::Base => Some("base"),
        ChainId::Polygon => Some("polygon"),
        ChainId::Bnb => Some("bnb"),
        ChainId::Avalanche => Some("avalanche"),
        _ => None,
    }
}

/// The query string for a quote; a lane Stargate does not serve is refused.
pub fn quote_query(request: &QuoteRequest) -> (r: Result<Vec<(String, String)>, RouterError>)
    ensures
        (stargate_chain(request.from) is None || stargate_chain(request.to) is None) ==> (r matches Err(
            e,
        ) && e is QuoteUnavailable),
        stargate_chain(request.from) matches Some(f) ==> stargate_chain(request.to) matches Some(t)
            ==> (r matches Ok(v) && pairs_view(v@) == stargate_query(f, t, request.amount)),
{
    let from = match chain(request.from) {
        Some(f) => f,
        None => {
            return Err(RouterError::QuoteUnavailable);
        },
    };
    let to = match chain(request.to) {
        Some(t) => t,
        None => {
            return Err(RouterError::QuoteUnavailable);
        },
    };
    let mut q: Vec<(String, String)> = Vec::new();
    q.push(param_str("srcChainKey", from));
    q.push(param_str("dstChainKey", to));
    q.push(param_str("srcAddress", "0x0000000000000000000000000000000000000001"));
    q.push(param_str("dstAddress", "0x0000000000000000000000000000000000000001"));
    q.push(param("srcAmount", decimal_string(request.amount as u128)));
    q.push(param_str("dstAmountMin", "0"));
    assert(pairs_view(q@) =~= stargate_query(from@, to@, request.amount));
    Ok(q)
}

/// Whether the route is named `name`.
fn route_named(r: &StargateRoute, name: &str) -> (b: bool)
    ensures
        b == route_is(*r, name@),
{
    match &r.route {
        Some(t) => same_text(t.as_str(), name),
        None => false,
    }
}

/// The index of the route Stargate is taken at: the first "taxi" route, else
/// the first route; `None` when there is no route.
pub fn choose_route(routes: &Vec<StargateRoute>) -> (r: Option<usize>)
    ensures
        routes@.len() == 0 ==> r is None,
        routes@.len() > 0 ==> (r matches Some(k) && k == chosen_route(routes@)) && 0 <= chosen_route(
            routes@,
        ) < routes@.len(),
{
    if routes.len() == 0 {
        return None;
    }
    let mut i: usize = 0;
    let mut found = false;
    while i < routes.len() && !found
        invariant
            0 <= i <= routes@.len(),
            found ==> i < routes@.len() && route_is(routes@[i as int], "taxi"@),
            forall|j: int| 0 <= j < i ==> !route_is(#[trigger] routes@[j], "taxi"@),
        decreases routes@.len() - i + if found {
            0int
        } else {
            1int
        },
    {
        let is_taxi = route_named(&routes[i], "taxi");
        assert(is_taxi == route_is(routes@[i as int], "taxi"@));
        if is_taxi {
            found = true;
        } else {
            i = i + 1;
        }
    }
    let k: usize = if found {
        i
    } else {
        0
    };
    proof {
        if found {
            let c = chosen_route(routes@);
            assert(route_is(routes@[i as int], "taxi"@));
            assert(0 <= c < routes@.len() && route_is(routes@[c], "taxi"@) && forall|j: int|
                0 <= j < c ==> !route_is(#[trigger] routes@[j], "taxi"@));
            if c < i {
                assert(!route_is(routes@[c], "taxi"@));
            } else if i < c {
                assert(!route_is(routes@[i as int], "taxi"@));
            }
        } else {
            assert(forall|j: int| 0 <= j < routes@.len() ==> !route_is(#[trigger] routes@[j], "taxi"@));
        }
    }
    Some(k)
}

/// The quote made of Stargate's routes; a reply without routes is refused.
pub fn quote_from_routes(routes: &Vec<StargateRoute>) -> (r: Result<BoothQuote, RouterError>)
    ensures
        routes@.len() == 0 ==> (r matches Err(e) && e is QuoteUnavailable),
        routes@.len() > 0 ==> (r matches Ok(q) && q == stargate_quote(
            routes@[chosen_route(routes@)],
        )),
{
    let k = match choose_route(routes) {
        Some(k) => k,
        None => {
            return Err(RouterError::QuoteUnavailable);
        },
    };
    assert(k as int == chosen_route(routes@));
    let route = &routes[k];
    let amount_out: i128 = match route.dst_amount {
        Some(v) => v as i128,
        None => 0,
    };
    let duration_sec: u32 = if route_named(route, "bus") {
        720
    } else {
        120
    };
    Ok(
        BoothQuote {
            booth: BoothId::Stargate,
            amount_out,
            duration_sec,
            fee_usd: 400_000,
            slippage_pct: 2,
            security_rating: SecurityRating::A,
        },
    )
}

} // verus!
