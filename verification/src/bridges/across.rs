//! Across: intent relays quoted by `app.across.to/api/suggested-fees`.

use vstd::prelude::*;
use crate::booth::{BoothId, BoothQuote, QuoteRequest, SecurityRating};
use crate::bridges::{param, param_str};
use crate::chain::{evm_chain_id_of, ChainId};
use crate::errors::RouterError;
use crate::text::{decimal_chars, decimal_string, pairs_view};

verus! {

/// The USDC contract on Ethereum, the token Across is asked to quote.
pub open spec fn usdc_ethereum() -> Seq<char> {
    "0xA0b86991c6218b36c1d19D4a2e9Eb0cE3606eB48"@
}

/// The chain ids Across relays between.
pub open spec fn across_chain(c: ChainId) -> Option<u64> {
    match c {
        ChainId::Ethereum => Some(1u64),
        ChainId::Arbitrum => Some(42161u64),
        ChainId::Base => Some(8453u64),
        ChainId::Polygon => Some(137u64),
        _ => None,
    }
}

/// The query Across is sent for a lane and an amount in millionths.
pub open spec fn across_query(from: u64, to: u64, amount: u64) -> Seq<(Seq<char>, Seq<char>)> {
    seq![
        ("token"@, usdc_ethereum()),
        ("originChainId"@, decimal_chars(from as nat)),
        ("destinationChainId"@, decimal_chars(to as nat)),
        ("amount"@, decimal_chars(amount as nat)),
    ]
}

/// One whole, in the 18-decimal fixed point of Across fee percentages.
pub open spec fn fee_one() -> int {
    1_000_000_000_000_000_000
}

/// An Across fee fraction (18 decimals) as the reply gives it: 0 when
/// missing.
pub open spec fn fee_fraction(v: Option<u64>) -> int {
    match v {
        Some(x) => x as int,
        None => 0,
    }
}

/// The quote Across's fees make of an amount: relay plus LP fee (18-decimal
/// fractions) is paid out of the amount, both parts rounded toward zero. A fee
/// of more than the whole amount leaves less than nothing delivered.
pub open spec fn across_quote(amount: u64, relay: int, lp: int) -> BoothQuote {
    let total = relay + lp;
    BoothQuote {
        booth: BoothId::Across,
        amount_out: (if total <= fee_one() {
            amount * (fee_one() - total) / fee_one()
        } else {
            -(amount * (total - fee_one()) / fee_one())
        }) as i128,
        duration_sec: 90,
        fee_usd: (amount * total / fee_one()) as u128,
        slippage_pct: 1,
        security_rating: SecurityRating::A,
    }
}

/// What Across delivers and what it charges add up to the amount sent, short
/// of at most one millionth lost to rounding; when the fees exceed the whole
/// amount, the amount delivered is at most zero and the sum is exact.
pub proof fn lemma_across_conserves(amount: u64, relay: u64, lp: u64)
    ensures
        amount - 1 <= across_quote(amount, relay as int, lp as int).amount_out + across_quote(
            amount,
            relay as int,
            lp as int,
        ).fee_usd <= amount,
        relay + lp > fee_one() ==> across_quote(amount, relay as int, lp as int).amount_out <= 0,
        relay + lp > fee_one() ==> across_quote(amount, relay as int, lp as int).amount_out
            + across_quote(amount, relay as int, lp as int).fee_usd == amount,
{
    let o = fee_one();
    let t = relay + lp;
    let a = amount as int;
    if t <= o {
        assert(a * (o - t) / o + a * t / o <= a && a * (o - t) / o + a * t / o + 1 >= a)
            by (nonlinear_arith)
            requires
                0 <= t <= o,
                o > 0,
                0 <= a,
        {
            vstd::arithmetic::div_mod::lemma_fundamental_div_mod(a * (o - t), o);
            vstd::arithmetic::div_mod::lemma_fundamental_div_mod(a * t, o);
            vstd::arithmetic::div_mod::lemma_mod_bound(a * (o - t), o);
            vstd::arithmetic::div_mod::lemma_mod_bound(a * t, o);
        }
        lemma_across_fits(amount, t);
    } else {
        let d = t - o;
        assert(a * t == a * d + a * o) by (nonlinear_arith)
            requires
                d == t - o,
        ;
        vstd::arithmetic::div_mod::lemma_hoist_over_denominator(a * d, a, o as nat);
        lemma_across_fits(amount, t);
    }
}

/// The parts of an Across quote fit their types: while the fees are at most
/// the whole amount, both lie between 0 and the amount; otherwise the amount
/// delivered is at least `-37` times and the fee at most `38` times the
/// amount.
proof fn lemma_across_fits(amount: u64, t: int)
    requires
        0 <= t <= 2 * 0xffff_ffff_ffff_ffff,
    ensures
        t <= fee_one() ==> 0 <= amount * (fee_one() - t) / fee_one() <= amount,
        t <= fee_one() ==> 0 <= amount * t / fee_one() <= amount,
        t > fee_one() ==> 0 <= amount * (t - fee_one()) / fee_one() <= 37 * amount,
        0 <= amount * t / fee_one() <= 38 * amount,
{
    let o = fee_one();
    let a = amount as int;
    vstd::arithmetic::div_mod::lemma_div_by_multiple(a, o);
    if t <= o {
        assert(0 <= a * (o - t) <= a * o) by (nonlinear_arith)
            requires
                0 <= t <= o,
                0 <= a,
        ;
        assert(0 <= a * t <= a * o) by (nonlinear_arith)
            requires
                0 <= t <= o,
                0 <= a,
        ;
        vstd::arithmetic::div_mod::lemma_div_is_ordered(a * (o - t), a * o, o);
        vstd::arithmetic::div_mod::lemma_div_is_ordered(a * t, a * o, o);
        vstd::arithmetic::div_mod::lemma_div_is_ordered(0, a * (o - t), o);
        vstd::arithmetic::div_mod::lemma_div_is_ordered(0, a * t, o);
    } else {
        vstd::arithmetic::div_mod::lemma_div_by_multiple(37 * a, o);
        vstd::arithmetic::div_mod::lemma_div_by_multiple(38 * a, o);
        assert(0 <= a * (t - o) <= (37 * a) * o) by (nonlinear_arith)
            requires
                o < t <= 2 * 0xffff_ffff_ffff_ffff,
                o == 1_000_000_000_000_000_000,
                0 <= a,
        ;
        assert(0 <= a * t <= (38 * a) * o) by (nonlinear_arith)
            requires
                o < t <= 2 * 0xffff_ffff_ffff_ffff,
                o == 1_000_000_000_000_000_000,
                0 <= a,
        ;
        vstd::arithmetic::div_mod::lemma_div_is_ordered(a * (t - o), (37 * a) * o, o);
        vstd::arithmetic::div_mod::lemma_div_is_ordered(a * t, (38 * a) * o, o);
        vstd::arithmetic::div_mod::lemma_div_is_ordered(0, a * (t - o), o);
        vstd::arithmetic::div_mod::lemma_div_is_ordered(0, a * t, o);
    }
}

/// Across relays between Ethereum, Arbitrum, Base and Polygon, each named by
/// its EIP-155 chain id, and no other chain.
pub proof fn lemma_across_chains(c: ChainId)
    ensures
        across_chain(c) matches Some(id) ==> evm_chain_id_of(c) == Some(id),
        across_chain(c) is Some <==> (c == ChainId::Ethereum || c == ChainId::Arbitrum || c
            == ChainId::Base || c == ChainId::Polygon),
{
}

/// The Across chain id of a chain.
pub fn chain(c: ChainId) -> (r: Option<u64>)
    ensures
        r == across_chain(c),
{
    match c {
        ChainId::Ethereum => Some(1),
        ChainId::Arbitrum => Some(42161),
        ChainId::Base => Some(8453),
        ChainId::Polygon => Some(137),
        _ => None,
    }
}

/// The query string for a quote; a lane Across does not serve is refused.
pub fn quote_query(request: &QuoteRequest) -> (r: Result<Vec<(String, String)>, RouterError>)
    ensures
        (across_chain(request.from) is None || across_chain(request.to) is None) ==> (r matches Err(
            e,
        ) && e is QuoteUnavailable),
        across_chain(request.from) matches Some(f) ==> across_chain(request.to) matches Some(t)
            ==> (r matches Ok(v) && pairs_view(v@) == across_query(f, t, request.amount)),
{
    let from = match chain(request.from) {
        Some(f) => f,
        None => {
            return Err(RouterError::QuoteUnavailable);
        },
    };
    let to = match chain(request.to) {
        Some(t) => t,
        None => {
            return Err(RouterError::QuoteUnavailable);
        },
    };
    let mut q: Vec<(String, String)> = Vec::new();
    q.push(param_str("token", "0xA0b86991c6218b36c1d19D4a2e9Eb0cE3606eB48"));
    q.push(param("originChainId", decimal_string(from as u128)));
    q.push(param("destinationChainId", decimal_string(to as u128)));
    q.push(param("amount", decimal_string(request.amount as u128)));
    assert(pairs_view(q@) =~= across_query(from, to, request.amount));
    Ok(q)
}

/// The fee fraction a reply field holds.
fn fee_of(v: Option<u64>) -> (r: u128)
    ensures
        r == fee_fraction(v),
        r <= u64::MAX,
{
    match v {
        Some(x) => x as u128,
        None => 0,
    }
}

/// The quote made of Across's reply: `relay_fee_pct` and `lp_fee_pct` are
/// the reply's `relayFeePct` and `lpFeePct` (18-decimal fractions): numeric
/// strings in the reply, present when they read as numbers, rounded to whole
/// units.
pub fn quote_from_fees(amount: u64, relay_fee_pct: Option<u64>, lp_fee_pct: Option<u64>) -> (r:
    BoothQuote)
    ensures
        r == across_quote(amount, fee_fraction(relay_fee_pct), fee_fraction(lp_fee_pct)),
{
    let relay = fee_of(relay_fee_pct);
    let lp = fee_of(lp_fee_pct);
    let one: u128 = 1_000_000_000_000_000_000;
    let total = relay + lp;
    let a = amount as u128;
    proof {
        lemma_across_fits(amount, total as int);
    }
    let amount_out: i128;
    let fee_usd: u128;
    if total <= one {
        proof {
            let ai = a as int;
            let o = one as int;
            let t = total as int;
            assert(ai * o < 0x1_0000_0000_0000_0000 * o) by (nonlinear_arith)
                requires
                    0 <= ai < 0x1_0000_0000_0000_0000,
                    o > 0,
            ;
            assert(0 <= ai * (o - t) <= ai * o) by (nonlinear_arith)
                requires
                    0 <= t <= o,
                    0 <= ai,
            ;
            assert(0 <= ai * t <= ai * o) by (nonlinear_arith)
                requires
                    0 <= t <= o,
                    0 <= ai,
            ;
        }
        amount_out = (a * (one - total) / one) as i128;
        fee_usd = a * total / one;
    } else {
        let d = total - one;
        let q = d / one;
        let rem = d % one;
        proof {
            let ai = a as int;
            let o = one as int;
            vstd::arithmetic::div_mod::lemma_fundamental_div_mod(d as int, o);
            assert(q <= 36);
            assert(ai * q <= ai * 36) by (nonlinear_arith)
                requires
                    0 <= ai,
                    0 <= q <= 36,
            ;
            assert(ai * rem < 0x1_0000_0000_0000_0000 * o) by (nonlinear_arith)
                requires
                    0 <= ai < 0x1_0000_0000_0000_0000,
                    0 <= rem < o,
            ;
            assert(ai * (d as int) == ai * rem + (ai * q) * o) by (nonlinear_arith)
                requires
                    d as int == o * q + rem,
            ;
            vstd::arithmetic::div_mod::lemma_hoist_over_denominator(ai * rem, ai * q, o as nat);
            vstd::arithmetic::div_mod::lemma_div_is_ordered(0, ai * rem, o);
            assert(ai * (total as int) == ai * (d as int) + ai * o) by (nonlinear_arith)
                requires
                    d as int == total - o,
            ;
            vstd::arithmetic::div_mod::lemma_hoist_over_denominator(ai * (d as int), ai, o as nat);
        }
        let short = a * q + a * rem / one;
        amount_out = -(short as i128);
        fee_usd = a + short;
    }
    BoothQuote {
        booth: BoothId::Across,
        amount_out,
        duration_sec: 90,
        fee_usd,
        slippage_pct: 1,
        security_rating: SecurityRating::A,
    }
}

} // verus!
