//! A "booth" is one bridge adapter. The engine polls every booth for a quote
//! on the same request and folds the answers.
//!
//! Amounts are fixed-point integers: token amounts and USD fees in millionths
//! (`MICRO` units per whole token or dollar), slippage in hundredths of a
//! percent.

use vstd::prelude::*;
use crate::chain::ChainId;

verus! {

/// Fixed-point units per whole token (or per dollar).
pub const MICRO: u64 = 1_000_000;

#[derive(Debug, Clone, Copy, PartialEq, Eq, Hash, Structural)]
pub enum BoothId {
    Wormhole,
    Debridge,
    Mayan,
    Stargate,
    Allbridge,
    Hyperlane,
    Across,
    Synapse,
}

/// The name of a booth's bridge.
pub open spec fn booth_name_of(b: BoothId) -> Seq<char> {
    match b {
        BoothId::Wormhole => "Wormhole"@,
        BoothId::Debridge => "deBridge"@,
        BoothId::Mayan => "Mayan"@,
        BoothId::Stargate => "Stargate"@,
        BoothId::Allbridge => "Allbridge Core"@,
        BoothId::Hyperlane => "Hyperlane"@,
        BoothId::Across => "Across"@,
        BoothId::Synapse => "Synapse"@,
    }
}

/// The seat label of a booth at the round table.
pub open spec fn booth_label_of(b: BoothId) -> Seq<char> {
    match b {
        BoothId::Wormhole => "Booth I -- Plenary Channel"@,
        BoothId::Debridge => "Booth II -- Solver Network"@,
        BoothId::Mayan => "Booth III -- Swift Auction House"@,
        BoothId::Stargate => "Booth IV -- LayerZero Direct"@,
        BoothId::Allbridge => "Booth V -- Stable Channel"@,
        BoothId::Hyperlane => "Booth VI -- Modular Mailroom"@,
        BoothId::Across => "Booth VII -- Intent Relay"@,
        BoothId::Synapse => "Booth VIII -- Veteran Embassy"@,
    }
}

/// The name of each variant as `Debug` prints it.
pub open spec fn booth_debug_of(b: BoothId) -> Seq<char> {
    match b {
        BoothId::Wormhole => "Wormhole"@,
        BoothId::Debridge => "Debridge"@,
        BoothId::Mayan => "Mayan"@,
        BoothId::Stargate => "Stargate"@,
        BoothId::Allbridge => "Allbridge"@,
        BoothId::Hyperlane => "Hyperlane"@,
        BoothId::Across => "Across"@,
        BoothId::Synapse => "Synapse"@,
    }
}

/// Position of a booth in the seating order of `BoothId::all`.
pub open spec fn booth_index(b: BoothId) -> int {
    match b {
        BoothId::Wormhole => 0,
        BoothId::Debridge => 1,
        BoothId::Mayan => 2,
        BoothId::Stargate => 3,
        BoothId::Allbridge => 4,
        BoothId::Hyperlane => 5,
        BoothId::Across => 6,
        BoothId::Synapse => 7,
    }
}

/// The seating order of all booths.
pub open spec fn all_booths() -> Seq<BoothId> {
    seq![
        BoothId::Wormhole,
        BoothId::Debridge,
        BoothId::Mayan,
        BoothId::Stargate,
        BoothId::Allbridge,
        BoothId::Hyperlane,
        BoothId::Across,
        BoothId::Synapse,
    ]
}

impl BoothId {
    pub fn name(self) -> (r: &'static str)
        ensures
            r@ == booth_name_of(self),
    {
        match self {
            BoothId::Wormhole => "Wormhole",
            BoothId::Debridge => "deBridge",
            BoothId::Mayan => "Mayan",
            BoothId::Stargate => "Stargate",
            BoothId::Allbridge => "Allbridge Core",
            BoothId::Hyperlane => "Hyperlane",
            BoothId::Across => "Across",
            BoothId::Synapse => "Synapse",
        }
    }

    pub fn label(self) -> (r: &'static str)
        ensures
            r@ == booth_label_of(self),
    {
        match self {
            BoothId::Wormhole => "Booth I -- Plenary Channel",
            BoothId::Debridge => "Booth II -- Solver Network",
            BoothId::Mayan => "Booth III -- Swift Auction House",
            BoothId::Stargate => "Booth IV -- LayerZero Direct",
            BoothId::Allbridge => "Booth V -- Stable Channel",
            BoothId::Hyperlane => "Booth VI -- Modular Mailroom",
            BoothId::Across => "Booth VII -- Intent Relay",
            BoothId::Synapse => "Booth VIII -- Veteran Embassy",
        }
    }

    /// The variant's name, as `{:?}` renders it.
    pub fn debug_name(self) -> (r: &'static str)
        ensures
            r@ == booth_debug_of(self),
    {
        match self {
            BoothId::Wormhole => "Wormhole",
            BoothId::Debridge => "Debridge",
            BoothId::Mayan => "Mayan",
            BoothId::Stargate => "Stargate",
            BoothId::Allbridge => "Allbridge",
            BoothId::Hyperlane => "Hyperlane",
            BoothId::Across => "Across",
            BoothId::Synapse => "Synapse",
        }
    }

    pub fn all() -> (r: &'static [BoothId])
        ensures
            r@ == all_booths(),
            r@.len() == ROUND_TABLE_SEAT_COUNT,
    {
        &[
            BoothId::Wormhole,
            BoothId::Debridge,
            BoothId::Mayan,
            BoothId::Stargate,
            BoothId::Allbridge,
            BoothId::Hyperlane,
            BoothId::Across,
            BoothId::Synapse,
        ]
    }
}

/// Number of booths the diplomat polls in parallel for a single transfer.
pub const ROUND_TABLE_SEAT_COUNT: usize = 8;

/// Every booth is seated exactly once in `BoothId::all`, which has
/// `ROUND_TABLE_SEAT_COUNT` seats.
pub proof fn lemma_all_booths_seated_once(b: BoothId)
    ensures
        all_booths().len() == ROUND_TABLE_SEAT_COUNT,
        0 <= booth_index(b) < ROUND_TABLE_SEAT_COUNT,
        all_booths()[booth_index(b)] == b,
        forall|i: int|
            0 <= i < ROUND_TABLE_SEAT_COUNT && all_booths()[i] == b ==> i == booth_index(b),
{
}

#[derive(Debug, Clone, Copy, PartialEq, Eq, Hash, Structural)]
pub enum SecurityRating {
    A,
    B,
    C,
}

/// The trust weight of a rating, in percent.
pub open spec fn rating_weight(r: SecurityRating) -> u32 {
    match r {
        SecurityRating::A => 100,
        SecurityRating::B => 75,
        SecurityRating::C => 50,
    }
}

/// Rating A is trusted fully (100%), B at 75% and C at 50%: a better rating
/// always weighs strictly more.
pub proof fn lemma_rating_weights(r: SecurityRating)
    ensures
        rating_weight(SecurityRating::A) == 100,
        rating_weight(SecurityRating::B) == 75,
        rating_weight(SecurityRating::C) == 50,
        rating_weight(SecurityRating::C) < rating_weight(SecurityRating::B) < rating_weight(
            SecurityRating::A,
        ),
        50 <= rating_weight(r) <= 100,
{
}

impl SecurityRating {
    /// The trust weight of the rating, in percent (A is 100, B 75, C 50).
    pub fn weight(self) -> (r: u32)
        ensures
            r == rating_weight(self),
    {
        match self {
            SecurityRating::A => 100,
            SecurityRating::B => 75,
            SecurityRating::C => 50,
        }
    }
}

/// One booth's answer to a quote request.
#[derive(Debug, Clone, Copy, PartialEq, Eq, Structural)]
pub struct BoothQuote {
    pub booth: BoothId,
    /// Tokens delivered, in millionths of a token; below zero when the fees
    /// taken exceed what was sent.
    pub amount_out: i128,
    pub duration_sec: u32,
    /// Fee, in millionths of a US dollar.
    pub fee_usd: u128,
    /// Expected slippage, in hundredths of a percent.
    pub slippage_pct: u32,
    pub security_rating: SecurityRating,
}

/// A transfer to be quoted.
#[derive(Debug, Clone)]
pub struct QuoteRequest {
    pub from: ChainId,
    pub to: ChainId,
    pub from_token: String,
    pub to_token: String,
    /// Tokens sent, in millionths of a token.
    pub amount: u64,
    pub sender: Option<String>,
    pub recipient: Option<String>,
}

} // verus!
