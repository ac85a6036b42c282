//! Multi-bridge routing engine: chain metadata, bridge booths, quote scoring
//! and a small natural-language intent parser, with their contracts proved.
//!
//! Token amounts and USD fees are fixed-point integers in millionths, slippage
//! is in hundredths of a percent, and scores are fixed-point with
//! `scoring::SCORE_ONE` standing for 1.
//!
//! - [`chain`]: the chains seated at the round table
//! - [`booth`]: booth (bridge adapter) identities, quotes and requests
//! - [`bridges`]: what each bridge adapter decides and computes
//! - [`scoring`]: weighted ranking across amount, duration, security and
//!   slippage
//! - [`engine`]: request checks and the fold of all booths' outcomes
//! - [`intent`]: the deterministic free-text intent parser
//! - [`errors`]: the typed [`RouterError`]
//! - [`text`]: decimal rendering and byte search helpers

pub mod booth;
pub mod bridges;
pub mod chain;
pub mod engine;
pub mod errors;
pub mod intent;
pub mod scoring;
pub mod text;

pub use booth::{BoothId, BoothQuote, QuoteRequest, SecurityRating, ROUND_TABLE_SEAT_COUNT};
pub use chain::{Chain, ChainId};
pub use engine::{BoothOutcome, CableResponse};
pub use errors::RouterError;
pub use intent::{parse_intent_regex, ParsedIntent, Preference};
pub use scoring::{best_by, score_quotes, BestBy, ScoredQuote, SortMode};
