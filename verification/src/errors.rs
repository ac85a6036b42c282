//! Strongly-typed errors used across the routing engine.
//!
//! Every booth adapter and the engine surface a [`RouterError`]. Higher layers
//! match on the variant to decide how to talk back to the caller: a transient
//! upstream timeout is retried, while [`RouterError::SameChainRoute`] is a
//! user-facing refusal.

use vstd::prelude::*;
use crate::text::{decimal_chars, push_decimal};

verus! {

/// `std::io::Error`, carried opaquely by [`RouterError::Io`].
#[verifier::external_type_specification]
#[verifier::external_body]
pub struct ExIoError(std::io::Error);

/// `serde_json::Error`, carried opaquely by [`RouterError::Serde`].
#[verifier::external_type_specification]
#[verifier::external_body]
pub struct ExSerdeJsonError(serde_json::Error);

/// `anyhow::Error`, carried opaquely by [`RouterError::Other`].
#[verifier::external_type_specification]
#[verifier::external_body]
pub struct ExAnyhowError(anyhow::Error);

#[derive(Debug)]
pub enum RouterError {
    SameChainRoute,
    InvalidAmount,
    InvalidToken(String),
    QuoteUnavailable,
    Timeout(u64),
    RateLimited(u32),
    Upstream(String),
    Io(std::io::Error),
    Serde(serde_json::Error),
    Other(anyhow::Error),
}

/// The analytics tag of each variant.
pub open spec fn tag_of(e: RouterError) -> Seq<char> {
    match e {
        RouterError::SameChainRoute => "same-chain"@,
        RouterError::InvalidAmount => "invalid-amount"@,
        RouterError::InvalidToken(_) => "invalid-token"@,
        RouterError::QuoteUnavailable => "quote-unavailable"@,
        RouterError::Timeout(_) => "timeout"@,
        RouterError::RateLimited(_) => "rate-limited"@,
        RouterError::Upstream(_) => "upstream"@,
        RouterError::Io(_) => "io"@,
        RouterError::Serde(_) => "serde"@,
        RouterError::Other(_) => "other"@,
    }
}

/// The position of each variant in the declaration of `RouterError`.
pub open spec fn variant_index(e: RouterError) -> int {
    match e {
        RouterError::SameChainRoute => 0,
        RouterError::InvalidAmount => 1,
        RouterError::InvalidToken(_) => 2,
        RouterError::QuoteUnavailable => 3,
        RouterError::Timeout(_) => 4,
        RouterError::RateLimited(_) => 5,
        RouterError::Upstream(_) => 6,
        RouterError::Io(_) => 7,
        RouterError::Serde(_) => 8,
        RouterError::Other(_) => 9,
    }
}

/// The errors worth retrying with the same input.
pub open spec fn transient(e: RouterError) -> bool {
    e is Timeout || e is RateLimited || e is Upstream
}

/// Whether `s` begins with `prefix`.
pub open spec fn starts_with(s: Seq<char>, prefix: Seq<char>) -> bool {
    prefix.len() <= s.len() && s.subrange(0, prefix.len() as int) == prefix
}

/// The message of each variant; `None` for the variants whose text ends in
/// the display of an I/O error (which the operating system words), of a JSON
/// error (which may wrap an I/O error) or of an `anyhow` error (which an
/// arbitrary wrapped error words).
pub open spec fn message_of(e: RouterError) -> Option<Seq<char>> {
    match e {
        RouterError::SameChainRoute => Some("source and destination chains must differ"@),
        RouterError::InvalidAmount => Some("invalid amount: must be positive"@),
        RouterError::InvalidToken(t) => Some("invalid token symbol: "@ + t@),
        RouterError::QuoteUnavailable => Some("booth quote unavailable"@),
        RouterError::Timeout(ms) => Some("booth timeout after "@ + decimal_chars(ms as nat) + "ms"@),
        RouterError::RateLimited(s) => Some(
            "rate limited by upstream: retry in "@ + decimal_chars(s as nat) + "s"@,
        ),
        RouterError::Upstream(t) => Some("upstream error: "@ + t@),
        RouterError::Io(_) => None,
        RouterError::Serde(_) => None,
        RouterError::Other(_) => None,
    }
}

/// The fixed beginning of the message of the variants whose full text is
/// not stated.
pub open spec fn message_prefix_of(e: RouterError) -> Seq<char> {
    match e {
        RouterError::Io(_) => "io error: "@,
        RouterError::Serde(_) => "serde error: "@,
        RouterError::Other(_) => "anyhow: "@,
        _ => Seq::empty(),
    }
}

/// Display text of an I/O error.
/// Calls `<std::io::Error as Display>::fmt`; nothing is claimed of the text,
/// which comes from the operating system.
#[verifier::external_body]
fn io_error_text(e: &std::io::Error) -> String {
    format!("{}", e)
}

/// Display text of a JSON error.
/// Calls `<serde_json::Error as Display>::fmt`; nothing is claimed of the
/// text, which for an error wrapping an I/O error comes from the operating
/// system.
#[verifier::external_body]
fn serde_error_text(e: &serde_json::Error) -> String {
    format!("{}", e)
}

/// Display text of an `anyhow` error.
/// Calls `<anyhow::Error as Display>::fmt`, which shows the outermost
/// context only; nothing is claimed of the text.
#[verifier::external_body]
fn anyhow_error_text(e: &anyhow::Error) -> String {
    format!("{}", e)
}

impl RouterError {
    /// Returns a short machine-friendly tag suitable for analytics keys.
    pub fn tag(&self) -> (r: &'static str)
        ensures
            r@ == tag_of(*self),
    {
        match self {
            RouterError::SameChainRoute => "same-chain",
            RouterError::InvalidAmount => "invalid-amount",
            RouterError::InvalidToken(_) => "invalid-token",
            RouterError::QuoteUnavailable => "quote-unavailable",
            RouterError::Timeout(_) => "timeout",
            RouterError::RateLimited(_) => "rate-limited",
            RouterError::Upstream(_) => "upstream",
            RouterError::Io(_) => "io",
            RouterError::Serde(_) => "serde",
            RouterError::Other(_) => "other",
        }
    }

    /// Whether the error is worth retrying with the same input.
    pub fn is_transient(&self) -> (r: bool)
        ensures
            r == transient(*self),
    {
        matches!(
            self,
            RouterError::Timeout(_) | RouterError::RateLimited(_) | RouterError::Upstream(_)
        )
    }

    /// The human-readable message of the error.
    pub fn message(&self) -> (r: String)
        ensures
            message_of(*self) matches Some(m) ==> r@ == m,
            message_of(*self) is None ==> starts_with(r@, message_prefix_of(*self)),
    {
        let mut s = String::new();
        match self {
            RouterError::SameChainRoute => {
                s.append("source and destination chains must differ");
            },
            RouterError::InvalidAmount => {
                s.append("invalid amount: must be positive");
            },
            RouterError::InvalidToken(t) => {
                s.append("invalid token symbol: ");
                s.append(t.as_str());
            },
            RouterError::QuoteUnavailable => {
                s.append("booth quote unavailable");
            },
            RouterError::Timeout(ms) => {
                s.append("booth timeout after ");
                push_decimal(&mut s, *ms as u128);
                s.append("ms");
            },
            RouterError::RateLimited(secs) => {
                s.append("rate limited by upstream: retry in ");
                push_decimal(&mut s, *secs as u128);
                s.append("s");
            },
            RouterError::Upstream(t) => {
                s.append("upstream error: ");
                s.append(t.as_str());
            },
            RouterError::Io(e) => {
                s.append("io error: ");
                let t = io_error_text(e);
                s.append(t.as_str());
                assert(s@.subrange(0, "io error: "@.len() as int) =~= "io error: "@);
            },
            RouterError::Serde(e) => {
                s.append("serde error: ");
                let t = serde_error_text(e);
                s.append(t.as_str());
                assert(s@.subrange(0, "serde error: "@.len() as int) =~= "serde error: "@);
            },
            RouterError::Other(e) => {
                s.append("anyhow: ");
                let t = anyhow_error_text(e);
                s.append(t.as_str());
                assert(s@.subrange(0, "anyhow: "@.len() as int) =~= "anyhow: "@);
            },
        }
        s
    }
}

/// The analytics tags tell every variant apart, and the transient errors are
/// exactly those tagged timeout, rate-limited or upstream.
pub proof fn lemma_tags_classify(e1: RouterError, e2: RouterError)
    ensures
        tag_of(e1) == tag_of(e2) <==> variant_index(e1) == variant_index(e2),
        transient(e1) <==> (tag_of(e1) == "timeout"@ || tag_of(e1) == "rate-limited"@
            || tag_of(e1) == "upstream"@),
{
    reveal_strlit("same-chain");
    reveal_strlit("invalid-amount");
    reveal_strlit("invalid-token");
    reveal_strlit("quote-unavailable");
    reveal_strlit("timeout");
    reveal_strlit("rate-limited");
    reveal_strlit("upstream");
    reveal_strlit("io");
    reveal_strlit("serde");
    reveal_strlit("other");
    assert(tag_of(e1).len() == tag_len(e1));
    assert(tag_of(e2).len() == tag_len(e2));
    if tag_of(e1) == tag_of(e2) {
        assert(tag_of(e1)[0] == tag_of(e2)[0]);
    }
}

/// Lengths of the analytics tags.
spec fn tag_len(e: RouterError) -> int {
    match e {
        RouterError::SameChainRoute => 10,
        RouterError::InvalidAmount => 14,
        RouterError::InvalidToken(_) => 13,
        RouterError::QuoteUnavailable => 17,
        RouterError::Timeout(_) => 7,
        RouterError::RateLimited(_) => 12,
        RouterError::Upstream(_) => 8,
        RouterError::Io(_) => 2,
        RouterError::Serde(_) => 5,
        RouterError::Other(_) => 5,
    }
}

impl From<std::io::Error> for RouterError {
    fn from(e: std::io::Error) -> (r: RouterError) {
        RouterError::Io(e)
    }
}

impl vstd::std_specs::convert::FromSpecImpl<std::io::Error> for RouterError {
    open spec fn obeys_from_spec() -> bool {
        true
    }

    open spec fn from_spec(e: std::io::Error) -> RouterError {
        RouterError::Io(e)
    }
}

impl From<serde_json::Error> for RouterError {
    fn from(e: serde_json::Error) -> (r: RouterError) {
        RouterError::Serde(e)
    }
}

impl vstd::std_specs::convert::FromSpecImpl<serde_json::Error> for RouterError {
    open spec fn obeys_from_spec() -> bool {
        true
    }

    open spec fn from_spec(e: serde_json::Error) -> RouterError {
        RouterError::Serde(e)
    }
}

impl From<anyhow::Error> for RouterError {
    fn from(e: anyhow::Error) -> (r: RouterError) {
        RouterError::Other(e)
    }
}

impl vstd::std_specs::convert::FromSpecImpl<anyhow::Error> for RouterError {
    open spec fn obeys_from_spec() -> bool {
        true
    }

    open spec fn from_spec(e: anyhow::Error) -> RouterError {
        RouterError::Other(e)
    }
}

} // verus!
