//! The diplomat's engine: what it decides around polling the booths. A
//! caller first has the request checked, then polls every booth (each poll
//! is outside work: a network call under a timeout) and hands the outcomes
//! back to be folded into one ranked answer.

use vstd::prelude::*;
use crate::booth::{booth_debug_of, BoothId, BoothQuote, QuoteRequest};
use crate::errors::{message_of, message_prefix_of, starts_with, RouterError};
use crate::scoring::{best_by, best_of, score_quotes, scored_as, BestBy, ScoredQuote, SortMode};

verus! {

/// How long a booth may take to answer, unless the engine is told otherwise.
pub const DEFAULT_BOOTH_TIMEOUT_MS: u64 = 9000;

/// What polling one booth came to.
#[derive(Debug)]
pub enum BoothOutcome {
    /// The booth quoted.
    Quoted(BoothQuote),
    /// The booth refused or failed with this error.
    Failed(BoothId, RouterError),
    /// The booth did not answer in time.
    TimedOut(BoothId),
    /// The polling task itself failed; the text is the failure's display.
    JoinFailed(String),
}

/// The engine's answer to one request.
#[derive(Debug)]
pub struct CableResponse {
    pub request: QuoteRequest,
    pub mode: SortMode,
    pub quotes: Vec<ScoredQuote>,
    pub best: Option<BestBy>,
    pub partial_failures: Vec<String>,
}

/// Checks a request before any booth is polled: the source and destination
/// chains must differ, and the amount must be positive.
pub fn check_request(request: &QuoteRequest) -> (r: Result<(), RouterError>)
    ensures
        request.from == request.to ==> (r matches Err(e) && e is SameChainRoute),
        request.from != request.to && request.amount == 0 ==> (r matches Err(e)
            && e is InvalidAmount),
        request.from != request.to && request.amount > 0 ==> r is Ok,
{
    if request.from == request.to {
        return Err(RouterError::SameChainRoute);
    }
    if request.amount == 0 {
        return Err(RouterError::InvalidAmount);
    }
    Ok(())
}

/// The quotes among the outcomes, in order.
pub open spec fn quotes_of(os: Seq<BoothOutcome>) -> Seq<BoothQuote>
    decreases os.len(),
{
    if os.len() == 0 {
        Seq::empty()
    } else {
        match os.last() {
            BoothOutcome::Quoted(q) => quotes_of(os.drop_last()).push(q),
            _ => quotes_of(os.drop_last()),
        }
    }
}

/// The outcomes that are not quotes, in order.
pub open spec fn failures_of(os: Seq<BoothOutcome>) -> Seq<BoothOutcome>
    decreases os.len(),
{
    if os.len() == 0 {
        Seq::empty()
    } else {
        match os.last() {
            BoothOutcome::Quoted(_) => failures_of(os.drop_last()),
            _ => failures_of(os.drop_last()).push(os.last()),
        }
    }
}

/// How a failure is reported begins: the booth (as `Debug` names it) and a
/// colon, or "join: " for a failed polling task; for an error carrying an
/// outside error, the error message's own prefix follows.
pub open spec fn failure_prefix(o: BoothOutcome) -> Seq<char> {
    match o {
        BoothOutcome::Failed(b, e) => booth_debug_of(b) + ": "@ + message_prefix_of(e),
        BoothOutcome::TimedOut(b) => booth_debug_of(b) + ": "@,
        BoothOutcome::JoinFailed(_) => "join: "@,
        BoothOutcome::Quoted(_) => Seq::empty(),
    }
}

/// The full report of a failure, where the library composes all of it.
pub open spec fn failure_text(o: BoothOutcome) -> Option<Seq<char>> {
    match o {
        BoothOutcome::Failed(b, e) => match message_of(e) {
            Some(m) => Some(booth_debug_of(b) + ": "@ + m),
            None => None,
        },
        BoothOutcome::TimedOut(b) => Some(booth_debug_of(b) + ": "@ + "booth timeout"@),
        BoothOutcome::JoinFailed(t) => Some("join: "@ + t@),
        BoothOutcome::Quoted(_) => None,
    }
}

/// `t` reports failure `o`.
pub open spec fn reports(o: BoothOutcome, t: Seq<char>) -> bool {
    match failure_text(o) {
        Some(full) => t == full,
        None => starts_with(t, failure_prefix(o)),
    }
}

/// Reports one failed outcome.
fn failure_report(o: &BoothOutcome) -> (r: String)
    requires
        !(o is Quoted),
    ensures
        reports(*o, r@),
{
    let mut s = String::new();
    match o {
        BoothOutcome::Failed(b, e) => {
            s.append(b.debug_name());
            s.append(": ");
            let m = e.message();
            s.append(m.as_str());
            proof {
                let p = booth_debug_of(*b) + ": "@;
                if message_of(*e) is None {
                    let mp = message_prefix_of(*e);
                    assert(s@ == p + m@);
                    assert(s@.subrange(0, (p + mp).len() as int) =~= p + mp) by {
                        assert(m@.subrange(0, mp.len() as int) == mp);
                        assert forall|i: int| 0 <= i < (p + mp).len() implies s@[i] == (p + mp)[i] by {
                            if i >= p.len() {
                                assert(s@[i] == m@[i - p.len()]);
                                assert(m@.subrange(0, mp.len() as int)[i - p.len()] == m@[i - p.len()]);
                            }
                        }
                    }
                }
            }
        },
        BoothOutcome::TimedOut(b) => {
            s.append(b.debug_name());
            s.append(": ");
            s.append("booth timeout");
        },
        BoothOutcome::JoinFailed(t) => {
            s.append("join: ");
            s.append(t.as_str());
        },
        BoothOutcome::Quoted(_) => {},
    }
    s
}

/// Folds the outcomes of polling every booth into one answer: the quotes,
/// scored and ranked in `mode`, the best quote on each axis, and a report of
/// every booth that did not quote, in polling order.
pub fn fold_outcomes(request: QuoteRequest, mode: SortMode, outcomes: &Vec<BoothOutcome>) -> (r:
    CableResponse)
    requires
        outcomes@.len() < 0x8000_0000,
    ensures
        r.request == request,
        r.mode == mode,
        scored_as(quotes_of(outcomes@), mode, r.quotes@),
        quotes_of(outcomes@).len() == 0 <==> r.best is None,
        r.best matches Some(b) ==> b == best_of(quotes_of(outcomes@)),
        r.partial_failures@.len() == failures_of(outcomes@).len(),
        forall|j: int|
            0 <= j < r.partial_failures@.len() ==> reports(
                failures_of(outcomes@)[j],
                (#[trigger] r.partial_failures@[j])@,
            ),
{
    let mut quotes: Vec<BoothQuote> = Vec::new();
    let mut partial_failures: Vec<String> = Vec::new();
    let mut i: usize = 0;
    while i < outcomes.len()
        invariant
            0 <= i <= outcomes@.len(),
            quotes@ == quotes_of(outcomes@.subrange(0, i as int)),
            partial_failures@.len() == failures_of(outcomes@.subrange(0, i as int)).len(),
            forall|j: int|
                0 <= j < partial_failures@.len() ==> reports(
                    failures_of(outcomes@.subrange(0, i as int))[j],
                    (#[trigger] partial_failures@[j])@,
                ),
        decreases outcomes@.len() - i,
    {
        let ghost pre = outcomes@.subrange(0, i as int);
        let ghost post = outcomes@.subrange(0, i + 1);
        proof {
            assert(post.drop_last() =~= pre);
            assert(post.last() == outcomes@[i as int]);
        }
        match &outcomes[i] {
            BoothOutcome::Quoted(q) => {
                quotes.push(*q);
            },
            o => {
                let t = failure_report(o);
                partial_failures.push(t);
            },
        }
        i = i + 1;
    }
    assert(outcomes@.subrange(0, outcomes@.len() as int) =~= outcomes@);
    proof {
        lemma_outcomes_split(outcomes@);
    }
    let scored = score_quotes(quotes.as_slice(), mode);
    let best = best_by(quotes.as_slice());
    CableResponse { request, mode, quotes: scored, best, partial_failures }
}

/// Every polled booth is accounted for exactly once: as a quote or as a
/// reported failure.
pub proof fn lemma_outcomes_split(os: Seq<BoothOutcome>)
    ensures
        quotes_of(os).len() + failures_of(os).len() == os.len(),
    decreases os.len(),
{
    if os.len() > 0 {
        lemma_outcomes_split(os.drop_last());
    }
}

} // verus!
