//! Weighted scoring across booth quotes. Lower score is better.
//!
//! Each quote is rated on four axes, each normalised against the other
//! quotes of the same call: amount delivered (short of the best amount, over
//! the best amount), duration (against the spread between fastest and slowest),
//! security (one minus the rating's weight) and slippage (against the worst
//! slippage). The score is the weighted sum of the four, in fixed point:
//! `SCORE_ONE` stands for a score of 1.

use vstd::prelude::*;
use vstd::arithmetic::div_mod::{lemma_div_is_ordered, lemma_div_by_multiple, lemma_div_is_ordered_by_denominator};
use vstd::arithmetic::mul::lemma_mul_inequality;
use crate::booth::{rating_weight, BoothId, BoothQuote, SecurityRating};

verus! {

/// Fixed-point resolution of each normalised axis: `NORM_ONE` stands for 1.
pub const NORM_ONE: u128 = 1_000_000_000_000_000;

/// Fixed-point score of 1 (weights are in percent).
pub const SCORE_ONE: u128 = 100_000_000_000_000_000;

/// Amounts delivered are normalised as if held within plus or minus this
/// many millionths (2^70); an amount beyond it counts as the bound.
pub const AMOUNT_BOUND: i128 = 1_180_591_620_717_411_303_424;

/// An amount delivered as the amount axis counts it.
pub open spec fn clamp_amount(x: i128) -> int {
    if x > AMOUNT_BOUND {
        AMOUNT_BOUND as int
    } else if x < -AMOUNT_BOUND {
        -AMOUNT_BOUND
    } else {
        x as int
    }
}

#[derive(Debug, Clone, Copy, PartialEq, Eq, Structural)]
pub enum SortMode {
    Cheapest,
    Fastest,
    Safest,
    Balanced,
}

/// How much each axis counts, in percent.
#[derive(Debug, Clone, Copy, PartialEq, Eq, Structural)]
pub struct Weights {
    pub amount: u32,
    pub duration: u32,
    pub security: u32,
    pub slippage: u32,
}

/// The axis weights of each sort mode, in percent.
pub open spec fn mode_weights(mode: SortMode) -> Weights {
    match mode {
        SortMode::Cheapest => Weights { amount: 70, duration: 15, security: 10, slippage: 5 },
        SortMode::Fastest => Weights { amount: 10, duration: 70, security: 15, slippage: 5 },
        SortMode::Safest => Weights { amount: 10, duration: 10, security: 70, slippage: 10 },
        SortMode::Balanced => Weights { amount: 40, duration: 30, security: 20, slippage: 10 },
    }
}

impl SortMode {
    pub fn weights(self) -> (r: Weights)
        ensures
            r == mode_weights(self),
    {
        match self {
            SortMode::Cheapest => Weights { amount: 70, duration: 15, security: 10, slippage: 5 },
            SortMode::Fastest => Weights { amount: 10, duration: 70, security: 15, slippage: 5 },
            SortMode::Safest => Weights { amount: 10, duration: 10, security: 70, slippage: 10 },
            SortMode::Balanced => Weights { amount: 40, duration: 30, security: 20, slippage: 10 },
        }
    }
}

/// In every mode the four weights add up to one whole (100 percent), and the
/// axis a mode is named after weighs most.
pub proof fn lemma_weights_sum_to_one(mode: SortMode)
    ensures
        mode_weights(mode).amount + mode_weights(mode).duration + mode_weights(mode).security
            + mode_weights(mode).slippage == 100,
        mode == SortMode::Cheapest ==> mode_weights(mode).amount == 70,
        mode == SortMode::Fastest ==> mode_weights(mode).duration == 70,
        mode == SortMode::Safest ==> mode_weights(mode).security == 70,
{
}

/// The weights of each sort mode, in percent of amount, duration, security
/// and slippage: cheapest 70/15/10/5, fastest 10/70/15/5, safest
/// 10/10/70/10, balanced 40/30/20/10. Every mode weighs every axis.
pub proof fn lemma_mode_weights_table(mode: SortMode)
    ensures
        mode_weights(SortMode::Cheapest) == (Weights {
            amount: 70,
            duration: 15,
            security: 10,
            slippage: 5,
        }),
        mode_weights(SortMode::Fastest) == (Weights {
            amount: 10,
            duration: 70,
            security: 15,
            slippage: 5,
        }),
        mode_weights(SortMode::Safest) == (Weights {
            amount: 10,
            duration: 10,
            security: 70,
            slippage: 10,
        }),
        mode_weights(SortMode::Balanced) == (Weights {
            amount: 40,
            duration: 30,
            security: 20,
            slippage: 10,
        }),
        mode_weights(mode).amount > 0,
        mode_weights(mode).duration > 0,
        mode_weights(mode).security > 0,
        mode_weights(mode).slippage > 0,
{
}

/// The largest amount delivered, as the amount axis counts it, and at
/// least 0.
pub open spec fn max_out(qs: Seq<BoothQuote>) -> int
    decreases qs.len(),
{
    if qs.len() == 0 {
        0
    } else {
        let m = max_out(qs.drop_last());
        if clamp_amount(qs.last().amount_out) > m {
            clamp_amount(qs.last().amount_out)
        } else {
            m
        }
    }
}

/// The shortest duration (0 when there are no quotes).
pub open spec fn min_dur(qs: Seq<BoothQuote>) -> u32
    decreases qs.len(),
{
    if qs.len() == 0 {
        0
    } else if qs.len() == 1 {
        qs[0].duration_sec
    } else {
        let m = min_dur(qs.drop_last());
        if qs.last().duration_sec < m {
            qs.last().duration_sec
        } else {
            m
        }
    }
}

/// The longest duration (0 when there are no quotes).
pub open spec fn max_dur(qs: Seq<BoothQuote>) -> u32
    decreases qs.len(),
{
    if qs.len() == 0 {
        0
    } else {
        let m = max_dur(qs.drop_last());
        if qs.last().duration_sec > m {
            qs.last().duration_sec
        } else {
            m
        }
    }
}

/// The largest slippage (0 when there are no quotes).
pub open spec fn max_slip(qs: Seq<BoothQuote>) -> u32
    decreases qs.len(),
{
    if qs.len() == 0 {
        0
    } else {
        let m = max_slip(qs.drop_last());
        if qs.last().slippage_pct > m {
            qs.last().slippage_pct
        } else {
            m
        }
    }
}

/// `num / den` in fixed point, rounded down.
pub open spec fn norm(num: int, den: int) -> int {
    num * NORM_ONE / den
}

/// The amount axis of amount `q` against the best amount `m`: what `q` falls
/// short of `m`, over `m`; 1 when no amount is above zero.
pub open spec fn amount_norm(m: int, q: int) -> int {
    if m > 0 {
        norm(m - q, m)
    } else {
        NORM_ONE as int
    }
}

/// `x`, but at least 1.
pub open spec fn at_least_one(x: int) -> int {
    if x >= 1 {
        x
    } else {
        1
    }
}

/// The score of quote `q` among the quotes `qs`, weighted by `w`:
/// amount short of the best amount (over the best amount), duration above the fastest (over the
/// duration spread, at least one second), one minus the security weight, and
/// slippage over the worst slippage (at least one hundredth of a percent).
pub open spec fn score_of(qs: Seq<BoothQuote>, w: Weights, q: BoothQuote) -> int {
    let s = at_least_one(max_dur(qs) - min_dur(qs));
    let p = at_least_one(max_slip(qs) as int);
    w.amount * amount_norm(max_out(qs), clamp_amount(q.amount_out)) + w.duration * norm(q.duration_sec - min_dur(qs), s)
        + w.security * norm(100 - rating_weight(q.security_rating), 100) + w.slippage * norm(
        q.slippage_pct as int,
        p,
    )
}

/// Quote `j` ranks ahead of quote `i`: a lower score, or the same score and an
/// earlier position.
pub open spec fn beats(s: Seq<u128>, j: int, i: int) -> bool {
    s[j] < s[i] || (s[j] == s[i] && j < i)
}

/// How many of the first `k` quotes rank ahead of quote `i`.
pub open spec fn count_beating(s: Seq<u128>, i: int, k: int) -> nat
    decreases k,
{
    if k <= 0 {
        0
    } else {
        count_beating(s, i, k - 1) + if beats(s, k - 1, i) {
            1nat
        } else {
            0nat
        }
    }
}

/// The rank of quote `i` (1 is best): one more than the number of quotes that
/// rank ahead of it.
pub open spec fn rank_in(s: Seq<u128>, i: int) -> int {
    1 + count_beating(s, i, s.len() as int) as int
}

#[derive(Debug, Clone, Copy, PartialEq, Eq, Structural)]
pub struct ScoredQuote {
    pub quote: BoothQuote,
    /// The score, with `SCORE_ONE` standing for 1; lower is better.
    pub score: u128,
    /// 1 for the best quote, then 2, 3, ...
    pub rank: i32,
}

/// The scores of all quotes of a call.
pub open spec fn scores_of(qs: Seq<BoothQuote>, mode: SortMode) -> Seq<u128> {
    Seq::new(qs.len(), |i: int| score_of(qs, mode_weights(mode), qs[i]) as u128)
}

/// What `score_quotes` returns: each quote in input order with its score and
/// rank.
pub open spec fn scored_as(qs: Seq<BoothQuote>, mode: SortMode, r: Seq<ScoredQuote>) -> bool {
    &&& r.len() == qs.len()
    &&& forall|i: int|
        0 <= i < qs.len() ==> {
            &&& (#[trigger] r[i]).quote == qs[i]
            &&& r[i].score == scores_of(qs, mode)[i]
            &&& r[i].rank == rank_in(scores_of(qs, mode), i)
        }
}

proof fn lemma_norm_bounded(num: int, den: int)
    requires
        0 <= num <= den,
        0 < den,
    ensures
        0 <= norm(num, den) <= NORM_ONE,
{
    lemma_mul_inequality(num, den, NORM_ONE as int);
    lemma_div_is_ordered(num * NORM_ONE, den * NORM_ONE, den);
    lemma_div_is_ordered(0, num * NORM_ONE, den);
    assert(den * NORM_ONE == NORM_ONE * den) by (nonlinear_arith);
    lemma_div_by_multiple(NORM_ONE as int, den);
}

proof fn lemma_aggregates(qs: Seq<BoothQuote>, i: int)
    requires
        0 <= i < qs.len(),
    ensures
        clamp_amount(qs[i].amount_out) <= max_out(qs),
        min_dur(qs) <= qs[i].duration_sec <= max_dur(qs),
        qs[i].slippage_pct <= max_slip(qs),
    decreases qs.len(),
{
    if i < qs.len() - 1 {
        lemma_aggregates(qs.drop_last(), i);
        assert(qs.drop_last()[i] == qs[i]);
    }
    if qs.len() >= 2 && i == qs.len() - 1 {
        assert(qs.last() == qs[i]);
    }
}

/// The best amount lies between 0 and the bound of the amount axis.
proof fn lemma_max_out_range(qs: Seq<BoothQuote>)
    ensures
        0 <= max_out(qs) <= AMOUNT_BOUND,
    decreases qs.len(),
{
    if qs.len() > 0 {
        lemma_max_out_range(qs.drop_last());
    }
}

/// The amount axis is at least 0; at most 1 for an amount of at least 0,
/// and in any case at most twice the bound.
proof fn lemma_amount_norm_bounded(m: int, q: int)
    requires
        0 <= m <= AMOUNT_BOUND,
        -AMOUNT_BOUND <= q <= m,
    ensures
        0 <= amount_norm(m, q) <= 2 * AMOUNT_BOUND * NORM_ONE,
        q >= 0 ==> amount_norm(m, q) <= NORM_ONE,
{
    if m > 0 {
        let x = (m - q) * NORM_ONE;
        assert(0 <= x <= 2 * AMOUNT_BOUND * NORM_ONE) by (nonlinear_arith)
            requires
                x == (m - q) * NORM_ONE,
                0 <= m - q <= 2 * AMOUNT_BOUND,
        ;
        lemma_div_is_ordered_by_denominator(x, 1, m);
        lemma_div_is_ordered(0, x, m);
        if q >= 0 {
            lemma_norm_bounded(m - q, m);
        }
    }
}

/// Every score lies between 0 and 1 when the quote scored delivers at least
/// nothing; a quote delivering less than nothing can score above 1.
pub proof fn lemma_score_bounded(qs: Seq<BoothQuote>, mode: SortMode, i: int)
    requires
        0 <= i < qs.len(),
        qs[i].amount_out >= 0,
    ensures
        0 <= score_of(qs, mode_weights(mode), qs[i]) <= SCORE_ONE,
{
    let q = qs[i];
    let w = mode_weights(mode);
    lemma_aggregates(qs, i);
    lemma_max_out_range(qs);
    let s = at_least_one(max_dur(qs) - min_dur(qs));
    let p = at_least_one(max_slip(qs) as int);
    lemma_amount_norm_bounded(max_out(qs), clamp_amount(q.amount_out));
    lemma_norm_bounded(q.duration_sec - min_dur(qs), s);
    lemma_norm_bounded(100 - rating_weight(q.security_rating), 100);
    lemma_norm_bounded(q.slippage_pct as int, p);
    let na = amount_norm(max_out(qs), clamp_amount(q.amount_out));
    let nd = norm(q.duration_sec - min_dur(qs), s);
    let ns = norm(100 - rating_weight(q.security_rating), 100);
    let np = norm(q.slippage_pct as int, p);
    assert(0 <= w.amount * na <= w.amount * NORM_ONE) by (nonlinear_arith)
        requires
            0 <= na <= NORM_ONE,
            0 <= w.amount,
    ;
    assert(0 <= w.duration * nd <= w.duration * NORM_ONE) by (nonlinear_arith)
        requires
            0 <= nd <= NORM_ONE,
            0 <= w.duration,
    ;
    assert(0 <= w.security * ns <= w.security * NORM_ONE) by (nonlinear_arith)
        requires
            0 <= ns <= NORM_ONE,
            0 <= w.security,
    ;
    assert(0 <= w.slippage * np <= w.slippage * NORM_ONE) by (nonlinear_arith)
        requires
            0 <= np <= NORM_ONE,
            0 <= w.slippage,
    ;
}

proof fn lemma_count_bound(s: Seq<u128>, i: int, k: int)
    requires
        0 <= i < s.len(),
        0 <= k <= s.len(),
    ensures
        count_beating(s, i, k) <= k,
        i < k ==> count_beating(s, i, k) <= k - 1,
    decreases k,
{
    if k > 0 {
        lemma_count_bound(s, i, k - 1);
    }
}

proof fn lemma_count_zero(s: Seq<u128>, i: int, k: int)
    requires
        0 <= k <= s.len(),
        forall|t: int| 0 <= t < k ==> !beats(s, t, i),
    ensures
        count_beating(s, i, k) == 0,
    decreases k,
{
    if k > 0 {
        lemma_count_zero(s, i, k - 1);
    }
}

/// If every quote among the first `k` that ranks ahead of `j` also ranks
/// ahead of `i`, fewer of them rank ahead of `j`; strictly fewer when `j`
/// itself is among them and ranks ahead of `i`.
proof fn lemma_count_mono(s: Seq<u128>, i: int, j: int, k: int)
    requires
        0 <= i < s.len(),
        0 <= j < s.len(),
        0 <= k <= s.len(),
        forall|t: int| 0 <= t < k && beats(s, t, j) ==> beats(s, t, i),
    ensures
        count_beating(s, j, k) <= count_beating(s, i, k),
        j < k && beats(s, j, i) ==> count_beating(s, j, k) < count_beating(s, i, k),
    decreases k,
{
    if k > 0 {
        lemma_count_mono(s, i, j, k - 1);
    }
}

/// Ranks are a permutation of `1..=n` that orders the quotes by score, ties
/// kept in input order.
pub proof fn lemma_ranks_order_scores(s: Seq<u128>, i: int, j: int)
    requires
        0 <= i < s.len(),
        0 <= j < s.len(),
    ensures
        1 <= rank_in(s, i) <= s.len(),
        i != j ==> rank_in(s, i) != rank_in(s, j),
        s[i] < s[j] ==> rank_in(s, i) < rank_in(s, j),
        s[i] == s[j] && i < j ==> rank_in(s, i) < rank_in(s, j),
{
    lemma_count_bound(s, i, s.len() as int);
    if i != j {
        if beats(s, i, j) {
            lemma_count_mono(s, j, i, s.len() as int);
        } else {
            lemma_count_mono(s, i, j, s.len() as int);
        }
    }
}

/// Every score fits the 128 bits it is held in.
proof fn lemma_score_fits(qs: Seq<BoothQuote>, mode: SortMode, i: int)
    requires
        0 <= i < qs.len(),
    ensures
        0 <= score_of(qs, mode_weights(mode), qs[i]) <= u128::MAX,
{
    let q = qs[i];
    let w = mode_weights(mode);
    lemma_aggregates(qs, i);
    lemma_max_out_range(qs);
    let s = at_least_one(max_dur(qs) - min_dur(qs));
    let p = at_least_one(max_slip(qs) as int);
    lemma_amount_norm_bounded(max_out(qs), clamp_amount(q.amount_out));
    lemma_norm_bounded(q.duration_sec - min_dur(qs), s);
    lemma_norm_bounded(100 - rating_weight(q.security_rating), 100);
    lemma_norm_bounded(q.slippage_pct as int, p);
    let na = amount_norm(max_out(qs), clamp_amount(q.amount_out));
    let nd = norm(q.duration_sec - min_dur(qs), s);
    let ns = norm(100 - rating_weight(q.security_rating), 100);
    let np = norm(q.slippage_pct as int, p);
    assert(0 <= w.amount * na <= 100 * (2 * AMOUNT_BOUND * NORM_ONE)) by (nonlinear_arith)
        requires
            0 <= na <= 2 * AMOUNT_BOUND * NORM_ONE,
            0 <= w.amount <= 100,
    ;
    assert(0 <= w.duration * nd <= 100 * NORM_ONE) by (nonlinear_arith)
        requires
            0 <= nd <= NORM_ONE,
            0 <= w.duration <= 100,
    ;
    assert(0 <= w.security * ns <= 100 * NORM_ONE) by (nonlinear_arith)
        requires
            0 <= ns <= NORM_ONE,
            0 <= w.security <= 100,
    ;
    assert(0 <= w.slippage * np <= 100 * NORM_ONE) by (nonlinear_arith)
        requires
            0 <= np <= NORM_ONE,
            0 <= w.slippage <= 100,
    ;
}

/// In every sort mode, of two quotes of a call that deliver the same amount
/// in the same time at the same slippage, the one with the better security
/// rating scores strictly lower and ranks ahead.
pub proof fn lemma_better_rating_ranks_first(qs: Seq<BoothQuote>, mode: SortMode, i: int, j: int)
    requires
        0 <= i < qs.len(),
        0 <= j < qs.len(),
        qs[i].amount_out == qs[j].amount_out,
        qs[i].duration_sec == qs[j].duration_sec,
        qs[i].slippage_pct == qs[j].slippage_pct,
        rating_weight(qs[i].security_rating) > rating_weight(qs[j].security_rating),
    ensures
        scores_of(qs, mode)[i] < scores_of(qs, mode)[j],
        rank_in(scores_of(qs, mode), i) < rank_in(scores_of(qs, mode), j),
{
    let w = mode_weights(mode);
    let xi = 100 - rating_weight(qs[i].security_rating);
    let xj = 100 - rating_weight(qs[j].security_rating);
    assert(xi * NORM_ONE / 100 == xi * 10_000_000_000_000) by {
        lemma_div_by_multiple(xi * 10_000_000_000_000, 100);
    }
    assert(xj * NORM_ONE / 100 == xj * 10_000_000_000_000) by {
        lemma_div_by_multiple(xj * 10_000_000_000_000, 100);
    }
    assert(w.security * (xi * 10_000_000_000_000) < w.security * (xj * 10_000_000_000_000))
        by (nonlinear_arith)
        requires
            0 <= xi < xj,
            w.security > 0,
    ;
    assert(score_of(qs, w, qs[i]) < score_of(qs, w, qs[j]));
    lemma_score_fits(qs, mode, i);
    lemma_score_fits(qs, mode, j);
    let s = scores_of(qs, mode);
    assert(s[i] < s[j]);
    lemma_ranks_order_scores(s, i, j);
}

/// Index of the last quote delivering the largest amount.
pub open spec fn last_max_out_index(qs: Seq<BoothQuote>) -> int
    decreases qs.len(),
{
    if qs.len() <= 1 {
        0
    } else {
        let k = last_max_out_index(qs.drop_last());
        if qs.last().amount_out >= qs[k].amount_out {
            qs.len() - 1
        } else {
            k
        }
    }
}

/// Index of the first quote with the shortest duration.
pub open spec fn first_min_dur_index(qs: Seq<BoothQuote>) -> int
    decreases qs.len(),
{
    if qs.len() <= 1 {
        0
    } else {
        let k = first_min_dur_index(qs.drop_last());
        if qs.last().duration_sec < qs[k].duration_sec {
            qs.len() - 1
        } else {
            k
        }
    }
}

/// Index of the last quote with the highest security weight.
pub open spec fn last_max_rating_index(qs: Seq<BoothQuote>) -> int
    decreases qs.len(),
{
    if qs.len() <= 1 {
        0
    } else {
        let k = last_max_rating_index(qs.drop_last());
        if rating_weight(qs.last().security_rating) >= rating_weight(qs[k].security_rating) {
            qs.len() - 1
        } else {
            k
        }
    }
}

/// Index of the first smallest score.
pub open spec fn first_min_index(s: Seq<u128>) -> int
    decreases s.len(),
{
    if s.len() <= 1 {
        0
    } else {
        let k = first_min_index(s.drop_last());
        if s.last() < s[k] {
            s.len() - 1
        } else {
            k
        }
    }
}

/// The best quote on each axis.
#[derive(Debug, Clone, Copy, PartialEq, Eq, Structural)]
pub struct BestBy {
    pub cheapest: BoothId,
    pub fastest: BoothId,
    pub safest: BoothId,
    pub balanced: BoothId,
}

/// What `best_by` picks from a non-empty list of quotes.
pub open spec fn best_of(qs: Seq<BoothQuote>) -> BestBy {
    BestBy {
        cheapest: qs[last_max_out_index(qs)].booth,
        fastest: qs[first_min_dur_index(qs)].booth,
        safest: qs[last_max_rating_index(qs)].booth,
        balanced: qs[first_min_index(scores_of(qs, SortMode::Balanced))].booth,
    }
}

/// The cheapest pick delivers the largest amount, and no later quote
/// delivers as much.
pub proof fn lemma_cheapest_is_last_max(qs: Seq<BoothQuote>)
    requires
        qs.len() >= 1,
    ensures
        0 <= last_max_out_index(qs) < qs.len(),
        forall|j: int| #![trigger qs[j]]
            0 <= j < qs.len() ==> qs[j].amount_out <= qs[last_max_out_index(qs)].amount_out,
        forall|j: int| #![trigger qs[j]]
            last_max_out_index(qs) < j < qs.len() ==> qs[j].amount_out < qs[last_max_out_index(
                qs,
            )].amount_out,
    decreases qs.len(),
{
    if qs.len() > 1 {
        lemma_cheapest_is_last_max(qs.drop_last());
        assert(forall|j: int| 0 <= j < qs.len() - 1 ==> qs.drop_last()[j] == qs[j]);
    }
}

/// The fastest pick has the shortest duration, and no earlier quote is as
/// fast.
pub proof fn lemma_fastest_is_first_min(qs: Seq<BoothQuote>)
    requires
        qs.len() >= 1,
    ensures
        0 <= first_min_dur_index(qs) < qs.len(),
        forall|j: int| #![trigger qs[j]]
            0 <= j < qs.len() ==> qs[first_min_dur_index(qs)].duration_sec <= qs[j].duration_sec,
        forall|j: int| #![trigger qs[j]]
            0 <= j < first_min_dur_index(qs) ==> qs[first_min_dur_index(qs)].duration_sec
                < qs[j].duration_sec,
    decreases qs.len(),
{
    if qs.len() > 1 {
        lemma_fastest_is_first_min(qs.drop_last());
        assert(forall|j: int| 0 <= j < qs.len() - 1 ==> qs.drop_last()[j] == qs[j]);
    }
}

/// The safest pick has the best security rating, and no later quote is
/// rated as well.
pub proof fn lemma_safest_is_last_max(qs: Seq<BoothQuote>)
    requires
        qs.len() >= 1,
    ensures
        0 <= last_max_rating_index(qs) < qs.len(),
        forall|j: int| #![trigger qs[j]]
            0 <= j < qs.len() ==> rating_weight(qs[j].security_rating) <= rating_weight(
                qs[last_max_rating_index(qs)].security_rating,
            ),
        forall|j: int| #![trigger qs[j]]
            last_max_rating_index(qs) < j < qs.len() ==> rating_weight(qs[j].security_rating)
                < rating_weight(qs[last_max_rating_index(qs)].security_rating),
    decreases qs.len(),
{
    if qs.len() > 1 {
        lemma_safest_is_last_max(qs.drop_last());
        assert(forall|j: int| 0 <= j < qs.len() - 1 ==> qs.drop_last()[j] == qs[j]);
    }
}

proof fn lemma_first_min(s: Seq<u128>)
    requires
        s.len() >= 1,
    ensures
        0 <= first_min_index(s) < s.len(),
        forall|j: int| #![trigger s[j]] 0 <= j < s.len() ==> s[first_min_index(s)] <= s[j],
        forall|j: int| #![trigger s[j]] 0 <= j < first_min_index(s) ==> s[first_min_index(s)] < s[j],
    decreases s.len(),
{
    if s.len() > 1 {
        lemma_first_min(s.drop_last());
        assert(forall|j: int| 0 <= j < s.len() - 1 ==> s.drop_last()[j] == s[j]);
    }
}

/// The balanced pick of `best_by` is the quote that `score_quotes` ranks
/// first in balanced mode.
pub proof fn lemma_balanced_is_ranked_first(qs: Seq<BoothQuote>)
    requires
        qs.len() >= 1,
    ensures
        0 <= first_min_index(scores_of(qs, SortMode::Balanced)) < qs.len(),
        rank_in(scores_of(qs, SortMode::Balanced), first_min_index(scores_of(qs, SortMode::Balanced)))
            == 1,
{
    let s = scores_of(qs, SortMode::Balanced);
    lemma_first_min(s);
    lemma_count_zero(s, first_min_index(s), s.len() as int);
}

/// The balanced pick of `best_by` is the booth of the quote that
/// `score_quotes` ranks first in balanced mode; every quote ranked first is
/// that one.
pub proof fn lemma_best_balanced_is_rank_one(qs: Seq<BoothQuote>, r: Seq<ScoredQuote>)
    requires
        qs.len() >= 1,
        scored_as(qs, SortMode::Balanced, r),
    ensures
        exists|k: int|
            0 <= k < r.len() && (#[trigger] r[k]).rank == 1 && r[k].quote.booth == best_of(
                qs,
            ).balanced,
        forall|k: int|
            0 <= k < r.len() && (#[trigger] r[k]).rank == 1 ==> k == first_min_index(
                scores_of(qs, SortMode::Balanced),
            ) && r[k].quote.booth == best_of(qs).balanced,
{
    let s = scores_of(qs, SortMode::Balanced);
    let m = first_min_index(s);
    lemma_balanced_is_ranked_first(qs);
    assert(r[m].rank == 1);
    assert forall|k: int| 0 <= k < r.len() && (#[trigger] r[k]).rank == 1 implies k == m
        && r[k].quote.booth == best_of(qs).balanced by {
        lemma_ranks_order_scores(s, k, m);
    }
}

/// The aggregates of all quotes against which each one is normalised.
struct Aggregates {
    max_out: i128,
    min_dur: u32,
    max_dur: u32,
    max_slip: u32,
}

/// An amount delivered as the amount axis counts it.
fn clamped(x: i128) -> (r: i128)
    ensures
        r == clamp_amount(x),
{
    if x > AMOUNT_BOUND {
        AMOUNT_BOUND
    } else if x < -AMOUNT_BOUND {
        -AMOUNT_BOUND
    } else {
        x
    }
}

fn aggregates(quotes: &[BoothQuote]) -> (r: Aggregates)
    ensures
        r.max_out == max_out(quotes@),
        r.min_dur == min_dur(quotes@),
        r.max_dur == max_dur(quotes@),
        r.max_slip == max_slip(quotes@),
{
    let n = quotes.len();
    let mut mo: i128 = 0;
    let mut mind: u32 = 0;
    let mut maxd: u32 = 0;
    let mut ms: u32 = 0;
    let mut i: usize = 0;
    while i < n
        invariant
            n == quotes@.len(),
            0 <= i <= n,
            mo == max_out(quotes@.subrange(0, i as int)),
            mind == min_dur(quotes@.subrange(0, i as int)),
            maxd == max_dur(quotes@.subrange(0, i as int)),
            ms == max_slip(quotes@.subrange(0, i as int)),
        decreases n - i,
    {
        let q = quotes[i];
        proof {
            let pre = quotes@.subrange(0, i as int);
            let post = quotes@.subrange(0, i + 1);
            assert(post.drop_last() =~= pre);
            assert(post.last() == q);
            if i == 0 {
                assert(post[0] == q);
            }
        }
        let c = clamped(q.amount_out);
        if c > mo {
            mo = c;
        }
        if i == 0 || q.duration_sec < mind {
            mind = q.duration_sec;
        }
        if q.duration_sec > maxd {
            maxd = q.duration_sec;
        }
        if q.slippage_pct > ms {
            ms = q.slippage_pct;
        }
        i = i + 1;
    }
    assert(quotes@.subrange(0, n as int) =~= quotes@);
    Aggregates { max_out: mo, min_dur: mind, max_dur: maxd, max_slip: ms }
}

/// The score of quote `i` among `quotes`.
fn score_at(quotes: &[BoothQuote], i: usize, agg: &Aggregates, w: Weights, mode: SortMode) -> (r:
    u128)
    requires
        0 <= i < quotes@.len(),
        agg.max_out == max_out(quotes@),
        agg.min_dur == min_dur(quotes@),
        agg.max_dur == max_dur(quotes@),
        agg.max_slip == max_slip(quotes@),
        w == mode_weights(mode),
    ensures
        r == score_of(quotes@, w, quotes@[i as int]),
{
    let q = quotes[i];
    let ghost qs = quotes@;
    proof {
        lemma_aggregates(qs, i as int);
        lemma_max_out_range(qs);
        lemma_amount_norm_bounded(max_out(qs), clamp_amount(q.amount_out));
    }
    let spread: u128 = if agg.max_dur - agg.min_dur >= 1 {
        (agg.max_dur - agg.min_dur) as u128
    } else {
        1
    };
    let p: u128 = if agg.max_slip >= 1 {
        agg.max_slip as u128
    } else {
        1
    };
    let one = NORM_ONE;
    let na: u128 = if agg.max_out > 0 {
        let m = agg.max_out;
        let c = clamped(q.amount_out);
        proof {
            assert((m - c) * NORM_ONE <= 2 * AMOUNT_BOUND * NORM_ONE) by (nonlinear_arith)
                requires
                    0 <= m - c <= 2 * AMOUNT_BOUND,
            ;
        }
        ((m - c) as u128 * one) / (m as u128)
    } else {
        one
    };
    let nd = ((q.duration_sec - agg.min_dur) as u128 * one) / spread;
    let ns = ((100 - q.security_rating.weight()) as u128 * one) / 100;
    let np = (q.slippage_pct as u128 * one) / p;
    proof {
        lemma_norm_bounded(q.duration_sec - agg.min_dur, spread as int);
        lemma_norm_bounded(100 - rating_weight(q.security_rating), 100);
        lemma_norm_bounded(q.slippage_pct as int, p as int);
        assert(na == amount_norm(max_out(qs), clamp_amount(q.amount_out)));
        assert(w.amount * na <= 100 * (2 * AMOUNT_BOUND * NORM_ONE)) by (nonlinear_arith)
            requires
                na <= 2 * AMOUNT_BOUND * NORM_ONE,
                w.amount <= 100,
        ;
        assert(w.duration * nd <= 100 * NORM_ONE) by (nonlinear_arith)
            requires
                nd <= NORM_ONE,
                w.duration <= 100,
        ;
        assert(w.security * ns <= 100 * NORM_ONE) by (nonlinear_arith)
            requires
                ns <= NORM_ONE,
                w.security <= 100,
        ;
        assert(w.slippage * np <= 100 * NORM_ONE) by (nonlinear_arith)
            requires
                np <= NORM_ONE,
                w.slippage <= 100,
        ;
    }
    let total = w.amount as u128 * na + w.duration as u128 * nd + w.security as u128 * ns
        + w.slippage as u128 * np;
    total
}

/// The score of every quote, in input order.
fn score_all(quotes: &[BoothQuote], mode: SortMode) -> (r: Vec<u128>)
    ensures
        r@ == scores_of(quotes@, mode),
{
    let n = quotes.len();
    let agg = aggregates(quotes);
    let w = mode.weights();
    let mut scores: Vec<u128> = Vec::new();
    let mut i: usize = 0;
    while i < n
        invariant
            n == quotes@.len(),
            0 <= i <= n,
            agg.max_out == max_out(quotes@),
            agg.min_dur == min_dur(quotes@),
            agg.max_dur == max_dur(quotes@),
            agg.max_slip == max_slip(quotes@),
            w == mode_weights(mode),
            scores@.len() == i,
            forall|j: int| 0 <= j < i ==> scores@[j] == scores_of(quotes@, mode)[j],
        decreases n - i,
    {
        let sc = score_at(quotes, i, &agg, w, mode);
        scores.push(sc);
        i = i + 1;
    }
    assert(scores@ =~= scores_of(quotes@, mode));
    scores
}

/// The rank of quote `i` among the scores.
fn rank_at(scores: &Vec<u128>, i: usize) -> (r: i32)
    requires
        0 <= i < scores@.len(),
        scores@.len() < 0x8000_0000,
    ensures
        r == rank_in(scores@, i as int),
{
    let n = scores.len();
    let mut count: usize = 0;
    let mut j: usize = 0;
    while j < n
        invariant
            n == scores@.len(),
            n < 0x8000_0000,
            0 <= i < n,
            0 <= j <= n,
            count == count_beating(scores@, i as int, j as int),
        decreases n - j,
    {
        proof {
            lemma_count_bound(scores@, i as int, j as int);
        }
        if scores[j] < scores[i] || (scores[j] == scores[i] && j < i) {
            count = count + 1;
        }
        j = j + 1;
    }
    proof {
        lemma_count_bound(scores@, i as int, n as int);
    }
    (count + 1) as i32
}

/// Scores and ranks the quotes of one call, keeping their input order.
/// Rank 1 is the lowest score; equal scores rank in input order.
pub fn score_quotes(quotes: &[BoothQuote], mode: SortMode) -> (r: Vec<ScoredQuote>)
    requires
        quotes@.len() < 0x8000_0000,
    ensures
        scored_as(quotes@, mode, r@),
{
    if quotes.len() == 0 {
        return Vec::new();
    }
    let n = quotes.len();
    let scores = score_all(quotes, mode);
    let mut scored: Vec<ScoredQuote> = Vec::new();
    let mut i: usize = 0;
    while i < n
        invariant
            n == quotes@.len(),
            n < 0x8000_0000,
            scores@ == scores_of(quotes@, mode),
            0 <= i <= n,
            scored@.len() == i,
            forall|j: int|
                0 <= j < i ==> {
                    &&& (#[trigger] scored@[j]).quote == quotes@[j]
                    &&& scored@[j].score == scores_of(quotes@, mode)[j]
                    &&& scored@[j].rank == rank_in(scores_of(quotes@, mode), j)
                },
        decreases n - i,
    {
        let rank = rank_at(&scores, i);
        scored.push(ScoredQuote { quote: quotes[i], score: scores[i], rank });
        i = i + 1;
    }
    scored
}

/// Convenience: the best quote by each axis; `None` when there is none.
/// Cheapest is the last quote delivering the most, fastest the first with the
/// shortest duration, safest the last with the best rating, balanced the
/// first with the lowest balanced score.
pub fn best_by(quotes: &[BoothQuote]) -> (r: Option<BestBy>)
    ensures
        quotes@.len() == 0 <==> r is None,
        r matches Some(b) ==> b == best_of(quotes@),
{
    let n = quotes.len();
    if n == 0 {
        return None;
    }
    let mut cheap: usize = 0;
    let mut fast: usize = 0;
    let mut safe: usize = 0;
    let mut i: usize = 1;
    while i < n
        invariant
            n == quotes@.len(),
            1 <= i <= n,
            cheap == last_max_out_index(quotes@.subrange(0, i as int)),
            fast == first_min_dur_index(quotes@.subrange(0, i as int)),
            safe == last_max_rating_index(quotes@.subrange(0, i as int)),
            0 <= cheap < i,
            0 <= fast < i,
            0 <= safe < i,
        decreases n - i,
    {
        proof {
            let pre = quotes@.subrange(0, i as int);
            let post = quotes@.subrange(0, i + 1);
            assert(post.drop_last() =~= pre);
        }
        if quotes[i].amount_out >= quotes[cheap].amount_out {
            cheap = i;
        }
        if quotes[i].duration_sec < quotes[fast].duration_sec {
            fast = i;
        }
        if quotes[i].security_rating.weight() >= quotes[safe].security_rating.weight() {
            safe = i;
        }
        i = i + 1;
    }
    assert(quotes@.subrange(0, n as int) =~= quotes@);
    let scores = score_all(quotes, SortMode::Balanced);
    let mut bal: usize = 0;
    let mut j: usize = 1;
    while j < n
        invariant
            n == quotes@.len(),
            scores@ == scores_of(quotes@, SortMode::Balanced),
            1 <= j <= n,
            bal == first_min_index(scores@.subrange(0, j as int)),
            0 <= bal < j,
        decreases n - j,
    {
        proof {
            let pre = scores@.subrange(0, j as int);
            let post = scores@.subrange(0, j + 1);
            assert(post.drop_last() =~= pre);
        }
        if scores[j] < scores[bal] {
            bal = j;
        }
        j = j + 1;
    }
    assert(scores@.subrange(0, n as int) =~= scores@);
    Some(
        BestBy {
            cheapest: quotes[cheap].booth,
            fastest: quotes[fast].booth,
            safest: quotes[safe].booth,
            balanced: quotes[bal].booth,
        },
    )
}

} // verus!
