use dplmt_router::booth::{BoothId, BoothQuote, SecurityRating};
use dplmt_router::scoring::{best_by, score_quotes, SortMode, Weights};

fn quote(booth: BoothId, out: i128, dur: u32, slip: u32, rating: SecurityRating) -> BoothQuote {
    BoothQuote {
        booth,
        amount_out: out,
        duration_sec: dur,
        fee_usd: 1_000_000,
        slippage_pct: slip,
        security_rating: rating,
    }
}

fn sample() -> Vec<BoothQuote> {
    vec![
        quote(BoothId::Wormhole, 500_000_000, 216, 0, SecurityRating::A),
        quote(BoothId::Mayan, 499_000_000, 12, 10, SecurityRating::A),
        quote(BoothId::Allbridge, 498_000_000, 240, 20, SecurityRating::B),
    ]
}

#[test]
fn weights_sum_to_one_whole() {
    for mode in [SortMode::Cheapest, SortMode::Fastest, SortMode::Safest, SortMode::Balanced] {
        let w = mode.weights();
        assert_eq!(w.amount + w.duration + w.security + w.slippage, 100);
    }
    assert_eq!(
        SortMode::Balanced.weights(),
        Weights { amount: 40, duration: 30, security: 20, slippage: 10 }
    );
}

#[test]
fn balanced_scores_and_ranks() {
    let scored = score_quotes(&sample(), SortMode::Balanced);
    assert_eq!(scored.len(), 3);
    assert_eq!(scored[0].score, 26_842_105_263_157_890);
    assert_eq!(scored[1].score, 5_080_000_000_000_000);
    assert_eq!(scored[2].score, 45_160_000_000_000_000);
    assert_eq!(scored[0].rank, 2);
    assert_eq!(scored[1].rank, 1);
    assert_eq!(scored[2].rank, 3);
    for (i, s) in scored.iter().enumerate() {
        assert_eq!(s.quote, sample()[i]);
    }
}

#[test]
fn cheapest_mode_scores() {
    let scored = score_quotes(&sample(), SortMode::Cheapest);
    assert_eq!(scored[0].score, 13_421_052_631_578_945);
    assert_eq!(scored[1].score, 2_640_000_000_000_000);
    assert_eq!(scored[2].score, 22_780_000_000_000_000);
    assert_eq!(scored[1].rank, 1);
    assert_eq!(scored[0].rank, 2);
    assert_eq!(scored[2].rank, 3);
}

#[test]
fn empty_input_scores_nothing() {
    assert!(score_quotes(&[], SortMode::Fastest).is_empty());
    assert!(best_by(&[]).is_none());
}

#[test]
fn equal_scores_rank_in_input_order() {
    let q = quote(BoothId::Across, 100, 90, 1, SecurityRating::A);
    let scored = score_quotes(&[q, q, q], SortMode::Safest);
    assert_eq!(scored[0].rank, 1);
    assert_eq!(scored[1].rank, 2);
    assert_eq!(scored[2].rank, 3);
    // all axes tie; the slippage axis is at its worst (1) for all: 10% of 1
    assert_eq!(scored[0].score, 10_000_000_000_000_000);
}

#[test]
fn single_quote_scores_security_and_slippage() {
    let q = quote(BoothId::Synapse, 100, 600, 8, SecurityRating::B);
    let scored = score_quotes(&[q], SortMode::Balanced);
    // security (1 - 0.75) weighs 20%, and the quote's slippage is the worst
    // slippage (1), weighing 10%
    assert_eq!(scored[0].score, 15_000_000_000_000_000);
    assert_eq!(scored[0].rank, 1);
}

#[test]
fn best_by_each_axis() {
    let best = best_by(&sample()).unwrap();
    assert_eq!(best.cheapest, BoothId::Wormhole);
    assert_eq!(best.fastest, BoothId::Mayan);
    // Wormhole and Mayan are both rated A: the last one wins
    assert_eq!(best.safest, BoothId::Mayan);
    assert_eq!(best.balanced, BoothId::Mayan);
}

#[test]
fn best_by_ties() {
    let a = quote(BoothId::Debridge, 10, 5, 0, SecurityRating::C);
    let b = quote(BoothId::Stargate, 10, 5, 0, SecurityRating::C);
    let best = best_by(&[a, b]).unwrap();
    assert_eq!(best.cheapest, BoothId::Stargate);
    assert_eq!(best.fastest, BoothId::Debridge);
    assert_eq!(best.safest, BoothId::Stargate);
    assert_eq!(best.balanced, BoothId::Debridge);
}

#[test]
fn balanced_pick_is_ranked_first() {
    let qs = sample();
    let scored = score_quotes(&qs, SortMode::Balanced);
    let best = best_by(&qs).unwrap();
    let first = scored.iter().find(|s| s.rank == 1).unwrap();
    assert_eq!(first.quote.booth, best.balanced);
}

#[test]
fn ranks_are_a_permutation_ordered_by_score() {
    let qs = vec![
        quote(BoothId::Across, 5, 90, 1, SecurityRating::A),
        quote(BoothId::Synapse, 9, 600, 8, SecurityRating::B),
        quote(BoothId::Debridge, 7, 30, 5, SecurityRating::A),
        quote(BoothId::Stargate, 9, 120, 2, SecurityRating::C),
    ];
    for mode in [SortMode::Cheapest, SortMode::Fastest, SortMode::Safest, SortMode::Balanced] {
        let scored = score_quotes(&qs, mode);
        let mut ranks: Vec<i32> = scored.iter().map(|s| s.rank).collect();
        ranks.sort();
        assert_eq!(ranks, vec![1, 2, 3, 4]);
        for a in &scored {
            assert!(a.score <= dplmt_router::scoring::SCORE_ONE);
            for b in &scored {
                if a.score < b.score {
                    assert!(a.rank < b.rank);
                }
            }
        }
    }
}

#[test]
fn close_balanced_scores_stay_apart() {
    let qs = vec![
        quote(BoothId::Mayan, 3_000_000, 888_888_889, 0, SecurityRating::A),
        quote(BoothId::Wormhole, 2_000_000, 0, 0, SecurityRating::A),
        quote(BoothId::Stargate, 3_000_000, 2_000_000_000, 0, SecurityRating::A),
    ];
    let scored = score_quotes(&qs, SortMode::Balanced);
    assert_eq!(scored[0].score, 13_333_333_335_000_000);
    assert_eq!(scored[1].score, 13_333_333_333_333_320);
    assert_eq!(scored[2].score, 30_000_000_000_000_000);
    assert_eq!(scored[1].rank, 1);
    assert_eq!(scored[0].rank, 2);
    assert_eq!(scored[2].rank, 3);
    assert_eq!(best_by(&qs).unwrap().balanced, BoothId::Wormhole);
}

#[test]
fn amounts_below_zero_score_past_one() {
    let good = quote(BoothId::Wormhole, 100_000_000, 90, 1, SecurityRating::A);
    let short = quote(BoothId::Across, -80_000_000, 90, 1, SecurityRating::A);
    let scored = score_quotes(&[good, short], SortMode::Cheapest);
    assert_eq!(scored[0].score, 5_000_000_000_000_000);
    // 1.8 of the best amount short, weighing 70%, plus the slippage axis
    assert_eq!(scored[1].score, 131_000_000_000_000_000);
    assert!(scored[1].score > dplmt_router::scoring::SCORE_ONE);
    assert_eq!(scored[0].rank, 1);
    assert_eq!(scored[1].rank, 2);
    let best = best_by(&[good, short]).unwrap();
    assert_eq!(best.cheapest, BoothId::Wormhole);
    // no amount above zero: the amount axis counts 1 for everyone
    let a = quote(BoothId::Across, -5, 90, 1, SecurityRating::A);
    let b = quote(BoothId::Synapse, -7, 60, 1, SecurityRating::A);
    let scored = score_quotes(&[a, b], SortMode::Cheapest);
    assert_eq!(scored[0].score, 90_000_000_000_000_000);
    assert_eq!(scored[1].score, 75_000_000_000_000_000);
    assert_eq!(best_by(&[a, b]).unwrap().cheapest, BoothId::Across);
}
