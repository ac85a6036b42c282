use dplmt_router::booth::{BoothId, BoothQuote, QuoteRequest, SecurityRating};
use dplmt_router::chain::ChainId;
use dplmt_router::engine::{check_request, fold_outcomes, BoothOutcome, DEFAULT_BOOTH_TIMEOUT_MS};
use dplmt_router::errors::RouterError;
use dplmt_router::scoring::SortMode;

fn request(from: ChainId, to: ChainId, amount: u64) -> QuoteRequest {
    QuoteRequest {
        from,
        to,
        from_token: "USDC".to_string(),
        to_token: "USDC".to_string(),
        amount,
        sender: None,
        recipient: Some("0xabc".to_string()),
    }
}

fn quote(booth: BoothId, out: i128, dur: u32) -> BoothQuote {
    BoothQuote {
        booth,
        amount_out: out,
        duration_sec: dur,
        fee_usd: 0,
        slippage_pct: 0,
        security_rating: SecurityRating::A,
    }
}

#[test]
fn same_chain_is_refused_first() {
    assert!(matches!(
        check_request(&request(ChainId::Base, ChainId::Base, 0)),
        Err(RouterError::SameChainRoute)
    ));
    assert!(matches!(
        check_request(&request(ChainId::Base, ChainId::Sui, 0)),
        Err(RouterError::InvalidAmount)
    ));
    assert!(check_request(&request(ChainId::Base, ChainId::Sui, 1)).is_ok());
    assert_eq!(DEFAULT_BOOTH_TIMEOUT_MS, 9000);
}

#[test]
fn outcomes_fold_into_one_answer() {
    let outcomes = vec![
        BoothOutcome::Quoted(quote(BoothId::Mayan, 99, 12)),
        BoothOutcome::Failed(BoothId::Across, RouterError::QuoteUnavailable),
        BoothOutcome::TimedOut(BoothId::Stargate),
        BoothOutcome::JoinFailed("task panicked".to_string()),
        BoothOutcome::Quoted(quote(BoothId::Wormhole, 100, 216)),
        BoothOutcome::Failed(BoothId::Synapse, RouterError::Upstream("synapse 500".to_string())),
    ];
    let r = fold_outcomes(request(ChainId::Solana, ChainId::Ethereum, 100), SortMode::Fastest, &outcomes);
    assert_eq!(r.mode, SortMode::Fastest);
    assert_eq!(r.request.recipient.as_deref(), Some("0xabc"));
    assert_eq!(r.quotes.len(), 2);
    assert_eq!(r.quotes.len() + r.partial_failures.len(), outcomes.len());
    assert_eq!(r.quotes[0].quote.booth, BoothId::Mayan);
    assert_eq!(r.quotes[0].rank, 1);
    assert_eq!(r.quotes[1].rank, 2);
    let best = r.best.unwrap();
    assert_eq!(best.cheapest, BoothId::Wormhole);
    assert_eq!(best.fastest, BoothId::Mayan);
    assert_eq!(
        r.partial_failures,
        vec![
            "Across: booth quote unavailable".to_string(),
            "Stargate: booth timeout".to_string(),
            "join: task panicked".to_string(),
            "Synapse: upstream error: synapse 500".to_string(),
        ]
    );
}

#[test]
fn no_quotes_no_best() {
    let outcomes = vec![BoothOutcome::TimedOut(BoothId::Debridge)];
    let r = fold_outcomes(request(ChainId::Solana, ChainId::Ethereum, 100), SortMode::Balanced, &outcomes);
    assert!(r.quotes.is_empty());
    assert!(r.best.is_none());
    assert_eq!(r.partial_failures, vec!["Debridge: booth timeout".to_string()]);
}
