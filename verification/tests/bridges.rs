use dplmt_router::booth::{BoothId, QuoteRequest, SecurityRating};
use dplmt_router::bridges::hyperlane::HyperlaneBooth;
use dplmt_router::bridges::mayan::MayanRoute;
use dplmt_router::bridges::stargate::StargateRoute;
use dplmt_router::bridges::wormhole::WormholeBooth;
use dplmt_router::bridges::{across, allbridge, debridge, mayan, stargate, synapse};
use dplmt_router::chain::ChainId;
use dplmt_router::errors::RouterError;

fn request(from: ChainId, to: ChainId, amount: u64) -> QuoteRequest {
    QuoteRequest {
        from,
        to,
        from_token: "USDC".to_string(),
        to_token: "USDC".to_string(),
        amount,
        sender: None,
        recipient: None,
    }
}

fn pairs(v: &[(String, String)]) -> Vec<(&str, &str)> {
    v.iter().map(|(k, x)| (k.as_str(), x.as_str())).collect()
}

#[test]
fn wormhole_preserves_principal() {
    let q = WormholeBooth::new().quote(&request(ChainId::Solana, ChainId::Ethereum, 100_000_000)).unwrap();
    assert_eq!(q.booth, BoothId::Wormhole);
    assert_eq!(q.amount_out, 100_000_000);
    assert_eq!(q.duration_sec, 216);
    assert_eq!(q.fee_usd, 6_000_000);
    assert_eq!(q.slippage_pct, 0);
    assert_eq!(q.security_rating, SecurityRating::A);
    let q = WormholeBooth::default().quote(&request(ChainId::Solana, ChainId::Sui, 7)).unwrap();
    assert_eq!(q.duration_sec, 120);
    assert_eq!(q.fee_usd, 1_500_000);
    assert_eq!(WormholeBooth::new().id(), BoothId::Wormhole);
}

#[test]
fn hyperlane_serves_evm_lanes_only() {
    let b = HyperlaneBooth::new();
    let q = b.quote(&request(ChainId::Ethereum, ChainId::Arbitrum, 5)).unwrap();
    assert_eq!(q.amount_out, 5);
    assert_eq!(q.duration_sec, 240);
    assert_eq!(q.fee_usd, 800_000);
    assert_eq!(q.security_rating, SecurityRating::B);
    let q = b.quote(&request(ChainId::Base, ChainId::Bnb, 5)).unwrap();
    assert_eq!(q.duration_sec, 60);
    assert!(matches!(
        b.quote(&request(ChainId::Solana, ChainId::Ethereum, 5)),
        Err(RouterError::QuoteUnavailable)
    ));
    assert!(matches!(
        b.quote(&request(ChainId::Ethereum, ChainId::Avalanche, 5)),
        Err(RouterError::QuoteUnavailable)
    ));
}

#[test]
fn across_query_and_fees() {
    let q = across::quote_query(&request(ChainId::Ethereum, ChainId::Base, 250_500_000)).unwrap();
    assert_eq!(
        pairs(&q),
        vec![
            ("token", "0xA0b86991c6218b36c1d19D4a2e9Eb0cE3606eB48"),
            ("originChainId", "1"),
            ("destinationChainId", "8453"),
            ("amount", "250500000"),
        ]
    );
    assert!(matches!(
        across::quote_query(&request(ChainId::Solana, ChainId::Base, 1)),
        Err(RouterError::QuoteUnavailable)
    ));
    let quote = across::quote_from_fees(100_000_000, Some(1_000_000_000_000_000), Some(500_000_000_000_000));
    assert_eq!(quote.amount_out, 99_850_000);
    assert_eq!(quote.fee_usd, 150_000);
    assert!(quote.amount_out + quote.fee_usd as i128 <= 100_000_000);
    let odd = across::quote_from_fees(333, Some(333_333_333_333_333_333), Some(1));
    assert_eq!(odd.amount_out, 221);
    assert_eq!(odd.fee_usd, 111);
    let over = across::quote_from_fees(100, Some(900_000_000_000_000_000), Some(900_000_000_000_000_000));
    assert_eq!(over.amount_out, -80);
    assert_eq!(over.fee_usd, 180);
    let whole = across::quote_from_fees(100, Some(1_000_000_000_000_000_000), None);
    assert_eq!(whole.amount_out, 0);
    assert_eq!(whole.fee_usd, 100);
    let most = across::quote_from_fees(u64::MAX, Some(u64::MAX), Some(u64::MAX));
    assert_eq!(most.amount_out, -662_117_989_768_167_375_237);
    assert_eq!(most.fee_usd, 680_564_733_841_876_926_852);
    let slight = across::quote_from_fees(1, Some(1_000_000_000_000_000_001), None);
    assert_eq!(slight.amount_out, 0);
    assert_eq!(slight.fee_usd, 1);
    let double = across::quote_from_fees(3, Some(2_500_000_000_000_000_000), None);
    assert_eq!(double.amount_out, -4);
    assert_eq!(double.fee_usd, 7);
    let relay_only = across::quote_from_fees(100_000_000, Some(1_000_000_000_000_000), None);
    assert_eq!(relay_only.amount_out, 99_900_000);
    assert_eq!(relay_only.fee_usd, 100_000);
    assert_eq!(quote.duration_sec, 90);
    assert_eq!(quote.slippage_pct, 1);
    let quote = across::quote_from_fees(100_000_000, None, None);
    assert_eq!(quote.amount_out, 100_000_000);
    assert_eq!(quote.fee_usd, 0);
    assert_eq!(across::chain(ChainId::Polygon), Some(137));
    assert_eq!(across::chain(ChainId::Bnb), None);
}

#[test]
fn debridge_query_and_quote() {
    let q = debridge::quote_query(&request(ChainId::Solana, ChainId::Arbitrum, 1), Some(&"ref7".to_string())).unwrap();
    assert_eq!(
        pairs(&q),
        vec![
            ("srcChainId", "7565164"),
            ("dstChainId", "42161"),
            ("srcChainTokenIn", "0xA0b86991c6218b36c1d19D4a2e9Eb0cE3606eB48"),
            ("dstChainTokenOut", "0xaf88d065e77c8cC2239327C5EDb3A432268e5831"),
            ("srcChainTokenInAmount", "100000000"),
            ("dstChainTokenOutAmount", "auto"),
            ("prependOperatingExpenses", "true"),
            ("referralCode", "ref7"),
        ]
    );
    let q = debridge::quote_query(&request(ChainId::Ethereum, ChainId::Base, 1), None).unwrap();
    assert_eq!(q.len(), 7);
    assert!(matches!(
        debridge::quote_query(&request(ChainId::Sui, ChainId::Base, 1), None),
        Err(RouterError::QuoteUnavailable)
    ));
    let quote = debridge::quote_from_response(Some(99_612_345));
    assert_eq!(quote.amount_out, 99_612_345);
    assert_eq!(quote.fee_usd, 600_000);
    assert_eq!(quote.duration_sec, 30);
    assert_eq!(debridge::quote_from_response(None).amount_out, 0);
}

#[test]
fn mayan_query_and_quote() {
    let q = mayan::quote_query(&request(ChainId::Solana, ChainId::Bnb, 1_500_000)).unwrap();
    assert_eq!(
        pairs(&q),
        vec![
            ("amountIn", "1.5"),
            ("fromChain", "solana"),
            ("toChain", "bsc"),
            ("slippageBps", "50"),
            ("referrerBps", "0"),
        ]
    );
    let q = mayan::quote_query(&request(ChainId::Sui, ChainId::Base, 500_000_000)).unwrap();
    assert_eq!(q[0].1, "500");
    let quote = mayan::quote_from_first(Some(MayanRoute {
        expected_amount_out: Some(499_100_000),
        eta: Some(18),
        total_fee_usd: None,
    }))
    .unwrap();
    assert_eq!(quote.amount_out, 499_100_000);
    assert_eq!(quote.duration_sec, 18);
    assert_eq!(quote.fee_usd, 500_000);
    assert_eq!(quote.slippage_pct, 10);
    let quote = mayan::quote_from_first(Some(MayanRoute {
        expected_amount_out: None,
        eta: None,
        total_fee_usd: Some(1),
    }))
    .unwrap();
    assert_eq!(quote.duration_sec, 12);
    assert_eq!(quote.amount_out, 0);
    assert!(matches!(mayan::quote_from_first(None), Err(RouterError::QuoteUnavailable)));
}

#[test]
fn stargate_prefers_taxi() {
    let q = stargate::quote_query(&request(ChainId::Avalanche, ChainId::Base, 3_000_000)).unwrap();
    assert_eq!(q[0], ("srcChainKey".to_string(), "avalanche".to_string()));
    assert_eq!(q[4], ("srcAmount".to_string(), "3000000".to_string()));
    assert_eq!(q.len(), 6);
    let bus = StargateRoute { route: Some("bus".to_string()), dst_amount: Some(5_000_000) };
    let taxi = StargateRoute { route: Some("taxi".to_string()), dst_amount: Some(4_990_000) };
    let quote = stargate::quote_from_routes(&vec![bus, taxi]).unwrap();
    assert_eq!(quote.amount_out, 4_990_000);
    assert_eq!(quote.duration_sec, 120);
    let bus = StargateRoute { route: Some("bus".to_string()), dst_amount: Some(5_000_000) };
    let quote = stargate::quote_from_routes(&vec![bus]).unwrap();
    assert_eq!(quote.amount_out, 5_000_000);
    assert_eq!(quote.duration_sec, 720);
    assert!(matches!(stargate::quote_from_routes(&vec![]), Err(RouterError::QuoteUnavailable)));
    assert!(matches!(
        stargate::quote_query(&request(ChainId::Solana, ChainId::Base, 1)),
        Err(RouterError::QuoteUnavailable)
    ));
}

#[test]
fn synapse_fee_floor() {
    let q = synapse::quote_query(&request(ChainId::Bnb, ChainId::Avalanche, 42)).unwrap();
    assert_eq!(pairs(&q), vec![("fromChain", "56"), ("toChain", "43114"), ("amount", "42")]);
    let quote = synapse::quote_from_response(Some(98_000_000), Some(0));
    assert_eq!(quote.amount_out, 98_000_000);
    assert_eq!(quote.fee_usd, 500_000);
    let quote = synapse::quote_from_response(Some(98_000_000), Some(120_000));
    assert_eq!(quote.fee_usd, 120_000);
    assert_eq!(quote.duration_sec, 600);
    assert_eq!(quote.security_rating, SecurityRating::B);
    let quote = synapse::quote_from_response(Some(100_000_000), Some(100_000_000));
    assert_eq!(quote.amount_out, 100_000_000);
    assert_eq!(quote.fee_usd, 100_000_000);
    let quote = synapse::quote_from_response(None, None);
    assert_eq!(quote.amount_out, 0);
    assert_eq!(quote.fee_usd, 500_000);
}

#[test]
fn allbridge_query_and_quote() {
    let q = allbridge::quote_query(&request(ChainId::Solana, ChainId::Ethereum, 250_000)).unwrap();
    assert_eq!(pairs(&q), vec![("amount", "0.25"), ("messenger", "ALLBRIDGE")]);
    assert!(matches!(
        allbridge::quote_query(&request(ChainId::Base, ChainId::Ethereum, 1)),
        Err(RouterError::QuoteUnavailable)
    ));
    let quote = allbridge::quote_from_response(Some(9_900_000), None);
    assert_eq!(quote.amount_out, 9_900_000);
    assert_eq!(quote.fee_usd, 0);
    assert_eq!(quote.duration_sec, 240);
    assert_eq!(allbridge::chain(ChainId::Bnb), Some("BSC"));
}

#[test]
fn stargate_route_without_amount() {
    let bare = StargateRoute { route: None, dst_amount: None };
    let quote = stargate::quote_from_routes(&vec![bare]).unwrap();
    assert_eq!(quote.amount_out, 0);
    assert_eq!(quote.duration_sec, 120);
    assert_eq!(quote.fee_usd, 400_000);
}
