use dplmt_router::chain::ChainId;
use dplmt_router::intent::{find_amount, find_chains, find_tokens, parse_intent_regex, Preference};

#[test]
fn full_intent() {
    let p = parse_intent_regex("Send 500 USDC from Solana to Arbitrum fast");
    assert_eq!(p.from, Some(ChainId::Solana));
    assert_eq!(p.to, Some(ChainId::Arbitrum));
    assert_eq!(p.from_token.as_deref(), Some("USDC"));
    assert_eq!(p.to_token.as_deref(), Some("SOL"));
    assert_eq!(p.amount, Some(500_000_000));
    assert_eq!(p.preference, Some(Preference::Fastest));
    assert_eq!(p.confidence, 70);
}

#[test]
fn thousands_and_cheapest() {
    let p = parse_intent_regex("bridge 2.5k USDT from eth to base cheapest");
    assert_eq!(p.amount, Some(2_500_000_000));
    assert_eq!(p.from, Some(ChainId::Ethereum));
    assert_eq!(p.to, Some(ChainId::Base));
    assert_eq!(p.from_token.as_deref(), Some("USDT"));
    assert_eq!(p.to_token.as_deref(), Some("ETH"));
    assert_eq!(p.preference, Some(Preference::Cheapest));
}

#[test]
fn millions_balanced() {
    let p = parse_intent_regex("move 1.5 m usdc to polygon from sui");
    assert_eq!(p.amount, Some(1_500_000_000_000));
    assert_eq!(p.from, Some(ChainId::Polygon));
    assert_eq!(p.to, Some(ChainId::Sui));
    assert_eq!(p.preference, Some(Preference::Balanced));
    assert_eq!(p.confidence, 70);
}

#[test]
fn nothing_recognised() {
    let p = parse_intent_regex("hello world");
    assert_eq!(p.from, None);
    assert_eq!(p.to, None);
    assert_eq!(p.from_token, None);
    assert_eq!(p.to_token, None);
    assert_eq!(p.amount, None);
    assert_eq!(p.preference, Some(Preference::Balanced));
    assert_eq!(p.confidence, 20);
}

#[test]
fn single_token_is_both_ends() {
    let p = parse_intent_regex("100 dai from avalanche to bsc, safe please");
    assert_eq!(p.from_token.as_deref(), Some("DAI"));
    assert_eq!(p.to_token.as_deref(), Some("DAI"));
    assert_eq!(p.from, Some(ChainId::Avalanche));
    assert_eq!(p.to, Some(ChainId::Bnb));
    assert_eq!(p.preference, Some(Preference::Safest));
    assert_eq!(p.confidence, 70);
}

#[test]
fn medium_confidence_without_token() {
    let p = parse_intent_regex("42 from arbitrum to base");
    assert_eq!(p.from_token, None);
    assert_eq!(p.confidence, 55);
}

#[test]
fn amounts() {
    assert_eq!(find_amount("pay 10.25.3 now"), Some(10_250_000));
    assert_eq!(find_amount("send . to x"), None);
    assert_eq!(find_amount("5k"), Some(5_000_000_000));
    assert_eq!(find_amount("0.0000019"), Some(1));
    assert_eq!(find_amount("no number"), None);
    assert_eq!(find_amount("99999999999999999999"), None);
}

#[test]
fn chains_in_order_of_first_mention() {
    assert_eq!(find_chains("sol to bnb and avax"), vec![ChainId::Solana, ChainId::Bnb]);
    assert_eq!(
        find_chains("matic then polygon then eth"),
        vec![ChainId::Polygon, ChainId::Ethereum]
    );
    assert_eq!(find_chains("matic then polygon"), vec![ChainId::Polygon]);
    assert_eq!(find_chains("nothing here"), Vec::<ChainId>::new());
    assert_eq!(
        find_chains("from avalanche to solana via ethereum"),
        vec![ChainId::Avalanche, ChainId::Solana]
    );
}

#[test]
fn tokens_in_preference_order() {
    assert_eq!(find_tokens("wbtc and usdc"), vec!["USDC".to_string(), "WBTC".to_string()]);
    assert_eq!(find_tokens("dai"), vec!["DAI".to_string()]);
    assert!(find_tokens("xyz").is_empty());
}

#[test]
fn ascii_case_is_ignored() {
    for text in [
        "Send 500 USDC from Solana to Arbitrum fast",
        "bridge 2.5k USDT from eth to base cheapest",
        "Move 1.5 M usdc To Polygon From SUI safely",
    ] {
        let p = parse_intent_regex(text);
        for other in [text.to_ascii_lowercase(), text.to_ascii_uppercase()] {
            let q = parse_intent_regex(&other);
            assert_eq!(p.from, q.from);
            assert_eq!(p.to, q.to);
            assert_eq!(p.from_token, q.from_token);
            assert_eq!(p.to_token, q.to_token);
            assert_eq!(p.amount, q.amount);
            assert_eq!(p.preference, q.preference);
            assert_eq!(p.confidence, q.confidence);
        }
    }
}
