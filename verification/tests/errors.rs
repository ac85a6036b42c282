use dplmt_router::errors::RouterError;

#[test]
fn tag_is_stable() {
    assert_eq!(RouterError::SameChainRoute.tag(), "same-chain");
    assert_eq!(RouterError::Timeout(9000).tag(), "timeout");
}

#[test]
fn transient_classifier() {
    assert!(RouterError::Timeout(9000).is_transient());
    assert!(!RouterError::InvalidAmount.is_transient());
}

#[test]
fn every_variant_has_its_tag() {
    assert_eq!(RouterError::InvalidAmount.tag(), "invalid-amount");
    assert_eq!(RouterError::InvalidToken("X".to_string()).tag(), "invalid-token");
    assert_eq!(RouterError::QuoteUnavailable.tag(), "quote-unavailable");
    assert_eq!(RouterError::RateLimited(3).tag(), "rate-limited");
    assert_eq!(RouterError::Upstream("x".to_string()).tag(), "upstream");
    let io = std::io::Error::new(std::io::ErrorKind::Other, "disk");
    assert_eq!(RouterError::from(io).tag(), "io");
    let serde_err = serde_json::from_str::<u32>("nope").unwrap_err();
    assert_eq!(RouterError::from(serde_err).tag(), "serde");
    assert_eq!(RouterError::from(anyhow::Error::msg("boom")).tag(), "other");
}

#[test]
fn transient_errors_are_timeouts_rate_limits_and_upstream() {
    assert!(RouterError::RateLimited(5).is_transient());
    assert!(RouterError::Upstream("503".to_string()).is_transient());
    assert!(!RouterError::SameChainRoute.is_transient());
    assert!(!RouterError::QuoteUnavailable.is_transient());
    assert!(!RouterError::InvalidToken("Q".to_string()).is_transient());
}

#[test]
fn messages_match_the_display_texts() {
    assert_eq!(
        RouterError::SameChainRoute.message(),
        "source and destination chains must differ"
    );
    assert_eq!(RouterError::InvalidAmount.message(), "invalid amount: must be positive");
    assert_eq!(
        RouterError::InvalidToken("DOGE".to_string()).message(),
        "invalid token symbol: DOGE"
    );
    assert_eq!(RouterError::QuoteUnavailable.message(), "booth quote unavailable");
    assert_eq!(RouterError::Timeout(9000).message(), "booth timeout after 9000ms");
    assert_eq!(RouterError::Timeout(0).message(), "booth timeout after 0ms");
    assert_eq!(
        RouterError::RateLimited(30).message(),
        "rate limited by upstream: retry in 30s"
    );
    assert_eq!(
        RouterError::Upstream("mayan 502".to_string()).message(),
        "upstream error: mayan 502"
    );
    let io = std::io::Error::new(std::io::ErrorKind::Other, "disk full");
    assert_eq!(RouterError::from(io).message(), "io error: disk full");
    assert_eq!(RouterError::from(anyhow::Error::msg("boom")).message(), "anyhow: boom");
    let serde_err = serde_json::from_str::<u32>("nope").unwrap_err();
    let text = format!("serde error: {}", serde_err);
    assert_eq!(RouterError::from(serde_err).message(), text);
}
