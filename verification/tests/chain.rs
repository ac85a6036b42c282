use dplmt_router::chain::{Chain, ChainId};

#[test]
fn display_names_and_plaques() {
    assert_eq!(ChainId::Bnb.display_name(), "BNB Chain");
    assert_eq!(ChainId::Solana.display_name(), "Solana");
    assert_eq!(ChainId::Sui.plaque(), "Empire of Sui");
    assert_eq!(ChainId::Base.plaque(), "City-state of Base");
    assert_eq!(ChainId::Avalanche.explorer(), "https://snowtrace.io");
}

#[test]
fn evm_chains_have_chain_ids() {
    for c in ChainId::all() {
        assert_eq!(c.is_evm(), c.evm_chain_id().is_some());
    }
    assert_eq!(ChainId::Arbitrum.evm_chain_id(), Some(42161));
    assert_eq!(ChainId::Solana.evm_chain_id(), None);
    assert!(!ChainId::Sui.is_evm());
    assert!(ChainId::Polygon.is_evm());
}

#[test]
fn all_seats_eight_distinct_chains() {
    let all = ChainId::all();
    assert_eq!(all.len(), 8);
    assert_eq!(all[0], ChainId::Solana);
    assert_eq!(all[7], ChainId::Sui);
    for i in 0..all.len() {
        for j in 0..all.len() {
            assert_eq!(i == j, all[i] == all[j]);
        }
    }
}

#[test]
fn finality() {
    assert_eq!(ChainId::Ethereum.average_finality_sec(), 13);
    assert_eq!(ChainId::Arbitrum.average_finality_sec(), 1);
}

#[test]
fn chain_record_from_id() {
    let c = Chain::from(ChainId::Polygon);
    assert_eq!(c.id, ChainId::Polygon);
    assert_eq!(c.display_name, "Polygon");
    assert_eq!(c.native_symbol, "MATIC");
    assert_eq!(c.plaque, "Polygon Republic");
    assert_eq!(c.explorer, "https://polygonscan.com");
    assert_eq!(c.average_finality_sec, 2);
    let b = Chain::from_id(ChainId::Base);
    assert_eq!(b.native_symbol, "ETH");
}
