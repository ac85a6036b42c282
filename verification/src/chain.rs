//! Chain metadata used by the routing engine.

use vstd::prelude::*;

verus! {

/// Identifier for one of the chains seated at the diplomatic round table.
#[derive(Debug, Clone, Copy, PartialEq, Eq, Hash, Structural)]
pub enum ChainId {
    Solana,
    Ethereum,
    Arbitrum,
    Base,
    Polygon,
    Bnb,
    Avalanche,
    Sui,
}

/// The human-readable name of a chain.
pub open spec fn display_name_of(c: ChainId) -> Seq<char> {
    match c {
        ChainId::Solana => "Solana"@,
        ChainId::Ethereum => "Ethereum"@,
        ChainId::Arbitrum => "Arbitrum"@,
        ChainId::Base => "Base"@,
        ChainId::Polygon => "Polygon"@,
        ChainId::Bnb => "BNB Chain"@,
        ChainId::Avalanche => "Avalanche"@,
        ChainId::Sui => "Sui"@,
    }
}


/// The ceremonial plaque of a chain.
pub open spec fn plaque_of(c: ChainId) -> Seq<char> {
    match c {
        ChainId::Solana => "Republic of Solana"@,
        ChainId::Ethereum => "Federation of Ethereum"@,
        ChainId::Arbitrum => "Province of Arbitrum"@,
        ChainId::Base => "City-state of Base"@,
        ChainId::Polygon => "Polygon Republic"@,
        ChainId::Bnb => "BNB Federation"@,
        ChainId::Avalanche => "Avalanche Alliance"@,
        ChainId::Sui => "Empire of Sui"@,
    }
}

/// The block explorer of a chain.
pub open spec fn explorer_of(c: ChainId) -> Seq<char> {
    match c {
        ChainId::Solana => "https://solscan.io"@,
        ChainId::Ethereum => "https://etherscan.io"@,
        ChainId::Arbitrum => "https://arbiscan.io"@,
        ChainId::Base => "https://basescan.org"@,
        ChainId::Polygon => "https://polygonscan.com"@,
        ChainId::Bnb => "https://bscscan.com"@,
        ChainId::Avalanche => "https://snowtrace.io"@,
        ChainId::Sui => "https://suiscan.xyz"@,
    }
}

/// The symbol of a chain's native asset.
pub open spec fn native_symbol_of(c: ChainId) -> Seq<char> {
    match c {
        ChainId::Solana => "SOL"@,
        ChainId::Ethereum => "ETH"@,
        ChainId::Arbitrum => "ETH"@,
        ChainId::Base => "ETH"@,
        ChainId::Polygon => "MATIC"@,
        ChainId::Bnb => "BNB"@,
        ChainId::Avalanche => "AVAX"@,
        ChainId::Sui => "SUI"@,
    }
}

/// Average time to finality, in seconds.
pub open spec fn finality_of(c: ChainId) -> u32 {
    match c {
        ChainId::Solana => 3,
        ChainId::Ethereum => 13,
        ChainId::Arbitrum => 1,
        ChainId::Base => 2,
        ChainId::Polygon => 2,
        ChainId::Bnb => 3,
        ChainId::Avalanche => 2,
        ChainId::Sui => 3,
    }
}

/// Average finality, in seconds: Arbitrum 1; Base, Polygon and Avalanche 2;
/// Solana, BNB Chain and Sui 3; Ethereum 13, the slowest of all.
pub proof fn lemma_finality_table(c: ChainId)
    ensures
        finality_of(ChainId::Arbitrum) == 1,
        finality_of(ChainId::Base) == 2,
        finality_of(ChainId::Polygon) == 2,
        finality_of(ChainId::Avalanche) == 2,
        finality_of(ChainId::Solana) == 3,
        finality_of(ChainId::Bnb) == 3,
        finality_of(ChainId::Sui) == 3,
        finality_of(ChainId::Ethereum) == 13,
        1 <= finality_of(c) <= finality_of(ChainId::Ethereum),
{
}

/// The EIP-155 chain id of an EVM chain; `None` for the non-EVM chains.
pub open spec fn evm_chain_id_of(c: ChainId) -> Option<u64> {
    match c {
        ChainId::Ethereum => Some(1u64),
        ChainId::Arbitrum => Some(42161u64),
        ChainId::Base => Some(8453u64),
        ChainId::Polygon => Some(137u64),
        ChainId::Bnb => Some(56u64),
        ChainId::Avalanche => Some(43114u64),
        ChainId::Solana | ChainId::Sui => None,
    }
}

/// Position of a chain in the seating order of `ChainId::all`.
pub open spec fn chain_index(c: ChainId) -> int {
    match c {
        ChainId::Solana => 0,
        ChainId::Ethereum => 1,
        ChainId::Arbitrum => 2,
        ChainId::Base => 3,
        ChainId::Polygon => 4,
        ChainId::Bnb => 5,
        ChainId::Avalanche => 6,
        ChainId::Sui => 7,
    }
}

/// The seating order of all chains.
pub open spec fn all_chains() -> Seq<ChainId> {
    seq![
        ChainId::Solana,
        ChainId::Ethereum,
        ChainId::Arbitrum,
        ChainId::Base,
        ChainId::Polygon,
        ChainId::Bnb,
        ChainId::Avalanche,
        ChainId::Sui,
    ]
}

impl ChainId {
    pub fn display_name(self) -> (r: &'static str)
        ensures
            r@ == display_name_of(self),
    {
        match self {
            ChainId::Solana => "Solana",
            ChainId::Ethereum => "Ethereum",
            ChainId::Arbitrum => "Arbitrum",
            ChainId::Base => "Base",
            ChainId::Polygon => "Polygon",
            ChainId::Bnb => "BNB Chain",
            ChainId::Avalanche => "Avalanche",
            ChainId::Sui => "Sui",
        }
    }

    pub fn plaque(self) -> (r: &'static str)
        ensures
            r@ == plaque_of(self),
    {
        match self {
            ChainId::Solana => "Republic of Solana",
            ChainId::Ethereum => "Federation of Ethereum",
            ChainId::Arbitrum => "Province of Arbitrum",
            ChainId::Base => "City-state of Base",
            ChainId::Polygon => "Polygon Republic",
            ChainId::Bnb => "BNB Federation",
            ChainId::Avalanche => "Avalanche Alliance",
            ChainId::Sui => "Empire of Sui",
        }
    }

    /// Every chain but Solana and Sui runs the EVM.
    pub fn is_evm(self) -> (r: bool)
        ensures
            r == !(self == ChainId::Solana || self == ChainId::Sui),
    {
        !matches!(self, ChainId::Solana | ChainId::Sui)
    }

    pub fn average_finality_sec(self) -> (r: u32)
        ensures
            r == finality_of(self),
    {
        match self {
            ChainId::Solana => 3,
            ChainId::Ethereum => 13,
            ChainId::Arbitrum => 1,
            ChainId::Base => 2,
            ChainId::Polygon => 2,
            ChainId::Bnb => 3,
            ChainId::Avalanche => 2,
            ChainId::Sui => 3,
        }
    }

    pub fn explorer(self) -> (r: &'static str)
        ensures
            r@ == explorer_of(self),
    {
        match self {
            ChainId::Solana => "https://solscan.io",
            ChainId::Ethereum => "https://etherscan.io",
            ChainId::Arbitrum => "https://arbiscan.io",
            ChainId::Base => "https://basescan.org",
            ChainId::Polygon => "https://polygonscan.com",
            ChainId::Bnb => "https://bscscan.com",
            ChainId::Avalanche => "https://snowtrace.io",
            ChainId::Sui => "https://suiscan.xyz",
        }
    }

    pub fn evm_chain_id(self) -> (r: Option<u64>)
        ensures
            r == evm_chain_id_of(self),
    {
        Some(
            match self {
                ChainId::Ethereum => 1,
                ChainId::Arbitrum => 42161,
                ChainId::Base => 8453,
                ChainId::Polygon => 137,
                ChainId::Bnb => 56,
                ChainId::Avalanche => 43114,
                ChainId::Solana | ChainId::Sui => {
                    return None;
                },
            },
        )
    }

    pub fn all() -> (r: &'static [ChainId])
        ensures
            r@ == all_chains(),
    {
        &[
            ChainId::Solana,
            ChainId::Ethereum,
            ChainId::Arbitrum,
            ChainId::Base,
            ChainId::Polygon,
            ChainId::Bnb,
            ChainId::Avalanche,
            ChainId::Sui,
        ]
    }
}

/// A chain runs the EVM exactly when it has an EIP-155 chain id.
pub proof fn lemma_evm_iff_chain_id(c: ChainId)
    ensures
        !(c == ChainId::Solana || c == ChainId::Sui) <==> evm_chain_id_of(c) is Some,
{
}

/// Every chain is seated exactly once in `ChainId::all`, at its own index.
pub proof fn lemma_all_chains_seated_once(c: ChainId)
    ensures
        all_chains().len() == 8,
        0 <= chain_index(c) < 8,
        all_chains()[chain_index(c)] == c,
        forall|i: int| 0 <= i < 8 && all_chains()[i] == c ==> i == chain_index(c),
{
}

/// Chain metadata, one record per seated chain.
#[derive(Debug, Clone)]
pub struct Chain {
    pub id: ChainId,
    pub display_name: String,
    pub native_symbol: String,
    pub plaque: String,
    pub explorer: String,
    pub average_finality_sec: u32,
}

impl Chain {
    /// Whether this record holds exactly the metadata of chain `id`.
    pub open spec fn describes(&self, id: ChainId) -> bool {
        &&& self.id == id
        &&& self.display_name@ == display_name_of(id)
        &&& self.native_symbol@ == native_symbol_of(id)
        &&& self.plaque@ == plaque_of(id)
        &&& self.explorer@ == explorer_of(id)
        &&& self.average_finality_sec == finality_of(id)
    }

    /// Builds the metadata record of a chain.
    pub fn from_id(id: ChainId) -> (r: Chain)
        ensures
            r.describes(id),
    {
        let native = match id {
            ChainId::Solana => "SOL",
            ChainId::Ethereum => "ETH",
            ChainId::Arbitrum => "ETH",
            ChainId::Base => "ETH",
            ChainId::Polygon => "MATIC",
            ChainId::Bnb => "BNB",
            ChainId::Avalanche => "AVAX",
            ChainId::Sui => "SUI",
        };
        Chain {
            id,
            display_name: String::from_str(id.display_name()),
            native_symbol: String::from_str(native),
            plaque: String::from_str(id.plaque()),
            explorer: String::from_str(id.explorer()),
            average_finality_sec: id.average_finality_sec(),
        }
    }
}

impl From<ChainId> for Chain {
    fn from(id: ChainId) -> (r: Chain)
        ensures
            r.describes(id),
    {
        Chain::from_id(id)
    }
}

/// `Chain` holds `String`s, which no spec function can build, so the generic
/// `from_spec` view of this conversion is left unused; `from` states its result
/// through `Chain::describes` instead.
impl vstd::std_specs::convert::FromSpecImpl<ChainId> for Chain {
    open spec fn obeys_from_spec() -> bool {
        false
    }

    open spec fn from_spec(id: ChainId) -> Chain {
        arbitrary()
    }
}

} // verus!
