//! Chain endpoint descriptors.
//!
//! A chain connection is a resolved (RPC URL, chain identifier, human
//! name) tuple; stateless and purely descriptive.  Ethereum-like chain
//! families share all bridge logic and differ only in this metadata.

use vstd::prelude::*;

verus! {

/// Connection metadata for one destination chain.
pub struct ChainConfigs {
    /// The RPC URL of the chain.
    pub rpc_url: String,
    /// The name of the chain, when it is not implied by the family.
    pub chain_name: Option<String>,
}

/// A destination chain family together with its connection metadata.
pub enum ChainType {
    Ethereum(ChainConfigs),
    Goerli(ChainConfigs),
    Other(ChainConfigs),
}

impl ChainType {
    /// The RPC URL configured for this chain.
    pub open spec fn spec_rpc_url(&self) -> Seq<char> {
        match self {
            ChainType::Ethereum(chain) => chain.rpc_url@,
            ChainType::Goerli(chain) => chain.rpc_url@,
            ChainType::Other(chain) => chain.rpc_url@,
        }
    }

    /// The display name this chain resolves to: the family name for the
    /// statically known families, the configured name otherwise, and
    /// `"Unknown"` when neither is available.
    pub open spec fn spec_chain_name(&self) -> Seq<char> {
        match self {
            ChainType::Ethereum(_) => "Ethereum"@,
            ChainType::Goerli(_) => "Goerli"@,
            ChainType::Other(configs) => match configs.chain_name {
                Some(name) => name@,
                None => "Unknown"@,
            },
        }
    }

    pub fn get_rpc_url(&self) -> (r: &str)
        ensures
            r@ == self.spec_rpc_url(),
    {
        match self {
            ChainType::Ethereum(chain) => chain.rpc_url.as_str(),
            ChainType::Goerli(chain) => chain.rpc_url.as_str(),
            ChainType::Other(chain) => chain.rpc_url.as_str(),
        }
    }

    pub fn get_chain_name(&self) -> (r: &str)
        ensures
            r@ == self.spec_chain_name(),
    {
        match self {
            ChainType::Ethereum(_) => "Ethereum",
            ChainType::Goerli(_) => "Goerli",
            ChainType::Other(configs) => match &configs.chain_name {
                Some(name) => name.as_str(),
                None => "Unknown",
            },
        }
    }
}

} // verus!
