//! Core data types of the bridge protocol.
//!
//! Headers, finalization proofs and Merkle proofs are opaque byte
//! payloads produced and consumed by the source chain's own codec; this
//! client only compares them structurally and passes them through
//! unchanged.  Transfer messages are the two message kinds the treasury
//! contract can execute.

use vstd::prelude::*;

verus! {

/// A length-tagged binary wrapper: the bridge-wide serialized form of a
/// byte string, such as an address or a key.
#[derive(Clone, Debug, PartialEq, Eq)]
pub struct HexSerializedVec {
    pub data: Vec<u8>,
}

impl HexSerializedVec {
    /// Wraps raw bytes.
    pub fn from_vec(data: Vec<u8>) -> (r: HexSerializedVec)
        ensures
            r.data@ == data@,
    {
        HexSerializedVec { data }
    }
}

/// An opaque finalized-block header from the source chain.
///
/// The payload is the source chain's own serialization; it is never
/// interpreted here, only compared and passed through.  A serialized
/// header is never empty, which is the one well-formedness fact the
/// bridge relies on when decoding a contract response.
#[derive(Clone, Debug, PartialEq, Eq)]
pub struct Header {
    pub data: Vec<u8>,
}

impl Header {
    /// A header payload is well formed when it is non-empty.
    pub open spec fn wf(&self) -> bool {
        self.data@.len() > 0
    }
}

/// Evidence that a `Header` was finalized by source-chain consensus.
/// Accepted as-is; verification is delegated to the destination contract.
#[derive(Clone, Debug, PartialEq, Eq)]
pub struct BlockFinalizationProof {
    pub data: Vec<u8>,
}

/// Evidence that a message commit is included in a finalized block's
/// commit set.  Checked by the destination contract against the
/// commit-merkle-root recorded for the block it refers to.
#[derive(Clone, Debug, PartialEq, Eq)]
pub struct MerkleProof {
    pub data: Vec<u8>,
}

/// A token-movement instruction for a fungible asset.
#[derive(Clone, Debug, PartialEq, Eq)]
pub struct FungibleTokenTransfer {
    pub token_id: String,
    pub amount: u128,
    pub receiver_address: String,
    pub contract_sequence: u64,
}

/// A single-NFT movement instruction.
#[derive(Clone, Debug, PartialEq, Eq)]
pub struct NonFungibleTokenTransfer {
    pub collection_address: String,
    pub token_index: String,
    pub receiver_address: String,
    pub contract_sequence: u64,
}

/// A block observed on the destination chain.
#[derive(Clone, Copy, Debug, PartialEq, Eq, Structural)]
pub struct SettlementChainBlock {
    pub height: u64,
    pub timestamp: u64,
}


/// Whether two byte strings hold the same bytes.
pub fn bytes_eq(a: &Vec<u8>, b: &Vec<u8>) -> (r: bool)
    ensures
        r == (a@ == b@),
{
    if a.len() != b.len() {
        return false;
    }
    let n = a.len();
    let mut i: usize = 0;
    while i < n
        invariant
            n == a@.len() == b@.len(),
            i <= n,
            forall|j: int| 0 <= j < i ==> a@[j] == b@[j],
        decreases n - i,
    {
        if a[i] != b[i] {
            return false;
        }
        i += 1;
    }
    proof {
        assert(a@ =~= b@);
    }
    true
}


/// A fresh byte string holding the same bytes.
pub fn clone_bytes(v: &Vec<u8>) -> (r: Vec<u8>)
    ensures
        r@ == v@,
{
    let n = v.len();
    let mut out: Vec<u8> = Vec::new();
    let mut i: usize = 0;
    while i < n
        invariant
            n == v@.len(),
            i <= n,
            out@ == v@.subrange(0, i as int),
        decreases n - i,
    {
        out.push(v[i]);
        proof {
            assert(out@ =~= v@.subrange(0, i + 1));
        }
        i += 1;
    }
    proof {
        assert(out@ =~= v@);
    }
    out
}

} // verus!
