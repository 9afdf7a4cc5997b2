//! The message-execution step.
//!
//! A cross-chain transfer is authenticated against an already synced
//! header by a Merkle inclusion proof and protected from replay by the
//! contract sequence.  Before anything is submitted, the message's
//! sequence is checked against the freshly read counter; a mismatch
//! fails locally, without wasting a submission that is certain to
//! revert.  On a match, the message is encoded into the destination
//! contract's expected payload together with its derived execution
//! descriptor, and the Merkle proof passes through unchanged.

use vstd::prelude::*;
use crate::errors::Error;
use crate::types::FungibleTokenTransfer;
use crate::types::MerkleProof;
use crate::types::NonFungibleTokenTransfer;
use crate::types::clone_bytes;
use crate::wire::derive_descriptor_fungible;
use crate::wire::derive_descriptor_non_fungible;
use crate::wire::encode_fungible_transfer;
use crate::wire::encode_non_fungible_transfer;
use crate::wire::spec_descriptor_fungible;
use crate::wire::spec_descriptor_non_fungible;
use crate::wire::spec_encode_fungible;
use crate::wire::spec_encode_non_fungible;

verus! {

/// The four arguments of an `execute` submission.
pub struct ExecutePayload {
    pub transaction: Vec<u8>,
    pub execution_descriptor: Vec<u8>,
    pub block_height: u64,
    pub merkle_proof: Vec<u8>,
}

/// Builds the `execute` submission for a fungible transfer.
///
/// Fails locally with `InvalidContractSequence(expected, got)`, and
/// builds nothing, whenever the message's sequence is not the freshly
/// read counter; otherwise the payload holds the encoded message, its
/// execution descriptor, the block height, and the Merkle proof passed
/// through unchanged.
pub fn prepare_execute_fungible(
    message: &FungibleTokenTransfer,
    current_sequence: u64,
    block_height: u64,
    proof: &MerkleProof,
) -> (r: Result<ExecutePayload, Error>)
    ensures
        r is Ok <==> message.contract_sequence == current_sequence,
        message.contract_sequence != current_sequence ==> r == Err::<ExecutePayload, Error>(
            Error::InvalidContractSequence {
                expected: current_sequence,
                got: message.contract_sequence,
            },
        ),
        r matches Ok(p) ==> p.transaction@ == spec_encode_fungible(*message)
            && p.execution_descriptor@ == spec_descriptor_fungible(*message)
            && p.block_height == block_height && p.merkle_proof@ == proof.data@,
{
    if message.contract_sequence != current_sequence {
        return Err(Error::InvalidContractSequence {
            expected: current_sequence,
            got: message.contract_sequence,
        });
    }
    Ok(ExecutePayload {
        transaction: encode_fungible_transfer(message),
        execution_descriptor: derive_descriptor_fungible(message),
        block_height,
        merkle_proof: clone_bytes(&proof.data),
    })
}

/// Builds the `execute` submission for a non-fungible transfer.
///
/// The sequence pre-check and the payload's shape are as for the
/// fungible case.
pub fn prepare_execute_non_fungible(
    message: &NonFungibleTokenTransfer,
    current_sequence: u64,
    block_height: u64,
    proof: &MerkleProof,
) -> (r: Result<ExecutePayload, Error>)
    ensures
        r is Ok <==> message.contract_sequence == current_sequence,
        message.contract_sequence != current_sequence ==> r == Err::<ExecutePayload, Error>(
            Error::InvalidContractSequence {
                expected: current_sequence,
                got: message.contract_sequence,
            },
        ),
        r matches Ok(p) ==> p.transaction@ == spec_encode_non_fungible(*message)
            && p.execution_descriptor@ == spec_descriptor_non_fungible(*message)
            && p.block_height == block_height && p.merkle_proof@ == proof.data@,
{
    if message.contract_sequence != current_sequence {
        return Err(Error::InvalidContractSequence {
            expected: current_sequence,
            got: message.contract_sequence,
        });
    }
    Ok(ExecutePayload {
        transaction: encode_non_fungible_transfer(message),
        execution_descriptor: derive_descriptor_non_fungible(message),
        block_height,
        merkle_proof: clone_bytes(&proof.data),
    })
}

} // verus!
