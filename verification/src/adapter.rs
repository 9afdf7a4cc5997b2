//! The settlement chain adapter: the single surface the rest of the
//! bridging system consumes.
//!
//! Every operation of the surface is a network round-trip wrapped around
//! a pure decision: what to send, and what a response means.  Those
//! decisions live here, verified; reading and submitting are left to the
//! caller that owns the transport.  Responses arrive as plain values
//! (heights, timestamps, raw bytes, balance words), and submissions
//! leave as plain payloads.

use vstd::prelude::*;
use crate::chain::ChainType;
use crate::codec::EvmCompatibleAddress;
use crate::errors::Error;
use crate::executor::ExecutePayload;
use crate::executor::prepare_execute_fungible;
use crate::executor::prepare_execute_non_fungible;
use crate::lightclient::UpdatePayload;
use crate::lightclient::prepare_update;
use crate::types::BlockFinalizationProof;
use crate::types::FungibleTokenTransfer;
use crate::types::Header;
use crate::types::HexSerializedVec;
use crate::types::MerkleProof;
use crate::types::NonFungibleTokenTransfer;
use crate::types::SettlementChainBlock;
use crate::types::clone_bytes;
use crate::wire::spec_descriptor_fungible;
use crate::wire::spec_descriptor_non_fungible;
use crate::wire::spec_encode_fungible;
use crate::wire::spec_encode_non_fungible;

verus! {

/// One EVM-compatible destination chain, with the treasury deployed on
/// it, if its address is configured.
pub struct EvmCompatibleChain {
    pub chain: ChainType,
    pub treasury_address: Option<EvmCompatibleAddress>,
}

/// Interprets the latest-block response of the chain's RPC node: the
/// optional block, as its optional height and its timestamp.
///
/// A missing block, and a block the node has not yet numbered, both
/// read as a connection failure: the read may be retried.
pub fn interpret_last_block(response: Option<(Option<u64>, u64)>) -> (r: Result<
    SettlementChainBlock,
    Error,
>)
    ensures
        r matches Ok(b) ==> response == Some((Some(b.height), b.timestamp)),
        r matches Err(e) ==> e == Error::ConnectionError,
        r is Ok <==> (response matches Some(b) && b.0 is Some),
{
    match response {
        Some((Some(height), timestamp)) => Ok(SettlementChainBlock { height, timestamp }),
        Some((None, _)) => Err(Error::ConnectionError),
        None => Err(Error::ConnectionError),
    }
}

/// Interprets a connectivity probe: whether the node answered a
/// block-number read at all.
pub fn interpret_connection_check(block_number: Option<u64>) -> (r: Result<(), Error>)
    ensures
        r is Ok <==> block_number is Some,
        r matches Err(e) ==> e == Error::ConnectionError,
{
    match block_number {
        Some(_) => Ok(()),
        None => Err(Error::ConnectionError),
    }
}

/// Narrows a 256-bit balance word, given as its high and low 128-bit
/// halves, to the bridge's 128-bit amounts.  A value that does not fit
/// fails closed instead of truncating.
pub fn u256_to_u128(hi: u128, lo: u128) -> (r: Result<u128, Error>)
    ensures
        hi == 0 ==> r == Ok::<u128, Error>(lo),
        hi != 0 ==> r == Err::<u128, Error>(Error::InternalContractError),
{
    if hi == 0 {
        Ok(lo)
    } else {
        Err(Error::InternalContractError)
    }
}

/// Narrows the treasury's 128-bit sequence counter to the 64-bit
/// sequence a message carries.  A counter that does not fit fails
/// closed instead of truncating.
pub fn contract_sequence_to_u64(sequence: u128) -> (r: Result<u64, Error>)
    ensures
        sequence <= u64::MAX ==> r == Ok::<u64, Error>(sequence as u64),
        sequence > u64::MAX ==> r == Err::<u64, Error>(Error::InternalContractError),
{
    if sequence <= u64::MAX as u128 {
        Ok(sequence as u64)
    } else {
        Err(Error::InternalContractError)
    }
}

/// Decodes the header payload the treasury's light client reports.
/// An empty payload cannot be a serialized header and reads as a
/// contract-side decoding failure.
pub fn decode_light_client_header(last_header: &Vec<u8>) -> (r: Result<Header, Error>)
    ensures
        r is Ok <==> last_header@.len() > 0,
        r matches Ok(h) ==> h.data@ == last_header@ && h.wf(),
        r matches Err(e) ==> e == Error::InternalContractError,
{
    if last_header.len() == 0 {
        return Err(Error::InternalContractError);
    }
    Ok(Header { data: clone_bytes(last_header) })
}

/// Builds the relayer account report from the relayer's raw address
/// bytes and its native balance.
pub fn make_relayer_account_info(address: &Vec<u8>, balance: u128) -> (r: (HexSerializedVec, u128))
    ensures
        r.0.data@ == address@,
        r.1 == balance,
{
    (HexSerializedVec { data: clone_bytes(address) }, balance)
}

/// Validates the three addresses of an account-to-account token
/// transfer: the sender, the token contract and the receiver.
pub fn validate_transfer_addresses(
    sender: &HexSerializedVec,
    token: &HexSerializedVec,
    receiver: &HexSerializedVec,
) -> (r: Result<(EvmCompatibleAddress, EvmCompatibleAddress, EvmCompatibleAddress), Error>)
    ensures
        r is Ok <==> sender.data@.len() == crate::codec::EVM_COMPATIBLE_ADDRESS_BYTES
            && token.data@.len() == crate::codec::EVM_COMPATIBLE_ADDRESS_BYTES
            && receiver.data@.len() == crate::codec::EVM_COMPATIBLE_ADDRESS_BYTES,
        r matches Ok(t) ==> t.0.address@ == sender.data@ && t.1.address@ == token.data@
            && t.2.address@ == receiver.data@,
        r matches Err(e) ==> e == Error::InvalidAddressFormat,
{
    let s = match EvmCompatibleAddress::from_hex_serialized_vec(sender) {
        Ok(a) => a,
        Err(e) => {
            return Err(e);
        },
    };
    let t = match EvmCompatibleAddress::from_hex_serialized_vec(token) {
        Ok(a) => a,
        Err(e) => {
            return Err(e);
        },
    };
    let v = match EvmCompatibleAddress::from_hex_serialized_vec(receiver) {
        Ok(a) => a,
        Err(e) => {
            return Err(e);
        },
    };
    Ok((s, t, v))
}

impl EvmCompatibleChain {
    /// The display name of the chain.
    pub fn get_chain_name(&self) -> (r: &str)
        ensures
            r@ == self.chain.spec_chain_name(),
    {
        self.chain.get_chain_name()
    }

    /// The configured treasury address, or the configuration error
    /// every treasury operation reports without one.
    pub fn treasury_or_error(&self) -> (r: Result<&EvmCompatibleAddress, Error>)
        ensures
            r is Ok <==> self.treasury_address is Some,
            r matches Ok(a) ==> self.treasury_address == Some(*a),
            r matches Err(e) ==> e == Error::NoSuchContract,
    {
        match &self.treasury_address {
            Some(a) => Ok(a),
            None => Err(Error::NoSuchContract),
        }
    }

    /// Builds the light-client update submission: the treasury must be
    /// configured; the header and proof payloads pass through unchanged.
    pub fn prepare_update_treasury_light_client(
        &self,
        header: &Header,
        proof: &BlockFinalizationProof,
    ) -> (r: Result<UpdatePayload, Error>)
        ensures
            r is Ok <==> self.treasury_address is Some,
            r matches Ok(p) ==> p.header@ == header.data@ && p.proof@ == proof.data@,
            r matches Err(e) ==> e == Error::NoSuchContract,
    {
        match &self.treasury_address {
            Some(_) => Ok(prepare_update(header, proof)),
            None => Err(Error::NoSuchContract),
        }
    }

    /// Builds the `execute` submission for a fungible transfer: the
    /// treasury must be configured, and the message's sequence must be
    /// the freshly read counter, else the call fails locally without a
    /// submission.
    pub fn prepare_execute_fungible_token(
        &self,
        message: &FungibleTokenTransfer,
        current_sequence: u64,
        block_height: u64,
        proof: &MerkleProof,
    ) -> (r: Result<ExecutePayload, Error>)
        ensures
            r is Ok <==> self.treasury_address is Some && message.contract_sequence
                == current_sequence,
            self.treasury_address is None ==> r == Err::<ExecutePayload, Error>(
                Error::NoSuchContract,
            ),
            self.treasury_address is Some && message.contract_sequence != current_sequence ==> r
                == Err::<ExecutePayload, Error>(Error::InvalidContractSequence {
                expected: current_sequence,
                got: message.contract_sequence,
            }),
            r matches Ok(p) ==> p.transaction@ == spec_encode_fungible(*message)
                && p.execution_descriptor@ == spec_descriptor_fungible(*message)
                && p.block_height == block_height && p.merkle_proof@ == proof.data@,
    {
        match &self.treasury_address {
            Some(_) => prepare_execute_fungible(message, current_sequence, block_height, proof),
            None => Err(Error::NoSuchContract),
        }
    }

    /// Builds the `execute` submission for a non-fungible transfer,
    /// under the same treasury and sequence checks.
    pub fn prepare_execute_non_fungible_token(
        &self,
        message: &NonFungibleTokenTransfer,
        current_sequence: u64,
        block_height: u64,
        proof: &MerkleProof,
    ) -> (r: Result<ExecutePayload, Error>)
        ensures
            r is Ok <==> self.treasury_address is Some && message.contract_sequence
                == current_sequence,
            self.treasury_address is None ==> r == Err::<ExecutePayload, Error>(
                Error::NoSuchContract,
            ),
            self.treasury_address is Some && message.contract_sequence != current_sequence ==> r
                == Err::<ExecutePayload, Error>(Error::InvalidContractSequence {
                expected: current_sequence,
                got: message.contract_sequence,
            }),
            r matches Ok(p) ==> p.transaction@ == spec_encode_non_fungible(*message)
                && p.execution_descriptor@ == spec_descriptor_non_fungible(*message)
                && p.block_height == block_height && p.merkle_proof@ == proof.data@,
    {
        match &self.treasury_address {
            Some(_) => prepare_execute_non_fungible(message, current_sequence, block_height,
                proof),
            None => Err(Error::NoSuchContract),
        }
    }
}

} // verus!
