//! The light-client synchronization step.
//!
//! Advancing the treasury's light client means relaying a finalized
//! header together with its finalization proof.  This component does not
//! re-derive source-chain consensus rules: it serializes the pair into
//! the destination contract's expected submission, passing both payloads
//! through unchanged.  Whether the proof verifies is decided by the
//! destination contract alone.

use vstd::prelude::*;
use crate::types::BlockFinalizationProof;
use crate::types::Header;
use crate::types::bytes_eq;
use crate::types::clone_bytes;

verus! {

/// The two payloads of an `updateLightClient` submission.
pub struct UpdatePayload {
    pub header: Vec<u8>,
    pub proof: Vec<u8>,
}

/// Where a submitted header stands relative to what the chain reports.
#[derive(Clone, Copy, Debug, PartialEq, Eq, Structural)]
pub enum SyncStatus {
    /// The on-chain header equals the submitted one.
    Confirmed,
    /// The on-chain header still differs from the submitted one.
    Stale,
}

/// Builds the `updateLightClient` submission for a header and its
/// finalization proof.  Both byte payloads pass through unchanged.
pub fn prepare_update(header: &Header, proof: &BlockFinalizationProof) -> (r: UpdatePayload)
    ensures
        r.header@ == header.data@,
        r.proof@ == proof.data@,
{
    UpdatePayload { header: clone_bytes(&header.data), proof: clone_bytes(&proof.data) }
}

/// Classifies a submission by comparing the header the chain now reports
/// with the header that was submitted.
pub fn check_sync(on_chain: &Header, submitted: &Header) -> (r: SyncStatus)
    ensures
        r is Confirmed <==> on_chain.data@ == submitted.data@,
{
    if bytes_eq(&on_chain.data, &submitted.data) {
        SyncStatus::Confirmed
    } else {
        SyncStatus::Stale
    }
}

} // verus!
