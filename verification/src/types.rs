//! Plain data carried through the relay: block references, forkchoice state,
//! payload attributes, payload bodies, and the per-backend call outcomes that
//! the dispatch layer merges.

use vstd::prelude::*;

verus! {

/// Tag for the two execution backends the relay fans out to.
#[derive(Clone, Copy, PartialEq, Eq, Structural, Debug)]
pub enum BackendId {
    /// The block-building backend; its verdicts are advisory only.
    Building,
    /// The canonical backend; authoritative for chain-head state.
    Canonical,
}

/// A 256-bit block reference, held as four 64-bit words (most significant first).
#[derive(Clone, Copy, PartialEq, Eq, Structural, Hash, Debug)]
pub struct BlockHash {
    pub w0: u64,
    pub w1: u64,
    pub w2: u64,
    pub w3: u64,
}

/// A 160-bit account address, held as two 64-bit words and one 32-bit word.
#[derive(Clone, Copy, PartialEq, Eq, Structural, Hash, Debug)]
pub struct AddressData {
    pub w0: u64,
    pub w1: u64,
    pub w2: u32,
}

/// The consensus-supplied head/safe/finalized triple; passed through to both
/// backends verbatim and never interpreted by the relay.
#[derive(Clone, Copy, PartialEq, Eq, Structural, Debug)]
pub struct ForkchoiceStateData {
    pub head_block_hash: BlockHash,
    pub safe_block_hash: BlockHash,
    pub finalized_block_hash: BlockHash,
}

/// One withdrawal operation listed in the payload attributes.
#[derive(Clone, Copy, PartialEq, Eq, Structural, Debug)]
pub struct WithdrawalData {
    pub index: u64,
    pub validator_index: u64,
    pub address: AddressData,
    pub amount: u64,
}

/// The attributes of a requested block-building job, as supplied by the
/// consensus driver alongside a forkchoice update.
#[derive(Clone, Debug)]
pub struct PayloadAttributesData {
    pub timestamp: u64,
    pub prev_randao: BlockHash,
    pub suggested_fee_recipient: AddressData,
    pub withdrawals: Vec<WithdrawalData>,
    pub parent_beacon_block_root: BlockHash,
}

/// A backend's verdict on a forkchoice update or a submitted payload.
#[derive(Clone, Copy, PartialEq, Eq, Structural, Debug)]
pub enum PayloadStatusKind {
    Valid,
    Invalid,
    Syncing,
    Accepted,
}

/// Why a single backend call yielded no usable answer.
#[derive(Clone, Copy, PartialEq, Eq, Structural, Debug)]
pub enum BackendFailure {
    /// The call exceeded the configured timeout.
    Timeout,
    /// The connection was refused, or sending/receiving failed.
    Transport,
    /// The backend rejected the derived authentication token.
    AuthRejected,
}

/// What one backend answered to a forkchoice update: its status verdict and,
/// when it accepted a build request, the payload identifier it minted.
#[derive(Clone, Copy, PartialEq, Eq, Structural, Debug)]
pub struct FcuResponse {
    pub status: PayloadStatusKind,
    pub payload_id: Option<u64>,
}

/// The outcome of one backend's forkchoice-update call.
#[derive(Clone, Copy, PartialEq, Eq, Structural, Debug)]
pub enum FcuOutcome {
    Answered(FcuResponse),
    Failed(BackendFailure),
}

/// The outcome of one backend's new-payload (validation) call.
#[derive(Clone, Copy, PartialEq, Eq, Structural, Debug)]
pub enum StatusOutcome {
    Answered(PayloadStatusKind),
    Failed(BackendFailure),
}

/// A built execution payload as the relay models it: the fields the relay
/// reports, never inspects.
#[derive(Clone, Copy, PartialEq, Eq, Structural, Debug)]
pub struct PayloadData {
    pub block_number: u64,
    pub block_hash: BlockHash,
    pub parent_hash: BlockHash,
    pub block_value: u64,
}

/// The outcome of one backend's payload-retrieval call.
#[derive(Clone, Copy, PartialEq, Eq, Structural, Debug)]
pub enum FetchOutcome {
    Answered(PayloadData),
    Failed(BackendFailure),
}

} // verus!
