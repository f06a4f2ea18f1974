//! Build-job identity: the correlation key for one "build on top of this
//! forkchoice state with these attributes" request. The key is derived
//! deterministically from the forkchoice state and every attribute field, so
//! identical requests always correlate to the same job.

use vstd::prelude::*;
use crate::types::AddressData;
use crate::types::BlockHash;
use crate::types::ForkchoiceStateData;
use crate::types::PayloadAttributesData;
use crate::types::WithdrawalData;

verus! {

/// The fixed starting value of the derivation.
pub const JOB_SEED: u64 = 0xcbf29ce484222325;

/// The multiplier folded in at every step.
pub const JOB_PRIME: u64 = 0x100000001b3;

/// One derivation step: fold a 64-bit word into the accumulator.
pub open spec fn mix64(acc: u64, w: u64) -> u64 {
    ((((acc ^ w) as u128) * (JOB_PRIME as u128)) % 0x10000000000000000) as u64
}

/// Folds the four words of a block reference into the accumulator.
pub open spec fn mix_hash(acc: u64, h: BlockHash) -> u64 {
    mix64(mix64(mix64(mix64(acc, h.w0), h.w1), h.w2), h.w3)
}

/// Folds the three words of an address into the accumulator.
pub open spec fn mix_address(acc: u64, a: AddressData) -> u64 {
    mix64(mix64(mix64(acc, a.w0), a.w1), a.w2 as u64)
}

/// Folds one withdrawal's fields into the accumulator.
pub open spec fn mix_withdrawal(acc: u64, w: WithdrawalData) -> u64 {
    mix64(mix_address(mix64(mix64(acc, w.index), w.validator_index), w.address), w.amount)
}

/// Folds the first `n` withdrawals into the accumulator, left to right.
pub open spec fn mix_withdrawals_prefix(acc: u64, ws: Seq<WithdrawalData>, n: int) -> u64
    decreases n,
{
    if n <= 0 {
        acc
    } else {
        mix_withdrawal(mix_withdrawals_prefix(acc, ws, n - 1), ws[n - 1])
    }
}

/// Folds a whole withdrawal list into the accumulator, left to right.
pub open spec fn mix_withdrawals(acc: u64, ws: Seq<WithdrawalData>) -> u64 {
    mix_withdrawals_prefix(acc, ws, ws.len() as int)
}

/// The build-job identity derived from a forkchoice state and the payload
/// attributes sent with it: a fold over every field of both.
pub open spec fn job_identity(f: ForkchoiceStateData, a: PayloadAttributesData) -> u64 {
    let acc = mix_hash(
        mix_hash(mix_hash(JOB_SEED, f.head_block_hash), f.safe_block_hash),
        f.finalized_block_hash,
    );
    let acc = mix_hash(mix64(acc, a.timestamp), a.prev_randao);
    let acc = mix_hash(mix_address(acc, a.suggested_fee_recipient), a.parent_beacon_block_root);
    let acc = mix64(acc, a.withdrawals@.len() as u64);
    mix_withdrawals(acc, a.withdrawals@)
}

/// One executable derivation step.
fn mix(acc: u64, w: u64) -> (r: u64)
    ensures
        r == mix64(acc, w),
{
    let x: u128 = (acc ^ w) as u128;
    let prod: u128 = x * (JOB_PRIME as u128);
    (prod % 0x10000000000000000) as u64
}

/// Folds a block reference into the accumulator.
fn mix_hash_words(acc: u64, h: &BlockHash) -> (r: u64)
    ensures
        r == mix_hash(acc, *h),
{
    mix(mix(mix(mix(acc, h.w0), h.w1), h.w2), h.w3)
}

/// Folds an address into the accumulator.
fn mix_address_words(acc: u64, a: &AddressData) -> (r: u64)
    ensures
        r == mix_address(acc, *a),
{
    mix(mix(mix(acc, a.w0), a.w1), a.w2 as u64)
}

/// Derives the build-job identity for a forkchoice state and payload
/// attributes. Two calls with identical inputs return the identical identity.
pub fn job_id(f: &ForkchoiceStateData, a: &PayloadAttributesData) -> (id: u64)
    ensures
        id == job_identity(*f, *a),
{
    let mut acc = mix_hash_words(JOB_SEED, &f.head_block_hash);
    acc = mix_hash_words(acc, &f.safe_block_hash);
    acc = mix_hash_words(acc, &f.finalized_block_hash);
    acc = mix(acc, a.timestamp);
    acc = mix_hash_words(acc, &a.prev_randao);
    acc = mix_address_words(acc, &a.suggested_fee_recipient);
    acc = mix_hash_words(acc, &a.parent_beacon_block_root);
    acc = mix(acc, a.withdrawals.len() as u64);
    let ghost folded_from = acc;
    let mut i: usize = 0;
    while i < a.withdrawals.len()
        invariant
            i <= a.withdrawals.len(),
            acc == mix_withdrawals_prefix(folded_from, a.withdrawals@, i as int),
        decreases a.withdrawals.len() - i,
    {
        let w = a.withdrawals[i];
        acc = mix(mix(acc, w.index), w.validator_index);
        acc = mix_address_words(acc, &w.address);
        acc = mix(acc, w.amount);
        i = i + 1;
    }
    acc
}

/// Two forkchoice-update requests with identical forkchoice state and
/// identical payload attributes derive the identical build-job identity.
pub proof fn lemma_job_identity_deterministic(
    f1: ForkchoiceStateData,
    a1: PayloadAttributesData,
    f2: ForkchoiceStateData,
    a2: PayloadAttributesData,
)
    requires
        f1 == f2,
        a1 == a2,
    ensures
        job_identity(f1, a1) == job_identity(f2, a2),
{
}

} // verus!
