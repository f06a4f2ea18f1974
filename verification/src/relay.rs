//! The Engine API relay core: fans each stateful call out to the building and
//! the canonical backend, merges the two outcomes under the
//! canonical-authoritative policy, and correlates the two backends'
//! independently minted payload identifiers through the cache.
//!
//! The relay never performs the backend calls itself: each method takes the
//! two backends' outcomes as values and is verified for every outcome either
//! call can have, including timeouts and transport failures.

use vstd::prelude::*;
use crate::cache::CacheView;
use crate::cache::CorrelationCache;
use crate::cache::PayloadPair;
use crate::cache::cache_wf;
use crate::cache::spec_record;
use crate::cache::spec_take;
use crate::cache::lemma_record_wf;
use crate::cache::lemma_take_wf;
use crate::errors::RelayError;
use crate::errors::error_of_failure;
use crate::errors::relay_error_of;
use crate::job::job_id;
use crate::job::job_identity;
use crate::types::BackendId;
use crate::types::FcuOutcome;
use crate::types::FcuResponse;
use crate::types::FetchOutcome;
use crate::types::ForkchoiceStateData;
use crate::types::PayloadAttributesData;
use crate::types::PayloadData;
use crate::types::PayloadStatusKind;
use crate::types::StatusOutcome;

verus! {

/// Which backend's payload identifier is handed to the consensus driver as
/// the external payload id when both backends accept a build request. A fixed
/// choice made at construction, not a runtime strategy.
#[derive(Clone, Copy, PartialEq, Eq, Structural, Debug)]
pub enum IdSelectionPolicy {
    CanonicalFirst,
    BuildingFirst,
}

/// What a payload-retrieval call must still fetch: the job the external id
/// correlated to, and each backend's own identifier for it, if that backend
/// accepted the build.
#[derive(Clone, Copy, PartialEq, Eq, Structural, Debug)]
pub struct RetrievalPlan {
    pub job: u64,
    pub building: Option<u64>,
    pub canonical: Option<u64>,
}

/// The relay's answer to a new-payload call: the canonical backend's verdict,
/// and — purely for observability — whether the building backend's concurrent
/// verdict diverged from it (absent when the building backend failed).
#[derive(Clone, Copy, PartialEq, Eq, Structural, Debug)]
pub struct ValidationOutcome {
    pub status: PayloadStatusKind,
    pub building_diverged: Option<bool>,
}

/// The abstract state of the relay: the correlation cache, the secondary
/// index from external payload id to job identity, and the id policy.
#[verifier::ext_equal]
pub struct RelayView {
    pub cache: CacheView,
    pub index: Seq<(u64, u64)>,
    pub policy: IdSelectionPolicy,
}

/// No two index bindings share an external id, and no two share a job.
pub open spec fn index_uniq(ix: Seq<(u64, u64)>) -> bool {
    forall|p: int, q: int|
        0 <= p < ix.len() && 0 <= q < ix.len() && p != q ==> ((#[trigger] ix[p]).0 != (
        #[trigger] ix[q]).0 && ix[p].1 != ix[q].1)
}

/// Every index binding points at a job the cache still holds.
pub open spec fn index_wf(ix: Seq<(u64, u64)>, entries: Map<u64, PayloadPair>) -> bool {
    &&& index_uniq(ix)
    &&& forall|i: int| 0 <= i < ix.len() ==> entries.dom().contains((#[trigger] ix[i]).1)
}

/// Every held entry records at least one backend's payload identifier.
pub open spec fn entries_wf(entries: Map<u64, PayloadPair>) -> bool {
    forall|j: u64|
        entries.dom().contains(j) ==> ((#[trigger] entries[j]).0 is Some || entries[j].1 is Some)
}

/// A well-formed relay state.
pub open spec fn relay_wf(v: RelayView) -> bool {
    &&& cache_wf(v.cache)
    &&& index_wf(v.index, v.cache.entries)
    &&& entries_wf(v.cache.entries)
}

/// Whether an index binding survives a rebinding that claims external id `x`
/// and job `job`, after the cache evicted `evicted`.
pub open spec fn keep_pair(p: (u64, u64), x: u64, job: u64, evicted: Option<u64>) -> bool {
    &&& p.0 != x
    &&& p.1 != job
    &&& match evicted {
        Some(e) => p.1 != e,
        None => true,
    }
}

/// The index bindings that survive such a rebinding, in order.
pub open spec fn prune_index(ix: Seq<(u64, u64)>, x: u64, job: u64, evicted: Option<u64>) -> Seq<
    (u64, u64),
>
    decreases ix.len(),
{
    if ix.len() == 0 {
        ix
    } else {
        let rest = prune_index(ix.drop_last(), x, job, evicted);
        if keep_pair(ix.last(), x, job, evicted) {
            rest.push(ix.last())
        } else {
            rest
        }
    }
}

/// The job bound to an external payload id, scanning bindings in order.
pub open spec fn index_lookup(ix: Seq<(u64, u64)>, x: u64) -> Option<u64>
    decreases ix.len(),
{
    if ix.len() == 0 {
        None
    } else if ix[0].0 == x {
        Some(ix[0].1)
    } else {
        index_lookup(ix.drop_first(), x)
    }
}

/// The payload identifier handed to the consensus driver when the backends
/// minted `b` and `c` for a job: the preferred backend's id where both exist.
pub open spec fn spec_external_id(policy: IdSelectionPolicy, b: Option<u64>, c: Option<u64>) -> Option<
    u64,
> {
    match policy {
        IdSelectionPolicy::CanonicalFirst => if c is Some {
            c
        } else {
            b
        },
        IdSelectionPolicy::BuildingFirst => if b is Some {
            b
        } else {
            c
        },
    }
}

/// The payload identifier a backend's forkchoice-update outcome carries, if
/// the backend answered and accepted the build request.
pub open spec fn outcome_payload_id(o: FcuOutcome) -> Option<u64> {
    match o {
        FcuOutcome::Answered(r) => r.payload_id,
        FcuOutcome::Failed(_) => None,
    }
}

/// Recording both backends' payload identifiers for one job, building first:
/// the cache after, and the job evicted to make room, if one was.
pub open spec fn spec_record_both(cv: CacheView, job: u64, b: Option<u64>, c: Option<u64>) -> (
    CacheView,
    Option<u64>,
) {
    let s1 = if b is Some {
        spec_record(cv, job, BackendId::Building, b->Some_0)
    } else {
        (cv, None::<u64>)
    };
    let s2 = if c is Some {
        spec_record(s1.0, job, BackendId::Canonical, c->Some_0)
    } else {
        (s1.0, None::<u64>)
    };
    (s2.0, if s1.1 is Some {
        s1.1
    } else {
        s2.1
    })
}

/// The whole forkchoice-update transition. The canonical backend's verdict is
/// authoritative: its failure fails the call and changes nothing, whatever
/// the building backend did. When attributes request a build and at least one
/// backend minted a payload identifier, the pair is recorded under the job,
/// the external id is chosen by policy and bound in the index, and the
/// driver-visible response carries it; the building backend's failure is
/// absorbed.
pub open spec fn spec_fcu(
    v: RelayView,
    f: ForkchoiceStateData,
    attrs: Option<PayloadAttributesData>,
    building: FcuOutcome,
    canonical: FcuOutcome,
) -> (RelayView, Result<FcuResponse, RelayError>) {
    match canonical {
        FcuOutcome::Failed(fl) => (v, Err(error_of_failure(fl))),
        FcuOutcome::Answered(cresp) => match attrs {
            None => (v, Ok(FcuResponse { status: cresp.status, payload_id: None })),
            Some(a) => {
                let job = job_identity(f, a);
                let b = outcome_payload_id(building);
                let c = cresp.payload_id;
                if b is Some || c is Some {
                    let rb = spec_record_both(v.cache, job, b, c);
                    let x = spec_external_id(v.policy, b, c)->Some_0;
                    let ix = prune_index(v.index, x, job, rb.1).push((x, job));
                    (
                        RelayView { cache: rb.0, index: ix, policy: v.policy },
                        Ok(FcuResponse { status: cresp.status, payload_id: Some(x) }),
                    )
                } else {
                    (v, Ok(FcuResponse { status: cresp.status, payload_id: None }))
                }
            },
        },
    }
}

/// The first half of the payload-retrieval transition: resolve the external
/// id to its job, consume the job's entries, and drop the binding. An unknown
/// id, or one whose job the cache has already evicted, is `NotFound`.
pub open spec fn spec_begin_get(v: RelayView, x: u64) -> (
    RelayView,
    Result<RetrievalPlan, RelayError>,
) {
    match index_lookup(v.index, x) {
        None => (v, Err(RelayError::NotFound)),
        Some(job) => {
            let t = spec_take(v.cache, job);
            let after = RelayView {
                cache: t.0,
                index: prune_index(v.index, x, job, None),
                policy: v.policy,
            };
            if t.1.0 is Some || t.1.1 is Some {
                (
                    after,
                    Ok(RetrievalPlan { job, building: t.1.0, canonical: t.1.1 }),
                )
            } else {
                (after, Err(RelayError::NotFound))
            }
        },
    }
}

/// Whether an optional fetch outcome is a successfully retrieved payload.
pub open spec fn fetch_ok(o: Option<FetchOutcome>) -> bool {
    o matches Some(FetchOutcome::Answered(_))
}

/// The second half of the payload-retrieval transition: prefer the building
/// backend's payload, fall back to the canonical backend's, and fail only
/// when every consulted source failed.
pub open spec fn spec_finish_get(
    plan: RetrievalPlan,
    building_fetch: Option<FetchOutcome>,
    canonical_fetch: Option<FetchOutcome>,
) -> Result<PayloadData, RelayError> {
    match building_fetch {
        Some(FetchOutcome::Answered(p)) => Ok(p),
        _ => match canonical_fetch {
            Some(FetchOutcome::Answered(p)) => Ok(p),
            Some(FetchOutcome::Failed(fl)) => Err(error_of_failure(fl)),
            None => match building_fetch {
                Some(FetchOutcome::Failed(fl)) => Err(error_of_failure(fl)),
                _ => Err(RelayError::NotFound),
            },
        },
    }
}

/// The new-payload transition: the canonical backend's verdict is returned,
/// or its failure fails the call; the building backend's concurrent verdict
/// is only compared for divergence and never substitutes.
pub open spec fn spec_new_payload(building: StatusOutcome, canonical: StatusOutcome) -> Result<
    ValidationOutcome,
    RelayError,
> {
    match canonical {
        StatusOutcome::Failed(fl) => Err(error_of_failure(fl)),
        StatusOutcome::Answered(s) => Ok(
            ValidationOutcome {
                status: s,
                building_diverged: match building {
                    StatusOutcome::Answered(bs) => Some(bs != s),
                    StatusOutcome::Failed(_) => None,
                },
            },
        ),
    }
}

/// What survives a pruning: exactly the bindings the predicate keeps, still
/// pairwise unique, all drawn from the original index.
pub proof fn lemma_prune_props(ix: Seq<(u64, u64)>, x: u64, job: u64, evicted: Option<u64>)
    ensures
        forall|i: int|
            0 <= i < prune_index(ix, x, job, evicted).len() ==> (keep_pair(
                #[trigger] prune_index(ix, x, job, evicted)[i],
                x,
                job,
                evicted,
            ) && ix.contains(prune_index(ix, x, job, evicted)[i])),
        index_uniq(ix) ==> index_uniq(prune_index(ix, x, job, evicted)),
    decreases ix.len(),
{
    if ix.len() > 0 {
        let d = ix.drop_last();
        lemma_prune_props(d, x, job, evicted);
        let rest = prune_index(d, x, job, evicted);
        let out = prune_index(ix, x, job, evicted);
        assert forall|i: int| 0 <= i < d.len() implies ix.contains(d[i]) by {
            assert(ix[i] == d[i]);
        }
        if index_uniq(ix) {
            assert forall|p: int, q: int|
                0 <= p < d.len() && 0 <= q < d.len() && p != q implies ((#[trigger] d[p]).0 != (
            #[trigger] d[q]).0 && d[p].1 != d[q].1) by {
                assert(d[p] == ix[p]);
                assert(d[q] == ix[q]);
            }
            assert(index_uniq(d));
            if keep_pair(ix.last(), x, job, evicted) {
                assert(out == rest.push(ix.last()));
                assert forall|p: int, q: int|
                    0 <= p < out.len() && 0 <= q < out.len() && p != q implies ((
                #[trigger] out[p]).0 != (#[trigger] out[q]).0 && out[p].1 != out[q].1) by {
                    if p < out.len() - 1 && q < out.len() - 1 {
                        assert(out[p] == rest[p]);
                        assert(out[q] == rest[q]);
                    } else {
                        let r: int = if p < out.len() - 1 {
                            p
                        } else {
                            q
                        };
                        assert(out[r] == rest[r]);
                        assert(d.contains(rest[r]));
                        let k = choose|k: int| 0 <= k < d.len() && d[k] == rest[r];
                        assert(ix[k] == rest[r]);
                        assert(ix[ix.len() - 1] == ix.last());
                    }
                }
            }
        }
    }
}

/// What an index lookup means: a hit is a binding held verbatim, a miss means
/// no binding carries the id, and a held id is always found.
pub proof fn lemma_index_lookup_props(ix: Seq<(u64, u64)>, x: u64)
    ensures
        index_lookup(ix, x) matches Some(j) ==> ix.contains((x, j)),
        index_lookup(ix, x) is None ==> forall|i: int|
            0 <= i < ix.len() ==> (#[trigger] ix[i]).0 != x,
        (exists|i: int| 0 <= i < ix.len() && (#[trigger] ix[i]).0 == x) ==> index_lookup(ix, x)
            is Some,
    decreases ix.len(),
{
    if ix.len() > 0 && ix[0].0 != x {
        let d = ix.drop_first();
        lemma_index_lookup_props(d, x);
        assert forall|i: int| 0 <= i < d.len() implies #[trigger] d[i] == ix[i + 1] by {}
        match index_lookup(ix, x) {
            Some(j) => {
                assert(d.contains((x, j)));
                let k = choose|k: int| 0 <= k < d.len() && d[k] == (x, j);
                assert(ix[k + 1] == (x, j));
            },
            None => {},
        }
        if exists|i: int| 0 <= i < ix.len() && (#[trigger] ix[i]).0 == x {
            let i = choose|i: int| 0 <= i < ix.len() && (#[trigger] ix[i]).0 == x;
            assert(d[i - 1] == ix[i]);
        }
    }
}

/// A binding appended to an index free of its external id is what a lookup
/// of that id finds.
pub proof fn lemma_index_lookup_push(ix: Seq<(u64, u64)>, x: u64, job: u64)
    requires
        forall|i: int| 0 <= i < ix.len() ==> (#[trigger] ix[i]).0 != x,
    ensures
        index_lookup(ix.push((x, job)), x) == Some(job),
    decreases ix.len(),
{
    let t = ix.push((x, job));
    if ix.len() == 0 {
        assert(t[0] == (x, job));
    } else {
        assert(t[0] == ix[0]);
        assert(t.drop_first() =~= ix.drop_first().push((x, job)));
        assert forall|i: int| 0 <= i < ix.drop_first().len() implies (
        #[trigger] ix.drop_first()[i]).0 != x by {
            assert(ix.drop_first()[i] == ix[i + 1]);
        }
        lemma_index_lookup_push(ix.drop_first(), x, job);
    }
}

/// Removes every index binding that claims `x`, `job`, or the evicted job.
fn prune_bindings(ix: &mut Vec<(u64, u64)>, x: u64, job: u64, evicted: Option<u64>)
    ensures
        final(ix)@ == prune_index(old(ix)@, x, job, evicted),
{
    let ghost full = ix@;
    let mut out: Vec<(u64, u64)> = Vec::new();
    let mut i: usize = 0;
    proof {
        assert(full.subrange(0, 0) =~= Seq::<(u64, u64)>::empty());
    }
    while i < ix.len()
        invariant
            i <= ix.len(),
            ix@ == full,
            out@ == prune_index(full.subrange(0, i as int), x, job, evicted),
        decreases ix.len() - i,
    {
        let p = ix[i];
        let keep = p.0 != x && p.1 != job && (match evicted {
            Some(e) => p.1 != e,
            None => true,
        });
        proof {
            let s1 = full.subrange(0, i + 1);
            assert(s1.drop_last() =~= full.subrange(0, i as int));
            assert(s1.last() == full[i as int]);
            assert(keep == keep_pair(full[i as int], x, job, evicted));
        }
        if keep {
            out.push(p);
        }
        i = i + 1;
    }
    proof {
        assert(full.subrange(0, full.len() as int) =~= full);
    }
    *ix = out;
}

/// What recording both backends' identifiers for one job guarantees: the job
/// is held afterward with exactly the recorded identifiers (a present entry
/// keeps what is not overwritten), other jobs are untouched, and at most the
/// least recently used job is evicted — only when the cache was full and the
/// job was new.
pub proof fn lemma_record_both_wf(cv: CacheView, job: u64, b: Option<u64>, c: Option<u64>)
    requires
        cache_wf(cv),
        b is Some || c is Some,
    ensures
        cache_wf(spec_record_both(cv, job, b, c).0),
        spec_record_both(cv, job, b, c).0.capacity == cv.capacity,
        spec_record_both(cv, job, b, c).0.entries.dom() == (match spec_record_both(cv, job, b, c).1 {
            Some(e) => cv.entries.dom().remove(e).insert(job),
            None => cv.entries.dom().insert(job),
        }),
        !cv.entries.dom().contains(job) ==> spec_record_both(cv, job, b, c).0.entries[job] == (b, c),
        cv.entries.dom().contains(job) ==> spec_record_both(cv, job, b, c).0.entries[job] == (
            (if b is Some { b } else { cv.entries[job].0 }),
            (if c is Some { c } else { cv.entries[job].1 }),
        ),
        spec_record_both(cv, job, b, c).1 matches Some(e) ==> {
            &&& e == cv.recency.last()
            &&& cv.entries.dom().contains(e)
            &&& e != job
            &&& !cv.entries.dom().contains(job)
            &&& cv.recency.len() >= cv.capacity
        },
        forall|j: u64|
            cv.entries.dom().contains(j) && j != job && spec_record_both(cv, job, b, c).1 != Some(j)
                ==> (#[trigger] spec_record_both(cv, job, b, c).0.entries[j]) == cv.entries[j],
{
    let s1 = if b is Some {
        spec_record(cv, job, BackendId::Building, b->Some_0)
    } else {
        (cv, None::<u64>)
    };
    if b is Some {
        lemma_record_wf(cv, job, BackendId::Building, b->Some_0);
    }
    if c is Some {
        lemma_record_wf(s1.0, job, BackendId::Canonical, c->Some_0);
    }
    let out = spec_record_both(cv, job, b, c);
    assert(out.0.entries.dom() =~= (match out.1 {
        Some(e) => cv.entries.dom().remove(e).insert(job),
        None => cv.entries.dom().insert(job),
    }));
}

/// Forkchoice updates preserve well-formedness.
pub proof fn lemma_fcu_wf(
    v: RelayView,
    f: ForkchoiceStateData,
    attrs: Option<PayloadAttributesData>,
    building: FcuOutcome,
    canonical: FcuOutcome,
)
    requires
        relay_wf(v),
    ensures
        relay_wf(spec_fcu(v, f, attrs, building, canonical).0),
        spec_fcu(v, f, attrs, building, canonical).0.policy == v.policy,
        spec_fcu(v, f, attrs, building, canonical).0.cache.capacity == v.cache.capacity,
{
    match canonical {
        FcuOutcome::Failed(_) => {},
        FcuOutcome::Answered(cresp) => match attrs {
            None => {},
            Some(a) => {
                let job = job_identity(f, a);
                let b = outcome_payload_id(building);
                let c = cresp.payload_id;
                if b is Some || c is Some {
                    lemma_record_both_wf(v.cache, job, b, c);
                    let rb = spec_record_both(v.cache, job, b, c);
                    let x = spec_external_id(v.policy, b, c)->Some_0;
                    lemma_prune_props(v.index, x, job, rb.1);
                    let pruned = prune_index(v.index, x, job, rb.1);
                    let ix = pruned.push((x, job));
                    assert(entries_wf(rb.0.entries)) by {
                        assert forall|j: u64| rb.0.entries.dom().contains(j) implies ((
                        #[trigger] rb.0.entries[j]).0 is Some || rb.0.entries[j].1 is Some) by {
                            if j != job {
                                assert(v.cache.entries.dom().contains(j));
                                assert(rb.1 != Some(j));
                                assert(rb.0.entries[j] == v.cache.entries[j]);
                            }
                        }
                    }
                    assert(index_uniq(ix)) by {
                        assert forall|p: int, q: int|
                            0 <= p < ix.len() && 0 <= q < ix.len() && p != q implies ((
                        #[trigger] ix[p]).0 != (#[trigger] ix[q]).0 && ix[p].1 != ix[q].1) by {
                            if p < pruned.len() && q < pruned.len() {
                                assert(ix[p] == pruned[p]);
                                assert(ix[q] == pruned[q]);
                            } else {
                                let r: int = if p < pruned.len() {
                                    p
                                } else {
                                    q
                                };
                                assert(ix[r] == pruned[r]);
                                assert(keep_pair(pruned[r], x, job, rb.1));
                            }
                        }
                    }
                    assert forall|i: int|
                        0 <= i < ix.len() implies rb.0.entries.dom().contains(
                        (#[trigger] ix[i]).1) by {
                        if i < pruned.len() {
                            assert(ix[i] == pruned[i]);
                            assert(keep_pair(pruned[i], x, job, rb.1));
                            assert(v.index.contains(pruned[i]));
                            let k = choose|k: int|
                                0 <= k < v.index.len() && v.index[k] == pruned[i];
                            assert(v.cache.entries.dom().contains(v.index[k].1));
                        }
                    }
                }
            },
        },
    }
}

/// Payload retrieval preserves well-formedness.
pub proof fn lemma_begin_get_wf(v: RelayView, x: u64)
    requires
        relay_wf(v),
    ensures
        relay_wf(spec_begin_get(v, x).0),
        spec_begin_get(v, x).0.policy == v.policy,
        spec_begin_get(v, x).0.cache.capacity == v.cache.capacity,
{
    match index_lookup(v.index, x) {
        None => {},
        Some(job) => {
            lemma_take_wf(v.cache, job);
            lemma_prune_props(v.index, x, job, None);
            let cache1 = spec_take(v.cache, job).0;
            let pruned = prune_index(v.index, x, job, None);
            assert(entries_wf(cache1.entries)) by {
                assert forall|j: u64| cache1.entries.dom().contains(j) implies ((
                #[trigger] cache1.entries[j]).0 is Some || cache1.entries[j].1 is Some) by {
                    assert(v.cache.entries.dom().contains(j));
                    assert(cache1.entries[j] == v.cache.entries[j]);
                }
            }
            assert(index_uniq(pruned));
            assert forall|i: int|
                0 <= i < pruned.len() implies cache1.entries.dom().contains(
                (#[trigger] pruned[i]).1) by {
                assert(keep_pair(pruned[i], x, job, None));
                assert(v.index.contains(pruned[i]));
                let k = choose|k: int| 0 <= k < v.index.len() && v.index[k] == pruned[i];
                assert(v.cache.entries.dom().contains(v.index[k].1));
            }
        },
    }
}

/// Applies the id-selection policy.
fn choose_external_id(policy: IdSelectionPolicy, b: Option<u64>, c: Option<u64>) -> (r: Option<
    u64,
>)
    ensures
        r == spec_external_id(policy, b, c),
{
    match policy {
        IdSelectionPolicy::CanonicalFirst => if c.is_some() {
            c
        } else {
            b
        },
        IdSelectionPolicy::BuildingFirst => if b.is_some() {
            b
        } else {
            c
        },
    }
}

/// The relay: the correlation cache, the external-id index, and the fixed
/// policy that picks the driver-visible payload id.
pub struct Relay {
    cache: CorrelationCache,
    index: Vec<(u64, u64)>,
    policy: IdSelectionPolicy,
}

impl View for Relay {
    type V = RelayView;

    closed spec fn view(&self) -> RelayView {
        RelayView { cache: self.cache@, index: self.index@, policy: self.policy }
    }
}

impl Relay {
    /// A fresh relay whose cache is bounded at `capacity` jobs.
    pub fn new(capacity: usize, policy: IdSelectionPolicy) -> (r: Relay)
        requires
            1 <= capacity,
        ensures
            relay_wf(r@),
            r@.cache.entries =~= crate::cache::no_entries(),
            r@.cache.recency =~= Seq::<u64>::empty(),
            r@.cache.capacity == capacity as nat,
            r@.index =~= Seq::<(u64, u64)>::empty(),
            r@.policy == policy,
    {
        let r = Relay { cache: CorrelationCache::new(capacity), index: Vec::new(), policy };
        proof {
            assert(relay_wf(r@));
        }
        r
    }

    /// The job an external payload id is currently bound to, if any.
    fn index_find(&self, x: u64) -> (r: Option<u64>)
        ensures
            r == index_lookup(self@.index, x),
    {
        let ghost full = self.index@;
        let mut i: usize = 0;
        proof {
            assert(full.skip(0) =~= full);
        }
        while i < self.index.len()
            invariant
                i <= self.index.len(),
                full == self.index@,
                index_lookup(full, x) == index_lookup(full.skip(i as int), x),
            decreases self.index.len() - i,
        {
            let p = self.index[i];
            proof {
                let s = full.skip(i as int);
                assert(s[0] == full[i as int]);
                assert(s.drop_first() =~= full.skip(i + 1));
            }
            if p.0 == x {
                return Some(p.1);
            }
            i = i + 1;
        }
        proof {
            assert(full.skip(full.len() as int) =~= Seq::<(u64, u64)>::empty());
        }
        None
    }

    /// Forkchoice update. Both backends' outcomes are handed in; the
    /// canonical backend's verdict (or failure) decides the call, a minted
    /// payload identifier from either backend is correlated under the job
    /// derived from the inputs, and the policy-chosen external id is bound
    /// and returned to the driver.
    pub fn fork_choice_updated(
        &mut self,
        f: &ForkchoiceStateData,
        attrs: &Option<PayloadAttributesData>,
        building: &FcuOutcome,
        canonical: &FcuOutcome,
    ) -> (r: Result<FcuResponse, RelayError>)
        requires
            relay_wf(old(self)@),
        ensures
            relay_wf(final(self)@),
            final(self)@ =~= spec_fcu(old(self)@, *f, *attrs, *building, *canonical).0,
            r == spec_fcu(old(self)@, *f, *attrs, *building, *canonical).1,
    {
        let ghost v0 = self@;
        proof {
            lemma_fcu_wf(v0, *f, *attrs, *building, *canonical);
        }
        match canonical {
            FcuOutcome::Failed(fl) => Err(relay_error_of(*fl)),
            FcuOutcome::Answered(cresp) => {
                let mut external: Option<u64> = None;
                match attrs {
                    Some(a) => {
                        let job = job_id(f, a);
                        let bpid: Option<u64> = match building {
                            FcuOutcome::Answered(br) => br.payload_id,
                            FcuOutcome::Failed(_) => None,
                        };
                        let cpid = cresp.payload_id;
                        if bpid.is_some() || cpid.is_some() {
                            let mut evicted: Option<u64> = None;
                            if let Some(p) = bpid {
                                evicted = self.cache.record(job, BackendId::Building, p);
                            }
                            if let Some(p) = cpid {
                                let e2 = self.cache.record(job, BackendId::Canonical, p);
                                if evicted.is_none() {
                                    evicted = e2;
                                }
                            }
                            proof {
                                assert(self.cache@ =~= spec_record_both(v0.cache, job, bpid, cpid).0);
                                assert(evicted == spec_record_both(v0.cache, job, bpid, cpid).1);
                            }
                            let x_opt = choose_external_id(self.policy, bpid, cpid);
                            let x = x_opt.unwrap();
                            prune_bindings(&mut self.index, x, job, evicted);
                            self.index.push((x, job));
                            external = Some(x);
                        }
                    },
                    None => {},
                }
                proof {
                    assert(final(self)@ =~= spec_fcu(v0, *f, *attrs, *building, *canonical).0);
                }
                Ok(FcuResponse { status: cresp.status, payload_id: external })
            },
        }
    }

    /// Payload retrieval, first half: resolve the driver's external payload
    /// id to its job, consume the job's correlation entries, and report what
    /// remains to be fetched from which backend. An unknown or already
    /// consumed id is `NotFound`; so is one whose job the cache has evicted.
    pub fn begin_get_payload(&mut self, external_id: u64) -> (r: Result<
        RetrievalPlan,
        RelayError,
    >)
        requires
            relay_wf(old(self)@),
        ensures
            relay_wf(final(self)@),
            final(self)@ =~= spec_begin_get(old(self)@, external_id).0,
            r == spec_begin_get(old(self)@, external_id).1,
            r matches Ok(plan) ==> (plan.building is Some || plan.canonical is Some),
    {
        let ghost v0 = self@;
        proof {
            lemma_begin_get_wf(v0, external_id);
        }
        let found = self.index_find(external_id);
        match found {
            None => Err(RelayError::NotFound),
            Some(job) => {
                let pair = self.cache.take(job);
                prune_bindings(&mut self.index, external_id, job, None);
                proof {
                    assert(final(self)@ =~= spec_begin_get(v0, external_id).0);
                }
                match pair {
                    (None, None) => Err(RelayError::NotFound),
                    _ => Ok(RetrievalPlan { job, building: pair.0, canonical: pair.1 }),
                }
            },
        }
    }
}

/// Payload retrieval, second half: given what each consulted backend handed
/// back, prefer the building backend's payload, fall back to the canonical
/// backend's, and fail only when every consulted source failed. The caller
/// consults the building backend exactly when the plan names it, and the
/// canonical backend exactly when the plan names it and the building backend
/// did not deliver.
pub fn finish_get_payload(
    plan: &RetrievalPlan,
    building_fetch: &Option<FetchOutcome>,
    canonical_fetch: &Option<FetchOutcome>,
) -> (r: Result<PayloadData, RelayError>)
    requires
        plan.building is Some || plan.canonical is Some,
        building_fetch.is_some() == plan.building.is_some(),
        canonical_fetch.is_some() == (plan.canonical.is_some() && !fetch_ok(*building_fetch)),
    ensures
        r == spec_finish_get(*plan, *building_fetch, *canonical_fetch),
        r is Ok <==> (fetch_ok(*building_fetch) || fetch_ok(*canonical_fetch)),
{
    match building_fetch {
        Some(FetchOutcome::Answered(p)) => Ok(*p),
        _ => match canonical_fetch {
            Some(FetchOutcome::Answered(p)) => Ok(*p),
            Some(FetchOutcome::Failed(fl)) => Err(relay_error_of(*fl)),
            None => match building_fetch {
                Some(FetchOutcome::Failed(fl)) => Err(relay_error_of(*fl)),
                _ => Err(RelayError::NotFound),
            },
        },
    }
}

/// Payload validation: the canonical backend's verdict is returned verbatim,
/// or its failure fails the call; the building backend's concurrent verdict
/// is recorded only as a divergence signal and never substitutes.
pub fn new_payload(building: &StatusOutcome, canonical: &StatusOutcome) -> (r: Result<
    ValidationOutcome,
    RelayError,
>)
    ensures
        r == spec_new_payload(*building, *canonical),
{
    match canonical {
        StatusOutcome::Failed(fl) => Err(relay_error_of(*fl)),
        StatusOutcome::Answered(s) => Ok(
            ValidationOutcome {
                status: *s,
                building_diverged: match building {
                    StatusOutcome::Answered(bs) => Some(*bs != *s),
                    StatusOutcome::Failed(_) => None,
                },
            },
        ),
    }
}

} // verus!
