//! The relay's guiding properties, stated and proved over the spec-level
//! transitions that the executable methods are verified against. Relay
//! operations are atomic with respect to each other, so any concurrent
//! schedule of calls is some interleaving of these transitions.

use vstd::prelude::*;
use crate::cache::CacheView;
use crate::cache::cache_wf;
use crate::cache::merged_pair;
use crate::cache::spec_record;
use crate::cache::spec_take;
use crate::cache::lemma_record_wf;
use crate::cache::lemma_take_wf;
use crate::errors::RelayError;
use crate::errors::error_of_failure;
use crate::job::job_identity;
use crate::relay::RelayView;
use crate::relay::RetrievalPlan;
use crate::relay::fetch_ok;
use crate::relay::index_lookup;
use crate::relay::keep_pair;
use crate::relay::lemma_begin_get_wf;
use crate::relay::lemma_fcu_wf;
use crate::relay::lemma_index_lookup_props;
use crate::relay::lemma_index_lookup_push;
use crate::relay::lemma_prune_props;
use crate::relay::lemma_record_both_wf;
use crate::relay::outcome_payload_id;
use crate::relay::prune_index;
use crate::relay::relay_wf;
use crate::relay::spec_begin_get;
use crate::relay::spec_fcu;
use crate::relay::spec_finish_get;
use crate::relay::spec_new_payload;
use crate::relay::spec_record_both;
use crate::types::BackendFailure;
use crate::types::BackendId;
use crate::types::FcuOutcome;
use crate::types::FcuResponse;
use crate::types::FetchOutcome;
use crate::types::ForkchoiceStateData;
use crate::types::PayloadAttributesData;
use crate::types::PayloadData;
use crate::types::StatusOutcome;

verus! {

/// If the canonical backend fails a forkchoice update, the whole call fails
/// with that failure's error and the relay state does not change, whatever
/// the building backend's outcome was.
pub proof fn lemma_canonical_failure_fails_forkchoice(
    v: RelayView,
    f: ForkchoiceStateData,
    attrs: Option<PayloadAttributesData>,
    building: FcuOutcome,
    fl: BackendFailure,
)
    ensures
        spec_fcu(v, f, attrs, building, FcuOutcome::Failed(fl)).1 matches Err(e) && e
            == error_of_failure(fl),
        spec_fcu(v, f, attrs, building, FcuOutcome::Failed(fl)).0 == v,
{
}

/// If the canonical backend fails a new-payload call, the whole call fails
/// with that failure's error; the building backend's concurrent verdict —
/// whatever it was — never substitutes.
pub proof fn lemma_canonical_failure_fails_validation(building: StatusOutcome, fl: BackendFailure)
    ensures
        spec_new_payload(building, StatusOutcome::Failed(fl)) matches Err(e) && e
            == error_of_failure(fl),
{
}

/// A successful forkchoice update that returned an external payload id is
/// followed by exactly one successful retrieval of that id: the first
/// retrieval finds a plan, the second is `NotFound`.
pub proof fn lemma_retrieval_succeeds_exactly_once(
    v: RelayView,
    f: ForkchoiceStateData,
    a: PayloadAttributesData,
    building: FcuOutcome,
    canonical: FcuOutcome,
    resp: FcuResponse,
    x: u64,
)
    requires
        relay_wf(v),
        spec_fcu(v, f, Some(a), building, canonical).1 matches Ok(rr) && rr == resp,
        resp.payload_id == Some(x),
    ensures
        spec_begin_get(spec_fcu(v, f, Some(a), building, canonical).0, x).1 is Ok,
        spec_begin_get(
            spec_begin_get(spec_fcu(v, f, Some(a), building, canonical).0, x).0,
            x,
        ).1 matches Err(e) && e == RelayError::NotFound,
{
    let v1 = spec_fcu(v, f, Some(a), building, canonical).0;
    lemma_fcu_wf(v, f, Some(a), building, canonical);
    let job = job_identity(f, a);
    let b = outcome_payload_id(building);
    let cresp = canonical->Answered_0;
    let c = cresp.payload_id;
    let rb = spec_record_both(v.cache, job, b, c);
    lemma_record_both_wf(v.cache, job, b, c);
    let pruned = prune_index(v.index, x, job, rb.1);
    lemma_prune_props(v.index, x, job, rb.1);
    assert forall|i: int| 0 <= i < pruned.len() implies (#[trigger] pruned[i]).0 != x by {
        assert(keep_pair(pruned[i], x, job, rb.1));
    }
    lemma_index_lookup_push(pruned, x, job);
    assert(index_lookup(v1.index, x) == Some(job));
    assert(v1.cache.entries.dom().contains(job));
    assert(v1.cache.entries[job].0 is Some || v1.cache.entries[job].1 is Some);
    let v2 = spec_begin_get(v1, x).0;
    lemma_begin_get_wf(v1, x);
    let pruned2 = prune_index(v1.index, x, job, None);
    lemma_prune_props(v1.index, x, job, None);
    lemma_index_lookup_props(v2.index, x);
    match index_lookup(v2.index, x) {
        Some(j2) => {
            assert(v2.index.contains((x, j2)));
            let k = choose|k: int| 0 <= k < v2.index.len() && v2.index[k] == (x, j2);
            assert(keep_pair(v2.index[k], x, job, None));
            assert(false);
        },
        None => {},
    }
}

/// If exactly one backend accepted the build request of a fresh job, the
/// retrieval plan names exactly that backend's payload identifier, and a
/// successful fetch from it answers the retrieval with its payload.
pub proof fn lemma_one_sided_acceptance_retrieval(
    v: RelayView,
    f: ForkchoiceStateData,
    a: PayloadAttributesData,
    building: FcuOutcome,
    canonical: FcuOutcome,
    resp: FcuResponse,
    x: u64,
    p: PayloadData,
)
    requires
        relay_wf(v),
        !v.cache.entries.dom().contains(job_identity(f, a)),
        spec_fcu(v, f, Some(a), building, canonical).1 matches Ok(rr) && rr == resp,
        resp.payload_id == Some(x),
        (outcome_payload_id(building) is Some) != (outcome_payload_id(canonical) is Some),
    ensures
        spec_begin_get(spec_fcu(v, f, Some(a), building, canonical).0, x).1 matches Ok(plan)
            && plan == (RetrievalPlan {
            job: job_identity(f, a),
            building: outcome_payload_id(building),
            canonical: outcome_payload_id(canonical),
        }),
        outcome_payload_id(building) is Some ==> (spec_finish_get(
            spec_begin_get(spec_fcu(v, f, Some(a), building, canonical).0, x).1->Ok_0,
            Some(FetchOutcome::Answered(p)),
            None,
        ) matches Ok(got) && got == p),
        outcome_payload_id(canonical) is Some ==> (spec_finish_get(
            spec_begin_get(spec_fcu(v, f, Some(a), building, canonical).0, x).1->Ok_0,
            None,
            Some(FetchOutcome::Answered(p)),
        ) matches Ok(got) && got == p),
{
    let v1 = spec_fcu(v, f, Some(a), building, canonical).0;
    lemma_fcu_wf(v, f, Some(a), building, canonical);
    let job = job_identity(f, a);
    let b = outcome_payload_id(building);
    let cresp = canonical->Answered_0;
    let c = cresp.payload_id;
    let rb = spec_record_both(v.cache, job, b, c);
    lemma_record_both_wf(v.cache, job, b, c);
    let pruned = prune_index(v.index, x, job, rb.1);
    lemma_prune_props(v.index, x, job, rb.1);
    assert forall|i: int| 0 <= i < pruned.len() implies (#[trigger] pruned[i]).0 != x by {
        assert(keep_pair(pruned[i], x, job, rb.1));
    }
    lemma_index_lookup_push(pruned, x, job);
    assert(index_lookup(v1.index, x) == Some(job));
    assert(v1.cache.entries[job] == (b, c));
}

/// Recording a new job in a full cache evicts exactly the least recently
/// touched job, and a subsequent `take` of the evicted job finds nothing and
/// changes nothing.
pub proof fn lemma_full_cache_evicts_least_recent(
    v: CacheView,
    job: u64,
    backend: BackendId,
    pid: u64,
)
    requires
        cache_wf(v),
        !v.entries.dom().contains(job),
        v.recency.len() == v.capacity,
    ensures
        spec_record(v, job, backend, pid).1 == Some(v.recency.last()),
        spec_take(spec_record(v, job, backend, pid).0, v.recency.last()).1 == (
            None::<u64>,
            None::<u64>,
        ),
        spec_take(spec_record(v, job, backend, pid).0, v.recency.last()).0 == spec_record(
            v,
            job,
            backend,
            pid,
        ).0,
{
    lemma_record_wf(v, job, backend, pid);
    lemma_take_wf(spec_record(v, job, backend, pid).0, v.recency.last());
}

/// The jobs named by a request list.
pub open spec fn jobs_of(reqs: Seq<(u64, u64)>) -> Seq<u64> {
    reqs.map_values(|r: (u64, u64)| r.0)
}

/// Recording a list of (job, payload identifier) requests, in order, for one
/// backend.
pub open spec fn spec_record_all(v: CacheView, reqs: Seq<(u64, u64)>, backend: BackendId) -> CacheView
    decreases reqs.len(),
{
    if reqs.len() == 0 {
        v
    } else {
        spec_record_all(spec_record(v, reqs[0].0, backend, reqs[0].1).0, reqs.drop_first(), backend)
    }
}

/// Recording any number of distinct new jobs, none exceeding capacity,
/// yields one independent entry per job carrying exactly its own payload
/// identifier — no cross-contamination — leaves every previously held entry
/// untouched, and orders recency newest first.
pub proof fn lemma_distinct_jobs_independent(v: CacheView, reqs: Seq<(u64, u64)>, backend: BackendId)
    requires
        cache_wf(v),
        jobs_of(reqs).no_duplicates(),
        forall|i: int| 0 <= i < reqs.len() ==> !v.entries.dom().contains((#[trigger] reqs[i]).0),
        v.recency.len() + reqs.len() <= v.capacity,
    ensures
        cache_wf(spec_record_all(v, reqs, backend)),
        spec_record_all(v, reqs, backend).capacity == v.capacity,
        spec_record_all(v, reqs, backend).recency =~= jobs_of(reqs).reverse() + v.recency,
        forall|i: int|
            0 <= i < reqs.len() ==> spec_record_all(v, reqs, backend).entries.dom().contains(
                (#[trigger] reqs[i]).0,
            ),
        forall|i: int|
            0 <= i < reqs.len() ==> spec_record_all(v, reqs, backend).entries[(
            #[trigger] reqs[i]).0] == merged_pair((None, None), backend, reqs[i].1),
        forall|j: u64| #![trigger v.entries.dom().contains(j)]
            v.entries.dom().contains(j) ==> (spec_record_all(v, reqs, backend).entries.dom().contains(
                j,
            ) && spec_record_all(v, reqs, backend).entries[j] == v.entries[j]),
    decreases reqs.len(),
{
    if reqs.len() == 0 {
        assert(jobs_of(reqs).reverse() + v.recency =~= v.recency);
    } else {
        let j0 = reqs[0].0;
        let p0 = reqs[0].1;
        lemma_record_wf(v, j0, backend, p0);
        let v1 = spec_record(v, j0, backend, p0).0;
        let rest = reqs.drop_first();
        assert forall|i: int| 0 <= i < rest.len() implies #[trigger] rest[i] == reqs[i + 1] by {}
        assert forall|i: int| 0 <= i < jobs_of(rest).len() implies #[trigger] jobs_of(rest)[i]
            == jobs_of(reqs)[i + 1] by {}
        assert(jobs_of(rest).no_duplicates()) by {
            assert forall|p: int, q: int|
                0 <= p < jobs_of(rest).len() && 0 <= q < jobs_of(rest).len() && p != q implies
                jobs_of(rest)[p] != jobs_of(rest)[q] by {
                assert(jobs_of(reqs)[p + 1] != jobs_of(reqs)[q + 1]);
            }
        }
        assert forall|i: int|
            0 <= i < rest.len() implies !v1.entries.dom().contains((#[trigger] rest[i]).0) by {
            assert(rest[i] == reqs[i + 1]);
            assert(jobs_of(reqs)[i + 1] == reqs[i + 1].0);
            assert(jobs_of(reqs)[0] == j0);
            assert(!v.entries.dom().contains(reqs[i + 1].0));
        }
        lemma_distinct_jobs_independent(v1, rest, backend);
        let after = spec_record_all(v, reqs, backend);
        assert(after == spec_record_all(v1, rest, backend));
        assert(v1.entries.dom().contains(j0));
        assert(v1.entries[j0] == merged_pair((None, None), backend, p0));
        assert forall|i: int| 0 <= i < rest.len() implies (#[trigger] rest[i]).0 != j0 by {
            assert(jobs_of(rest)[i] == rest[i].0);
            assert(jobs_of(reqs)[i + 1] == rest[i].0);
            assert(jobs_of(reqs)[0] == j0);
        }
        assert(spec_record_all(v1, rest, backend).entries.dom().contains(j0)
            && spec_record_all(v1, rest, backend).entries[j0] == v1.entries[j0]);
        assert forall|j: u64| #![trigger v.entries.dom().contains(j)]
            v.entries.dom().contains(j) implies (after.entries.dom().contains(j)
            && after.entries[j] == v.entries[j]) by {
            assert(j != j0);
            assert(v1.entries.dom().contains(j));
            assert(v1.entries[j] == v.entries[j]);
            assert(spec_record_all(v1, rest, backend).entries.dom().contains(j)
                && spec_record_all(v1, rest, backend).entries[j] == v1.entries[j]);
        }
        assert(after.recency =~= jobs_of(reqs).reverse() + v.recency) by {
            assert(after.recency =~= jobs_of(rest).reverse() + (seq![j0] + v.recency));
            assert forall|i: int|
                0 <= i < jobs_of(reqs).reverse().len() implies #[trigger] (jobs_of(
                reqs,
            ).reverse())[i] == (jobs_of(rest).reverse() + seq![j0])[i] by {
                if i < jobs_of(rest).len() {
                    assert(jobs_of(reqs).reverse()[i] == jobs_of(reqs)[jobs_of(reqs).len() - 1
                        - i]);
                }
            }
            assert(jobs_of(reqs).reverse() =~= jobs_of(rest).reverse() + seq![j0]);
        }
        assert forall|i: int|
            0 <= i < reqs.len() implies (after.entries.dom().contains((#[trigger] reqs[i]).0)
            && after.entries[reqs[i].0] == merged_pair((None, None), backend, reqs[i].1)) by {
            if i == 0 {
                assert(v1.entries.dom().contains(j0));
                assert(v1.entries[j0] == merged_pair((None, None), backend, p0));
            } else {
                assert(rest[i - 1] == reqs[i]);
            }
        }
    }
}

/// Inserting one more distinct new job than the cache's capacity evicts the
/// first-inserted — least recently touched — job, whose subsequent `take`
/// finds nothing.
pub proof fn lemma_capacity_overflow_evicts_first(
    v: CacheView,
    reqs: Seq<(u64, u64)>,
    backend: BackendId,
    extra_job: u64,
    extra_pid: u64,
)
    requires
        cache_wf(v),
        v.entries.dom() =~= Set::<u64>::empty(),
        v.recency =~= Seq::<u64>::empty(),
        jobs_of(reqs).no_duplicates(),
        reqs.len() == v.capacity,
        forall|i: int| 0 <= i < reqs.len() ==> (#[trigger] reqs[i]).0 != extra_job,
    ensures
        spec_record(spec_record_all(v, reqs, backend), extra_job, backend, extra_pid).1 == Some(
            reqs[0].0,
        ),
        spec_take(
            spec_record(spec_record_all(v, reqs, backend), extra_job, backend, extra_pid).0,
            reqs[0].0,
        ).1 == (None::<u64>, None::<u64>),
{
    lemma_distinct_jobs_independent(v, reqs, backend);
    let after = spec_record_all(v, reqs, backend);
    assert(after.recency =~= jobs_of(reqs).reverse());
    assert(after.recency.len() == v.capacity);
    assert(after.recency.last() == jobs_of(reqs)[0]);
    assert(jobs_of(reqs)[0] == reqs[0].0);
    assert(!after.entries.dom().contains(extra_job)) by {
        if after.entries.dom().contains(extra_job) {
            assert(after.recency.to_set().contains(extra_job));
            assert(after.recency.contains(extra_job));
            let i = choose|i: int|
                0 <= i < after.recency.len() && after.recency[i] == extra_job;
            assert(jobs_of(reqs)[jobs_of(reqs).len() - 1 - i] == extra_job);
        }
    }
    lemma_full_cache_evicts_least_recent(after, extra_job, backend, extra_pid);
}

/// Whenever the retrieval plan names at least one backend, the retrieval as
/// a whole succeeds exactly when some consulted backend's fetch succeeded.
pub proof fn lemma_retrieval_fails_only_if_all_sources_fail(
    plan: RetrievalPlan,
    building_fetch: Option<FetchOutcome>,
    canonical_fetch: Option<FetchOutcome>,
)
    requires
        plan.building is Some || plan.canonical is Some,
        building_fetch.is_some() == plan.building.is_some(),
        canonical_fetch.is_some() == (plan.canonical.is_some() && !fetch_ok(building_fetch)),
    ensures
        spec_finish_get(plan, building_fetch, canonical_fetch) is Ok <==> (fetch_ok(building_fetch)
            || fetch_ok(canonical_fetch)),
{
}

} // verus!
