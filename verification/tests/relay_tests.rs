use engine_relay::cache::CorrelationCache;
use engine_relay::errors::error_code;
use engine_relay::errors::error_message;
use engine_relay::errors::relay_error_of;
use engine_relay::errors::RelayError;
use engine_relay::errors::INTERNAL_ERROR_CODE;
use engine_relay::errors::INVALID_REQUEST_CODE;
use engine_relay::job::job_id;
use engine_relay::relay::finish_get_payload;
use engine_relay::relay::new_payload;
use engine_relay::relay::IdSelectionPolicy;
use engine_relay::relay::Relay;
use engine_relay::types::AddressData;
use engine_relay::types::BackendFailure;
use engine_relay::types::BackendId;
use engine_relay::types::BlockHash;
use engine_relay::types::FcuOutcome;
use engine_relay::types::FcuResponse;
use engine_relay::types::FetchOutcome;
use engine_relay::types::ForkchoiceStateData;
use engine_relay::types::PayloadAttributesData;
use engine_relay::types::PayloadData;
use engine_relay::types::PayloadStatusKind;
use engine_relay::types::StatusOutcome;
use engine_relay::types::WithdrawalData;

fn hash(n: u64) -> BlockHash {
    BlockHash { w0: n, w1: n.wrapping_mul(3), w2: n.wrapping_add(17), w3: !n }
}

fn state(n: u64) -> ForkchoiceStateData {
    ForkchoiceStateData {
        head_block_hash: hash(n),
        safe_block_hash: hash(n + 1),
        finalized_block_hash: hash(n + 2),
    }
}

fn attrs(ts: u64) -> PayloadAttributesData {
    PayloadAttributesData {
        timestamp: ts,
        prev_randao: hash(ts + 100),
        suggested_fee_recipient: AddressData { w0: 5, w1: 6, w2: 7 },
        withdrawals: vec![
            WithdrawalData {
                index: 1,
                validator_index: 9,
                address: AddressData { w0: 1, w1: 2, w2: 3 },
                amount: 1000,
            },
        ],
        parent_beacon_block_root: hash(ts + 200),
    }
}

fn answered(status: PayloadStatusKind, pid: Option<u64>) -> FcuOutcome {
    FcuOutcome::Answered(FcuResponse { status, payload_id: pid })
}

fn payload(n: u64) -> PayloadData {
    PayloadData {
        block_number: n,
        block_hash: hash(n),
        parent_hash: hash(n + 1),
        block_value: 42,
    }
}

#[test]
fn job_identity_is_deterministic() {
    let f = state(1);
    let a = attrs(1000);
    let id1 = job_id(&f, &a);
    let id2 = job_id(&f, &attrs(1000));
    assert_eq!(id1, id2);
}

#[test]
fn job_identity_distinguishes_inputs() {
    let f = state(1);
    assert_ne!(job_id(&f, &attrs(1000)), job_id(&f, &attrs(1001)));
    assert_ne!(job_id(&state(1), &attrs(1000)), job_id(&state(2), &attrs(1000)));
}

#[test]
fn job_identity_covers_withdrawals() {
    let f = state(1);
    let mut a = attrs(1000);
    let base = job_id(&f, &a);
    a.withdrawals[0].amount = 2000;
    assert_ne!(job_id(&f, &a), base);
    a.withdrawals.clear();
    assert_ne!(job_id(&f, &a), base);
}

#[test]
fn retrieval_succeeds_exactly_once() {
    let mut relay = Relay::new(8, IdSelectionPolicy::CanonicalFirst);
    let f = state(1);
    let a = Some(attrs(1000));
    let building = answered(PayloadStatusKind::Valid, Some(11));
    let canonical = answered(PayloadStatusKind::Valid, Some(77));
    let resp = relay.fork_choice_updated(&f, &a, &building, &canonical).unwrap();
    assert_eq!(resp.status, PayloadStatusKind::Valid);
    assert_eq!(resp.payload_id, Some(77));

    let plan = relay.begin_get_payload(77).unwrap();
    assert_eq!(plan.building, Some(11));
    assert_eq!(plan.canonical, Some(77));

    assert_eq!(relay.begin_get_payload(77), Err(RelayError::NotFound));
}

#[test]
fn building_first_policy_hands_out_building_id() {
    let mut relay = Relay::new(8, IdSelectionPolicy::BuildingFirst);
    let f = state(1);
    let a = Some(attrs(1000));
    let building = answered(PayloadStatusKind::Valid, Some(11));
    let canonical = answered(PayloadStatusKind::Valid, Some(77));
    let resp = relay.fork_choice_updated(&f, &a, &building, &canonical).unwrap();
    assert_eq!(resp.payload_id, Some(11));
    let plan = relay.begin_get_payload(11).unwrap();
    assert_eq!(plan.building, Some(11));
    assert_eq!(plan.canonical, Some(77));
}

#[test]
fn one_sided_acceptance_still_retrieves() {
    // Only the building backend accepts the build.
    let mut relay = Relay::new(8, IdSelectionPolicy::CanonicalFirst);
    let f = state(1);
    let a = Some(attrs(1000));
    let building = answered(PayloadStatusKind::Valid, Some(11));
    let canonical = answered(PayloadStatusKind::Valid, None);
    let resp = relay.fork_choice_updated(&f, &a, &building, &canonical).unwrap();
    assert_eq!(resp.payload_id, Some(11));
    let plan = relay.begin_get_payload(11).unwrap();
    assert_eq!(plan.building, Some(11));
    assert_eq!(plan.canonical, None);
    let got = finish_get_payload(&plan, &Some(FetchOutcome::Answered(payload(5))), &None);
    assert_eq!(got, Ok(payload(5)));

    // Only the canonical backend accepts the build.
    let mut relay2 = Relay::new(8, IdSelectionPolicy::CanonicalFirst);
    let building2 = answered(PayloadStatusKind::Valid, None);
    let canonical2 = answered(PayloadStatusKind::Valid, Some(77));
    let resp2 = relay2.fork_choice_updated(&f, &a, &building2, &canonical2).unwrap();
    assert_eq!(resp2.payload_id, Some(77));
    let plan2 = relay2.begin_get_payload(77).unwrap();
    assert_eq!(plan2.building, None);
    assert_eq!(plan2.canonical, Some(77));
    let got2 = finish_get_payload(&plan2, &None, &Some(FetchOutcome::Answered(payload(9))));
    assert_eq!(got2, Ok(payload(9)));
}

#[test]
fn canonical_timeout_fails_forkchoice_update() {
    let mut relay = Relay::new(8, IdSelectionPolicy::CanonicalFirst);
    let f = state(1);
    let a = Some(attrs(1000));
    let building = answered(PayloadStatusKind::Valid, Some(11));
    let canonical = FcuOutcome::Failed(BackendFailure::Timeout);
    let r = relay.fork_choice_updated(&f, &a, &building, &canonical);
    assert_eq!(r, Err(RelayError::Timeout));
    // Nothing was correlated: the building backend's id is not retrievable.
    assert_eq!(relay.begin_get_payload(11), Err(RelayError::NotFound));
}

#[test]
fn building_failure_is_absorbed() {
    let mut relay = Relay::new(8, IdSelectionPolicy::CanonicalFirst);
    let f = state(1);
    let a = Some(attrs(1000));
    let building = FcuOutcome::Failed(BackendFailure::Transport);
    let canonical = answered(PayloadStatusKind::Valid, Some(77));
    let resp = relay.fork_choice_updated(&f, &a, &building, &canonical).unwrap();
    assert_eq!(resp.status, PayloadStatusKind::Valid);
    assert_eq!(resp.payload_id, Some(77));
}

#[test]
fn canonical_timeout_fails_new_payload() {
    // The building backend's concurrent verdict never substitutes, whatever it is.
    let r = new_payload(
        &StatusOutcome::Answered(PayloadStatusKind::Invalid),
        &StatusOutcome::Failed(BackendFailure::Timeout),
    );
    assert_eq!(r, Err(RelayError::Timeout));
    let r2 = new_payload(
        &StatusOutcome::Answered(PayloadStatusKind::Valid),
        &StatusOutcome::Failed(BackendFailure::Timeout),
    );
    assert_eq!(r2, Err(RelayError::Timeout));
}

#[test]
fn new_payload_reports_divergence_only() {
    let r = new_payload(
        &StatusOutcome::Answered(PayloadStatusKind::Invalid),
        &StatusOutcome::Answered(PayloadStatusKind::Valid),
    )
    .unwrap();
    assert_eq!(r.status, PayloadStatusKind::Valid);
    assert_eq!(r.building_diverged, Some(true));

    let agree = new_payload(
        &StatusOutcome::Answered(PayloadStatusKind::Valid),
        &StatusOutcome::Answered(PayloadStatusKind::Valid),
    )
    .unwrap();
    assert_eq!(agree.building_diverged, Some(false));

    let lone = new_payload(
        &StatusOutcome::Failed(BackendFailure::Transport),
        &StatusOutcome::Answered(PayloadStatusKind::Syncing),
    )
    .unwrap();
    assert_eq!(lone.status, PayloadStatusKind::Syncing);
    assert_eq!(lone.building_diverged, None);
}

#[test]
fn cache_evicts_least_recently_touched_job_first() {
    let mut cache = CorrelationCache::new(2);
    assert_eq!(cache.record(1, BackendId::Building, 101), None);
    assert_eq!(cache.record(2, BackendId::Building, 102), None);
    // A third distinct job exceeds capacity: job 1 is the least recently
    // touched and is evicted in full.
    assert_eq!(cache.record(3, BackendId::Building, 103), Some(1));
    assert_eq!(cache.take(1), (None, None));
    assert_eq!(cache.take(3), (Some(103), None));
}

#[test]
fn cache_lookup_refreshes_recency() {
    let mut cache = CorrelationCache::new(2);
    cache.record(1, BackendId::Building, 101);
    cache.record(2, BackendId::Canonical, 202);
    // Touching job 1 makes job 2 the least recently used.
    assert_eq!(cache.lookup(1, BackendId::Building), Some(101));
    assert_eq!(cache.lookup(1, BackendId::Canonical), None);
    assert_eq!(cache.record(3, BackendId::Building, 103), Some(2));
    assert_eq!(cache.take(2), (None, None));
    assert_eq!(cache.take(1), (Some(101), None));
}

#[test]
fn cache_failed_lookup_leaves_recency_alone() {
    let mut cache = CorrelationCache::new(2);
    cache.record(1, BackendId::Building, 101);
    cache.record(2, BackendId::Building, 102);
    // A miss must not touch anything: job 1 stays least recently used.
    assert_eq!(cache.lookup(9, BackendId::Building), None);
    assert_eq!(cache.record(3, BackendId::Building, 103), Some(1));
}

#[test]
fn cache_keeps_both_backend_entries_under_one_job() {
    let mut cache = CorrelationCache::new(4);
    cache.record(7, BackendId::Building, 11);
    cache.record(7, BackendId::Canonical, 77);
    assert_eq!(cache.len(), 1);
    assert_eq!(cache.take(7), (Some(11), Some(77)));
    assert_eq!(cache.take(7), (None, None));
}

#[test]
fn concurrent_jobs_do_not_contaminate_each_other() {
    let mut relay = Relay::new(8, IdSelectionPolicy::CanonicalFirst);
    let n: u64 = 5;
    let mut external: Vec<u64> = Vec::new();
    for i in 0..n {
        let f = state(i * 10);
        let a = Some(attrs(1000 + i));
        let building = answered(PayloadStatusKind::Valid, Some(1000 + i));
        let canonical = answered(PayloadStatusKind::Valid, Some(2000 + i));
        let resp = relay.fork_choice_updated(&f, &a, &building, &canonical).unwrap();
        external.push(resp.payload_id.unwrap());
    }
    for i in 0..n as usize {
        let plan = relay.begin_get_payload(external[i]).unwrap();
        assert_eq!(plan.building, Some(1000 + i as u64));
        assert_eq!(plan.canonical, Some(2000 + i as u64));
    }
}

#[test]
fn slow_building_backend_within_deadline_scenario() {
    // Backend timeout 100 ms: the canonical backend answers VALID in 50 ms
    // with no payload id; the building backend takes 200 ms and so times out.
    let mut relay = Relay::new(8, IdSelectionPolicy::CanonicalFirst);
    let f = state(1);
    let a = Some(attrs(1000));
    let building = FcuOutcome::Failed(BackendFailure::Timeout);
    let canonical = answered(PayloadStatusKind::Valid, None);
    let resp = relay.fork_choice_updated(&f, &a, &building, &canonical).unwrap();
    assert_eq!(resp.status, PayloadStatusKind::Valid);
    // Neither backend minted an id, so nothing is retrievable.
    assert_eq!(resp.payload_id, None);
    assert_eq!(relay.begin_get_payload(1), Err(RelayError::NotFound));
}

#[test]
fn retrieval_falls_back_to_canonical_and_fails_only_if_all_fail() {
    let mut relay = Relay::new(8, IdSelectionPolicy::CanonicalFirst);
    let f = state(1);
    let a = Some(attrs(1000));
    let building = answered(PayloadStatusKind::Valid, Some(11));
    let canonical = answered(PayloadStatusKind::Valid, Some(77));
    relay.fork_choice_updated(&f, &a, &building, &canonical).unwrap();
    let plan = relay.begin_get_payload(77).unwrap();
    // The building fetch fails; the canonical entry answers.
    let got = finish_get_payload(
        &plan,
        &Some(FetchOutcome::Failed(BackendFailure::Transport)),
        &Some(FetchOutcome::Answered(payload(6))),
    );
    assert_eq!(got, Ok(payload(6)));
    // Both candidate sources fail: the canonical failure is reported.
    let none = finish_get_payload(
        &plan,
        &Some(FetchOutcome::Failed(BackendFailure::Transport)),
        &Some(FetchOutcome::Failed(BackendFailure::Timeout)),
    );
    assert_eq!(none, Err(RelayError::Timeout));
}

#[test]
fn error_codes_distinguish_caller_faults_from_upstream_faults() {
    assert_eq!(error_code(RelayError::NotFound), INVALID_REQUEST_CODE);
    assert_eq!(error_code(RelayError::Timeout), INTERNAL_ERROR_CODE);
    assert_eq!(error_code(RelayError::Transport), INTERNAL_ERROR_CODE);
    assert_eq!(error_code(RelayError::AuthRejected), INTERNAL_ERROR_CODE);
    assert_eq!(error_message(RelayError::NotFound), "unknown payload id");
    assert_eq!(error_message(RelayError::Timeout), "backend timed out");
    assert_eq!(relay_error_of(BackendFailure::AuthRejected), RelayError::AuthRejected);
}

#[test]
fn rerequesting_a_job_replaces_its_external_binding() {
    let mut relay = Relay::new(8, IdSelectionPolicy::CanonicalFirst);
    let f = state(1);
    let a = Some(attrs(1000));
    let first = relay
        .fork_choice_updated(
            &f,
            &a,
            &answered(PayloadStatusKind::Valid, None),
            &answered(PayloadStatusKind::Valid, Some(77)),
        )
        .unwrap();
    assert_eq!(first.payload_id, Some(77));
    // The same job is re-requested and the canonical backend mints a new id:
    // the old binding is superseded.
    let second = relay
        .fork_choice_updated(
            &f,
            &a,
            &answered(PayloadStatusKind::Valid, None),
            &answered(PayloadStatusKind::Valid, Some(88)),
        )
        .unwrap();
    assert_eq!(second.payload_id, Some(88));
    assert_eq!(relay.begin_get_payload(77), Err(RelayError::NotFound));
    let plan = relay.begin_get_payload(88).unwrap();
    assert_eq!(plan.canonical, Some(88));
}
