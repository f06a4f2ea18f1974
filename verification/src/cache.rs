//! The payload-correlation cache: a bounded, least-recently-used map from a
//! build-job identity to the payload identifiers the two backends minted for
//! that job. The storage is `lru::LruCache`; its behaviour is stated here over
//! three names — the entries it holds, its recency order, and its capacity —
//! and the `CorrelationCache` on top is verified against those statements.

use vstd::prelude::*;
use crate::types::BackendId;

verus! {

/// One cached correlation entry: the building backend's payload identifier,
/// if it accepted the build, and the canonical backend's likewise.
pub type PayloadPair = (Option<u64>, Option<u64>);

#[verifier::external_type_specification]
#[verifier::external_body]
#[verifier::reject_recursive_types(K)]
#[verifier::reject_recursive_types(V)]
#[verifier::reject_recursive_types(S)]
pub struct ExLruCache<K, V, S>(lru::LruCache<K, V, S>);

/// The job store underneath the correlation cache.
pub type JobStore = lru::LruCache<u64, PayloadPair, std::collections::hash_map::RandomState>;

/// The entries a job store holds, as a map from job identity to payload pair.
pub uninterp spec fn store_entries(c: JobStore) -> Map<u64, PayloadPair>;

/// The entry map of a store that holds nothing.
pub open spec fn no_entries() -> Map<u64, PayloadPair> {
    Map::empty()
}

/// The keys of a job store ordered from most recently to least recently used.
pub uninterp spec fn store_recency(c: JobStore) -> Seq<u64>;

/// The fixed bound the job store was constructed with.
pub uninterp spec fn store_capacity(c: JobStore) -> nat;

/// Relies on `lru::LruCache::with_hasher`: a cache that holds at most `cap`
/// entries and starts empty.
#[verifier::external_body]
fn store_new(cap: usize) -> (r: JobStore)
    requires
        1 <= cap,
    ensures
        store_entries(r) =~= no_entries(),
        store_recency(r) =~= Seq::<u64>::empty(),
        store_capacity(r) == cap as nat,
{
    let bound = std::num::NonZeroUsize::new(cap).unwrap();
    lru::LruCache::with_hasher(bound, std::collections::hash_map::RandomState::new())
}

/// Relies on `lru::LruCache::push`: a present key has its value replaced and
/// is promoted to most recent, and the old value comes back with the key; an
/// absent key is inserted as most recent, evicting the least recently used
/// entry — which comes back — when the store is full.
#[verifier::external_body]
fn store_push(c: &mut JobStore, k: u64, v: PayloadPair) -> (r: Option<(u64, PayloadPair)>)
    ensures
        store_capacity(*final(c)) == store_capacity(*old(c)),
        store_entries(*old(c)).dom().contains(k) ==> {
            &&& store_entries(*final(c)) == store_entries(*old(c)).insert(k, v)
            &&& store_recency(*final(c)) == seq![k] + store_recency(*old(c)).remove_value(k)
            &&& r == Some((k, store_entries(*old(c))[k]))
        },
        (!store_entries(*old(c)).dom().contains(k) && store_recency(*old(c)).len()
            < store_capacity(*old(c))) ==> {
            &&& store_entries(*final(c)) == store_entries(*old(c)).insert(k, v)
            &&& store_recency(*final(c)) == seq![k] + store_recency(*old(c))
            &&& r is None
        },
        (!store_entries(*old(c)).dom().contains(k) && store_recency(*old(c)).len()
            >= store_capacity(*old(c))) ==> {
            let e = store_recency(*old(c)).last();
            &&& store_entries(*final(c)) == store_entries(*old(c)).remove(e).insert(k, v)
            &&& store_recency(*final(c)) == seq![k] + store_recency(*old(c)).drop_last()
            &&& r == Some((e, store_entries(*old(c))[e]))
        },
{
    c.push(k, v)
}

/// Relies on `lru::LruCache::get`: a present key's value comes back and the
/// key is promoted to most recent; a miss changes nothing.
#[verifier::external_body]
fn store_get(c: &mut JobStore, k: u64) -> (r: Option<PayloadPair>)
    ensures
        store_capacity(*final(c)) == store_capacity(*old(c)),
        store_entries(*final(c)) == store_entries(*old(c)),
        store_entries(*old(c)).dom().contains(k) ==> {
            &&& r == Some(store_entries(*old(c))[k])
            &&& store_recency(*final(c)) == seq![k] + store_recency(*old(c)).remove_value(k)
        },
        !store_entries(*old(c)).dom().contains(k) ==> {
            &&& r == None::<PayloadPair>
            &&& store_recency(*final(c)) == store_recency(*old(c))
        },
{
    c.get(&k).copied()
}

/// Relies on `lru::LruCache::pop`: a present key's entry is removed and its
/// value comes back; a miss changes nothing.
#[verifier::external_body]
fn store_pop(c: &mut JobStore, k: u64) -> (r: Option<PayloadPair>)
    ensures
        store_capacity(*final(c)) == store_capacity(*old(c)),
        store_entries(*old(c)).dom().contains(k) ==> {
            &&& r == Some(store_entries(*old(c))[k])
            &&& store_entries(*final(c)) == store_entries(*old(c)).remove(k)
            &&& store_recency(*final(c)) == store_recency(*old(c)).remove_value(k)
        },
        !store_entries(*old(c)).dom().contains(k) ==> {
            &&& r == None::<PayloadPair>
            &&& store_entries(*final(c)) == store_entries(*old(c))
            &&& store_recency(*final(c)) == store_recency(*old(c))
        },
{
    c.pop(&k)
}

/// Relies on `lru::LruCache::len`: the number of entries currently stored.
#[verifier::external_body]
fn store_len(c: &JobStore) -> (n: usize)
    ensures
        n as nat == store_recency(*c).len(),
{
    c.len()
}

/// Removing the value at the head of a sequence that holds it nowhere else
/// leaves exactly the tail.
proof fn lemma_remove_value_cons(k: u64, s: Seq<u64>)
    requires
        !s.contains(k),
    ensures
        (seq![k] + s).remove_value(k) == s,
{
    let t = seq![k] + s;
    assert(t[0] == k);
    assert(t.contains(k));
    t.index_of_first_ensures(k);
    let i = t.index_of_first(k)->Some_0;
    assert(i == 0);
    t.remove_ensures(0);
    assert forall|j: int| 0 <= j < s.len() implies t.remove(0)[j] == s[j] by {
        assert(t[j + 1] == s[j]);
    }
    assert(t.remove(0) =~= s);
}

/// What removing the first occurrence of a value does to a duplicate-free
/// sequence: the occurrence goes, everything else stays, in order.
proof fn lemma_remove_value_props(s: Seq<u64>, k: u64)
    requires
        s.no_duplicates(),
    ensures
        s.remove_value(k).no_duplicates(),
        !s.remove_value(k).contains(k),
        s.contains(k) ==> s.remove_value(k).len() == s.len() - 1,
        !s.contains(k) ==> s.remove_value(k) == s,
        s.remove_value(k).to_set() == s.to_set().remove(k),
{
    s.index_of_first_ensures(k);
    if s.contains(k) {
        let i = s.index_of_first(k)->Some_0;
        assert(s[i] == k);
        s.remove_ensures(i);
        let r = s.remove(i);
        assert forall|p: int, q: int|
            0 <= p < r.len() && 0 <= q < r.len() && p != q implies r[p] != r[q] by {
            let p1: int = if p < i { p } else { p + 1 };
            let q1: int = if q < i { q } else { q + 1 };
            assert(r[p] == s[p1]);
            assert(r[q] == s[q1]);
        }
        assert(r.no_duplicates());
        assert forall|p: int| 0 <= p < r.len() implies r[p] != k by {
            let p1: int = if p < i { p } else { p + 1 };
            assert(r[p] == s[p1]);
            assert(p1 != i);
        }
        assert(!r.contains(k));
        assert forall|x: u64| x != k && s.contains(x) implies r.contains(x) by {
            let j = choose|j: int| 0 <= j < s.len() && s[j] == x;
            if j < i {
                assert(r[j] == s[j]);
            } else {
                assert(j != i);
                assert(r[j - 1] == s[j]);
            }
        }
        assert forall|x: u64| r.contains(x) implies s.contains(x) by {
            let p = choose|p: int| 0 <= p < r.len() && r[p] == x;
            let p1: int = if p < i { p } else { p + 1 };
            assert(s[p1] == x);
        }
        assert(r.to_set() =~= s.to_set().remove(k));
    } else {
        assert(s.to_set() =~= s.to_set().remove(k));
    }
}

/// Prepending a fresh value to a duplicate-free sequence: length, key set,
/// and freedom from duplicates.
proof fn lemma_cons_props(k: u64, s: Seq<u64>)
    ensures
        (seq![k] + s).len() == s.len() + 1,
        (seq![k] + s).to_set() == s.to_set().insert(k),
        !s.contains(k) && s.no_duplicates() ==> (seq![k] + s).no_duplicates(),
        (seq![k] + s).contains(k),
{
    let t = seq![k] + s;
    assert(t[0] == k);
    assert forall|x: u64| s.contains(x) implies t.contains(x) by {
        let j = choose|j: int| 0 <= j < s.len() && s[j] == x;
        assert(t[j + 1] == x);
    }
    assert forall|x: u64| t.contains(x) implies x == k || s.contains(x) by {
        let j = choose|j: int| 0 <= j < t.len() && t[j] == x;
        if j != 0 {
            assert(s[j - 1] == x);
        }
    }
    assert(t.to_set() =~= s.to_set().insert(k));
    if !s.contains(k) && s.no_duplicates() {
        assert forall|p: int, q: int|
            0 <= p < t.len() && 0 <= q < t.len() && p != q implies t[p] != t[q] by {
            if p != 0 {
                assert(t[p] == s[p - 1]);
            }
            if q != 0 {
                assert(t[q] == s[q - 1]);
            }
            if p == 0 {
                assert(t[q] == s[q - 1]);
                assert(s.contains(s[q - 1]));
            }
            if q == 0 {
                assert(t[p] == s[p - 1]);
                assert(s.contains(s[p - 1]));
            }
        }
        assert(t.no_duplicates());
    }
}

/// Dropping the last element of a duplicate-free sequence removes exactly
/// that element's key.
proof fn lemma_drop_last_props(s: Seq<u64>)
    requires
        s.len() > 0,
        s.no_duplicates(),
    ensures
        s.drop_last().no_duplicates(),
        !s.drop_last().contains(s.last()),
        s.drop_last().to_set() == s.to_set().remove(s.last()),
        s.drop_last().len() == s.len() - 1,
{
    let d = s.drop_last();
    assert forall|p: int, q: int|
        0 <= p < d.len() && 0 <= q < d.len() && p != q implies d[p] != d[q] by {
        assert(d[p] == s[p]);
        assert(d[q] == s[q]);
    }
    assert(d.no_duplicates());
    assert forall|p: int| 0 <= p < d.len() implies d[p] != s.last() by {
        assert(d[p] == s[p]);
        assert(s[p] != s[s.len() - 1]);
    }
    assert(!d.contains(s.last()));
    assert forall|x: u64| x != s.last() && s.contains(x) implies d.contains(x) by {
        let j = choose|j: int| 0 <= j < s.len() && s[j] == x;
        assert(j != s.len() - 1);
        assert(d[j] == x);
    }
    assert forall|x: u64| d.contains(x) implies s.contains(x) by {
        let p = choose|p: int| 0 <= p < d.len() && d[p] == x;
        assert(s[p] == x);
    }
    assert(d.to_set() =~= s.to_set().remove(s.last()));
}

/// The abstract state of a correlation cache: the entries it holds, its keys
/// from most recently to least recently touched, and its fixed bound.
#[verifier::ext_equal]
pub struct CacheView {
    pub entries: Map<u64, PayloadPair>,
    pub recency: Seq<u64>,
    pub capacity: nat,
}

/// A well-formed cache state: the recency order lists each held job exactly
/// once and never exceeds the positive capacity bound.
pub open spec fn cache_wf(v: CacheView) -> bool {
    &&& v.recency.no_duplicates()
    &&& v.recency.to_set() == v.entries.dom()
    &&& v.recency.len() <= v.capacity
    &&& 1 <= v.capacity
}

/// A job's entry, or an empty pair where the job has none.
pub open spec fn entry_or_empty(v: CacheView, job: u64) -> PayloadPair {
    if v.entries.dom().contains(job) {
        v.entries[job]
    } else {
        (None, None)
    }
}

/// A pair with one backend's payload identifier set and the other's kept.
pub open spec fn merged_pair(base: PayloadPair, backend: BackendId, pid: u64) -> PayloadPair {
    match backend {
        BackendId::Building => (Some(pid), base.1),
        BackendId::Canonical => (base.0, Some(pid)),
    }
}

/// What recording one backend's payload identifier under a job does to the
/// cache: the job's entry gains that identifier and the job becomes the most
/// recently used; a new job on a full cache evicts the least recently used
/// job, which is returned.
pub open spec fn spec_record(v: CacheView, job: u64, backend: BackendId, pid: u64) -> (
    CacheView,
    Option<u64>,
) {
    let merged = merged_pair(entry_or_empty(v, job), backend, pid);
    if v.entries.dom().contains(job) {
        (
            CacheView {
                entries: v.entries.insert(job, merged),
                recency: seq![job] + v.recency.remove_value(job),
                capacity: v.capacity,
            },
            None,
        )
    } else if v.recency.len() < v.capacity {
        (
            CacheView {
                entries: v.entries.insert(job, merged),
                recency: seq![job] + v.recency,
                capacity: v.capacity,
            },
            None,
        )
    } else {
        let victim = v.recency.last();
        (
            CacheView {
                entries: v.entries.remove(victim).insert(job, merged),
                recency: seq![job] + v.recency.drop_last(),
                capacity: v.capacity,
            },
            Some(victim),
        )
    }
}

/// What a successful lookup does to recency: the found job is promoted; a
/// miss changes nothing.
pub open spec fn spec_touch(v: CacheView, job: u64) -> CacheView {
    if v.entries.dom().contains(job) {
        CacheView {
            entries: v.entries,
            recency: seq![job] + v.recency.remove_value(job),
            capacity: v.capacity,
        }
    } else {
        v
    }
}

/// The payload identifier one backend holds under a job, if any.
pub open spec fn spec_lookup(v: CacheView, job: u64, backend: BackendId) -> Option<u64> {
    match backend {
        BackendId::Building => entry_or_empty(v, job).0,
        BackendId::Canonical => entry_or_empty(v, job).1,
    }
}

/// What consuming a job does: its entry leaves the cache and is returned; a
/// miss changes nothing and returns the empty pair.
pub open spec fn spec_take(v: CacheView, job: u64) -> (CacheView, PayloadPair) {
    if v.entries.dom().contains(job) {
        (
            CacheView {
                entries: v.entries.remove(job),
                recency: v.recency.remove_value(job),
                capacity: v.capacity,
            },
            v.entries[job],
        )
    } else {
        (v, (None, None))
    }
}

/// Recording preserves well-formedness, and any evicted job was held, was the
/// least recently used, differs from the recorded job, and is gone afterward.
pub proof fn lemma_record_wf(v: CacheView, job: u64, backend: BackendId, pid: u64)
    requires
        cache_wf(v),
    ensures
        cache_wf(spec_record(v, job, backend, pid).0),
        spec_record(v, job, backend, pid).0.capacity == v.capacity,
        spec_record(v, job, backend, pid).0.entries.dom().contains(job),
        spec_record(v, job, backend, pid).1 matches Some(victim) ==> {
            &&& v.entries.dom().contains(victim)
            &&& victim == v.recency.last()
            &&& victim != job
            &&& !spec_record(v, job, backend, pid).0.entries.dom().contains(victim)
        },
{
    lemma_remove_value_props(v.recency, job);
    let merged = merged_pair(entry_or_empty(v, job), backend, pid);
    if v.entries.dom().contains(job) {
        assert(v.recency.to_set().contains(job));
        lemma_cons_props(job, v.recency.remove_value(job));
        let after = spec_record(v, job, backend, pid).0;
        assert(after.recency.to_set() =~= after.entries.dom());
    } else if v.recency.len() < v.capacity {
        assert(!v.recency.to_set().contains(job));
        lemma_cons_props(job, v.recency);
        let after = spec_record(v, job, backend, pid).0;
        assert(after.recency.to_set() =~= after.entries.dom());
    } else {
        let victim = v.recency.last();
        assert(v.recency.len() > 0);
        assert(v.recency.contains(victim));
        assert(v.recency.to_set().contains(victim));
        assert(!v.recency.to_set().contains(job));
        lemma_drop_last_props(v.recency);
        lemma_cons_props(job, v.recency.drop_last());
        let after = spec_record(v, job, backend, pid).0;
        assert(after.recency.to_set() =~= after.entries.dom());
    }
}

/// Touching preserves well-formedness and the entries.
pub proof fn lemma_touch_wf(v: CacheView, job: u64)
    requires
        cache_wf(v),
    ensures
        cache_wf(spec_touch(v, job)),
        spec_touch(v, job).entries == v.entries,
        spec_touch(v, job).capacity == v.capacity,
{
    lemma_remove_value_props(v.recency, job);
    if v.entries.dom().contains(job) {
        assert(v.recency.to_set().contains(job));
        lemma_cons_props(job, v.recency.remove_value(job));
        assert(spec_touch(v, job).recency.to_set() =~= v.entries.dom());
    }
}

/// Consuming preserves well-formedness, and the job is gone afterward.
pub proof fn lemma_take_wf(v: CacheView, job: u64)
    requires
        cache_wf(v),
    ensures
        cache_wf(spec_take(v, job).0),
        !spec_take(v, job).0.entries.dom().contains(job),
        spec_take(v, job).0.capacity == v.capacity,
{
    lemma_remove_value_props(v.recency, job);
    if v.entries.dom().contains(job) {
        assert(v.recency.to_set().contains(job));
        assert(spec_take(v, job).0.recency.to_set() =~= spec_take(v, job).0.entries.dom());
    } else {
        assert(!v.recency.to_set().contains(job));
    }
}

/// The payload-correlation cache: a bounded map from build-job identity to
/// the payload identifiers each backend minted for that job, evicting the
/// least recently touched job when the bound is reached.
pub struct CorrelationCache {
    store: JobStore,
}

impl View for CorrelationCache {
    type V = CacheView;

    closed spec fn view(&self) -> CacheView {
        CacheView {
            entries: store_entries(self.store),
            recency: store_recency(self.store),
            capacity: store_capacity(self.store),
        }
    }
}

impl CorrelationCache {
    /// An empty cache bounded at `capacity` jobs.
    pub fn new(capacity: usize) -> (c: CorrelationCache)
        requires
            1 <= capacity,
        ensures
            cache_wf(c@),
            c@.entries =~= no_entries(),
            c@.recency =~= Seq::<u64>::empty(),
            c@.capacity == capacity as nat,
    {
        let c = CorrelationCache { store: store_new(capacity) };
        proof {
            assert(c@.recency.to_set() =~= c@.entries.dom());
        }
        c
    }

    /// How many jobs the cache currently holds.
    pub fn len(&self) -> (n: usize)
        ensures
            n as nat == self@.recency.len(),
    {
        store_len(&self.store)
    }

    /// Records that `backend` minted `pid` for `job`, touching the job's
    /// entry; returns the job evicted to make room, if one was.
    pub fn record(&mut self, job: u64, backend: BackendId, pid: u64) -> (evicted: Option<u64>)
        requires
            cache_wf(old(self)@),
        ensures
            cache_wf(final(self)@),
            final(self)@ =~= spec_record(old(self)@, job, backend, pid).0,
            evicted == spec_record(old(self)@, job, backend, pid).1,
    {
        let ghost v = self@;
        let existing = store_get(&mut self.store, job);
        let merged: PayloadPair = match backend {
            BackendId::Building => (
                Some(pid),
                match existing {
                    Some(e) => e.1,
                    None => None,
                },
            ),
            BackendId::Canonical => (
                match existing {
                    Some(e) => e.0,
                    None => None,
                },
                Some(pid),
            ),
        };
        proof {
            assert(merged == merged_pair(entry_or_empty(v, job), backend, pid));
            lemma_remove_value_props(v.recency, job);
            if v.entries.dom().contains(job) {
                lemma_remove_value_cons(job, v.recency.remove_value(job));
            }
            lemma_record_wf(v, job, backend, pid);
        }
        let pushed = store_push(&mut self.store, job, merged);
        proof {
            if v.entries.dom().contains(job) {
                assert(final(self)@.recency =~= spec_record(v, job, backend, pid).0.recency);
            }
            assert(final(self)@ =~= spec_record(v, job, backend, pid).0);
        }
        match pushed {
            Some((k, _)) => {
                if k == job {
                    None
                } else {
                    Some(k)
                }
            },
            None => None,
        }
    }

    /// The payload identifier `backend` holds under `job`, if any; finding
    /// one touches the job's entry, a miss changes nothing.
    pub fn lookup(&mut self, job: u64, backend: BackendId) -> (r: Option<u64>)
        requires
            cache_wf(old(self)@),
        ensures
            cache_wf(final(self)@),
            final(self)@ =~= spec_touch(old(self)@, job),
            r == spec_lookup(old(self)@, job, backend),
    {
        let ghost v = self@;
        proof {
            lemma_touch_wf(v, job);
        }
        let found = store_get(&mut self.store, job);
        match found {
            Some(pair) => match backend {
                BackendId::Building => pair.0,
                BackendId::Canonical => pair.1,
            },
            None => None,
        }
    }

    /// Removes and returns both backends' payload identifiers for `job`; an
    /// unknown job yields the empty pair and changes nothing.
    pub fn take(&mut self, job: u64) -> (r: PayloadPair)
        requires
            cache_wf(old(self)@),
        ensures
            cache_wf(final(self)@),
            final(self)@ =~= spec_take(old(self)@, job).0,
            r == spec_take(old(self)@, job).1,
    {
        let ghost v = self@;
        proof {
            lemma_take_wf(v, job);
        }
        let popped = store_pop(&mut self.store, job);
        match popped {
            Some(pair) => pair,
            None => (None, None),
        }
    }
}

} // verus!
