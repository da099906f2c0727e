//! The statistics store: a mapping from endpoint key to latency histogram,
//! plus the ordered request-log buffer. One store instance is shared (under
//! outside mutual exclusion) by all request handlers and the periodic
//! reporter; every operation here is a single atomic step of that store.

use vstd::prelude::*;

use crate::histogram::Histogram;
use crate::log::Log;

verus! {

/// The reserved key under which the aggregate across all endpoints is kept.
pub open spec fn overall_key() -> Seq<char> {
    "Overall"@
}

/// One endpoint's histogram, keyed by its path (or the reserved key).
pub struct HistEntry {
    pub key: String,
    pub hist: Histogram,
}

/// No two entries carry the same key.
pub open spec fn unique_keys(s: Seq<HistEntry>) -> bool {
    forall|i: int, j: int| 0 <= i < j < s.len() ==> s[i].key@ != s[j].key@
}

/// Every histogram in the sequence is well formed.
pub open spec fn all_wf(s: Seq<HistEntry>) -> bool {
    forall|i: int| 0 <= i < s.len() ==> (#[trigger] s[i].hist).wf()
}

/// Every histogram still has room for one more observation.
pub open spec fn headroom(s: Seq<HistEntry>) -> bool {
    forall|i: int| 0 <= i < s.len() ==> (#[trigger] s[i].hist).total_requests < u64::MAX
}

/// Some entry carries the key `k`.
pub open spec fn has_key(s: Seq<HistEntry>, k: Seq<char>) -> bool {
    exists|i: int| 0 <= i < s.len() && s[i].key@ == k
}

/// The position of the entry carrying `k` (meaningful when `has_key` holds
/// and the keys are unique).
pub open spec fn key_index(s: Seq<HistEntry>, k: Seq<char>) -> int {
    choose|i: int| 0 <= i < s.len() && s[i].key@ == k
}

/// The mapping from key to histogram that the entry sequence represents.
pub open spec fn hist_map_of(s: Seq<HistEntry>) -> Map<Seq<char>, Histogram>
    decreases s.len(),
{
    if s.len() == 0 {
        Map::empty()
    } else {
        hist_map_of(s.drop_last()).insert(s.last().key@, s.last().hist)
    }
}

/// One observation recorded under one key: the key's histogram (created
/// empty if absent) absorbs the observation; nothing else changes.
pub open spec fn map_record(
    m: Map<Seq<char>, Histogram>,
    k: Seq<char>,
    millis: u128,
    timestamp: i64,
) -> Map<Seq<char>, Histogram> {
    let h = if m.dom().contains(k) {
        m[k]
    } else {
        Histogram::empty()
    };
    m.insert(k, h.spec_add(millis, timestamp))
}

/// One observation recorded as the store records it: once under the
/// reserved aggregate key, once under the endpoint's own key.
pub open spec fn spec_record_request(
    m: Map<Seq<char>, Histogram>,
    k: Seq<char>,
    millis: u128,
    timestamp: i64,
) -> Map<Seq<char>, Histogram> {
    map_record(map_record(m, overall_key(), millis, timestamp), k, millis, timestamp)
}

/// How one observation under key `k` changes the entry sequence: the entry
/// carrying `k` is updated in place, or a fresh entry is appended.
pub open spec fn recorded_one(
    s: Seq<HistEntry>,
    t: Seq<HistEntry>,
    k: Seq<char>,
    millis: u128,
    timestamp: i64,
) -> bool {
    if has_key(s, k) {
        t == s.update(
            key_index(s, k),
            HistEntry {
                key: s[key_index(s, k)].key,
                hist: s[key_index(s, k)].hist.spec_add(millis, timestamp),
            },
        )
    } else {
        t.len() == s.len() + 1 && t.take(s.len() as int) == s && t.last().key@ == k
            && t.last().hist == Histogram::empty().spec_add(millis, timestamp)
    }
}

/// The statistics store: per-endpoint histograms plus the request log.
pub struct StatsStore {
    pub hists: Vec<HistEntry>,
    pub logs: Vec<Log>,
}

/// What an entry adds to the per-endpoint sum: its total, unless it is the
/// aggregate entry itself.
pub open spec fn endpoint_share(e: HistEntry) -> int {
    if e.key@ == overall_key() {
        0
    } else {
        e.hist.total_requests as int
    }
}

/// The sum of the totals of all per-endpoint histograms (the aggregate
/// entry excluded).
pub open spec fn endpoints_total(s: Seq<HistEntry>) -> int
    decreases s.len(),
{
    if s.len() == 0 {
        0
    } else {
        endpoints_total(s.drop_last()) + endpoint_share(s.last())
    }
}

/// The total of the aggregate entry, or zero if there is none.
pub open spec fn overall_total(s: Seq<HistEntry>) -> int {
    if has_key(s, overall_key()) {
        s[key_index(s, overall_key())].hist.total_requests as int
    } else {
        0
    }
}

/// Updating one entry shifts the per-endpoint sum by the difference of the
/// contributions.
proof fn lemma_endpoints_total_update(s: Seq<HistEntry>, i: int, e: HistEntry)
    requires
        0 <= i < s.len(),
    ensures
        endpoints_total(s.update(i, e)) == endpoints_total(s) - endpoint_share(s[i]) + endpoint_share(e),
    decreases s.len(),
{
    let t = s.update(i, e);
    if i == s.len() - 1 {
        assert(t.drop_last() =~= s.drop_last());
        assert(t.last() == e);
    } else {
        assert(t.drop_last() =~= s.drop_last().update(i, e));
        assert(t.last() == s.last());
        assert(s.drop_last()[i] == s[i]);
        lemma_endpoints_total_update(s.drop_last(), i, e);
    }
}

/// How one recorded observation moves the two sums: an observation under
/// the aggregate key raises the aggregate total alone, one under any other
/// key raises the per-endpoint sum alone.
proof fn lemma_recorded_one_totals(
    s: Seq<HistEntry>,
    t: Seq<HistEntry>,
    k: Seq<char>,
    millis: u128,
    timestamp: i64,
)
    requires
        unique_keys(s),
        recorded_one(s, t, k, millis, timestamp),
        has_key(s, k) ==> s[key_index(s, k)].hist.total_requests < u64::MAX,
    ensures
        endpoints_total(t) == endpoints_total(s) + if k == overall_key() {
            0int
        } else {
            1int
        },
        overall_total(t) == overall_total(s) + if k == overall_key() {
            1int
        } else {
            0int
        },
{
    lemma_recorded_one_map(s, t, k, millis, timestamp);
    if has_key(s, k) {
        let i = key_index(s, k);
        assert(0 <= i < s.len() && s[i].key@ == k);
        let e = HistEntry { key: s[i].key, hist: s[i].hist.spec_add(millis, timestamp) };
        lemma_endpoints_total_update(s, i, e);
        if k == overall_key() {
            lemma_key_index_of(t, i);
        } else {
            if has_key(s, overall_key()) {
                let j = key_index(s, overall_key());
                assert(0 <= j < s.len() && s[j].key@ == overall_key());
                assert(j != i);
                assert(t[j] == s[j]);
                lemma_key_index_of(t, j);
                lemma_key_index_of(s, j);
            } else {
                assert(!has_key(t, overall_key())) by {
                    assert(forall|j: int|
                        0 <= j < t.len() ==> (#[trigger] t[j].key)@ != overall_key());
                }
            }
        }
    } else {
        let e = t.last();
        assert(t =~= s.push(e));
        assert(t.drop_last() =~= s);
        assert(endpoints_total(t) == endpoints_total(s) + endpoint_share(e));
        if k == overall_key() {
            lemma_key_index_of(t, s.len() as int);
            assert(!has_key(s, overall_key()));
        } else {
            if has_key(s, overall_key()) {
                let j = key_index(s, overall_key());
                assert(0 <= j < s.len() && s[j].key@ == overall_key());
                assert(t[j] == s[j]);
                lemma_key_index_of(t, j);
                lemma_key_index_of(s, j);
            } else {
                assert(!has_key(t, overall_key())) by {
                    assert(forall|j: int|
                        0 <= j < t.len() ==> (#[trigger] t[j].key)@ != overall_key());
                }
            }
        }
    }
}

/// Entries carrying `s[i].key` for `i` are found exactly at `i` when keys
/// are unique.
proof fn lemma_key_index_of(s: Seq<HistEntry>, i: int)
    requires
        unique_keys(s),
        0 <= i < s.len(),
    ensures
        has_key(s, s[i].key@),
        key_index(s, s[i].key@) == i,
{
    assert(has_key(s, s[i].key@));
    let j = key_index(s, s[i].key@);
    assert(0 <= j < s.len() && s[j].key@ == s[i].key@);
    if i < j {
        assert(s[i].key@ != s[j].key@);
    } else if j < i {
        assert(s[j].key@ != s[i].key@);
    }
}

/// A key is in the represented map exactly when some entry carries it.
proof fn lemma_hist_map_dom(s: Seq<HistEntry>, k: Seq<char>)
    ensures
        hist_map_of(s).dom().contains(k) <==> has_key(s, k),
    decreases s.len(),
{
    if s.len() == 0 {
    } else {
        lemma_hist_map_dom(s.drop_last(), k);
        if has_key(s.drop_last(), k) {
            let i = choose|i: int| 0 <= i < s.drop_last().len() && s.drop_last()[i].key@ == k;
            assert(s[i].key@ == k);
            assert(has_key(s, k));
        }
        if has_key(s, k) && s.last().key@ != k {
            let i = choose|i: int| 0 <= i < s.len() && s[i].key@ == k;
            assert(s.drop_last()[i].key@ == k);
            assert(has_key(s.drop_last(), k));
        }
    }
}

/// With unique keys, the represented map sends each entry's key to its
/// histogram.
proof fn lemma_hist_map_at(s: Seq<HistEntry>, i: int)
    requires
        unique_keys(s),
        0 <= i < s.len(),
    ensures
        hist_map_of(s).dom().contains(s[i].key@),
        hist_map_of(s)[s[i].key@] == s[i].hist,
    decreases s.len(),
{
    if i == s.len() - 1 {
    } else {
        assert(unique_keys(s.drop_last())) by {
            assert(forall|x: int, y: int|
                0 <= x < y < s.drop_last().len() ==> s.drop_last()[x].key@ != s.drop_last()[y].key@);
        }
        assert(s.drop_last()[i] == s[i]);
        lemma_hist_map_at(s.drop_last(), i);
        assert(s[i].key@ != s.last().key@);
    }
}

/// Updating the entry at `i` without changing its key updates the
/// represented map at that key alone.
proof fn lemma_hist_map_update(s: Seq<HistEntry>, i: int, e: HistEntry)
    requires
        unique_keys(s),
        0 <= i < s.len(),
        e.key@ == s[i].key@,
    ensures
        hist_map_of(s.update(i, e)) == hist_map_of(s).insert(e.key@, e.hist),
    decreases s.len(),
{
    let t = s.update(i, e);
    if i == s.len() - 1 {
        assert(t.drop_last() =~= s.drop_last());
        assert(t.last() == e);
        assert(hist_map_of(t) =~= hist_map_of(s).insert(e.key@, e.hist));
    } else {
        assert(unique_keys(s.drop_last()));
        assert(s.drop_last()[i] == s[i]);
        lemma_hist_map_update(s.drop_last(), i, e);
        assert(t.drop_last() =~= s.drop_last().update(i, e));
        assert(t.last() == s.last());
        assert(s.last().key@ != e.key@);
        assert(hist_map_of(t) =~= hist_map_of(s).insert(e.key@, e.hist));
    }
}

/// Appending an entry inserts its key into the represented map.
proof fn lemma_hist_map_push(s: Seq<HistEntry>, e: HistEntry)
    ensures
        hist_map_of(s.push(e)) == hist_map_of(s).insert(e.key@, e.hist),
{
    assert(s.push(e).drop_last() =~= s);
    assert(s.push(e).last() == e);
}

/// The entry-level step `recorded_one` realises the map-level step
/// `map_record`, and keeps keys unique.
proof fn lemma_recorded_one_map(
    s: Seq<HistEntry>,
    t: Seq<HistEntry>,
    k: Seq<char>,
    millis: u128,
    timestamp: i64,
)
    requires
        unique_keys(s),
        recorded_one(s, t, k, millis, timestamp),
    ensures
        hist_map_of(t) == map_record(hist_map_of(s), k, millis, timestamp),
        unique_keys(t),
        t.len() >= s.len(),
        forall|j: int| 0 <= j < s.len() ==> (#[trigger] t[j].key) == s[j].key,
    decreases s.len(),
{
    lemma_hist_map_dom(s, k);
    if has_key(s, k) {
        let i = key_index(s, k);
        assert(0 <= i < s.len() && s[i].key@ == k);
        lemma_hist_map_at(s, i);
        lemma_hist_map_update(
            s,
            i,
            HistEntry { key: s[i].key, hist: s[i].hist.spec_add(millis, timestamp) },
        );
        assert(unique_keys(t)) by {
            assert(forall|j: int| 0 <= j < t.len() ==> (#[trigger] t[j].key)@ == s[j].key@);
        }
    } else {
        assert(t =~= s.push(t.last()));
        lemma_hist_map_push(s, t.last());
        assert(unique_keys(t)) by {
            assert(forall|j: int| 0 <= j < s.len() ==> (#[trigger] t[j].key) == s[j].key);
            assert(forall|j: int| 0 <= j < s.len() ==> (#[trigger] s[j].key)@ != k);
        }
    }
}

/// Record one observation under one key in the entry sequence.
fn record_one(hists: &mut Vec<HistEntry>, key: &String, millis: u128, timestamp: i64)
    requires
        unique_keys(old(hists)@),
        all_wf(old(hists)@),
        has_key(old(hists)@, key@) ==> old(hists)@[key_index(old(hists)@, key@)].hist.total_requests
            < u64::MAX,
    ensures
        recorded_one(old(hists)@, final(hists)@, key@, millis, timestamp),
        unique_keys(final(hists)@),
        all_wf(final(hists)@),
        hist_map_of(final(hists)@) == map_record(hist_map_of(old(hists)@), key@, millis, timestamp),
{
    let ghost s = hists@;
    let n = hists.len();
    let mut i: usize = 0;
    while i < n
        invariant
            hists@ == s,
            s == old(hists)@,
            n == s.len(),
            0 <= i <= n,
            unique_keys(s),
            all_wf(s),
            has_key(s, key@) ==> s[key_index(s, key@)].hist.total_requests < u64::MAX,
            forall|j: int| 0 <= j < i ==> (#[trigger] s[j].key)@ != key@,
        decreases n - i,
    {
        if hists[i].key.eq(key) {
            proof {
                lemma_key_index_of(s, i as int);
            }
            let entry = &mut hists[i];
            entry.hist.add(millis, timestamp);
            proof {
                assert(hists@ =~= s.update(
                    i as int,
                    HistEntry {
                        key: s[i as int].key,
                        hist: s[i as int].hist.spec_add(millis, timestamp),
                    },
                ));
                assert(recorded_one(s, hists@, key@, millis, timestamp));
                lemma_recorded_one_map(s, hists@, key@, millis, timestamp);
                assert(all_wf(hists@)) by {
                    assert(forall|j: int|
                        0 <= j < s.len() && j != i ==> hists@[j] == s[j]);
                }
            }
            return ;
        }
        i = i + 1;
    }
    assert(!has_key(s, key@));
    let mut h = Histogram::new();
    h.add(millis, timestamp);
    hists.push(HistEntry { key: key.clone(), hist: h });
    proof {
        assert(hists@.take(s.len() as int) =~= s);
        assert(recorded_one(s, hists@, key@, millis, timestamp));
        lemma_recorded_one_map(s, hists@, key@, millis, timestamp);
        assert(all_wf(hists@)) by {
            assert(forall|j: int| 0 <= j < s.len() ==> hists@[j] == s[j]);
        }
    }
}

impl StatsStore {
    /// The store's invariant: keys are unique and every histogram is well
    /// formed.
    pub open spec fn wf(self) -> bool {
        unique_keys(self.hists@) && all_wf(self.hists@)
    }

    /// Every histogram still has room for one more observation.
    pub open spec fn has_headroom(self) -> bool {
        headroom(self.hists@)
    }

    /// The mapping from endpoint key to histogram that the store holds.
    pub open spec fn hist_map(self) -> Map<Seq<char>, Histogram> {
        hist_map_of(self.hists@)
    }

    /// The aggregate entry's total equals the sum of the per-endpoint
    /// totals — every recorded request updates both as one unit.
    pub open spec fn consistent(self) -> bool {
        overall_total(self.hists@) == endpoints_total(self.hists@)
    }

    /// A store with no observations and no log entries.
    pub fn new() -> (s: StatsStore)
        ensures
            s.hists@ == Seq::<HistEntry>::empty(),
            s.logs@ == Seq::<Log>::empty(),
            s.wf(),
            s.has_headroom(),
    {
        StatsStore { hists: Vec::new(), logs: Vec::new() }
    }

    /// Record one completed observation: `millis` of elapsed time, finished
    /// at `timestamp`. The observation is counted twice as one logical unit:
    /// under the reserved aggregate key and under `endpoint_key`, each
    /// histogram being created empty first if absent. The request log is
    /// untouched. The aggregate key is reserved, so it is no endpoint key;
    /// `is_ready` tests the other preconditions.
    pub fn record_request(&mut self, endpoint_key: &String, millis: u128, timestamp: i64)
        requires
            old(self).wf(),
            old(self).has_headroom(),
            endpoint_key@ != overall_key(),
        ensures
            final(self).wf(),
            final(self).logs == old(self).logs,
            final(self).hist_map() == spec_record_request(
                old(self).hist_map(),
                endpoint_key@,
                millis,
                timestamp,
            ),
            old(self).consistent() ==> final(self).consistent(),
    {
        proof {
            reveal_strlit("Overall");
            if has_key(self.hists@, overall_key()) {
                lemma_key_index_of(self.hists@, key_index(self.hists@, overall_key()));
            }
        }
        let overall: String = "Overall".to_owned();
        let ghost s0 = self.hists@;
        record_one(&mut self.hists, &overall, millis, timestamp);
        let ghost s1 = self.hists@;
        proof {
            lemma_recorded_one_map(s0, s1, overall_key(), millis, timestamp);
            lemma_recorded_one_totals(s0, s1, overall_key(), millis, timestamp);
            if has_key(s1, endpoint_key@) {
                let i = key_index(s1, endpoint_key@);
                assert(0 <= i < s1.len() && s1[i].key@ == endpoint_key@);
                lemma_hist_map_at(s1, i);
                lemma_hist_map_dom(s0, endpoint_key@);
                lemma_hist_map_dom(s1, endpoint_key@);
                if has_key(s0, endpoint_key@) {
                    lemma_hist_map_at(s0, key_index(s0, endpoint_key@));
                    lemma_key_index_of(s0, key_index(s0, endpoint_key@));
                }
                assert(s1[i].hist.total_requests < u64::MAX);
            }
        }
        record_one(&mut self.hists, endpoint_key, millis, timestamp);
        proof {
            lemma_recorded_one_totals(s1, self.hists@, endpoint_key@, millis, timestamp);
        }
    }

    /// Append one completed request to the log; append order is completion
    /// order. The histograms are untouched.
    pub fn append_log(&mut self, entry: Log)
        ensures
            final(self).logs@ == old(self).logs@.push(entry),
            final(self).hists == old(self).hists,
    {
        self.logs.push(entry);
    }

    /// Atomically take a point-in-time snapshot of the whole store —
    /// histogram mapping and log sequence — and reset the store to empty.
    /// Every observation recorded before this call is in the snapshot and
    /// none survives into the next cycle.
    pub fn snapshot_and_clear(&mut self) -> (snap: StatsStore)
        ensures
            snap.hists == old(self).hists,
            snap.logs == old(self).logs,
            final(self).hists@ == Seq::<HistEntry>::empty(),
            final(self).logs@ == Seq::<Log>::empty(),
            final(self).wf(),
            final(self).has_headroom(),
    {
        let mut snap = StatsStore::new();
        core::mem::swap(self, &mut snap);
        snap
    }

    /// Whether the store meets the preconditions of `record_request`:
    /// unique keys, well-formed histograms, and room for one more
    /// observation everywhere. An unverified caller can test this before
    /// recording.
    pub fn is_ready(&self) -> (r: bool)
        ensures
            r == (self.wf() && self.has_headroom()),
    {
        let n = self.hists.len();
        let mut i: usize = 0;
        while i < n
            invariant
                0 <= i <= n,
                n == self.hists@.len(),
                forall|x: int, y: int|
                    0 <= x < y < i ==> self.hists@[x].key@ != self.hists@[y].key@,
                forall|x: int|
                    0 <= x < i ==> (#[trigger] self.hists@[x].hist).wf()
                        && self.hists@[x].hist.total_requests < u64::MAX,
            decreases n - i,
        {
            let h = &self.hists[i].hist;
            let sum: u128 = h.count_0_10 as u128 + h.count_11_100 as u128 + h.count_101_250 as u128
                + h.count_251_500 as u128 + h.count_501_1000 as u128 + h.count_1000_plus as u128;
            if sum != h.total_requests as u128 || h.total_requests == u64::MAX {
                return false;
            }
            let mut j: usize = 0;
            while j < i
                invariant
                    0 <= j <= i < n,
                    n == self.hists@.len(),
                    forall|x: int| 0 <= x < j ==> self.hists@[x].key@ != self.hists@[i as int].key@,
                decreases i - j,
            {
                if self.hists[j].key.eq(&self.hists[i].key) {
                    return false;
                }
                j = j + 1;
            }
            i = i + 1;
        }
        true
    }
}

/// One observation as the store sees it: an endpoint key, an elapsed time
/// in milliseconds, and a completion timestamp.
pub struct Observation {
    pub key: Seq<char>,
    pub millis: u128,
    pub timestamp: i64,
}

/// The total of the aggregate histogram in a key-to-histogram mapping, or
/// zero if the mapping has none.
pub open spec fn overall_total_map(m: Map<Seq<char>, Histogram>) -> int {
    if m.dom().contains(overall_key()) {
        m[overall_key()].total_requests as int
    } else {
        0
    }
}

/// The mapping after a sequence of observations is recorded, in order.
pub open spec fn apply_records(m: Map<Seq<char>, Histogram>, obs: Seq<Observation>) -> Map<
    Seq<char>,
    Histogram,
>
    decreases obs.len(),
{
    if obs.len() == 0 {
        m
    } else {
        spec_record_request(
            apply_records(m, obs.drop_last()),
            obs.last().key,
            obs.last().millis,
            obs.last().timestamp,
        )
    }
}

/// One recorded observation under an endpoint key raises the aggregate
/// total by exactly one.
pub proof fn lemma_record_request_overall(
    m: Map<Seq<char>, Histogram>,
    k: Seq<char>,
    millis: u128,
    timestamp: i64,
)
    requires
        overall_total_map(m) < u64::MAX,
        k != overall_key(),
    ensures
        overall_total_map(spec_record_request(m, k, millis, timestamp)) == overall_total_map(m)
            + 1,
{
}

/// Law: after any number of observations under endpoint keys are recorded
/// into an empty store, the aggregate histogram's total equals exactly the
/// number of observations — none is lost and none is counted twice.
pub proof fn lemma_overall_counts_all(obs: Seq<Observation>)
    requires
        obs.len() <= u64::MAX,
        forall|i: int| 0 <= i < obs.len() ==> (#[trigger] obs[i]).key != overall_key(),
    ensures
        overall_total_map(apply_records(Map::empty(), obs)) == obs.len(),
    decreases obs.len(),
{
    if obs.len() == 0 {
    } else {
        assert(forall|i: int|
            0 <= i < obs.drop_last().len() ==> (#[trigger] obs.drop_last()[i]).key
                != overall_key()) by {
            assert(forall|i: int|
                0 <= i < obs.drop_last().len() ==> obs.drop_last()[i] == obs[i]);
        }
        lemma_overall_counts_all(obs.drop_last());
        lemma_record_request_overall(
            apply_records(Map::empty(), obs.drop_last()),
            obs.last().key,
            obs.last().millis,
            obs.last().timestamp,
        );
    }
}

} // verus!
