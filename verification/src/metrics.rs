//! In-memory runtime statistics (scheduler ticks, request outcomes, latency
//! and database timing histograms) and their Prometheus text rendering.

pub mod histogram;
pub mod render;
pub mod server;

use vstd::prelude::*;

use crate::entries::{eviews, find_key, name_eq};
use crate::model::CategoryConfig;
use crate::sorted::{emap, lemma_emap_push, lemma_emap_unique, lemma_emap_update, unique_keys};
use crate::text::{chars_of, dec, push_all, push_str, string_of, u64_dec};
use histogram::{
    bucket_index, db_bounds, db_buckets_ms, latency_bounds, latency_buckets_ms,
    lemma_bucket_index, lemma_bucket_le_total, record_histogram, total, HistView, Histogram,
};

verus! {

/// Runtime statistics. Every map is held as a list with distinct names.
pub struct Metrics {
    start_time_seconds: u64,
    ticks_by_category: Vec<(String, u64)>,
    due_feeds_by_category: Vec<(String, u64)>,
    due_feeds_current_by_category: Vec<(String, u64)>,
    head_ok: u64,
    head_err: u64,
    get_ok: u64,
    get_err: u64,
    inflight_actions: u64,
    status_counts: Vec<(String, u64)>,
    http_latency: Vec<(String, Histogram)>,
    db_timings: Vec<(String, Histogram)>,
}

pub struct MetricsView {
    pub start_time_seconds: u64,
    pub ticks: Map<Seq<char>, u64>,
    pub due: Map<Seq<char>, u64>,
    pub due_current: Map<Seq<char>, u64>,
    pub head_ok: u64,
    pub head_err: u64,
    pub get_ok: u64,
    pub get_err: u64,
    pub inflight: u64,
    /// keyed by `action|status`
    pub status_counts: Map<Seq<char>, u64>,
    /// keyed by `action|domain`
    pub http_latency: Map<Seq<char>, HistView>,
    /// keyed by query name
    pub db_timings: Map<Seq<char>, HistView>,
}

impl View for Metrics {
    type V = MetricsView;

    closed spec fn view(&self) -> MetricsView {
        MetricsView {
            start_time_seconds: self.start_time_seconds,
            ticks: emap(eviews(self.ticks_by_category@)),
            due: emap(eviews(self.due_feeds_by_category@)),
            due_current: emap(eviews(self.due_feeds_current_by_category@)),
            head_ok: self.head_ok,
            head_err: self.head_err,
            get_ok: self.get_ok,
            get_err: self.get_err,
            inflight: self.inflight_actions,
            status_counts: emap(eviews(self.status_counts@)),
            http_latency: emap(eviews(self.http_latency@)),
            db_timings: emap(eviews(self.db_timings@)),
        }
    }
}

/// A histogram over `bounds`: one bucket per bound plus the overflow bucket,
/// holding as many values as it has counted.
pub open spec fn hist_ok(h: HistView, bounds: Seq<u64>) -> bool {
    &&& h.buckets.len() == bounds.len() + 1
    &&& total(h.buckets) == h.count
}

pub open spec fn hists_ok(m: Map<Seq<char>, HistView>, bounds: Seq<u64>) -> bool {
    forall|k: Seq<char>| #[trigger] m.contains_key(k) ==> hist_ok(m[k], bounds)
}

/// The count under `k`, 0 when absent.
pub open spec fn counter(m: Map<Seq<char>, u64>, k: Seq<char>) -> u64 {
    if m.contains_key(k) {
        m[k]
    } else {
        0
    }
}

pub open spec fn empty_hist(n: nat) -> HistView {
    HistView { buckets: Seq::new(n + 1, |_i: int| 0u64), sum: 0, count: 0 }
}

/// The histogram under `k`, an empty one over `n` bounds when absent.
pub open spec fn hist_or_empty(m: Map<Seq<char>, HistView>, k: Seq<char>, n: nat) -> HistView {
    if m.contains_key(k) {
        m[k]
    } else {
        empty_hist(n)
    }
}

/// `h` after counting `v`.
pub open spec fn recorded(h: HistView, v: u64, bounds: Seq<u64>) -> HistView {
    let i = bucket_index(v, bounds) as int;
    HistView {
        buckets: h.buckets.update(i, (h.buckets[i] + 1) as u64),
        sum: (h.sum + v) as u64,
        count: (h.count + 1) as u64,
    }
}

/// Whether `h` can count `v` without overflow.
pub open spec fn can_record(h: HistView, v: u64) -> bool {
    h.sum + v <= u64::MAX && h.count < u64::MAX
}

/// Wrapping increment (what an atomic `fetch_add(1)` leaves).
pub open spec fn inc_wrap(x: u64) -> u64 {
    if x == u64::MAX {
        0
    } else {
        (x + 1) as u64
    }
}

/// Wrapping decrement (what an atomic `fetch_sub(1)` leaves).
pub open spec fn dec_wrap(x: u64) -> u64 {
    if x == 0 {
        u64::MAX
    } else {
        (x - 1) as u64
    }
}

/// Status label of a request: the status code, or "error" without one.
pub open spec fn status_label(status: Option<u16>) -> Seq<char> {
    match status {
        Some(s) => dec(s as nat),
        None => "error"@,
    }
}

pub open spec fn keyed(a: Seq<char>, b: Seq<char>) -> Seq<char> {
    a + seq!['|'] + b
}

impl Metrics {
    pub closed spec fn wf(&self) -> bool {
        &&& unique_keys(eviews(self.ticks_by_category@))
        &&& unique_keys(eviews(self.due_feeds_by_category@))
        &&& unique_keys(eviews(self.due_feeds_current_by_category@))
        &&& unique_keys(eviews(self.status_counts@))
        &&& unique_keys(eviews(self.http_latency@))
        &&& unique_keys(eviews(self.db_timings@))
        &&& hists_ok(self@.http_latency, latency_bounds())
        &&& hists_ok(self@.db_timings, db_bounds())
    }

    /// Fresh statistics: every category starts with zero ticks and zero due
    /// feeds; nothing else is counted yet.
    pub fn new(categories: &[CategoryConfig], start_time_seconds: u64) -> (m: Self)
        ensures
            m.wf(),
            m@.start_time_seconds == start_time_seconds,
            m@.ticks == category_zeros(categories@),
            m@.due == category_zeros(categories@),
            m@.due_current == category_zeros(categories@),
            m@.head_ok == 0 && m@.head_err == 0 && m@.get_ok == 0 && m@.get_err == 0,
            m@.inflight == 0,
            m@.status_counts.dom().is_empty(),
            m@.http_latency.dom().is_empty(),
            m@.db_timings.dom().is_empty(),
    {
        let mut ticks: Vec<(String, u64)> = Vec::new();
        let mut due: Vec<(String, u64)> = Vec::new();
        let mut due_current: Vec<(String, u64)> = Vec::new();
        let mut i: usize = 0;
        proof {
            assert(eviews(ticks@) =~= Seq::<(Seq<char>, u64)>::empty());
            assert(categories@.take(0) =~= Seq::<CategoryConfig>::empty());
            assert(category_zeros(Seq::<CategoryConfig>::empty()) =~= Map::empty());
        }
        while i < categories.len()
            invariant
                i <= categories.len(),
                unique_keys(eviews(ticks@)),
                unique_keys(eviews(due@)),
                unique_keys(eviews(due_current@)),
                emap(eviews(ticks@)) == category_zeros(categories@.take(i as int)),
                emap(eviews(due@)) == category_zeros(categories@.take(i as int)),
                emap(eviews(due_current@)) == category_zeros(categories@.take(i as int)),
            decreases categories.len() - i,
        {
            let name = categories[i].name.as_str();
            put(&mut ticks, name, 0);
            put(&mut due, name, 0);
            put(&mut due_current, name, 0);
            proof {
                lemma_category_zeros_step(categories@, i as int);
            }
            i = i + 1;
        }
        proof {
            assert(categories@.take(categories.len() as int) =~= categories@);
        }
        let status_counts: Vec<(String, u64)> = Vec::new();
        let http_latency: Vec<(String, Histogram)> = Vec::new();
        let db_timings: Vec<(String, Histogram)> = Vec::new();
        proof {
            assert(eviews(status_counts@) =~= Seq::<(Seq<char>, u64)>::empty());
            assert(eviews(http_latency@) =~= Seq::<(Seq<char>, HistView)>::empty());
            assert(eviews(db_timings@) =~= Seq::<(Seq<char>, HistView)>::empty());
        }
        let m = Metrics {
            start_time_seconds,
            ticks_by_category: ticks,
            due_feeds_by_category: due,
            due_feeds_current_by_category: due_current,
            head_ok: 0,
            head_err: 0,
            get_ok: 0,
            get_err: 0,
            inflight_actions: 0,
            status_counts,
            http_latency,
            db_timings,
        };
        proof {
            assert(m@.status_counts.dom() =~= Set::empty());
            assert(m@.http_latency.dom() =~= Set::empty());
            assert(m@.db_timings.dom() =~= Set::empty());
        }
        m
    }

    /// Whether `record_tick` can count this tick without overflow.
    pub fn can_record_tick(&self, category: &str, due_count: u64) -> (r: bool)
        requires
            self.wf(),
        ensures
            r == (counter(self@.ticks, category@) < u64::MAX && counter(self@.due, category@)
                + due_count <= u64::MAX),
    {
        let t = get_count(&self.ticks_by_category, category);
        let d = get_count(&self.due_feeds_by_category, category);
        t < u64::MAX && d <= u64::MAX - due_count
    }

    /// Whether `record_http_result` can count this result without overflow.
    pub fn can_record_http_result(
        &self,
        action: &str,
        domain: &str,
        status: Option<u16>,
        latency_ms: u64,
    ) -> (r: bool)
        requires
            self.wf(),
        ensures
            r == (counter(self@.status_counts, keyed(action@, status_label(status))) < u64::MAX
                && can_record(
                hist_or_empty(self@.http_latency, keyed(action@, domain@), 9),
                latency_ms,
            )),
    {
        let skey = status_key(action, status);
        let lkey = keyed_string(action, domain);
        let c = get_count(&self.status_counts, skey.as_str());
        let ok_hist = can_record_into(&self.http_latency, lkey.as_str(), latency_ms, 9);
        c < u64::MAX && ok_hist
    }

    /// Whether `record_db_time` can count this timing without overflow.
    pub fn can_record_db_time(&self, query: &str, elapsed_ms: u64) -> (r: bool)
        requires
            self.wf(),
        ensures
            r == can_record(hist_or_empty(self@.db_timings, query@, 9), elapsed_ms),
    {
        can_record_into(&self.db_timings, query, elapsed_ms, 9)
    }
}

/// Every category name mapped to 0.
pub open spec fn category_zeros(cs: Seq<CategoryConfig>) -> Map<Seq<char>, u64>
    decreases cs.len(),
{
    if cs.len() == 0 {
        Map::empty()
    } else {
        category_zeros(cs.drop_last()).insert(cs.last().name@, 0)
    }
}

proof fn lemma_category_zeros_step(cs: Seq<CategoryConfig>, i: int)
    requires
        0 <= i < cs.len(),
    ensures
        category_zeros(cs.take(i + 1)) == category_zeros(cs.take(i)).insert(cs[i].name@, 0),
{
    assert(cs.take(i + 1).drop_last() =~= cs.take(i));
}

/// The count under `k` in a list with distinct names.
fn get_count(v: &Vec<(String, u64)>, k: &str) -> (r: u64)
    requires
        unique_keys(eviews(v@)),
    ensures
        r == counter(emap(eviews(v@)), k@),
{
    match find_key(v, k) {
        Some(i) => {
            proof {
                lemma_emap_unique(eviews(v@));
                assert(eviews(v@)[i as int] == (v@[i as int].0@, v@[i as int].1));
                assert(emap(eviews(v@)).contains_key(eviews(v@)[i as int].0));
            }
            v[i].1
        },
        None => 0,
    }
}

fn can_record_into(v: &Vec<(String, Histogram)>, k: &str, value: u64, n: usize) -> (r: bool)
    requires
        unique_keys(eviews(v@)),
    ensures
        r == can_record(hist_or_empty(emap(eviews(v@)), k@, n as nat), value),
{
    match find_key(v, k) {
        Some(i) => {
            proof {
                lemma_emap_unique(eviews(v@));
                assert(eviews(v@)[i as int] == (v@[i as int].0@, v@[i as int].1@));
                assert(emap(eviews(v@)).contains_key(eviews(v@)[i as int].0));
            }
            v[i].1.sum <= u64::MAX - value && v[i].1.count < u64::MAX
        },
        None => true,
    }
}

/// Sets the count under `k`.
fn put(v: &mut Vec<(String, u64)>, k: &str, val: u64)
    requires
        unique_keys(eviews(old(v)@)),
    ensures
        unique_keys(eviews(final(v)@)),
        emap(eviews(final(v)@)) == emap(eviews(old(v)@)).insert(k@, val),
{
    match find_key(v, k) {
        Some(i) => {
            let key = v[i].0.clone();
            let ghost e = eviews(v@);
            v.set(i, (key, val));
            proof {
                assert(eviews(v@) =~= e.update(i as int, (e[i as int].0, val)));
                lemma_emap_update(e, i as int, val);
            }
        },
        None => {
            let ghost e = eviews(v@);
            let kv = chars_of(k);
            v.push((string_of(&kv), val));
            proof {
                assert(eviews(v@) =~= e.push((k@, val)));
                lemma_emap_push(e, k@, val);
            }
        },
    }
}

/// Adds `delta` to the count under `k` (absent counts as 0).
fn bump(v: &mut Vec<(String, u64)>, k: &str, delta: u64)
    requires
        unique_keys(eviews(old(v)@)),
        counter(emap(eviews(old(v)@)), k@) + delta <= u64::MAX,
    ensures
        unique_keys(eviews(final(v)@)),
        emap(eviews(final(v)@)) == emap(eviews(old(v)@)).insert(
            k@,
            (counter(emap(eviews(old(v)@)), k@) + delta) as u64,
        ),
{
    let cur = get_count(v, k);
    put(v, k, cur + delta);
}

/// Counts `value` into the histogram under `k`, starting one over `bounds`
/// when absent.
fn record_into(v: &mut Vec<(String, Histogram)>, k: &str, value: u64, bounds: &Vec<u64>)
    requires
        unique_keys(eviews(old(v)@)),
        hists_ok(emap(eviews(old(v)@)), bounds@),
        bounds.len() < usize::MAX,
        can_record(hist_or_empty(emap(eviews(old(v)@)), k@, bounds.len() as nat), value),
    ensures
        unique_keys(eviews(final(v)@)),
        hists_ok(emap(eviews(final(v)@)), bounds@),
        emap(eviews(final(v)@)) == emap(eviews(old(v)@)).insert(
            k@,
            recorded(hist_or_empty(emap(eviews(old(v)@)), k@, bounds.len() as nat), value, bounds@),
        ),
{
    let ghost e = eviews(v@);
    proof {
        lemma_emap_unique(e);
        lemma_bucket_index(value, bounds@);
    }
    match find_key(v, k) {
        Some(i) => {
            let mut h = v[i].1.duplicate();
            proof {
                assert(e[i as int] == (v@[i as int].0@, v@[i as int].1@));
                assert(emap(e).contains_key(e[i as int].0));
                lemma_bucket_le_total(h.buckets@, bucket_index(value, bounds@) as int);
            }
            record_histogram(&mut h, value, bounds.as_slice());
            let key = v[i].0.clone();
            let ghost hv = h@;
            v.set(i, (key, h));
            proof {
                assert(eviews(v@) =~= e.update(i as int, (e[i as int].0, hv)));
                assert(hv == recorded(e[i as int].1, value, bounds@));
                lemma_emap_update(e, i as int, hv);
            }
        },
        None => {
            let mut h = Histogram::new(bounds.len());
            proof {
                assert(h@ == empty_hist(bounds.len() as nat));
            }
            record_histogram(&mut h, value, bounds.as_slice());
            let ghost hv = h@;
            let kv = chars_of(k);
            v.push((string_of(&kv), h));
            proof {
                assert(eviews(v@) =~= e.push((k@, hv)));
                lemma_emap_push(e, k@, hv);
            }
        },
    }
    proof {
        let m = emap(eviews(v@));
        assert forall|key: Seq<char>| #[trigger] m.contains_key(key) implies hist_ok(
            m[key],
            bounds@,
        ) by {
            if key != k@ {
                assert(emap(e).contains_key(key));
            }
        }
    }
}

/// `a|b` as a string.
fn keyed_string(a: &str, b: &str) -> (r: String)
    ensures
        r@ == keyed(a@, b@),
{
    let mut v = chars_of(a);
    v.push('|');
    push_str(&mut v, b);
    string_of(&v)
}

/// `action|status` where status is the code or "error".
fn status_key(action: &str, status: Option<u16>) -> (r: String)
    ensures
        r@ == keyed(action@, status_label(status)),
{
    let mut v = chars_of(action);
    v.push('|');
    match status {
        Some(s) => {
            let d = u64_dec(s as u64);
            push_all(&mut v, &d);
        },
        None => {
            push_str(&mut v, "error");
        },
    }
    string_of(&v)
}

/// Counts a scheduler tick: one more tick for the category, `due_count`
/// more due feeds seen, and `due_count` as the current number of due feeds.
pub fn record_tick(metrics: &mut Metrics, category: &str, due_count: u64)
    requires
        old(metrics).wf(),
        counter(old(metrics)@.ticks, category@) < u64::MAX,
        counter(old(metrics)@.due, category@) + due_count <= u64::MAX,
    ensures
        final(metrics).wf(),
        final(metrics)@ == (MetricsView {
            ticks: old(metrics)@.ticks.insert(
                category@,
                (counter(old(metrics)@.ticks, category@) + 1) as u64,
            ),
            due: old(metrics)@.due.insert(
                category@,
                (counter(old(metrics)@.due, category@) + due_count) as u64,
            ),
            due_current: old(metrics)@.due_current.insert(category@, due_count),
            ..old(metrics)@
        }),
{
    bump(&mut metrics.ticks_by_category, category, 1);
    bump(&mut metrics.due_feeds_by_category, category, due_count);
    put(&mut metrics.due_feeds_current_by_category, category, due_count);
}

/// Counts the outcome of a request: the per-action ok/err counter (for
/// "head" and "get"), the `action|status` count, and the latency under
/// `action|domain`.
pub fn record_http_result(
    metrics: &mut Metrics,
    action: &str,
    domain: &str,
    status: Option<u16>,
    latency_ms: u64,
    ok: bool,
)
    requires
        old(metrics).wf(),
        counter(old(metrics)@.status_counts, keyed(action@, status_label(status))) < u64::MAX,
        can_record(
            hist_or_empty(old(metrics)@.http_latency, keyed(action@, domain@), 9),
            latency_ms,
        ),
    ensures
        final(metrics).wf(),
        final(metrics)@ == ({
            let o = old(metrics)@;
            let skey = keyed(action@, status_label(status));
            let lkey = keyed(action@, domain@);
            MetricsView {
                head_ok: if action@ == "head"@ && ok {
                    inc_wrap(o.head_ok)
                } else {
                    o.head_ok
                },
                head_err: if action@ == "head"@ && !ok {
                    inc_wrap(o.head_err)
                } else {
                    o.head_err
                },
                get_ok: if action@ == "get"@ && ok {
                    inc_wrap(o.get_ok)
                } else {
                    o.get_ok
                },
                get_err: if action@ == "get"@ && !ok {
                    inc_wrap(o.get_err)
                } else {
                    o.get_err
                },
                status_counts: o.status_counts.insert(
                    skey,
                    (counter(o.status_counts, skey) + 1) as u64,
                ),
                http_latency: o.http_latency.insert(
                    lkey,
                    recorded(hist_or_empty(o.http_latency, lkey, 9), latency_ms, latency_bounds()),
                ),
                ..o
            }
        }),
{
    let is_head = name_eq(action, "head");
    let is_get = name_eq(action, "get");
    proof {
        reveal_strlit("head");
        reveal_strlit("get");
        assert("head"@.len() != "get"@.len());
    }
    if is_head && ok {
        metrics.head_ok = if metrics.head_ok == u64::MAX {
            0
        } else {
            metrics.head_ok + 1
        };
    } else if is_head && !ok {
        metrics.head_err = if metrics.head_err == u64::MAX {
            0
        } else {
            metrics.head_err + 1
        };
    } else if is_get && ok {
        metrics.get_ok = if metrics.get_ok == u64::MAX {
            0
        } else {
            metrics.get_ok + 1
        };
    } else if is_get && !ok {
        metrics.get_err = if metrics.get_err == u64::MAX {
            0
        } else {
            metrics.get_err + 1
        };
    }
    let skey = status_key(action, status);
    bump(&mut metrics.status_counts, skey.as_str(), 1);
    let lkey = keyed_string(action, domain);
    let bounds = latency_buckets_ms();
    record_into(&mut metrics.http_latency, lkey.as_str(), latency_ms, &bounds);
}

/// Counts the duration of a database query under its name.
pub fn record_db_time(metrics: &mut Metrics, query: &str, elapsed_ms: u64)
    requires
        old(metrics).wf(),
        can_record(hist_or_empty(old(metrics)@.db_timings, query@, 9), elapsed_ms),
    ensures
        final(metrics).wf(),
        final(metrics)@ == (MetricsView {
            db_timings: old(metrics)@.db_timings.insert(
                query@,
                recorded(hist_or_empty(old(metrics)@.db_timings, query@, 9), elapsed_ms, db_bounds()),
            ),
            ..old(metrics)@
        }),
{
    let bounds = db_buckets_ms();
    record_into(&mut metrics.db_timings, query, elapsed_ms, &bounds);
}

/// Marks one action in flight; the guard ends it.
pub struct InFlightGuard {
    enabled: bool,
}

impl InFlightGuard {
    pub closed spec fn is_enabled(&self) -> bool {
        self.enabled
    }

    /// A guard whose end changes nothing (statistics are off).
    pub fn disabled() -> (g: Self)
        ensures
            !g.is_enabled(),
    {
        InFlightGuard { enabled: false }
    }

    /// Ends the action: the in-flight gauge goes down by one (wrapping, as
    /// the atomic does) when the guard was counted.
    pub fn finish(self, metrics: &mut Metrics)
        requires
            old(metrics).wf(),
        ensures
            final(metrics).wf(),
            final(metrics)@ == (MetricsView {
                inflight: if self.is_enabled() {
                    dec_wrap(old(metrics)@.inflight)
                } else {
                    old(metrics)@.inflight
                },
                ..old(metrics)@
            }),
    {
        if self.enabled {
            metrics.inflight_actions = if metrics.inflight_actions == 0 {
                u64::MAX
            } else {
                metrics.inflight_actions - 1
            };
        }
    }
}

/// Marks an action in flight: the gauge goes up by one (wrapping).
pub fn record_inflight_start(metrics: &mut Metrics) -> (g: InFlightGuard)
    requires
        old(metrics).wf(),
    ensures
        final(metrics).wf(),
        g.is_enabled(),
        final(metrics)@ == (MetricsView { inflight: inc_wrap(old(metrics)@.inflight), ..old(metrics)@ }),
{
    metrics.inflight_actions = if metrics.inflight_actions == u64::MAX {
        0
    } else {
        metrics.inflight_actions + 1
    };
    InFlightGuard { enabled: true }
}

/// Starting an action and then ending it leaves the statistics as they
/// were: the in-flight gauge goes back to its value before the start,
/// wrapping included.
pub proof fn lemma_inflight_start_end(before: MetricsView)
    ensures
        (MetricsView { inflight: dec_wrap((MetricsView { inflight: inc_wrap(before.inflight), ..before }).inflight), ..before })
            == before,
{
}

} // verus!
