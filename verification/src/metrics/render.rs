//! Prometheus text rendering of the runtime statistics.

use vstd::prelude::*;

use super::histogram::{
    db_bounds, db_buckets_ms, latency_bounds, latency_buckets_ms, prefix_total, HistView,
    Histogram,
};
use super::{hist_ok, Metrics, MetricsView};
use crate::entries::{eviews, insert_by_name, insert_by_pair, pviews};
use crate::sorted::{
    emap, lemma_emap_unique, lemma_sorted_entries_is, lemma_str_lt_strict_total,
    lemma_str_pair_lt_strict_total, sorted_by, sorted_entries, str_lt, str_pair_lt, unique_keys,
};
use crate::text::{
    chars_of, dec, find, lemma_find, lemma_find_at, push_all, push_str, split_once,
    split_once_vec, string_of, u64_dec,
};

verus! {

pub const UP_HELP: &'static str = "# HELP feedrv3_up Service is \
     running.\n";

pub const UP_TYPE: &'static str = "# TYPE feedrv3_up gauge\n";

pub const UP_LINE: &'static str = "feedrv3_up 1\n";

pub const START_HELP: &'static str = "# HELP feedrv3_start_time_seconds Start time in unix seconds.\n";

pub const START_TYPE: &'static str = "# TYPE feedrv3_start_time_seconds gauge\n";

pub const START_PRE: &'static str = "feedrv3_start_time_seconds ";

pub const NL: &'static str = "\n";

pub const TICKS_HELP: &'static str = "# HELP feedrv3_scheduler_ticks_total Scheduler ticks per category.\n";

pub const TICKS_TYPE: &'static str = "# TYPE feedrv3_scheduler_ticks_total counter\n";

pub const TICKS_PRE: &'static str = "feedrv3_scheduler_ticks_total{category=\"";

pub const CLOSE: &'static str = "\"} ";

pub const DUE_HELP: &'static str = "# HELP feedrv3_due_feeds_total Due feeds seen per category.\n";

pub const DUE_TYPE: &'static str = "# TYPE feedrv3_due_feeds_total counter\n";

pub const DUE_PRE: &'static str = "feedrv3_due_feeds_total{category=\"";

pub const DUE_CUR_HELP: &'static str = "# HELP feedrv3_due_feeds Current due feeds per category.\n";

pub const DUE_CUR_TYPE: &'static str = "# TYPE feedrv3_due_feeds gauge\n";

pub const DUE_CUR_PRE: &'static str = "feedrv3_due_feeds{category=\"";

pub const INFLIGHT_HELP: &'static str = "# HELP feedrv3_inflight_actions \
     In-flight feed actions.\n";

pub const INFLIGHT_TYPE: &'static str = "# TYPE feedrv3_inflight_actions \
     gauge\n";

pub const INFLIGHT_PRE: &'static str = "feedrv3_inflight_actions ";

pub const ACTIONS_HELP: &'static str = "# HELP feedrv3_feed_actions_total Feed actions by type and outcome.\n";

pub const ACTIONS_TYPE: &'static str = "# TYPE feedrv3_feed_actions_total counter\n";

pub const HEAD_OK_PRE: &'static str = "feedrv3_feed_actions_total{action=\"head\",outcome=\"ok\"} ";

pub const HEAD_ERR_PRE: &'static str = "feedrv3_feed_actions_total{action=\"head\",outcome=\"err\"} ";

pub const GET_OK_PRE: &'static str = "feedrv3_feed_actions_total{action=\"get\",outcome=\"ok\"} ";

pub const GET_ERR_PRE: &'static str = "feedrv3_feed_actions_total{action=\"get\",outcome=\"err\"} ";

pub const STATUS_HELP: &'static str = "# HELP feedrv3_http_status_total \
     HTTP status counts by action.\n";

pub const STATUS_TYPE: &'static str = "# TYPE feedrv3_http_status_total \
     counter\n";

pub const STATUS_PRE: &'static str = "feedrv3_http_status_total{action=\"";

pub const STATUS_MID: &'static str = "\",status=\"";

pub const LATENCY_HELP: &'static str = "# HELP feedrv3_http_latency_ms HTTP latency by action/domain.\n";

pub const LATENCY_TYPE: &'static str = "# TYPE feedrv3_http_latency_ms histogram\n";

pub const LATENCY_NAME: &'static str = "feedrv3_http_latency_ms";

pub const DB_HELP: &'static str = "# HELP feedrv3_db_query_ms Database query timings.\n";

pub const DB_TYPE: &'static str = "# TYPE feedrv3_db_query_ms histogram\n";

pub const DB_NAME: &'static str = "feedrv3_db_query_ms";

pub const BUCKET_SUFFIX: &'static str = "_bucket";

pub const SUM_SUFFIX: &'static str = "_sum";

pub const COUNT_SUFFIX: &'static str = "_count";

pub const INF: &'static str = "+Inf";

pub const LE_OPEN: &'static str = "le=\"";

pub const EQ_QUOTE: &'static str = "=\"";

pub const SPACE: &'static str = " ";

/// One char of a label value as written: '\' and '"' get a '\' before them.
pub open spec fn esc_char(c: char) -> Seq<char> {
    if c == '\\' {
        seq!['\\', '\\']
    } else if c == '"' {
        seq!['\\', '"']
    } else {
        seq![c]
    }
}

/// A label value with '\' and '"' escaped.
pub open spec fn escape(s: Seq<char>) -> Seq<char>
    decreases s.len(),
{
    if s.len() == 0 {
        Seq::empty()
    } else {
        escape(s.drop_last()) + esc_char(s.last())
    }
}

/// Entries keyed `a|b` read as entries keyed `(a, b)`, split at the first
/// '|'; a key without '|' is left out.
pub open spec fn kv_map<V>(m: Map<Seq<char>, V>) -> Map<(Seq<char>, Seq<char>), V> {
    Map::new(
        |p: (Seq<char>, Seq<char>)| find(p.0, '|') < 0 && m.contains_key(p.0 + seq!['|'] + p.1),
        |p: (Seq<char>, Seq<char>)| m[p.0 + seq!['|'] + p.1],
    )
}

/// One line per entry: `pre`, the escaped name, `mid`, the count, `end`.
pub open spec fn name_lines(e: Seq<(Seq<char>, u64)>, pre: Seq<char>, mid: Seq<char>, end: Seq<char>) -> Seq<
    char,
>
    decreases e.len(),
{
    if e.len() == 0 {
        Seq::empty()
    } else {
        name_lines(e.drop_last(), pre, mid, end) + pre + escape(e.last().0) + mid + dec(
            e.last().1 as nat,
        ) + end
    }
}

/// One status line per `(action, status)` entry.
pub open spec fn status_lines(e: Seq<((Seq<char>, Seq<char>), u64)>) -> Seq<char>
    decreases e.len(),
{
    if e.len() == 0 {
        Seq::empty()
    } else {
        status_lines(e.drop_last()) + STATUS_PRE@ + escape(e.last().0.0) + STATUS_MID@ + escape(
            e.last().0.1,
        ) + CLOSE@ + dec(e.last().1 as nat) + NL@
    }
}

/// `k="v"` pairs joined with ','.
pub open spec fn label_pairs(labels: Seq<(Seq<char>, Seq<char>)>) -> Seq<char>
    decreases labels.len(),
{
    if labels.len() == 0 {
        Seq::empty()
    } else {
        label_pairs(labels.drop_last()) + (if labels.len() > 1 {
            seq![',']
        } else {
            Seq::empty()
        }) + labels.last().0 + EQ_QUOTE@ + escape(labels.last().1) + seq!['"']
    }
}

/// `{k="v",...,le="x"}`.
pub open spec fn labels_text(labels: Seq<(Seq<char>, Seq<char>)>, le: Option<Seq<char>>) -> Seq<
    char,
> {
    seq!['{'] + label_pairs(labels) + match le {
        Some(l) => (if labels.len() > 0 {
            seq![',']
        } else {
            Seq::empty()
        }) + LE_OPEN@ + l + seq!['"'],
        None => Seq::empty(),
    } + seq!['}']
}

/// The cumulative bucket lines for the first `n` bounds.
pub open spec fn bucket_lines(
    name: Seq<char>,
    bounds: Seq<u64>,
    b: Seq<u64>,
    labels: Seq<(Seq<char>, Seq<char>)>,
    n: nat,
) -> Seq<char>
    decreases n,
{
    if n == 0 {
        Seq::empty()
    } else {
        bucket_lines(name, bounds, b, labels, (n - 1) as nat) + name + BUCKET_SUFFIX@ + labels_text(
            labels,
            Some(dec(bounds[n - 1] as nat)),
        ) + SPACE@ + dec(prefix_total(b, n)) + NL@
    }
}

/// The lines of one histogram: cumulative buckets, `+Inf`, sum and count.
pub open spec fn hist_text(
    name: Seq<char>,
    bounds: Seq<u64>,
    h: HistView,
    labels: Seq<(Seq<char>, Seq<char>)>,
) -> Seq<char> {
    bucket_lines(name, bounds, h.buckets, labels, bounds.len()) + name + BUCKET_SUFFIX@
        + labels_text(labels, Some(INF@)) + SPACE@ + dec(
        prefix_total(h.buckets, bounds.len() + 1),
    ) + NL@ + name + SUM_SUFFIX@ + labels_text(labels, None) + SPACE@ + dec(h.sum as nat) + NL@
        + name + COUNT_SUFFIX@ + labels_text(labels, None) + SPACE@ + dec(h.count as nat) + NL@
}

pub open spec fn latency_hists(e: Seq<((Seq<char>, Seq<char>), HistView)>) -> Seq<char>
    decreases e.len(),
{
    if e.len() == 0 {
        Seq::empty()
    } else {
        latency_hists(e.drop_last()) + hist_text(
            LATENCY_NAME@,
            latency_bounds(),
            e.last().1,
            seq![("action"@, e.last().0.0), ("domain"@, e.last().0.1)],
        )
    }
}

pub open spec fn db_hists(e: Seq<(Seq<char>, HistView)>) -> Seq<char>
    decreases e.len(),
{
    if e.len() == 0 {
        Seq::empty()
    } else {
        db_hists(e.drop_last()) + hist_text(
            DB_NAME@,
            db_bounds(),
            e.last().1,
            seq![("query"@, e.last().0)],
        )
    }
}

pub open spec fn head_text(m: MetricsView) -> Seq<char> {
    UP_HELP@ + UP_TYPE@ + UP_LINE@ + START_HELP@ + START_TYPE@ + START_PRE@ + dec(
        m.start_time_seconds as nat,
    ) + NL@
}

pub open spec fn category_text(m: MetricsView) -> Seq<char> {
    TICKS_HELP@ + TICKS_TYPE@ + name_lines(sorted_entries(m.ticks, str_lt()), TICKS_PRE@, CLOSE@, NL@)
        + DUE_HELP@ + DUE_TYPE@ + name_lines(
        sorted_entries(m.due, str_lt()),
        DUE_PRE@,
        CLOSE@,
        NL@,
    ) + DUE_CUR_HELP@ + DUE_CUR_TYPE@ + name_lines(
        sorted_entries(m.due_current, str_lt()),
        DUE_CUR_PRE@,
        CLOSE@,
        NL@,
    )
}

pub open spec fn action_text(m: MetricsView) -> Seq<char> {
    INFLIGHT_HELP@ + INFLIGHT_TYPE@ + INFLIGHT_PRE@ + dec(m.inflight as nat) + NL@ + ACTIONS_HELP@
        + ACTIONS_TYPE@ + HEAD_OK_PRE@ + dec(m.head_ok as nat) + NL@ + HEAD_ERR_PRE@ + dec(
        m.head_err as nat,
    ) + NL@ + GET_OK_PRE@ + dec(m.get_ok as nat) + NL@ + GET_ERR_PRE@ + dec(m.get_err as nat)
        + NL@
}

pub open spec fn status_text(m: MetricsView) -> Seq<char> {
    STATUS_HELP@ + STATUS_TYPE@ + status_lines(
        sorted_entries(kv_map(m.status_counts), str_pair_lt()),
    )
}

pub open spec fn timing_text(m: MetricsView) -> Seq<char> {
    LATENCY_HELP@ + LATENCY_TYPE@ + latency_hists(
        sorted_entries(kv_map(m.http_latency), str_pair_lt()),
    ) + DB_HELP@ + DB_TYPE@ + db_hists(sorted_entries(m.db_timings, str_lt()))
}

/// The whole exposition text.
pub open spec fn render_text(m: MetricsView) -> Seq<char> {
    head_text(m) + category_text(m) + action_text(m) + status_text(m) + timing_text(m)
}

proof fn lemma_escape_push(s: Seq<char>, c: char)
    ensures
        escape(s.push(c)) == escape(s) + esc_char(c),
{
    assert(s.push(c).drop_last() =~= s);
}

/// `value` with '\' and '"' escaped.
pub fn escape_label(value: &str) -> (r: String)
    ensures
        r@ == escape(value@),
{
    let v = chars_of(value);
    let mut out: Vec<char> = Vec::new();
    let mut i: usize = 0;
    while i < v.len()
        invariant
            i <= v.len(),
            v@ == value@,
            out@ == escape(v@.take(i as int)),
        decreases v.len() - i,
    {
        let c = v[i];
        if c == '\\' {
            out.push('\\');
            out.push('\\');
        } else if c == '"' {
            out.push('\\');
            out.push('"');
        } else {
            out.push(c);
        }
        proof {
            lemma_escape_push(v@.take(i as int), c);
            assert(v@.take(i + 1) =~= v@.take(i as int).push(c));
            assert(out@ =~= escape(v@.take(i as int)) + esc_char(c));
        }
        i = i + 1;
    }
    assert(v@.take(v.len() as int) =~= v@);
    string_of(&out)
}

fn push_escaped(out: &mut Vec<char>, value: &str)
    ensures
        final(out)@ == old(out)@ + escape(value@),
{
    let e = escape_label(value);
    push_str(out, e.as_str());
}

fn push_dec(out: &mut Vec<char>, n: u64)
    ensures
        final(out)@ == old(out)@ + dec(n as nat),
{
    let d = u64_dec(n);
    push_all(out, &d);
}

/// The entries sorted by name.
pub fn sorted_map(map: &Vec<(String, u64)>) -> (r: Vec<(String, u64)>)
    requires
        unique_keys(eviews(map@)),
    ensures
        sorted_by(eviews(r@), str_lt()),
        emap(eviews(r@)) == emap(eviews(map@)),
{
    let mut out: Vec<(String, u64)> = Vec::new();
    let mut i: usize = 0;
    proof {
        assert(eviews(out@) =~= Seq::<(Seq<char>, u64)>::empty());
        assert(eviews(map@).take(0) =~= Seq::<(Seq<char>, u64)>::empty());
    }
    while i < map.len()
        invariant
            i <= map.len(),
            unique_keys(eviews(map@)),
            sorted_by(eviews(out@), str_lt()),
            emap(eviews(out@)) == emap(eviews(map@).take(i as int)),
        decreases map.len() - i,
    {
        proof {
            lemma_take_new_key(eviews(map@), i as int);
        }
        let k = map[i].0.clone();
        insert_by_name(&mut out, k, map[i].1);
        proof {
            assert(eviews(map@).take(i + 1).drop_last() =~= eviews(map@).take(i as int));
        }
        i = i + 1;
    }
    proof {
        assert(eviews(map@).take(map.len() as int) =~= eviews(map@));
    }
    out
}

/// The histograms sorted by name.
pub fn sorted_hist_map_single(map: &Vec<(String, Histogram)>) -> (r: Vec<(String, Histogram)>)
    requires
        unique_keys(eviews(map@)),
    ensures
        sorted_by(eviews(r@), str_lt()),
        emap(eviews(r@)) == emap(eviews(map@)),
{
    let mut out: Vec<(String, Histogram)> = Vec::new();
    let mut i: usize = 0;
    proof {
        assert(eviews(out@) =~= Seq::<(Seq<char>, HistView)>::empty());
        assert(eviews(map@).take(0) =~= Seq::<(Seq<char>, HistView)>::empty());
    }
    while i < map.len()
        invariant
            i <= map.len(),
            unique_keys(eviews(map@)),
            sorted_by(eviews(out@), str_lt()),
            emap(eviews(out@)) == emap(eviews(map@).take(i as int)),
        decreases map.len() - i,
    {
        proof {
            lemma_take_new_key(eviews(map@), i as int);
        }
        let k = map[i].0.clone();
        let h = map[i].1.duplicate();
        insert_by_name(&mut out, k, h);
        proof {
            assert(eviews(map@).take(i + 1).drop_last() =~= eviews(map@).take(i as int));
        }
        i = i + 1;
    }
    proof {
        assert(eviews(map@).take(map.len() as int) =~= eviews(map@));
    }
    out
}

/// With distinct keys, the key at `i` is not among the keys before it.
proof fn lemma_take_new_key<V>(e: Seq<(Seq<char>, V)>, i: int)
    requires
        unique_keys(e),
        0 <= i < e.len(),
    ensures
        !emap(e.take(i)).contains_key(e[i].0),
{
    let t = e.take(i);
    assert(unique_keys(t)) by {
        assert forall|a: int, b: int| 0 <= a < b < t.len() implies #[trigger] t[a].0
            != #[trigger] t[b].0 by {
            assert(t[a] == e[a] && t[b] == e[b]);
        }
    }
    lemma_emap_unique(t);
    if emap(t).contains_key(e[i].0) {
        let j = choose|j: int| 0 <= j < t.len() && t[j].0 == e[i].0;
        assert(t[j] == e[j]);
    }
}

/// `a|s` splits back into `(a, s)` when `a` has no '|'.
proof fn lemma_keyed_split(a: Seq<char>, s: Seq<char>)
    requires
        find(a, '|') < 0,
    ensures
        split_once(a + seq!['|'] + s, '|') == Some((a, s)),
{
    let k = a + seq!['|'] + s;
    lemma_find(a, '|');
    assert forall|j: int| 0 <= j < a.len() implies k[j] != '|' by {
        assert(k[j] == a[j]);
    }
    lemma_find_at(k, '|', a.len() as int);
    assert(k.subrange(0, a.len() as int) =~= a);
    assert(k.subrange(a.len() + 1 as int, k.len() as int) =~= s);
}

/// A key that splits into `(a, s)` is `a|s`, and `a` has no '|'.
proof fn lemma_split_keyed(k: Seq<char>, a: Seq<char>, s: Seq<char>)
    requires
        split_once(k, '|') == Some((a, s)),
    ensures
        k == a + seq!['|'] + s,
        find(a, '|') < 0,
{
    lemma_find(k, '|');
    let i = find(k, '|');
    assert(k =~= a + seq!['|'] + s);
    assert forall|j: int| 0 <= j < a.len() implies a[j] != '|' by {
        assert(a[j] == k[j]);
    }
    lemma_find_at(a, '|', a.len() as int);
}

/// A key without '|' is no `a|s`.
proof fn lemma_no_bar_not_keyed(k: Seq<char>, a: Seq<char>, s: Seq<char>)
    requires
        find(k, '|') < 0,
    ensures
        k != a + seq!['|'] + s,
{
    lemma_find(k, '|');
    if k == a + seq!['|'] + s {
        assert(k[a.len() as int] == '|');
    }
}

/// `kv_map` after adding entry `k -> v` (with `k` new).
proof fn lemma_kv_map_insert<V>(m: Map<Seq<char>, V>, k: Seq<char>, v: V)
    requires
        !m.contains_key(k),
    ensures
        split_once(k, '|') is None ==> kv_map(m.insert(k, v)) == kv_map(m),
        split_once(k, '|') matches Some(p) ==> kv_map(m.insert(k, v)) == kv_map(m).insert(p, v)
            && !kv_map(m).contains_key(p),
{
    let n = m.insert(k, v);
    match split_once(k, '|') {
        None => {
            lemma_find(k, '|');
            assert(kv_map(n) =~= kv_map(m)) by {
                assert forall|p: (Seq<char>, Seq<char>)| #[trigger] kv_map(n).contains_key(p)
                    implies kv_map(m).contains_key(p) && kv_map(n)[p] == kv_map(m)[p] by {
                    lemma_no_bar_not_keyed(k, p.0, p.1);
                }
                assert forall|p: (Seq<char>, Seq<char>)| #[trigger] kv_map(m).contains_key(p)
                    implies kv_map(n).contains_key(p) by {
                    lemma_no_bar_not_keyed(k, p.0, p.1);
                }
            }
        },
        Some(q) => {
            lemma_split_keyed(k, q.0, q.1);
            assert(!kv_map(m).contains_key(q));
            assert(kv_map(n) =~= kv_map(m).insert(q, v)) by {
                assert forall|p: (Seq<char>, Seq<char>)| #[trigger] kv_map(n).contains_key(p)
                    implies kv_map(m).insert(q, v).contains_key(p) && kv_map(n)[p] == kv_map(
                    m,
                ).insert(q, v)[p] by {
                    if p.0 + seq!['|'] + p.1 == k {
                        lemma_keyed_split(p.0, p.1);
                        assert(p == q);
                    }
                }
                assert forall|p: (Seq<char>, Seq<char>)| #[trigger] kv_map(m).insert(
                    q,
                    v,
                ).contains_key(p) implies kv_map(n).contains_key(p) by {
                }
            }
        },
    }
}

/// The `action|status` counts as `(action, status)` entries sorted by pair.
pub fn sorted_kv_map(map: &Vec<(String, u64)>) -> (r: Vec<((String, String), u64)>)
    requires
        unique_keys(eviews(map@)),
    ensures
        sorted_by(pviews(r@), str_pair_lt()),
        emap(pviews(r@)) == kv_map(emap(eviews(map@))),
{
    let mut out: Vec<((String, String), u64)> = Vec::new();
    let mut i: usize = 0;
    proof {
        assert(pviews(out@) =~= Seq::<((Seq<char>, Seq<char>), u64)>::empty());
        assert(eviews(map@).take(0) =~= Seq::<(Seq<char>, u64)>::empty());
        assert(kv_map(emap(Seq::<(Seq<char>, u64)>::empty())) =~= Map::empty());
    }
    while i < map.len()
        invariant
            i <= map.len(),
            unique_keys(eviews(map@)),
            sorted_by(pviews(out@), str_pair_lt()),
            emap(pviews(out@)) == kv_map(emap(eviews(map@).take(i as int))),
        decreases map.len() - i,
    {
        let ghost e = eviews(map@);
        proof {
            lemma_take_new_key(e, i as int);
            assert(e.take(i + 1).drop_last() =~= e.take(i as int));
            lemma_kv_map_insert(emap(e.take(i as int)), e[i as int].0, e[i as int].1);
        }
        let kv = chars_of(map[i].0.as_str());
        match split_once_vec(&kv, '|') {
            Some((a, s)) => {
                let key = (string_of(&a), string_of(&s));
                insert_by_pair(&mut out, key, map[i].1);
            },
            None => {},
        }
        i = i + 1;
    }
    proof {
        assert(eviews(map@).take(map.len() as int) =~= eviews(map@));
    }
    out
}

/// The `action|domain` histograms as `(action, domain)` entries sorted by pair.
pub fn sorted_hist_map(map: &Vec<(String, Histogram)>) -> (r: Vec<((String, String), Histogram)>)
    requires
        unique_keys(eviews(map@)),
    ensures
        sorted_by(pviews(r@), str_pair_lt()),
        emap(pviews(r@)) == kv_map(emap(eviews(map@))),
{
    let mut out: Vec<((String, String), Histogram)> = Vec::new();
    let mut i: usize = 0;
    proof {
        assert(pviews(out@) =~= Seq::<((Seq<char>, Seq<char>), HistView)>::empty());
        assert(eviews(map@).take(0) =~= Seq::<(Seq<char>, HistView)>::empty());
        assert(kv_map(emap(Seq::<(Seq<char>, HistView)>::empty())) =~= Map::empty());
    }
    while i < map.len()
        invariant
            i <= map.len(),
            unique_keys(eviews(map@)),
            sorted_by(pviews(out@), str_pair_lt()),
            emap(pviews(out@)) == kv_map(emap(eviews(map@).take(i as int))),
        decreases map.len() - i,
    {
        let ghost e = eviews(map@);
        proof {
            lemma_take_new_key(e, i as int);
            assert(e.take(i + 1).drop_last() =~= e.take(i as int));
            lemma_kv_map_insert(emap(e.take(i as int)), e[i as int].0, e[i as int].1);
        }
        let kv = chars_of(map[i].0.as_str());
        match split_once_vec(&kv, '|') {
            Some((a, s)) => {
                let key = (string_of(&a), string_of(&s));
                let h = map[i].1.duplicate();
                insert_by_pair(&mut out, key, h);
            },
            None => {},
        }
        i = i + 1;
    }
    proof {
        assert(eviews(map@).take(map.len() as int) =~= eviews(map@));
    }
    out
}

pub open spec fn lviews(v: Seq<(Vec<char>, Vec<char>)>) -> Seq<(Seq<char>, Seq<char>)> {
    v.map_values(|p: (Vec<char>, Vec<char>)| (p.0@, p.1@))
}

/// `{k="v",...}` with an optional trailing `le="x"`.
fn format_labels(labels: &Vec<(Vec<char>, Vec<char>)>, le: Option<&Vec<char>>) -> (r: Vec<char>)
    ensures
        r@ == labels_text(
            lviews(labels@),
            match le {
                Some(l) => Some(l@),
                None => None,
            },
        ),
{
    let ghost lv = lviews(labels@);
    let mut out: Vec<char> = Vec::new();
    out.push('{');
    let mut i: usize = 0;
    while i < labels.len()
        invariant
            i <= labels.len(),
            lv == lviews(labels@),
            out@ == seq!['{'] + label_pairs(lv.take(i as int)),
        decreases labels.len() - i,
    {
        if i > 0 {
            out.push(',');
        }
        push_all(&mut out, &labels[i].0);
        push_str(&mut out, EQ_QUOTE);
        let vs = string_of(&labels[i].1);
        push_escaped(&mut out, vs.as_str());
        out.push('"');
        proof {
            let t = lv.take(i + 1);
            assert(t.drop_last() =~= lv.take(i as int));
            assert(t.last() == lv[i as int]);
        }
        i = i + 1;
        proof {
            assert(out@ =~= seq!['{'] + label_pairs(lv.take(i as int)));
        }
    }
    proof {
        assert(lv.take(labels.len() as int) =~= lv);
    }
    match le {
        Some(l) => {
            if labels.len() > 0 {
                out.push(',');
            }
            push_str(&mut out, LE_OPEN);
            push_all(&mut out, l);
            out.push('"');
        },
        None => {},
    }
    out.push('}');
    proof {
        let le_v = match le {
            Some(l) => Some(l@),
            None => None,
        };
        assert(out@ =~= labels_text(lv, le_v));
    }
    out
}

/// Appends the lines of one histogram.
#[verifier::rlimit(50)]
fn emit_histogram(
    out: &mut Vec<char>,
    name: &str,
    buckets: &Vec<u64>,
    hist: &Histogram,
    labels: &Vec<(Vec<char>, Vec<char>)>,
)
    requires
        hist_ok(hist@, buckets@),
        buckets.len() < usize::MAX,
    ensures
        final(out)@ == old(out)@ + hist_text(name@, buckets@, hist@, lviews(labels@)),
{
    let ghost lv = lviews(labels@);
    let ghost start = out@;
    let mut cumulative: u64 = 0;
    let mut idx: usize = 0;
    proof {
        super::histogram::lemma_prefix_total_mono(hist.buckets@, 0, (buckets.len() + 1) as nat);
    }
    while idx < buckets.len()
        invariant
            idx <= buckets.len() < usize::MAX,
            hist_ok(hist@, buckets@),
            lv == lviews(labels@),
            cumulative == prefix_total(hist.buckets@, idx as nat),
            out@ == start + bucket_lines(name@, buckets@, hist.buckets@, lv, idx as nat),
        decreases buckets.len() - idx,
    {
        proof {
            super::histogram::lemma_prefix_total_mono(
                hist.buckets@,
                (idx + 1) as nat,
                hist.buckets@.len(),
            );
        }
        let add = if idx < hist.buckets.len() {
            hist.buckets[idx]
        } else {
            0
        };
        cumulative = cumulative + add;
        let upper = u64_dec(buckets[idx]);
        push_str(out, name);
        push_str(out, BUCKET_SUFFIX);
        let lt = format_labels(labels, Some(&upper));
        push_all(out, &lt);
        push_str(out, SPACE);
        push_dec(out, cumulative);
        push_str(out, NL);
        idx = idx + 1;
        proof {
            assert(out@ =~= start + bucket_lines(name@, buckets@, hist.buckets@, lv, idx as nat));
        }
    }
    proof {
        super::histogram::lemma_prefix_total_mono(
            hist.buckets@,
            (buckets.len() + 1) as nat,
            hist.buckets@.len(),
        );
    }
    let last = if buckets.len() < hist.buckets.len() {
        hist.buckets[buckets.len()]
    } else {
        0
    };
    cumulative = cumulative + last;
    let inf = chars_of(INF);
    push_str(out, name);
    push_str(out, BUCKET_SUFFIX);
    let l1 = format_labels(labels, Some(&inf));
    push_all(out, &l1);
    push_str(out, SPACE);
    push_dec(out, cumulative);
    push_str(out, NL);
    let l2 = format_labels(labels, None);
    push_str(out, name);
    push_str(out, SUM_SUFFIX);
    push_all(out, &l2);
    push_str(out, SPACE);
    push_dec(out, hist.sum);
    push_str(out, NL);
    push_str(out, name);
    push_str(out, COUNT_SUFFIX);
    push_all(out, &l2);
    push_str(out, SPACE);
    push_dec(out, hist.count);
    push_str(out, NL);
    proof {
        assert(out@ =~= start + hist_text(name@, buckets@, hist@, lv));
    }
}

/// Appends one line per entry.
fn emit_name_lines(out: &mut Vec<char>, e: &Vec<(String, u64)>, pre: &str, mid: &str, end: &str)
    ensures
        final(out)@ == old(out)@ + name_lines(eviews(e@), pre@, mid@, end@),
{
    let ghost start = out@;
    let ghost ev = eviews(e@);
    let mut i: usize = 0;
    while i < e.len()
        invariant
            i <= e.len(),
            ev == eviews(e@),
            out@ == start + name_lines(ev.take(i as int), pre@, mid@, end@),
        decreases e.len() - i,
    {
        push_str(out, pre);
        push_escaped(out, e[i].0.as_str());
        push_str(out, mid);
        push_dec(out, e[i].1);
        push_str(out, end);
        proof {
            let t = ev.take(i + 1);
            assert(t.drop_last() =~= ev.take(i as int));
            assert(t.last() == ev[i as int]);
        }
        i = i + 1;
        proof {
            assert(out@ =~= start + name_lines(ev.take(i as int), pre@, mid@, end@));
        }
    }
    proof {
        assert(ev.take(e.len() as int) =~= ev);
    }
}

fn emit_status_lines(out: &mut Vec<char>, e: &Vec<((String, String), u64)>)
    ensures
        final(out)@ == old(out)@ + status_lines(pviews(e@)),
{
    let ghost start = out@;
    let ghost ev = pviews(e@);
    let mut i: usize = 0;
    while i < e.len()
        invariant
            i <= e.len(),
            ev == pviews(e@),
            out@ == start + status_lines(ev.take(i as int)),
        decreases e.len() - i,
    {
        push_str(out, STATUS_PRE);
        push_escaped(out, e[i].0.0.as_str());
        push_str(out, STATUS_MID);
        push_escaped(out, e[i].0.1.as_str());
        push_str(out, CLOSE);
        push_dec(out, e[i].1);
        push_str(out, NL);
        proof {
            let t = ev.take(i + 1);
            assert(t.drop_last() =~= ev.take(i as int));
            assert(t.last() == ev[i as int]);
        }
        i = i + 1;
        proof {
            assert(out@ =~= start + status_lines(ev.take(i as int)));
        }
    }
    proof {
        assert(ev.take(e.len() as int) =~= ev);
    }
}

fn label(k: &str, v: &String) -> (r: (Vec<char>, Vec<char>))
    ensures
        r.0@ == k@,
        r.1@ == v@,
{
    (chars_of(k), chars_of(v.as_str()))
}

fn emit_latency(out: &mut Vec<char>, e: &Vec<((String, String), Histogram)>)
    requires
        forall|i: int| 0 <= i < e.len() ==> hist_ok(#[trigger] e@[i].1@, latency_bounds()),
    ensures
        final(out)@ == old(out)@ + latency_hists(pviews(e@)),
{
    let ghost start = out@;
    let ghost ev = pviews(e@);
    let bounds = latency_buckets_ms();
    let mut i: usize = 0;
    while i < e.len()
        invariant
            i <= e.len(),
            ev == pviews(e@),
            bounds@ == latency_bounds(),
            forall|j: int| 0 <= j < e.len() ==> hist_ok(#[trigger] e@[j].1@, latency_bounds()),
            out@ == start + latency_hists(ev.take(i as int)),
        decreases e.len() - i,
    {
        let mut labels: Vec<(Vec<char>, Vec<char>)> = Vec::new();
        labels.push(label("action", &e[i].0.0));
        labels.push(label("domain", &e[i].0.1));
        proof {
            assert(lviews(labels@) =~= seq![("action"@, ev[i as int].0.0), ("domain"@, ev[i as int].0.1)]);
            assert(e@[i as int].1@ == ev[i as int].1);
        }
        emit_histogram(out, LATENCY_NAME, &bounds, &e[i].1, &labels);
        proof {
            let t = ev.take(i + 1);
            assert(t.drop_last() =~= ev.take(i as int));
            assert(t.last() == ev[i as int]);
        }
        i = i + 1;
        proof {
            assert(out@ =~= start + latency_hists(ev.take(i as int)));
        }
    }
    proof {
        assert(ev.take(e.len() as int) =~= ev);
    }
}

fn emit_db(out: &mut Vec<char>, e: &Vec<(String, Histogram)>)
    requires
        forall|i: int| 0 <= i < e.len() ==> hist_ok(#[trigger] e@[i].1@, db_bounds()),
    ensures
        final(out)@ == old(out)@ + db_hists(eviews(e@)),
{
    let ghost start = out@;
    let ghost ev = eviews(e@);
    let bounds = db_buckets_ms();
    let mut i: usize = 0;
    while i < e.len()
        invariant
            i <= e.len(),
            ev == eviews(e@),
            bounds@ == db_bounds(),
            forall|j: int| 0 <= j < e.len() ==> hist_ok(#[trigger] e@[j].1@, db_bounds()),
            out@ == start + db_hists(ev.take(i as int)),
        decreases e.len() - i,
    {
        let mut labels: Vec<(Vec<char>, Vec<char>)> = Vec::new();
        labels.push(label("query", &e[i].0));
        proof {
            assert(lviews(labels@) =~= seq![("query"@, ev[i as int].0)]);
            assert(e@[i as int].1@ == ev[i as int].1);
        }
        emit_histogram(out, DB_NAME, &bounds, &e[i].1, &labels);
        proof {
            let t = ev.take(i + 1);
            assert(t.drop_last() =~= ev.take(i as int));
            assert(t.last() == ev[i as int]);
        }
        i = i + 1;
        proof {
            assert(out@ =~= start + db_hists(ev.take(i as int)));
        }
    }
    proof {
        assert(ev.take(e.len() as int) =~= ev);
    }
}

/// Values of a sorted list that describes a map whose values are all good.
proof fn lemma_values_ok<K>(e: Seq<(K, HistView)>, m: Map<K, HistView>, bounds: Seq<u64>, lt: spec_fn(K, K) -> bool)
    requires
        crate::sorted::is_strict_total(lt),
        sorted_by(e, lt),
        emap(e) == m,
        forall|k: K| #[trigger] m.contains_key(k) ==> hist_ok(m[k], bounds),
    ensures
        forall|i: int| 0 <= i < e.len() ==> hist_ok(#[trigger] e[i].1, bounds),
{
    crate::sorted::lemma_sorted_unique_keys(e, lt);
    lemma_emap_unique(e);
    assert forall|i: int| 0 <= i < e.len() implies hist_ok(#[trigger] e[i].1, bounds) by {
        assert(emap(e).contains_key(e[i].0));
    }
}

impl Metrics {
    /// The Prometheus exposition text of these statistics.
    pub fn render(&self) -> (r: String)
        requires
            self.wf(),
        ensures
            r@ == render_text(self@),
    {
        render(self)
    }
}

fn emit_head(out: &mut Vec<char>, m: &Metrics)
    ensures
        final(out)@ == old(out)@ + head_text(m@),
{
    let ghost s0 = out@;
    push_str(out, UP_HELP);
    push_str(out, UP_TYPE);
    push_str(out, UP_LINE);
    push_str(out, START_HELP);
    push_str(out, START_TYPE);
    push_str(out, START_PRE);
    push_dec(out, m.start_time_seconds);
    push_str(out, NL);
    assert(out@ =~= s0 + head_text(m@));
}

fn emit_categories(out: &mut Vec<char>, m: &Metrics)
    requires
        m.wf(),
    ensures
        final(out)@ == old(out)@ + category_text(m@),
{
    let ghost s0 = out@;
    let ghost mv = m@;
    proof {
        lemma_str_lt_strict_total();
    }
    push_str(out, TICKS_HELP);
    push_str(out, TICKS_TYPE);
    let ticks = sorted_map(&m.ticks_by_category);
    proof {
        lemma_sorted_entries_is(eviews(ticks@), mv.ticks, str_lt());
    }
    emit_name_lines(out, &ticks, TICKS_PRE, CLOSE, NL);
    push_str(out, DUE_HELP);
    push_str(out, DUE_TYPE);
    let due = sorted_map(&m.due_feeds_by_category);
    proof {
        lemma_sorted_entries_is(eviews(due@), mv.due, str_lt());
    }
    emit_name_lines(out, &due, DUE_PRE, CLOSE, NL);
    push_str(out, DUE_CUR_HELP);
    push_str(out, DUE_CUR_TYPE);
    let due_current = sorted_map(&m.due_feeds_current_by_category);
    proof {
        lemma_sorted_entries_is(eviews(due_current@), mv.due_current, str_lt());
    }
    emit_name_lines(out, &due_current, DUE_CUR_PRE, CLOSE, NL);
    assert(out@ =~= s0 + category_text(mv));
}

fn emit_actions(out: &mut Vec<char>, m: &Metrics)
    ensures
        final(out)@ == old(out)@ + action_text(m@),
{
    let ghost s0 = out@;
    push_str(out, INFLIGHT_HELP);
    push_str(out, INFLIGHT_TYPE);
    push_str(out, INFLIGHT_PRE);
    push_dec(out, m.inflight_actions);
    push_str(out, NL);
    push_str(out, ACTIONS_HELP);
    push_str(out, ACTIONS_TYPE);
    push_str(out, HEAD_OK_PRE);
    push_dec(out, m.head_ok);
    push_str(out, NL);
    push_str(out, HEAD_ERR_PRE);
    push_dec(out, m.head_err);
    push_str(out, NL);
    push_str(out, GET_OK_PRE);
    push_dec(out, m.get_ok);
    push_str(out, NL);
    push_str(out, GET_ERR_PRE);
    push_dec(out, m.get_err);
    push_str(out, NL);
    assert(out@ =~= s0 + action_text(m@));
}

fn emit_statuses(out: &mut Vec<char>, m: &Metrics)
    requires
        m.wf(),
    ensures
        final(out)@ == old(out)@ + status_text(m@),
{
    let ghost s0 = out@;
    let ghost mv = m@;
    proof {
        lemma_str_pair_lt_strict_total();
    }
    push_str(out, STATUS_HELP);
    push_str(out, STATUS_TYPE);
    let statuses = sorted_kv_map(&m.status_counts);
    proof {
        lemma_sorted_entries_is(pviews(statuses@), kv_map(mv.status_counts), str_pair_lt());
    }
    emit_status_lines(out, &statuses);
    assert(out@ =~= s0 + status_text(mv));
}

fn emit_timings(out: &mut Vec<char>, m: &Metrics)
    requires
        m.wf(),
    ensures
        final(out)@ == old(out)@ + timing_text(m@),
{
    let ghost s0 = out@;
    let ghost mv = m@;
    proof {
        lemma_str_lt_strict_total();
        lemma_str_pair_lt_strict_total();
    }
    push_str(out, LATENCY_HELP);
    push_str(out, LATENCY_TYPE);
    let latency = sorted_hist_map(&m.http_latency);
    proof {
        lemma_sorted_entries_is(pviews(latency@), kv_map(mv.http_latency), str_pair_lt());
        assert forall|p: (Seq<char>, Seq<char>)| #[trigger] kv_map(mv.http_latency).contains_key(
            p,
        ) implies hist_ok(kv_map(mv.http_latency)[p], latency_bounds()) by {
            assert(mv.http_latency.contains_key(p.0 + seq!['|'] + p.1));
        }
        lemma_values_ok(pviews(latency@), kv_map(mv.http_latency), latency_bounds(), str_pair_lt());
        assert forall|i: int| 0 <= i < latency.len() implies hist_ok(
            #[trigger] latency@[i].1@,
            latency_bounds(),
        ) by {
            assert(pviews(latency@)[i].1 == latency@[i].1@);
        }
    }
    emit_latency(out, &latency);
    push_str(out, DB_HELP);
    push_str(out, DB_TYPE);
    let db = sorted_hist_map_single(&m.db_timings);
    proof {
        lemma_sorted_entries_is(eviews(db@), mv.db_timings, str_lt());
        lemma_values_ok(eviews(db@), mv.db_timings, db_bounds(), str_lt());
        assert forall|i: int| 0 <= i < db.len() implies hist_ok(#[trigger] db@[i].1@, db_bounds()) by {
            assert(eviews(db@)[i].1 == db@[i].1@);
        }
    }
    emit_db(out, &db);
    assert(out@ =~= s0 + timing_text(mv));
}

/// The Prometheus exposition text: service and start time, per-category
/// ticks and due feeds, in-flight gauge and action outcomes, status counts,
/// then the latency and database timing histograms; every list in ascending
/// name order.
pub fn render(metrics: &Metrics) -> (r: String)
    requires
        metrics.wf(),
    ensures
        r@ == render_text(metrics@),
{
    let mut out: Vec<char> = Vec::new();
    emit_head(&mut out, metrics);
    emit_categories(&mut out, metrics);
    emit_actions(&mut out, metrics);
    emit_statuses(&mut out, metrics);
    emit_timings(&mut out, metrics);
    assert(out@ =~= render_text(metrics@));
    string_of(&out)
}

} // verus!
