//! Fixed-bucket latency histograms.

use vstd::prelude::*;

verus! {

/// Counts per bucket (the last bucket takes everything above the largest
/// bound), with the sum and number of recorded values.
#[derive(Debug)]
pub struct Histogram {
    pub buckets: Vec<u64>,
    pub sum: u64,
    pub count: u64,
}

pub struct HistView {
    pub buckets: Seq<u64>,
    pub sum: u64,
    pub count: u64,
}

impl View for Histogram {
    type V = HistView;

    open spec fn view(&self) -> HistView {
        HistView { buckets: self.buckets@, sum: self.sum, count: self.count }
    }
}

/// `b[0] + .. + b[n - 1]`, counting an index past the end as 0.
pub open spec fn prefix_total(b: Seq<u64>, n: nat) -> nat
    decreases n,
{
    if n == 0 {
        0
    } else {
        prefix_total(b, (n - 1) as nat) + (if n - 1 < b.len() {
            b[n - 1] as nat
        } else {
            0
        })
    }
}

/// The sum of all buckets.
pub open spec fn total(b: Seq<u64>) -> nat {
    prefix_total(b, b.len())
}

/// Index of the bucket a value falls into: the first bound not below it, or
/// the overflow bucket past the last bound.
pub open spec fn bucket_index(v: u64, bounds: Seq<u64>) -> nat
    decreases bounds.len(),
{
    if bounds.len() == 0 || v <= bounds[0] {
        0
    } else {
        1 + bucket_index(v, bounds.drop_first())
    }
}

/// Request latency bucket bounds in milliseconds.
pub open spec fn latency_bounds() -> Seq<u64> {
    seq![25, 50, 100, 250, 500, 1000, 2000, 5000, 10000]
}

/// Database timing bucket bounds in milliseconds.
pub open spec fn db_bounds() -> Seq<u64> {
    seq![1, 2, 5, 10, 25, 50, 100, 250, 500]
}

pub fn latency_buckets_ms() -> (r: Vec<u64>)
    ensures
        r@ == latency_bounds(),
{
    let r: Vec<u64> = vec![25, 50, 100, 250, 500, 1000, 2000, 5000, 10000];
    assert(r@ =~= latency_bounds());
    r
}

pub fn db_buckets_ms() -> (r: Vec<u64>)
    ensures
        r@ == db_bounds(),
{
    let r: Vec<u64> = vec![1, 2, 5, 10, 25, 50, 100, 250, 500];
    assert(r@ =~= db_bounds());
    r
}

pub proof fn lemma_bucket_index(v: u64, bounds: Seq<u64>)
    ensures
        bucket_index(v, bounds) <= bounds.len(),
        bucket_index(v, bounds) < bounds.len() ==> v <= bounds[bucket_index(v, bounds) as int],
        forall|j: int| 0 <= j < bucket_index(v, bounds) ==> v > bounds[j],
    decreases bounds.len(),
{
    if bounds.len() > 0 && v > bounds[0] {
        lemma_bucket_index(v, bounds.drop_first());
        assert forall|j: int| 0 <= j < bucket_index(v, bounds) implies v > bounds[j] by {
            if j > 0 {
                assert(bounds[j] == bounds.drop_first()[j - 1]);
            }
        }
    }
}

pub proof fn lemma_prefix_total_update(b: Seq<u64>, i: int, x: u64, n: nat)
    requires
        0 <= i < b.len(),
    ensures
        prefix_total(b.update(i, x), n) + (if i < n {
            b[i] as nat
        } else {
            0
        }) == prefix_total(b, n) + (if i < n {
            x as nat
        } else {
            0
        }),
    decreases n,
{
    if n > 0 {
        lemma_prefix_total_update(b, i, x, (n - 1) as nat);
    }
}

pub proof fn lemma_prefix_total_mono(b: Seq<u64>, m: nat, n: nat)
    requires
        m <= n,
    ensures
        prefix_total(b, m) <= prefix_total(b, n),
    decreases n,
{
    if m < n {
        lemma_prefix_total_mono(b, m, (n - 1) as nat);
    }
}

pub proof fn lemma_prefix_total_zeros(n: nat, k: nat)
    ensures
        prefix_total(Seq::new(n, |_i: int| 0u64), k) == 0,
    decreases k,
{
    if k > 0 {
        lemma_prefix_total_zeros(n, (k - 1) as nat);
    }
}

/// A bucket never holds more than all buckets together.
pub proof fn lemma_bucket_le_total(b: Seq<u64>, i: int)
    requires
        0 <= i < b.len(),
    ensures
        b[i] as nat <= total(b),
{
    lemma_prefix_total_mono(b, (i + 1) as nat, b.len());
    lemma_prefix_total_mono(b, i as nat, i as nat);
}

impl Histogram {
    /// `bucket_len + 1` empty buckets.
    pub fn new(bucket_len: usize) -> (h: Self)
        requires
            bucket_len < usize::MAX,
        ensures
            h@.buckets == Seq::new((bucket_len + 1) as nat, |_i: int| 0u64),
            h.sum == 0,
            h.count == 0,
            total(h@.buckets) == 0,
    {
        let mut buckets: Vec<u64> = Vec::new();
        let mut i: usize = 0;
        while i <= bucket_len
            invariant
                i <= bucket_len + 1,
                bucket_len < usize::MAX,
                buckets@ == Seq::new(i as nat, |_i: int| 0u64),
            decreases bucket_len + 1 - i,
        {
            buckets.push(0);
            i = i + 1;
            assert(buckets@ =~= Seq::new(i as nat, |_i: int| 0u64));
        }
        proof {
            lemma_prefix_total_zeros((bucket_len + 1) as nat, (bucket_len + 1) as nat);
        }
        Histogram { buckets, sum: 0, count: 0 }
    }

    /// A copy with the same counts.
    pub fn duplicate(&self) -> (r: Self)
        ensures
            r@ == self@,
    {
        let mut buckets: Vec<u64> = Vec::new();
        let mut i: usize = 0;
        while i < self.buckets.len()
            invariant
                i <= self.buckets.len(),
                buckets@ == self.buckets@.take(i as int),
            decreases self.buckets.len() - i,
        {
            buckets.push(self.buckets[i]);
            i = i + 1;
            assert(buckets@ =~= self.buckets@.take(i as int));
        }
        assert(self.buckets@.take(self.buckets.len() as int) =~= self.buckets@);
        Histogram { buckets, sum: self.sum, count: self.count }
    }
}

/// Counts `value_ms` into the bucket `bucket_index` picks, and into the sum
/// and count.
pub fn record_histogram(hist: &mut Histogram, value_ms: u64, buckets: &[u64])
    requires
        bucket_index(value_ms, buckets@) < old(hist).buckets@.len(),
        old(hist).sum + value_ms <= u64::MAX,
        old(hist).count < u64::MAX,
        old(hist).buckets@[bucket_index(value_ms, buckets@) as int] < u64::MAX,
    ensures
        final(hist).sum == old(hist).sum + value_ms,
        final(hist).count == old(hist).count + 1,
        final(hist).buckets@ == old(hist).buckets@.update(
            bucket_index(value_ms, buckets@) as int,
            (old(hist).buckets@[bucket_index(value_ms, buckets@) as int] + 1) as u64,
        ),
        total(final(hist).buckets@) == total(old(hist).buckets@) + 1,
{
    proof {
        lemma_bucket_index(value_ms, buckets@);
    }
    hist.sum = hist.sum + value_ms;
    hist.count = hist.count + 1;
    let mut idx: usize = 0;
    while idx < buckets.len()
        invariant
            idx <= buckets.len(),
            forall|j: int| 0 <= j < idx ==> value_ms > buckets@[j],
        ensures
            idx <= buckets.len(),
            forall|j: int| 0 <= j < idx ==> value_ms > buckets@[j],
            idx < buckets.len() ==> value_ms <= buckets@[idx as int],
        decreases buckets.len() - idx,
    {
        if value_ms <= buckets[idx] {
            break;
        }
        idx = idx + 1;
    }
    proof {
        if idx as nat != bucket_index(value_ms, buckets@) {
            if (idx as nat) < bucket_index(value_ms, buckets@) {
                assert(value_ms > buckets@[idx as int]);
            } else {
                assert(value_ms > buckets@[bucket_index(value_ms, buckets@) as int]);
            }
        }
    }
    let ghost before = hist.buckets@;
    let cur = hist.buckets[idx];
    hist.buckets.set(idx, cur + 1);
    proof {
        lemma_prefix_total_update(before, idx as int, (cur + 1) as u64, before.len());
    }
}

} // verus!
