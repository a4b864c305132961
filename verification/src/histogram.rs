//! The bucketing engine: a fixed number of contiguous, equally wide buckets
//! and the count of samples that fell into each.

use vstd::prelude::*;

verus! {

/// Summary of a sample set: its smallest and largest value, in thousandths.
#[derive(Clone, Copy, Debug)]
pub struct Stats {
    pub min: i64,
    pub max: i64,
}

impl Stats {
    /// The smallest and the largest of `values`, or nothing where there is
    /// no value.
    pub fn new(values: &[i64]) -> (r: Option<Stats>)
        ensures
            r.is_some() <==> values.len() > 0,
            r matches Some(s) ==> {
                &&& forall|i: int| 0 <= i < values.len() ==> s.min <= #[trigger] values[i] <= s.max
                &&& exists|i: int| 0 <= i < values.len() && #[trigger] values[i] == s.min
                &&& exists|i: int| 0 <= i < values.len() && #[trigger] values[i] == s.max
            },
    {
        if values.len() == 0 {
            return None;
        }
        let mut min: i64 = values[0];
        let mut max: i64 = values[0];
        let mut i: usize = 1;
        while i < values.len()
            invariant
                1 <= i <= values.len(),
                forall|j: int| 0 <= j < i ==> min <= #[trigger] values[j] <= max,
                exists|j: int| 0 <= j < i && #[trigger] values[j] == min,
                exists|j: int| 0 <= j < i && #[trigger] values[j] == max,
            decreases values.len() - i,
        {
            if values[i] < min {
                min = values[i];
            }
            if values[i] > max {
                max = values[i];
            }
            i = i + 1;
        }
        Some(Stats { min, max })
    }
}

/// A half-open interval `[start, end)` in thousandths and the number of
/// samples counted in it.
#[derive(Clone, Copy, Debug)]
pub struct Bucket {
    pub start: i64,
    pub end: i64,
    pub count: usize,
}

impl Bucket {
    /// The empty bucket over `[start, end)`.
    pub fn new(start: i64, end: i64) -> (r: Bucket)
        ensures
            r == (Bucket { start, end, count: 0 }),
    {
        Bucket { start, end, count: 0 }
    }

    /// Counts one more sample.
    pub fn inc(&mut self)
        requires
            old(self).count < usize::MAX,
        ensures
            *final(self) == (Bucket { count: (old(self).count + 1) as usize, ..*old(self) }),
    {
        self.count = self.count + 1;
    }
}

/// Why a histogram could not be built.
#[derive(Clone, Copy, Debug, PartialEq, Eq, Structural)]
pub enum ConfigError {
    /// No bucket was asked for.
    ZeroSize,
    /// The bucket width is zero or negative.
    NonPositiveStep,
    /// The upper bound `min + size * step` does not fit the value type.
    RangeOverflow,
}

/// What a histogram is, mathematically.
pub struct HistogramView {
    pub min: int,
    pub max: int,
    pub step: int,
    pub buckets: Seq<Bucket>,
    pub top: nat,
}

/// `top` is the largest of `counts`: no count exceeds it and one attains it.
pub open spec fn is_peak(buckets: Seq<Bucket>, top: nat) -> bool {
    &&& forall|i: int| 0 <= i < buckets.len() ==> (#[trigger] buckets[i]).count <= top
    &&& exists|i: int| 0 <= i < buckets.len() && (#[trigger] buckets[i]).count == top
}

/// The sum of all counts.
pub open spec fn total(buckets: Seq<Bucket>) -> nat
    decreases buckets.len(),
{
    if buckets.len() == 0 {
        0
    } else {
        total(buckets.drop_last()) + buckets.last().count as nat
    }
}

/// How many of `values` lie in the closed range `[min, max]`.
pub open spec fn count_within(values: Seq<i64>, min: int, max: int) -> nat
    decreases values.len(),
{
    if values.len() == 0 {
        0
    } else {
        count_within(values.drop_last(), min, max) + if min <= values.last() <= max {
            1nat
        } else {
            0nat
        }
    }
}

impl HistogramView {
    /// The number of buckets.
    pub open spec fn size(self) -> int {
        self.buckets.len() as int
    }

    /// Buckets tile `[min, max)` in steps of `step`, and `top` is the peak.
    pub open spec fn wf(self) -> bool {
        &&& self.size() >= 1
        &&& self.step > 0
        &&& self.max == self.min + self.size() * self.step
        &&& forall|i: int|
            0 <= i < self.size() ==> {
                &&& (#[trigger] self.buckets[i]).start == self.min + i * self.step
                &&& self.buckets[i].end == self.min + i * self.step + self.step
            }
        &&& is_peak(self.buckets, self.top)
    }

    /// The histogram of `size` empty buckets of width `step` from `min` on.
    pub open spec fn empty(min: int, step: int, size: int) -> HistogramView {
        HistogramView {
            min,
            max: min + size * step,
            step,
            buckets: Seq::new(
                size as nat,
                |i: int|
                    Bucket {
                        start: (min + i * step) as i64,
                        end: (min + i * step + step) as i64,
                        count: 0,
                    },
            ),
            top: 0,
        }
    }

    /// The bucket that takes the sample `v`: none outside `[min, max]`, else
    /// `(v - min) / step` rounded down, held to the last bucket.
    pub open spec fn slot_of(self, v: int) -> Option<int> {
        if v < self.min || v > self.max {
            None
        } else {
            let raw = (v - self.min) / self.step;
            if raw < self.size() - 1 {
                Some(raw)
            } else {
                Some(self.size() - 1)
            }
        }
    }

    /// The histogram after the sample `v` was added.
    pub open spec fn after_add(self, v: int) -> HistogramView {
        match self.slot_of(v) {
            None => self,
            Some(k) => {
                let b = self.buckets[k];
                let grown = (b.count + 1) as usize;
                HistogramView {
                    buckets: self.buckets.update(
                        k,
                        Bucket { start: b.start, end: b.end, count: grown },
                    ),
                    top: if grown > self.top {
                        grown as nat
                    } else {
                        self.top
                    },
                    ..self
                }
            },
        }
    }

    /// The histogram after `values` were added, first to last.
    pub open spec fn after_load(self, values: Seq<i64>) -> HistogramView
        decreases values.len(),
    {
        if values.len() == 0 {
            self
        } else {
            self.after_load(values.drop_last()).after_add(values.last() as int)
        }
    }
}

/// Adjacent buckets touch: each ends where the next starts, the first starts
/// at `min` and the last ends at `max`.
pub proof fn buckets_are_contiguous(h: HistogramView)
    requires
        h.wf(),
    ensures
        forall|i: int|
            0 <= i < h.size() - 1 ==> (#[trigger] h.buckets[i]).end == h.buckets[i + 1].start,
        h.buckets[0].start == h.min,
        h.buckets[h.size() - 1].end == h.max,
{
    assert forall|i: int| 0 <= i < h.size() - 1 implies (#[trigger] h.buckets[i]).end
        == h.buckets[i + 1].start by {
        assert((i + 1) * h.step == i * h.step + h.step) by (nonlinear_arith);
    }
    assert((h.size() - 1) * h.step + h.step == h.size() * h.step) by (nonlinear_arith);
}

/// Every sample of the closed range `[min, max]` has a bucket, and every
/// other sample has none.
pub proof fn slot_exists_within_range(h: HistogramView, v: int)
    requires
        h.wf(),
    ensures
        h.min <= v <= h.max <==> h.slot_of(v).is_some(),
        h.slot_of(v) matches Some(k) ==> 0 <= k < h.size(),
{
    if h.min <= v <= h.max {
        assert((v - h.min) / h.step >= 0) by (nonlinear_arith)
            requires
                v - h.min >= 0,
                h.step > 0,
        ;
    }
}

/// A sample equal to `max` is counted in the last bucket.
pub proof fn max_lands_in_last_bucket(h: HistogramView)
    requires
        h.wf(),
    ensures
        h.slot_of(h.max) == Some(h.size() - 1),
{
    assert((h.size() * h.step) / h.step == h.size()) by (nonlinear_arith)
        requires
            h.step > 0,
    ;
}

/// Adding a sample of `[min, max]` raises the count of exactly one bucket, by
/// exactly one; adding any other sample changes nothing.
pub proof fn add_counts_in_one_bucket(h: HistogramView, v: int)
    requires
        h.wf(),
        h.top < usize::MAX,
    ensures
        h.min <= v <= h.max ==> exists|k: int|
            0 <= k < h.size() && (#[trigger] h.after_add(v).buckets[k]).count
                == h.buckets[k].count + 1 && forall|j: int|
                0 <= j < h.size() && j != k ==> (#[trigger] h.after_add(v).buckets[j]).count
                    == h.buckets[j].count,
        !(h.min <= v <= h.max) ==> h.after_add(v) == h,
        h.after_add(v).size() == h.size(),
{
    slot_exists_within_range(h, v);
    if h.min <= v <= h.max {
        let k = h.slot_of(v).unwrap();
        assert(h.buckets[k].count <= h.top);
        assert(h.after_add(v).buckets[k].count == h.buckets[k].count + 1);
    }
}

/// Adding a sample keeps the histogram well formed: the buckets keep their
/// bounds and `top` is again the largest count. It grows by one at most.
pub proof fn add_keeps_top_the_largest_count(h: HistogramView, v: int)
    requires
        h.wf(),
        h.top < usize::MAX,
    ensures
        h.after_add(v).wf(),
        h.after_add(v).min == h.min,
        h.after_add(v).max == h.max,
        h.after_add(v).step == h.step,
        h.after_add(v).size() == h.size(),
        h.top <= h.after_add(v).top <= h.top + 1,
{
    slot_exists_within_range(h, v);
    if let Some(k) = h.slot_of(v) {
        let a = h.after_add(v);
        let w = choose|i: int| 0 <= i < h.buckets.len() && (#[trigger] h.buckets[i]).count == h.top;
        assert(h.buckets[k].count <= h.top);
        if h.buckets[k].count + 1 > h.top {
            assert(a.buckets[k].count == a.top);
        } else {
            assert(w != k);
            assert(a.buckets[w].count == a.top);
        }
        assert forall|i: int| 0 <= i < a.size() implies {
            &&& (#[trigger] a.buckets[i]).start == a.min + i * a.step
            &&& a.buckets[i].end == a.min + i * a.step + a.step
        } by {
            assert(h.buckets[i].start == h.min + i * h.step);
        }
        assert forall|i: int| 0 <= i < a.buckets.len() implies (#[trigger] a.buckets[i]).count
            <= a.top by {
            assert(h.buckets[i].count <= h.top);
        }
    }
}

/// After any run of additions `top` is the largest bucket count.
pub proof fn top_is_largest_count(h: HistogramView, values: Seq<i64>)
    requires
        h.wf(),
        h.top + values.len() <= usize::MAX,
    ensures
        h.after_load(values).wf(),
        is_peak(h.after_load(values).buckets, h.after_load(values).top),
        h.after_load(values).min == h.min,
        h.after_load(values).max == h.max,
        h.after_load(values).step == h.step,
        h.after_load(values).size() == h.size(),
        h.after_load(values).top <= h.top + values.len(),
    decreases values.len(),
{
    if values.len() > 0 {
        top_is_largest_count(h, values.drop_last());
        add_keeps_top_the_largest_count(h.after_load(values.drop_last()), values.last() as int);
    }
}

/// Changing the count of one bucket changes the sum of all counts by the
/// same amount.
proof fn total_after_update(buckets: Seq<Bucket>, k: int, b: Bucket)
    requires
        0 <= k < buckets.len(),
    ensures
        total(buckets.update(k, b)) + buckets[k].count == total(buckets) + b.count,
    decreases buckets.len(),
{
    let changed = buckets.update(k, b);
    if k == buckets.len() - 1 {
        assert(changed.drop_last() =~= buckets.drop_last());
    } else {
        total_after_update(buckets.drop_last(), k, b);
        assert(changed.drop_last() =~= buckets.drop_last().update(k, b));
    }
}

/// After loading `values` the counts of all buckets have grown, in sum, by
/// the number of values that lie in `[min, max]`.
pub proof fn load_counts_values_within_range(h: HistogramView, values: Seq<i64>)
    requires
        h.wf(),
        h.top + values.len() <= usize::MAX,
    ensures
        total(h.after_load(values).buckets) == total(h.buckets) + count_within(
            values,
            h.min,
            h.max,
        ),
    decreases values.len(),
{
    if values.len() > 0 {
        let before = h.after_load(values.drop_last());
        let v = values.last() as int;
        load_counts_values_within_range(h, values.drop_last());
        top_is_largest_count(h, values.drop_last());
        slot_exists_within_range(before, v);
        if let Some(k) = before.slot_of(v) {
            assert(before.buckets[k].count <= before.top);
            total_after_update(before.buckets, k, before.after_add(v).buckets[k]);
        }
    }
}

/// A fixed-width histogram over samples in thousandths.
#[derive(Debug)]
pub struct Histogram {
    vec: Vec<Bucket>,
    max: i64,
    step: i64,
    top: usize,
    last: usize,
    stats: Stats,
}

impl View for Histogram {
    type V = HistogramView;

    closed spec fn view(&self) -> HistogramView {
        HistogramView {
            min: self.stats.min as int,
            max: self.max as int,
            step: self.step as int,
            buckets: self.vec@,
            top: self.top as nat,
        }
    }
}

impl Histogram {
    /// The invariant of every histogram that `new` built.
    pub closed spec fn inv(&self) -> bool {
        &&& self@.wf()
        &&& self.last + 1 == self.vec.len()
    }

    /// A histogram that meets its invariant has a well-formed view.
    pub proof fn view_is_well_formed(&self)
        requires
            self.inv(),
        ensures
            self@.wf(),
    {
    }

    /// Builds `size` empty buckets of width `step`, the first starting at
    /// `stats.min`. A zero `size`, a `step` that is not positive and an upper
    /// bound beyond `i64` are rejected, in that order.
    pub fn new(size: usize, step: i64, stats: Stats) -> (r: Result<Histogram, ConfigError>)
        ensures
            match r {
                Ok(h) => {
                    &&& size > 0
                    &&& step > 0
                    &&& stats.min + size * step <= i64::MAX
                    &&& h.inv()
                    &&& h@ == HistogramView::empty(stats.min as int, step as int, size as int)
                },
                Err(ConfigError::ZeroSize) => size == 0,
                Err(ConfigError::NonPositiveStep) => size > 0 && step <= 0,
                Err(ConfigError::RangeOverflow) => {
                    &&& size > 0
                    &&& step > 0
                    &&& stats.min + size * step > i64::MAX
                },
            },
    {
        if size == 0 {
            return Err(ConfigError::ZeroSize);
        }
        if step <= 0 {
            return Err(ConfigError::NonPositiveStep);
        }
        assert(0 < size * step <= 0xffff_ffff_ffff_ffff * 0x7fff_ffff_ffff_ffff) by (nonlinear_arith)
            requires
                0 < size <= 0xffff_ffff_ffff_ffff,
                0 < step <= 0x7fff_ffff_ffff_ffff,
        ;
        let span: i128 = (size as i128) * (step as i128);
        let upper: i128 = (stats.min as i128) + span;
        if upper > i64::MAX as i128 {
            return Err(ConfigError::RangeOverflow);
        }
        let mut vec: Vec<Bucket> = Vec::new();
        let mut lower: i64 = stats.min;
        let mut i: usize = 0;
        while i < size
            invariant
                0 <= i <= size,
                step > 0,
                vec.len() == i,
                lower == stats.min + i * step,
                stats.min + size * step <= i64::MAX,
                forall|j: int|
                    0 <= j < i ==> {
                        &&& (#[trigger] vec@[j]).start == stats.min + j * step
                        &&& vec@[j].end == stats.min + j * step + step
                        &&& vec@[j].count == 0
                    },
            decreases size - i,
        {
            assert(i * step + step <= size * step) by (nonlinear_arith)
                requires
                    0 <= i < size,
                    step > 0,
            ;
            assert((i + 1) * step == i * step + step) by (nonlinear_arith);
            vec.push(Bucket::new(lower, lower + step));
            lower = lower + step;
            i = i + 1;
        }
        let h = Histogram { vec, max: upper as i64, step, top: 0, last: size - 1, stats };
        proof {
            assert(h@.buckets =~= HistogramView::empty(
                stats.min as int,
                step as int,
                size as int,
            ).buckets);
            assert(h@.buckets[0].count == 0);
        }
        Ok(h)
    }

    /// The bucket that takes `n`, if `n` lies in the closed range of the
    /// histogram.
    pub fn find_slot(&self, n: i64) -> (r: Option<usize>)
        requires
            self.inv(),
        ensures
            match r {
                Some(k) => self@.slot_of(n as int) == Some(k as int) && k < self@.size(),
                None => self@.slot_of(n as int).is_none(),
            },
    {
        if n < self.stats.min || n > self.max {
            None
        } else {
            let diff: u64 = ((n as i128) - (self.stats.min as i128)) as u64;
            let raw: u64 = diff / (self.step as u64);
            if raw < self.last as u64 {
                Some(raw as usize)
            } else {
                Some(self.last)
            }
        }
    }

    /// Counts the sample `n` in its bucket and raises `top` to that bucket's
    /// count if it is larger. A sample outside `[min, max]` changes nothing.
    pub fn add(&mut self, n: i64)
        requires
            old(self).inv(),
            old(self)@.top < usize::MAX,
        ensures
            final(self).inv(),
            final(self)@ == old(self)@.after_add(n as int),
    {
        if let Some(slot) = self.find_slot(n) {
            let mut b: Bucket = self.vec[slot];
            b.inc();
            let grown: usize = b.count;
            self.vec.set(slot, b);
            if grown > self.top {
                self.top = grown;
            }
            proof {
                let w = choose|i: int|
                    0 <= i < old(self)@.buckets.len() && (#[trigger] old(self)@.buckets[i]).count
                        == old(self)@.top;
                if grown > old(self).top {
                    assert(self@.buckets[slot as int].count == self@.top);
                } else {
                    assert(w != slot);
                    assert(self@.buckets[w].count == self@.top);
                }
            }
        }
    }

    /// Adds every value of `values`, first to last.
    pub fn load(&mut self, values: &[i64])
        requires
            old(self).inv(),
            old(self)@.top + values.len() <= usize::MAX,
        ensures
            final(self).inv(),
            final(self)@ == old(self)@.after_load(values@),
    {
        let mut i: usize = 0;
        assert(values@.take(0) =~= Seq::<i64>::empty());
        while i < values.len()
            invariant
                0 <= i <= values.len(),
                self.inv(),
                self@ == old(self)@.after_load(values@.take(i as int)),
                self@.top <= old(self)@.top + i,
                old(self)@.top + values.len() <= usize::MAX,
            decreases values.len() - i,
        {
            proof {
                let next = values@.take(i + 1);
                assert(next.drop_last() =~= values@.take(i as int));
                assert(next.last() == values@[i as int]);
            }
            self.add(values[i]);
            i = i + 1;
        }
        assert(values@.take(values.len() as int) =~= values@);
    }
    /// The largest bucket count.
    pub fn top(&self) -> (r: usize)
        ensures
            r == self@.top,
    {
        self.top
    }

    /// The lower bound of the first bucket.
    pub fn min(&self) -> (r: i64)
        ensures
            r == self@.min,
    {
        self.stats.min
    }

    /// The upper bound of the last bucket.
    pub fn max(&self) -> (r: i64)
        ensures
            r == self@.max,
    {
        self.max
    }

    /// The width of every bucket.
    pub fn step(&self) -> (r: i64)
        ensures
            r == self@.step,
    {
        self.step
    }

    /// The number of buckets.
    pub fn size(&self) -> (r: usize)
        ensures
            r == self@.buckets.len(),
    {
        self.vec.len()
    }

    /// The bucket at `index`, the lowest interval first.
    pub fn bucket(&self, index: usize) -> (r: Bucket)
        requires
            index < self@.buckets.len(),
        ensures
            r == self@.buckets[index as int],
    {
        self.vec[index]
    }
}

} // verus!
