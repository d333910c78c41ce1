//! The histogram of response times: equal-width buckets between the
//! smallest and the largest time.

use vstd::prelude::*;

verus! {

/// How many buckets the histogram of a report has.
pub const HISTOGRAM_BUCKETS: usize = 10;

/// One bucket of a histogram. Bounds are nanoseconds.
#[derive(Debug, Clone, Copy, PartialEq, Eq, Structural)]
pub struct HistogramBucket {
    pub min_ns: u64,
    pub max_ns: u64,
    pub count: u32,
}

/// The width of a bucket where all times are equal: one millisecond.
pub const FLAT_BUCKET_NS: u64 = 1_000_000;

/// The span that the buckets divide: from `min` to `max`, 0 where `max` is
/// not above `min`.
pub open spec fn span(min: u64, max: u64) -> int {
    if max > min {
        max - min
    } else {
        0
    }
}

/// Where bucket `i` of `buckets` begins, and bucket `i - 1` ends. Over a
/// span of 0 the buckets are a millisecond wide and no bound goes beyond the
/// largest `u64`.
pub open spec fn bucket_bound(min: u64, max: u64, buckets: int, i: int) -> int {
    if span(min, max) > 0 {
        min + (i * span(min, max)) / buckets
    } else if min + i * FLAT_BUCKET_NS <= u64::MAX {
        min + i * FLAT_BUCKET_NS
    } else {
        u64::MAX as int
    }
}

/// The bucket that `time` falls into: its distance from `min` in bucket
/// widths, rounded down, within the first and the last bucket. Over a span of
/// 0 every time falls into the first bucket.
pub open spec fn bucket_of(time: u64, min: u64, max: u64, buckets: int) -> int {
    if span(min, max) > 0 && time > min {
        let raw = ((time - min) * buckets) / span(min, max);
        if raw < buckets - 1 {
            raw
        } else {
            buckets - 1
        }
    } else {
        0
    }
}

/// How many of `times` fall into bucket `bucket`.
pub open spec fn count_in_bucket(times: Seq<u64>, min: u64, max: u64, buckets: int, bucket: int) -> nat
    decreases times.len(),
{
    if times.len() == 0 {
        0
    } else {
        count_in_bucket(times.drop_last(), min, max, buckets, bucket) + if bucket_of(
            times.last(),
            min,
            max,
            buckets,
        ) == bucket {
            1nat
        } else {
            0nat
        }
    }
}

/// The sum of the counts of the first `upto` buckets.
pub open spec fn total_count(histogram: Seq<HistogramBucket>, upto: int) -> int
    decreases upto,
{
    if upto <= 0 {
        0
    } else {
        total_count(histogram, upto - 1) + histogram[upto - 1].count
    }
}

/// Whether `histogram` is the histogram of `times` with `buckets` buckets
/// between `min` and `max`: empty for no times or no buckets; else each
/// bucket has its bounds and counts the times that fall into it.
pub open spec fn is_histogram(
    histogram: Seq<HistogramBucket>,
    times: Seq<u64>,
    min: u64,
    max: u64,
    buckets: int,
) -> bool {
    if times.len() == 0 || buckets <= 0 {
        histogram.len() == 0
    } else {
        &&& histogram.len() == buckets
        &&& forall|i: int|
            0 <= i < buckets ==> {
                &&& (#[trigger] histogram[i]).min_ns == bucket_bound(min, max, buckets, i)
                &&& histogram[i].max_ns == bucket_bound(min, max, buckets, i + 1)
                &&& histogram[i].count == count_in_bucket(times, min, max, buckets, i)
            }
    }
}

proof fn lemma_bucket_of_in_range(time: u64, min: u64, max: u64, buckets: int)
    requires
        buckets > 0,
    ensures
        0 <= bucket_of(time, min, max, buckets) < buckets,
{
    if span(min, max) > 0 && time > min {
        let s = span(min, max);
        let d = time - min;
        assert(d * buckets >= 0) by (nonlinear_arith)
            requires
                d >= 0,
                buckets > 0,
        ;
        assert((d * buckets) / s >= 0) by (nonlinear_arith)
            requires
                d * buckets >= 0,
                s > 0,
        ;
    }
}

proof fn lemma_bound_in_range(min: u64, max: u64, buckets: int, i: int)
    requires
        buckets > 0,
        0 <= i <= buckets,
    ensures
        min <= bucket_bound(min, max, buckets, i) <= u64::MAX,
        span(min, max) > 0 ==> bucket_bound(min, max, buckets, i) <= max,
        span(min, max) > 0 && i == buckets ==> bucket_bound(min, max, buckets, i) == max,
        i == 0 ==> bucket_bound(min, max, buckets, i) == min,
{
    let s = span(min, max);
    if s > 0 {
        assert(0 <= i * s <= buckets * s) by (nonlinear_arith)
            requires
                0 <= i <= buckets,
                s > 0,
        ;
        assert(0 <= (i * s) / buckets <= s) by (nonlinear_arith)
            requires
                0 <= i * s <= buckets * s,
                buckets > 0,
        ;
        if i == buckets {
            assert((buckets * s) / buckets == s) by (nonlinear_arith)
                requires
                    buckets > 0,
            ;
        }
        if i == 0 {
            assert(0 * s == 0);
        }
    }
}

/// How many of `times` fall into a bucket below `upto`.
spec fn count_below_bucket(times: Seq<u64>, min: u64, max: u64, buckets: int, upto: int) -> nat
    decreases times.len(),
{
    if times.len() == 0 {
        0
    } else {
        count_below_bucket(times.drop_last(), min, max, buckets, upto) + if bucket_of(
            times.last(),
            min,
            max,
            buckets,
        ) < upto {
            1nat
        } else {
            0nat
        }
    }
}

proof fn lemma_count_below_next(times: Seq<u64>, min: u64, max: u64, buckets: int, upto: int)
    ensures
        count_below_bucket(times, min, max, buckets, upto + 1) == count_below_bucket(
            times,
            min,
            max,
            buckets,
            upto,
        ) + count_in_bucket(times, min, max, buckets, upto),
    decreases times.len(),
{
    if times.len() > 0 {
        lemma_count_below_next(times.drop_last(), min, max, buckets, upto);
    }
}

proof fn lemma_count_below_ends(times: Seq<u64>, min: u64, max: u64, buckets: int)
    requires
        buckets > 0,
    ensures
        count_below_bucket(times, min, max, buckets, 0) == 0,
        count_below_bucket(times, min, max, buckets, buckets) == times.len(),
    decreases times.len(),
{
    if times.len() > 0 {
        lemma_count_below_ends(times.drop_last(), min, max, buckets);
        lemma_bucket_of_in_range(times.last(), min, max, buckets);
    }
}

proof fn lemma_total_is_count_below(
    histogram: Seq<HistogramBucket>,
    times: Seq<u64>,
    min: u64,
    max: u64,
    buckets: int,
    upto: int,
)
    requires
        times.len() > 0,
        buckets > 0,
        is_histogram(histogram, times, min, max, buckets),
        0 <= upto <= buckets,
    ensures
        total_count(histogram, upto) == count_below_bucket(times, min, max, buckets, upto),
    decreases upto,
{
    if upto > 0 {
        lemma_total_is_count_below(histogram, times, min, max, buckets, upto - 1);
        lemma_count_below_next(times, min, max, buckets, upto - 1);
        assert(histogram[upto - 1].count == count_in_bucket(times, min, max, buckets, upto - 1));
    } else {
        lemma_count_below_ends(times, min, max, buckets);
    }
}

/// A time between the smallest and the largest lies within the bounds of the
/// bucket it falls into. Bounds are rounded down, so a time may stand on the
/// upper bound of its bucket.
pub proof fn lemma_time_lies_in_its_bucket(time: u64, min: u64, max: u64, buckets: int)
    requires
        buckets > 0,
        min <= time <= max,
    ensures
        0 <= bucket_of(time, min, max, buckets) < buckets,
        bucket_bound(min, max, buckets, bucket_of(time, min, max, buckets)) <= time,
        time <= bucket_bound(min, max, buckets, bucket_of(time, min, max, buckets) + 1),
{
    let k = bucket_of(time, min, max, buckets);
    lemma_bucket_of_in_range(time, min, max, buckets);
    lemma_bound_in_range(min, max, buckets, k);
    lemma_bound_in_range(min, max, buckets, k + 1);
    let s = span(min, max);
    if s > 0 && time > min {
        let d = time - min;
        let raw = (d * buckets) / s;
        assert(d * buckets >= 0) by (nonlinear_arith)
            requires
                d >= 0,
                buckets > 0,
        ;
        assert(raw * s <= d * buckets < (raw + 1) * s) by (nonlinear_arith)
            requires
                raw == (d * buckets) / s,
                s > 0,
                d * buckets >= 0,
        ;
        assert(k * s <= raw * s) by (nonlinear_arith)
            requires
                0 <= k <= raw,
                s > 0,
        ;
        assert((k * s) / buckets <= d) by (nonlinear_arith)
            requires
                k * s <= d * buckets,
                buckets > 0,
        ;
        if k < buckets - 1 {
            assert(((k + 1) * s) / buckets >= d) by (nonlinear_arith)
                requires
                    (k + 1) * s >= d * buckets,
                    buckets > 0,
            ;
        }
    }
}

/// The buckets of a histogram adjoin, begin at the smallest time, reach the
/// largest, and their counts add up to the number of times.
pub proof fn lemma_histogram_partitions(
    histogram: Seq<HistogramBucket>,
    times: Seq<u64>,
    min: u64,
    max: u64,
    buckets: int,
)
    requires
        is_histogram(histogram, times, min, max, buckets),
    ensures
        forall|i: int|
            0 <= i < histogram.len() - 1 ==> (#[trigger] histogram[i]).max_ns == histogram[i
                + 1].min_ns,
        histogram.len() > 0 ==> histogram[0].min_ns == min,
        histogram.len() > 0 && max >= min ==> histogram[histogram.len() - 1].max_ns >= max,
        histogram.len() > 0 && max > min ==> histogram[histogram.len() - 1].max_ns == max,
        histogram.len() > 0 && max == min && min + buckets * FLAT_BUCKET_NS <= u64::MAX
            ==> histogram[histogram.len() - 1].max_ns > max,
        total_count(histogram, histogram.len() as int) == if buckets > 0 {
            times.len() as int
        } else {
            0
        },
{
    if times.len() > 0 && buckets > 0 {
        lemma_bound_in_range(min, max, buckets, 0);
        lemma_bound_in_range(min, max, buckets, buckets);
        assert(histogram[0].min_ns == bucket_bound(min, max, buckets, 0));
        assert(histogram[buckets - 1].max_ns == bucket_bound(min, max, buckets, buckets));
        assert forall|i: int| 0 <= i < histogram.len() - 1 implies (#[trigger] histogram[i]).max_ns
            == histogram[i + 1].min_ns by {
            assert(histogram[i + 1].min_ns == bucket_bound(min, max, buckets, i + 1));
        }
        lemma_total_is_count_below(histogram, times, min, max, buckets, buckets);
        lemma_count_below_ends(times, min, max, buckets);
    }
}

proof fn lemma_count_in_bucket_bound(times: Seq<u64>, min: u64, max: u64, buckets: int, bucket: int)
    ensures
        count_in_bucket(times, min, max, buckets, bucket) <= times.len(),
    decreases times.len(),
{
    if times.len() > 0 {
        lemma_count_in_bucket_bound(times.drop_last(), min, max, buckets, bucket);
    }
}

/// Builds the histogram of `times` with `buckets` equal-width buckets
/// between `min` and `max`. The buckets adjoin: each ends where the next
/// begins; the first begins at `min`; and their counts add up to the number
/// of times.
pub fn build_histogram(times: &Vec<u64>, min: u64, max: u64, buckets: usize) -> (histogram: Vec<
    HistogramBucket,
>)
    requires
        times.len() <= u32::MAX,
    ensures
        is_histogram(histogram@, times@, min, max, buckets as int),
        forall|i: int|
            0 <= i < histogram@.len() - 1 ==> (#[trigger] histogram@[i]).max_ns == histogram@[i
                + 1].min_ns,
        histogram@.len() > 0 ==> histogram@[0].min_ns == min,
        histogram@.len() > 0 && max >= min ==> histogram@[histogram@.len() - 1].max_ns >= max,
        histogram@.len() > 0 && max > min ==> histogram@[histogram@.len() - 1].max_ns == max,
        total_count(histogram@, histogram@.len() as int) == if buckets > 0 {
            times@.len() as int
        } else {
            0
        },
{
    let mut histogram: Vec<HistogramBucket> = Vec::new();
    if times.len() == 0 || buckets == 0 {
        proof {
            lemma_histogram_partitions(histogram@, times@, min, max, buckets as int);
        }
        return histogram;
    }
    let range: u64 = if max > min {
        max - min
    } else {
        0
    };
    let mut i: usize = 0;
    while i < buckets
        invariant
            i <= buckets,
            buckets > 0,
            range == span(min, max),
            histogram@.len() == i,
            forall|j: int|
                0 <= j < i ==> {
                    &&& (#[trigger] histogram@[j]).min_ns == bucket_bound(
                        min,
                        max,
                        buckets as int,
                        j,
                    )
                    &&& histogram@[j].max_ns == bucket_bound(min, max, buckets as int, j + 1)
                    &&& histogram@[j].count == 0
                },
        decreases buckets - i,
    {
        proof {
            lemma_bound_in_range(min, max, buckets as int, i as int);
            lemma_bound_in_range(min, max, buckets as int, i + 1);
        }
        let lower = bound_at(min, range, buckets, i);
        let upper = bound_at(min, range, buckets, i + 1);
        histogram.push(HistogramBucket { min_ns: lower, max_ns: upper, count: 0 });
        i += 1;
    }
    let mut k: usize = 0;
    while k < times.len()
        invariant
            k <= times.len(),
            times.len() <= u32::MAX,
            buckets > 0,
            range == span(min, max),
            histogram@.len() == buckets,
            forall|j: int|
                0 <= j < buckets ==> {
                    &&& (#[trigger] histogram@[j]).min_ns == bucket_bound(
                        min,
                        max,
                        buckets as int,
                        j,
                    )
                    &&& histogram@[j].max_ns == bucket_bound(min, max, buckets as int, j + 1)
                    &&& histogram@[j].count == count_in_bucket(
                        times@.take(k as int),
                        min,
                        max,
                        buckets as int,
                        j,
                    )
                },
        decreases times.len() - k,
    {
        let time = times[k];
        let at = bucket_index(time, min, range, buckets);
        proof {
            lemma_count_in_bucket_bound(times@.take(k as int), min, max, buckets as int, at as int);
            assert(times@.take(k + 1).drop_last() =~= times@.take(k as int));
        }
        let bucket = histogram[at];
        histogram.set(
            at,
            HistogramBucket { min_ns: bucket.min_ns, max_ns: bucket.max_ns, count: bucket.count + 1 },
        );
        k += 1;
    }
    proof {
        assert(times@.take(times@.len() as int) =~= times@);
        lemma_histogram_partitions(histogram@, times@, min, max, buckets as int);
    }
    histogram
}

fn bound_at(min: u64, range: u64, buckets: usize, i: usize) -> (r: u64)
    requires
        buckets > 0,
        i <= buckets,
        min + range <= u64::MAX,
    ensures
        range > 0 ==> r == min + (i * range) / (buckets as int),
        range == 0 ==> r == if min + i * FLAT_BUCKET_NS <= u64::MAX {
            min + i * FLAT_BUCKET_NS
        } else {
            u64::MAX as int
        },
{
    if range > 0 {
        assert(0 <= i * range <= buckets * range) by (nonlinear_arith)
            requires
                0 <= i <= buckets,
                range > 0,
        ;
        assert(buckets * range <= 0xffff_ffff_ffff_ffff * 0xffff_ffff_ffff_ffff) by (nonlinear_arith)
            requires
                buckets <= 0xffff_ffff_ffff_ffff,
                range <= 0xffff_ffff_ffff_ffff,
        ;
        assert((i * range) / (buckets as int) <= range) by (nonlinear_arith)
            requires
                0 <= i * range <= buckets * range,
                buckets > 0,
        ;
        let offset: u128 = (i as u128 * range as u128) / (buckets as u128);
        min + offset as u64
    } else {
        assert(i * FLAT_BUCKET_NS <= 0xffff_ffff_ffff_ffff * 1_000_000) by (nonlinear_arith)
            requires
                i <= 0xffff_ffff_ffff_ffff,
                FLAT_BUCKET_NS == 1_000_000,
        ;
        let wide: u128 = min as u128 + i as u128 * FLAT_BUCKET_NS as u128;
        if wide <= u64::MAX as u128 {
            wide as u64
        } else {
            u64::MAX
        }
    }
}

fn bucket_index(time: u64, min: u64, range: u64, buckets: usize) -> (r: usize)
    requires
        buckets > 0,
    ensures
        r < buckets,
        range > 0 && time > min ==> r == {
            let raw = ((time - min) * buckets) / (range as int);
            if raw < buckets - 1 {
                raw
            } else {
                buckets - 1
            }
        },
        !(range > 0 && time > min) ==> r == 0,
{
    if range > 0 && time > min {
        let d: u64 = time - min;
        assert(d * buckets <= 0xffff_ffff_ffff_ffff * 0xffff_ffff_ffff_ffff) by (nonlinear_arith)
            requires
                d <= 0xffff_ffff_ffff_ffff,
                buckets <= 0xffff_ffff_ffff_ffff,
        ;
        let raw: u128 = (d as u128 * buckets as u128) / (range as u128);
        if raw < (buckets - 1) as u128 {
            raw as usize
        } else {
            buckets - 1
        }
    } else {
        0
    }
}

} // verus!
