//! Classification of a duration against ascending integer thresholds.
//!
//! A histogram is a sequence of counters paired index by index with a
//! sequence of upper-bound thresholds. A value belongs to the first bucket
//! whose threshold is strictly greater than the value; a value at or above
//! every threshold belongs to no bucket and is silently discarded.

use vstd::prelude::*;

verus! {

/// The index of the first threshold strictly greater than `value`, or
/// `None` when `value` is at or above every threshold.
pub open spec fn bucket_of(thresholds: Seq<u64>, value: int) -> Option<int>
    decreases thresholds.len(),
{
    if thresholds.len() == 0 {
        None
    } else if value < thresholds[0] {
        Some(0int)
    } else {
        match bucket_of(thresholds.skip(1), value) {
            Some(i) => Some(i + 1),
            None => None,
        }
    }
}

/// `i` is a bucket index whose threshold exceeds `value` while every lower
/// threshold does not: the strict upper boundary of classification.
pub open spec fn is_first_bucket(thresholds: Seq<u64>, value: int, i: int) -> bool {
    &&& 0 <= i < thresholds.len()
    &&& value < thresholds[i]
    &&& forall|j: int| 0 <= j < i ==> value >= thresholds[j]
}

/// The counters after one value is classified: the first matching bucket
/// is incremented, every other counter is untouched, and a value at or
/// above every threshold changes nothing.
pub open spec fn spec_put(counts: Seq<u64>, thresholds: Seq<u64>, value: int) -> Seq<u64> {
    match bucket_of(thresholds, value) {
        Some(i) => counts.update(i, (counts[i] + 1) as u64),
        None => counts,
    }
}

/// Classification picks exactly the first strictly greater threshold:
/// when a bucket is returned it satisfies [`is_first_bucket`], and when
/// none is, the value is at or above every threshold.
pub proof fn lemma_bucket_of_first(thresholds: Seq<u64>, value: int)
    ensures
        match bucket_of(thresholds, value) {
            Some(i) => is_first_bucket(thresholds, value, i),
            None => forall|j: int| 0 <= j < thresholds.len() ==> value >= thresholds[j],
        },
    decreases thresholds.len(),
{
    if thresholds.len() > 0 && value >= thresholds[0] {
        let rest = thresholds.skip(1);
        lemma_bucket_of_first(rest, value);
        match bucket_of(rest, value) {
            Some(i) => {
                assert(rest[i] == thresholds[i + 1]);
                assert(value < thresholds[i + 1]);
                assert forall|j: int| 0 <= j < i + 1 implies value >= thresholds[j] by {
                    if j > 0 {
                        assert(rest[j - 1] == thresholds[j]);
                    }
                }
            },
            None => {
                assert forall|j: int| 0 <= j < thresholds.len() implies value >= thresholds[j] by {
                    if j > 0 {
                        assert(rest[j - 1] == thresholds[j]);
                    }
                }
            },
        }
    }
}

/// No two indices are both first buckets for the same value.
pub proof fn lemma_first_bucket_unique(thresholds: Seq<u64>, value: int, i: int, k: int)
    requires
        is_first_bucket(thresholds, value, i),
        is_first_bucket(thresholds, value, k),
    ensures
        i == k,
{
}

/// The boundary is strict: a value equal to a threshold does not enter
/// that bucket but the first later one whose threshold strictly exceeds
/// it, and classification increments exactly that counter.
pub proof fn lemma_classification_boundary(
    counts: Seq<u64>,
    thresholds: Seq<u64>,
    value: int,
    i: int,
)
    requires
        is_first_bucket(thresholds, value, i),
    ensures
        spec_put(counts, thresholds, value) == counts.update(i, (counts[i] + 1) as u64),
{
    lemma_bucket_of_first(thresholds, value);
    match bucket_of(thresholds, value) {
        Some(b) => {
            lemma_first_bucket_unique(thresholds, value, b, i);
        },
        None => {
            assert(value >= thresholds[i]);
        },
    }
}

/// A value at or above every threshold is silently discarded:
/// classification leaves every counter exactly as it was.
pub proof fn lemma_overflow_discard(counts: Seq<u64>, thresholds: Seq<u64>, value: int)
    requires
        forall|i: int| 0 <= i < thresholds.len() ==> value >= thresholds[i],
    ensures
        spec_put(counts, thresholds, value) == counts,
{
    lemma_bucket_of_first(thresholds, value);
    match bucket_of(thresholds, value) {
        Some(b) => {
            assert(value >= thresholds[b]);
        },
        None => {
        },
    }
}

/// Whether `value` falls strictly below the threshold `t`.
fn below_threshold(value: i64, t: u64) -> (r: bool)
    ensures
        r == ((value as int) < (t as int)),
{
    if value < 0 {
        true
    } else {
        (value as u64) < t
    }
}

/// Adds one duration to the histogram: the counter of the first bucket
/// whose threshold is strictly greater than `value` is incremented, and a
/// value at or above every threshold is discarded, leaving every counter
/// as it was.
pub fn put_in_histo(histo: &mut Vec<u64>, thresholds: &Vec<u64>, value: i64)
    requires
        old(histo)@.len() >= thresholds@.len(),
        forall|i: int| 0 <= i < old(histo)@.len() ==> old(histo)@[i] < u64::MAX,
    ensures
        final(histo)@ == spec_put(old(histo)@, thresholds@, value as int),
{
    let mut i: usize = 0;
    while i < thresholds.len()
        invariant
            histo@ == old(histo)@,
            old(histo)@.len() >= thresholds@.len(),
            forall|k: int| 0 <= k < old(histo)@.len() ==> old(histo)@[k] < u64::MAX,
            0 <= i <= thresholds@.len(),
            forall|j: int| 0 <= j < i ==> value as int >= thresholds@[j],
        decreases thresholds@.len() - i,
    {
        if below_threshold(value, thresholds[i]) {
            proof {
                lemma_bucket_of_first(thresholds@, value as int);
                assert(is_first_bucket(thresholds@, value as int, i as int));
                match bucket_of(thresholds@, value as int) {
                    Some(b) => {
                        lemma_first_bucket_unique(thresholds@, value as int, b, i as int);
                    },
                    None => {
                        assert(false);
                    },
                }
            }
            histo[i] = histo[i] + 1;
            return;
        }
        i = i + 1;
    }
    proof {
        lemma_bucket_of_first(thresholds@, value as int);
    }
}

} // verus!
