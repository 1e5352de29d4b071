//! The run over a whole log: filter, parse, classify, accumulate.
//!
//! A line is considered only when its raw text ends with the exact text
//! `"metric":"http_req_duration"}` — the cheap pre-filter — and, after
//! parsing, only when the parsed `metric` field equals
//! `http_req_duration`. The first fatal parse error ends the run with no
//! counts.

use vstd::prelude::*;
use crate::event::{ParseError, parse_entry, spec_duration, spec_metric, spec_time};
use crate::histogram::{put_in_histo, spec_put};
use crate::json::raw_of;

verus! {

/// Whether the characters of `suffix` are the final characters of `s`.
pub open spec fn ends_with(s: Seq<char>, suffix: Seq<char>) -> bool {
    suffix.len() <= s.len() && s.skip(s.len() - suffix.len()) == suffix
}

/// Relies on str::ends_with: true exactly when the characters of `suffix`
/// are the final characters of `s`.
#[verifier::external_body]
fn str_ends_with(s: &str, suffix: &str) -> (r: bool)
    ensures
        r == ends_with(s@, suffix@),
{
    s.ends_with(suffix)
}

/// The text a qualifying line must end with.
pub open spec fn filter_suffix() -> Seq<char> {
    (r#""metric":"http_req_duration"}"#)@
}

/// The metric whose durations are charted.
pub open spec fn metric_name() -> Seq<char> {
    ("http_req_duration")@
}

/// The counters after one raw line. A line that fails the textual
/// pre-filter is ignored whole — it is never parsed, so it can never fail.
/// A qualifying line is parsed; a fatal parse error is the run's. A parsed
/// event counts only when its `metric` field is the charted one.
pub open spec fn spec_line(counts: Seq<u64>, thresholds: Seq<u64>, line: Seq<char>) -> Result<
    Seq<u64>,
    ParseError,
> {
    if !ends_with(line, filter_suffix()) {
        Ok(counts)
    } else {
        match raw_of(line) {
            None => Err(ParseError::Malformed),
            Some(raw) => match spec_time(raw) {
                None => Err(ParseError::InvalidTimestamp),
                Some(t) => if spec_metric(raw) == metric_name() {
                    Ok(spec_put(counts, thresholds, spec_duration(raw)))
                } else {
                    Ok(counts)
                },
            },
        }
    }
}

/// The counters after a whole log, line by line in order, stopping at the
/// first fatal line.
pub open spec fn spec_run(counts: Seq<u64>, thresholds: Seq<u64>, lines: Seq<Seq<char>>) -> Result<
    Seq<u64>,
    ParseError,
>
    decreases lines.len(),
{
    if lines.len() == 0 {
        Ok(counts)
    } else {
        match spec_run(counts, thresholds, lines.drop_last()) {
            Err(e) => Err(e),
            Ok(c) => spec_line(c, thresholds, lines.last()),
        }
    }
}

/// The views of a sequence of owned lines.
pub open spec fn views_of(lines: Seq<String>) -> Seq<Seq<char>> {
    lines.map_values(|s: String| s@)
}

/// A zeroed histogram, one counter per threshold.
pub open spec fn zero_counts(n: nat) -> Seq<u64> {
    Seq::new(n, |i: int| 0u64)
}

/// Runs the whole log: starting from a zeroed histogram, each line that
/// passes both the textual pre-filter and the parsed-metric check has its
/// duration classified against the thresholds, and the first fatal line
/// ends the run with its error and no counts.
pub fn process_lines(lines: &Vec<String>, thresholds: &Vec<u64>) -> (r: Result<
    Vec<u64>,
    ParseError,
>)
    ensures
        match spec_run(zero_counts(thresholds@.len()), thresholds@, views_of(lines@)) {
            Ok(c) => r matches Ok(h) && h@ == c,
            Err(e) => r == Err::<Vec<u64>, ParseError>(e),
        },
        r matches Ok(h) ==> h@.len() == thresholds@.len(),
{
    let mut histo: Vec<u64> = Vec::new();
    let mut k: usize = 0;
    while k < thresholds.len()
        invariant
            histo@ =~= zero_counts(k as nat),
            0 <= k <= thresholds@.len(),
        decreases thresholds@.len() - k,
    {
        histo.push(0);
        proof {
            assert(histo@ =~= zero_counts((k + 1) as nat));
        }
        k = k + 1;
    }

    let metric = "http_req_duration".to_owned();
    let mut i: usize = 0;
    while i < lines.len()
        invariant
            0 <= i <= lines@.len(),
            histo@.len() == thresholds@.len(),
            metric@ == metric_name(),
            forall|j: int| 0 <= j < histo@.len() ==> histo@[j] <= i,
            spec_run(zero_counts(thresholds@.len()), thresholds@, views_of(lines@).take(i as int))
                == Ok::<Seq<u64>, ParseError>(histo@),
        decreases lines@.len() - i,
    {
        let ghost pre = histo@;
        let line = &lines[i];
        if str_ends_with(line.as_str(), r#""metric":"http_req_duration"}"#) {
            let ev = match parse_entry(line.as_str()) {
                Ok(ev) => ev,
                Err(e) => {
                    proof {
                        let lv = views_of(lines@);
                        assert(lv.take(i + 1).drop_last() =~= lv.take(i as int));
                        assert(lv.take(i + 1).last() == line@);
                        assert(spec_run(
                            zero_counts(thresholds@.len()),
                            thresholds@,
                            lv.take(i + 1),
                        ) == Err::<Seq<u64>, ParseError>(e));
                        lemma_spec_run_error_persists(
                            zero_counts(thresholds@.len()),
                            thresholds@,
                            lv,
                            i + 1,
                        );
                    }
                    return Err(e);
                },
            };
            if ev.metric == metric {
                put_in_histo(&mut histo, thresholds, ev.duration);
                proof {
                    lemma_spec_put_bounds(pre, thresholds@, ev.duration as int);
                }
            }
        }
        proof {
            let lv = views_of(lines@);
            assert(lv.take(i + 1).drop_last() =~= lv.take(i as int));
            assert(lv.take(i + 1).last() == line@);
            assert(spec_line(pre, thresholds@, line@) == Ok::<Seq<u64>, ParseError>(histo@));
        }
        i = i + 1;
    }
    proof {
        assert(views_of(lines@).take(lines@.len() as int) =~= views_of(lines@));
    }
    Ok(histo)
}

/// One classified value raises each counter by at most one.
proof fn lemma_spec_put_bounds(counts: Seq<u64>, thresholds: Seq<u64>, value: int)
    requires
        thresholds.len() <= counts.len(),
    ensures
        spec_put(counts, thresholds, value).len() == counts.len(),
        forall|j: int|
            0 <= j < counts.len() ==> spec_put(counts, thresholds, value)[j] <= counts[j] + 1,
{
    crate::histogram::lemma_bucket_of_first(thresholds, value);
    match crate::histogram::bucket_of(thresholds, value) {
        Some(b) => {
            assert(0 <= b < counts.len());
            assert(spec_put(counts, thresholds, value) == counts.update(
                b,
                (counts[b] + 1) as u64,
            ));
        },
        None => {
        },
    }
}

/// Once a prefix of the log has failed, the whole log fails the same way.
proof fn lemma_spec_run_error_persists(
    counts: Seq<u64>,
    thresholds: Seq<u64>,
    lines: Seq<Seq<char>>,
    m: int,
)
    requires
        0 <= m <= lines.len(),
        spec_run(counts, thresholds, lines.take(m)) is Err,
    ensures
        spec_run(counts, thresholds, lines) == spec_run(counts, thresholds, lines.take(m)),
    decreases lines.len(),
{
    if m == lines.len() {
        assert(lines.take(m) =~= lines);
    } else {
        assert(lines.drop_last().take(m) =~= lines.take(m));
        lemma_spec_run_error_persists(counts, thresholds, lines.drop_last(), m);
    }
}

} // verus!
