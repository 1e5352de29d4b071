//! One log line becomes a typed [`Event`], or a fatal [`ParseError`].
//!
//! Every field of a well-formed JSON record is defaulted independently when
//! it is absent or of the wrong type; the two fatal conditions are text
//! that is not JSON at all, and a `data.time` that is a string but not a
//! timestamp.

use vstd::prelude::*;
use crate::json::{RawFields, raw_of, json_extract};

verus! {

/// A moment in UTC: whole seconds of the Unix epoch, and the nanoseconds
/// within that second.
#[derive(PartialEq, Eq, Structural, Clone, Copy, Debug)]
pub struct Timestamp {
    pub secs: i64,
    pub nanos: u32,
}

/// One parsed performance-measurement record. Immutable once constructed.
#[derive(PartialEq, Debug)]
pub struct Event {
    /// When the measurement was taken; the sentinel when the record
    /// carries no time.
    pub time: Timestamp,
    /// The measured duration, carried as the floor of its numeric value;
    /// `99999` when the record carries none.
    pub duration: i64,
    /// The virtual-user identifier; empty when the record carries none.
    pub vu: String,
    /// The request URL; empty when the record carries none.
    pub url: String,
    /// Which measurement the record represents; empty when the record
    /// carries none.
    pub metric: String,
}

/// Why a line was rejected. Both variants are fatal to a run.
#[derive(PartialEq, Eq, Structural, Clone, Copy, Debug)]
pub enum ParseError {
    /// The text is not one well-formed JSON document.
    Malformed,
    /// `data.time` is present as a string but is not a timestamp.
    InvalidTimestamp,
}

/// What chrono yields when a text is read as an ISO-8601 / RFC 3339 UTC
/// timestamp: `None` on text that is not one. It stands for the behaviour
/// of chrono's parser, which depends on the characters alone.
pub uninterp spec fn rfc3339_of(s: Seq<char>) -> Option<Timestamp>;

/// Relies on chrono: `str::parse::<DateTime<Utc>>` reads an ISO-8601 /
/// RFC 3339 timestamp, and `timestamp` and `timestamp_subsec_nanos` give
/// its Unix epoch seconds and intra-second nanoseconds.
#[verifier::external_body]
pub(crate) fn parse_utc(s: &str) -> (r: Option<Timestamp>)
    ensures
        r == rfc3339_of(s@),
{
    match s.parse::<chrono::DateTime<chrono::Utc>>() {
        Ok(dt) => Some(Timestamp { secs: dt.timestamp(), nanos: dt.timestamp_subsec_nanos() }),
        Err(_) => None,
    }
}

/// The sentinel `2018-01-26T14:52:19.80265065Z`, substituted when a record
/// carries no `data.time`: 1516978339 seconds and 802650650 nanoseconds
/// into the Unix epoch.
pub open spec fn sentinel_time() -> Timestamp {
    Timestamp { secs: 1516978339, nanos: 802650650 }
}

/// The duration a record carries is defaulted to `99999` when absent or
/// not a number.
pub open spec fn spec_duration(raw: RawFields) -> int {
    match raw.value {
        Some(d) => d as int,
        None => 99999,
    }
}

/// The virtual-user identifier is defaulted to the empty text.
pub open spec fn spec_vu(raw: RawFields) -> Seq<char> {
    match raw.vu {
        Some(s) => s@,
        None => Seq::empty(),
    }
}

/// The URL is defaulted to the empty text.
pub open spec fn spec_url(raw: RawFields) -> Seq<char> {
    match raw.url {
        Some(s) => s@,
        None => Seq::empty(),
    }
}

/// The metric name is defaulted to the empty text.
pub open spec fn spec_metric(raw: RawFields) -> Seq<char> {
    match raw.metric {
        Some(s) => s@,
        None => Seq::empty(),
    }
}

/// The time of a record: the sentinel when it carries none, what the text
/// reads as when it carries one, and `None` — the fatal case — when the
/// text is not a timestamp.
pub open spec fn spec_time(raw: RawFields) -> Option<Timestamp> {
    match raw.time {
        Some(s) => rfc3339_of(s@),
        None => Some(sentinel_time()),
    }
}

/// Converts one line of text into an [`Event`].
///
/// Fails with [`ParseError::Malformed`] exactly when the text is not one
/// well-formed JSON document, and with [`ParseError::InvalidTimestamp`]
/// exactly when `data.time` is a string that is not a timestamp. On every
/// other input it returns the fully populated record: each absent or
/// mistyped field takes its default — the sentinel time, duration `99999`,
/// empty texts — and never a partial event.
pub fn parse_entry(entry: &str) -> (r: Result<Event, ParseError>)
    ensures
        match raw_of(entry@) {
            None => r == Err::<Event, ParseError>(ParseError::Malformed),
            Some(raw) => match spec_time(raw) {
                None => r == Err::<Event, ParseError>(ParseError::InvalidTimestamp),
                Some(t) => {
                    &&& r is Ok
                    &&& r->Ok_0.time == t
                    &&& r->Ok_0.duration as int == spec_duration(raw)
                    &&& r->Ok_0.vu@ == spec_vu(raw)
                    &&& r->Ok_0.url@ == spec_url(raw)
                    &&& r->Ok_0.metric@ == spec_metric(raw)
                },
            },
        },
{
    let raw = match json_extract(entry) {
        Some(raw) => raw,
        None => {
            return Err(ParseError::Malformed);
        },
    };
    let time = match raw.time {
        Some(ts) => match parse_utc(ts.as_str()) {
            Some(t) => t,
            None => {
                return Err(ParseError::InvalidTimestamp);
            },
        },
        None => Timestamp { secs: 1516978339, nanos: 802650650 },
    };
    let duration: i64 = match raw.value {
        Some(d) => d,
        None => 99999,
    };
    let vu = match raw.vu {
        Some(s) => s,
        None => String::new(),
    };
    let url = match raw.url {
        Some(s) => s,
        None => String::new(),
    };
    let metric = match raw.metric {
        Some(s) => s,
        None => String::new(),
    };
    Ok(Event { time, duration, vu, url, metric })
}

} // verus!
