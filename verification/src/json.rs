//! Generic JSON access for one log line, behind a single trusted wrapper.
//!
//! The pipeline reads five spots of the JSON tree of a line. The wrapper
//! hands each back as an `Option` of a plain value — `Some` exactly when the
//! key is present with the right type — and every default and decision made
//! on them is ordinary verified code.

use vstd::prelude::*;

verus! {

/// The spots of one log line's JSON tree that the pipeline reads, before
/// any defaulting is applied.
pub struct RawFields {
    /// `data.time`, when it is a string.
    pub time: Option<String>,
    /// The floor of `data.value`, when it is a number.
    pub value: Option<i64>,
    /// `data.tags.vu`, when it is a string.
    pub vu: Option<String>,
    /// `data.tags.name`, when it is a string.
    pub url: Option<String>,
    /// The top-level `metric`, when it is a string.
    pub metric: Option<String>,
}

/// What generic JSON parsing yields on a text: `None` when the text is not
/// one well-formed JSON document, and otherwise the five fields above. It
/// stands for the behaviour of serde_json on the given characters, which
/// depends on the characters alone.
pub uninterp spec fn raw_of(s: Seq<char>) -> Option<RawFields>;

/// Relies on serde_json: `from_str` returns `Ok` exactly on well-formed
/// JSON; indexing a `Value` with a key gives `Null` on a missing key or a
/// non-object; `as_str` gives `Some` exactly on a string and `as_f64`
/// `Some` exactly on a number. A number is carried as its floor, saturated
/// into `i64` by the cast; a parsed JSON number is never a NaN.
#[verifier::external_body]
pub(crate) fn json_extract(entry: &str) -> (r: Option<RawFields>)
    ensures
        r == raw_of(entry@),
{
    let v: serde_json::Value = match serde_json::from_str(entry) {
        Ok(v) => v,
        Err(_) => return None,
    };
    Some(RawFields {
        time: v["data"]["time"].as_str().map(|s| s.to_owned()),
        value: v["data"]["value"].as_f64().map(|x| x.floor() as i64),
        vu: v["data"]["tags"]["vu"].as_str().map(|s| s.to_owned()),
        url: v["data"]["tags"]["name"].as_str().map(|s| s.to_owned()),
        metric: v["metric"].as_str().map(|s| s.to_owned()),
    })
}

} // verus!
