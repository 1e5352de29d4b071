//! A verified pipeline that turns a newline-delimited log of JSON-encoded
//! load-test events into a fixed-bucket text histogram of one numeric
//! metric (HTTP request duration).
//!
//! The pipeline has three stages, each a module of its own:
//! - `event`: one line of JSON text becomes a typed [`event::Event`] or a
//!   [`event::ParseError`] (the generic JSON access sits behind `json`);
//! - `histogram`: a duration is classified against ascending integer
//!   thresholds and a counter is bumped;
//! - `render`: the final counters become proportional text bars.
//!
//! `pipeline` ties the stages together over a sequence of raw lines; the
//! surrounding binary only reads the file and prints the rendered lines.
//!
//! A duration is carried as the floor of its numeric value. The thresholds
//! are integers, and for any real `v` and integer `t`, `v < t` holds exactly
//! when `floor(v) < t`, so classification over floors equals classification
//! over the raw values.

pub mod event;
pub mod histogram;
pub mod json;
pub mod pipeline;
pub mod render;
