//! Aggregation pipeline for an observatory's operational log feed.
//!
//! Given a calendar date, the library computes a 24-hour observing window
//! anchored at noon, normalizes the heterogeneous records returned by several
//! independent log sources into uniform entries, and merges them into one
//! deterministic, newest-first feed of rendered text blocks. Failures are
//! contained at the smallest possible scope: a record that cannot be rendered
//! becomes a fallback line, a source that cannot be reached contributes
//! nothing, and an unparseable date yields an empty feed.
//!
//! All network and presentation concerns live outside the library; it works
//! on plain values only.

use vstd::prelude::*;

pub mod aggregate;
pub mod entry;
pub mod order;
pub mod window;

use crate::aggregate::{aggregate, spec_feed, SourceOutcome};
use crate::window::{spec_compute, spec_format_datetime};

verus! {

/// The list of rendered log messages handed to the presentation layer.
pub struct LogForm {
    pub logmessages: Vec<String>,
}

/// An empty feed, used whenever no date was selected.
pub fn get_empty_log_form() -> (form: LogForm)
    ensures
        form.logmessages@.len() == 0,
{
    LogForm { logmessages: Vec::new() }
}

/// The feed for one requested date, given what each source's query came to:
/// the aggregated, newest-first list of rendered messages, or the empty list
/// when the date does not parse.
pub fn get_log_form(selected_date: &str, outcomes: &Vec<SourceOutcome>) -> (form: LogForm)
    ensures
        match spec_compute(selected_date@) {
            Some(w) => form.logmessages@.map_values(|s: String| s@) == spec_feed(
                outcomes@,
                spec_format_datetime(w.start),
            ),
            None => form.logmessages@.len() == 0,
        },
{
    LogForm { logmessages: aggregate(selected_date, outcomes) }
}

} // verus!
