//! A stand-in clock for timestamping tasks.
//!
//! The todo core records when a task was created. Real wall-clock time is
//! an outside effect, so this stand-in answers every query with one fixed,
//! fully specified timestamp: reproducible for tests and proofs alike. A
//! host that wants real timestamps formats them at its own edge.

use vstd::prelude::*;

verus! {

/// The one timestamp the stand-in clock ever reports.
pub open spec fn fixed_timestamp() -> Seq<char> {
    "2024-01-01 12:00:00"@
}

/// The stand-in time zone; its `now` is the entry point.
pub struct Utc;

/// A point in time as the stand-in clock tells it.
pub struct DateTime;

/// A `DateTime` already laid out for display.
pub struct FormattedDateTime;

impl Utc {
    /// The current instant — here, always the one fixed instant.
    pub fn now() -> (d: DateTime)
    {
        DateTime
    }
}

impl DateTime {
    /// Lays the instant out for display. The layout pattern is accepted
    /// for signature compatibility and ignored: the stand-in has one form.
    pub fn format(&self, layout: &str) -> (f: FormattedDateTime)
    {
        let _ = layout;
        FormattedDateTime
    }
}

impl FormattedDateTime {
    /// The formatted text: always the fixed timestamp.
    pub fn to_string(&self) -> (s: String)
        ensures
            s@ == fixed_timestamp(),
    {
        "2024-01-01 12:00:00".to_owned()
    }
}

} // verus!
