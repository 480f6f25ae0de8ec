//! The ways in which a query can fail.

use crate::text::append_decimal;
use crate::text::decimal;
use vstd::prelude::*;
use vstd::string::StringExecFns;

verus! {

/// Why a query, or a step of it, failed.
#[derive(Debug)]
pub enum TripError {
    /// The instant `from_ms` milliseconds after the epoch lies outside the
    /// represented years.
    Resolution { from_ms: i64 },
    /// The remote source did not deliver the partition: it answered `url` with
    /// `status`, or (`None`) it gave no complete answer.
    Fetch { url: String, status: Option<u16> },
    /// The local file at `path` could not be looked at or written.
    Io { path: String },
    /// The partition file lacks `column`, or holds it with another type.
    Schema { column: String },
    /// The partition file could not be read; `detail` says what went wrong.
    Scan { detail: String },
    /// A negative number of results was asked for.
    Validation { n_results: i64 },
}

impl TripError {
    /// What the one who asked is told of the error: its kind and what was
    /// asked for, and nothing of the local files.
    pub open spec fn message_text(self) -> Seq<char> {
        match self {
            TripError::Resolution { from_ms } => "instant out of range: "@ + decimal(from_ms as int)
                + " ms"@,
            TripError::Fetch { url, status: Some(status) } => "fetch failed: "@ + url@
                + " answered "@ + decimal(status as int),
            TripError::Fetch { url, status: None } => "fetch failed: "@ + url@ + " gave no answer"@,
            TripError::Io { path } => "local cache failure"@,
            TripError::Schema { column } => "unexpected schema: column "@ + column@,
            TripError::Scan { detail } => "partition file could not be read"@,
            TripError::Validation { n_results } => "invalid number of results: "@ + decimal(
                n_results as int,
            ),
        }
    }

    /// What the one who asked is told of the error.
    pub fn message(&self) -> (text: String)
        ensures
            text@ == self.message_text(),
    {
        match self {
            TripError::Resolution { from_ms } => {
                let mut text = String::from_str("instant out of range: ");
                append_decimal(&mut text, *from_ms);
                text.append(" ms");
                text
            },
            TripError::Fetch { url, status: Some(status) } => {
                let mut text = String::from_str("fetch failed: ");
                text.append(url.as_str());
                text.append(" answered ");
                append_decimal(&mut text, *status as i64);
                text
            },
            TripError::Fetch { url, status: None } => {
                let mut text = String::from_str("fetch failed: ");
                text.append(url.as_str());
                text.append(" gave no answer");
                text
            },
            TripError::Io { path } => String::from_str("local cache failure"),
            TripError::Schema { column } => {
                let mut text = String::from_str("unexpected schema: column ");
                text.append(column.as_str());
                text
            },
            TripError::Scan { detail } => String::from_str("partition file could not be read"),
            TripError::Validation { n_results } => {
                let mut text = String::from_str("invalid number of results: ");
                append_decimal(&mut text, *n_results);
                text
            },
        }
    }
}

} // verus!
