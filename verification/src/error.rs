//! The fatal conditions that abort a benchmark run. Transient not-ready and
//! not-complete observations are not errors; they drive further polling.

use vstd::prelude::*;
use vstd::string::StringExecFns;
use crate::readiness::{ConfigView, FunctionConfig};
use crate::stats::{FieldView, ParseError};

verus! {

/// A condition that aborts the whole run: there is no partial-result
/// reporting and no retry at this level.
pub enum RunError {
    /// The log group to analyze does not exist: a precondition failure,
    /// raised before any query is submitted.
    LogGroupMissing(String),
    /// The platform reported a last-update outcome outside the modeled
    /// set; the configuration snapshot is carried for diagnosis.
    UnrecognizedUpdateStatus(FunctionConfig),
    /// A recognized metric field held a value that does not parse.
    MetricParse(ParseError),
}

/// The mathematical content of a [`RunError`].
pub ghost enum RunErrorView {
    LogGroupMissing(Seq<char>),
    UnrecognizedUpdateStatus(ConfigView),
    MetricParse(FieldView),
}

impl View for RunError {
    type V = RunErrorView;

    open spec fn view(&self) -> RunErrorView {
        match self {
            RunError::LogGroupMissing(n) => RunErrorView::LogGroupMissing(n@),
            RunError::UnrecognizedUpdateStatus(c) => RunErrorView::UnrecognizedUpdateStatus(c@),
            RunError::MetricParse(p) => RunErrorView::MetricParse(
                FieldView { field: p.field@, value: p.value@ },
            ),
        }
    }
}

/// The diagnostic line reported for each fatal condition.
pub open spec fn spec_message(e: RunErrorView) -> Seq<char> {
    match e {
        RunErrorView::LogGroupMissing(n) => "Log group "@ + n + " does not exist"@,
        RunErrorView::UnrecognizedUpdateStatus(c) => "Unknown LastUpdateStatus"@,
        RunErrorView::MetricParse(f) => "Failed to parse metric field "@ + f.field + " value "@
            + f.value,
    }
}

impl RunError {
    /// Render the diagnostic line; see [`spec_message`].
    pub fn message(&self) -> (m: String)
        ensures
            m@ == spec_message(self@),
    {
        match self {
            RunError::LogGroupMissing(n) => String::from_str("Log group ").concat(
                n.as_str(),
            ).concat(" does not exist"),
            RunError::UnrecognizedUpdateStatus(c) => String::from_str("Unknown LastUpdateStatus"),
            RunError::MetricParse(p) => String::from_str("Failed to parse metric field ").concat(
                p.field.as_str(),
            ).concat(" value ").concat(p.value.as_str()),
        }
    }
}

} // verus!
