//! Error types: failures of the textual forms of the metric data types, and
//! failures of the agent's loops.
use vstd::prelude::*;

verus! {

/// Errors of the metric data types: malformed textual forms and unknown
/// record kinds.
#[derive(Debug)]
pub enum TypeError {
    /// A textual form could not be read back into a value.
    DeFromStringError(String),
    /// A record-kind name matched none of the live kinds.
    MetricsAlarmTypeInvalid,
    /// Any other failure, described in words.
    CustomError(String),
}

/// Errors of the agent side: file handling, queue transport, HTTP transport.
#[derive(Debug)]
pub enum ClientError {
    /// The monitored file could not be read.
    FileIOError(String),
    /// A queue between the agent's loops reported a terminal state.
    QueueError(String),
    /// The gateway could not be reached or answered badly.
    HttpError(String),
    /// A metric value's textual form was malformed.
    MetricsTypeError(String),
    /// Any other failure, described in words.
    CustomError(String),
}

} // verus!
