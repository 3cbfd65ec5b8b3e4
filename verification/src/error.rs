//! How the protocol fails: aborts that the peer is told of, failures of
//! single reports, and faults of the aggregator itself.

use crate::messages::TransitionFailure;
use vstd::prelude::*;

verus! {

/// An abort of the protocol. The peer is told which.
#[derive(Clone, Debug, PartialEq, Eq)]
pub enum DapAbort {
    BadRequest(String),
    BatchMismatch,
    BatchOverlap,
    InvalidBatchSize,
    MissingTaskId,
    ReportRejected,
    RoundMismatch,
    UnauthorizedRequest,
    UnrecognizedAggregationJob,
    UnrecognizedMessage,
    UnrecognizedTask,
}

impl DapAbort {
    /// The name under which the peer is told of the abort.
    pub open spec fn spec_problem_type(self) -> Seq<char> {
        match self {
            DapAbort::BadRequest(_) => "badRequest"@,
            DapAbort::BatchMismatch => "batchMismatch"@,
            DapAbort::BatchOverlap => "batchOverlap"@,
            DapAbort::InvalidBatchSize => "invalidBatchSize"@,
            DapAbort::MissingTaskId => "missingTaskID"@,
            DapAbort::ReportRejected => "reportRejected"@,
            DapAbort::RoundMismatch => "roundMismatch"@,
            DapAbort::UnauthorizedRequest => "unauthorizedRequest"@,
            DapAbort::UnrecognizedAggregationJob => "unrecognizedAggregationJob"@,
            DapAbort::UnrecognizedMessage => "unrecognizedMessage"@,
            DapAbort::UnrecognizedTask => "unrecognizedTask"@,
        }
    }

    /// The name under which the peer is told of the abort.
    pub fn problem_type(&self) -> (name: &'static str)
        ensures
            name@ == self.spec_problem_type(),
    {
        match self {
            DapAbort::BadRequest(_) => "badRequest",
            DapAbort::BatchMismatch => "batchMismatch",
            DapAbort::BatchOverlap => "batchOverlap",
            DapAbort::InvalidBatchSize => "invalidBatchSize",
            DapAbort::MissingTaskId => "missingTaskID",
            DapAbort::ReportRejected => "reportRejected",
            DapAbort::RoundMismatch => "roundMismatch",
            DapAbort::UnauthorizedRequest => "unauthorizedRequest",
            DapAbort::UnrecognizedAggregationJob => "unrecognizedAggregationJob",
            DapAbort::UnrecognizedMessage => "unrecognizedMessage",
            DapAbort::UnrecognizedTask => "unrecognizedTask",
        }
    }
}

/// Why an operation of an aggregator did not succeed.
#[derive(Clone, Debug, PartialEq, Eq)]
pub enum DapError {
    /// An invariant of the aggregator is broken. The peer learns no detail.
    Fatal(String),
    /// The protocol is aborted.
    Abort(DapAbort),
    /// A single report is given up; its job goes on.
    Transition(TransitionFailure),
}

impl DapError {
    /// Whether the error is a bad request with the text `detail`.
    pub open spec fn is_bad_request(self, detail: Seq<char>) -> bool {
        self matches DapError::Abort(DapAbort::BadRequest(text)) && text@ == detail
    }

    /// Whether the error is a fault of the aggregator with the text `detail`.
    pub open spec fn is_fatal(self, detail: Seq<char>) -> bool {
        self matches DapError::Fatal(text) && text@ == detail
    }
}

/// A bad request with the text `detail`.
pub fn bad_request(detail: &str) -> (e: DapError)
    ensures
        e.is_bad_request(detail@),
{
    DapError::Abort(DapAbort::BadRequest(detail.to_owned()))
}

/// A fault of the aggregator with the text `detail`.
pub fn fatal_error(detail: &str) -> (e: DapError)
    ensures
        e.is_fatal(detail@),
{
    DapError::Fatal(detail.to_owned())
}

} // verus!
