//! The ways in which one update of a document can fail.

use vstd::prelude::*;

verus! {

/// Why an update was abandoned. None of these reaches the editor: the caller
/// reports the failure and keeps what was cached before.
#[derive(Clone, Copy, Debug, PartialEq, Eq, Structural)]
pub enum AnalysisError {
    /// The analyzer's output is not JSON, or does not follow the schema, or
    /// holds a position that the protocol cannot represent.
    MalformedInput,
    /// The analyzer could not be started, or did not finish normally.
    AnalyzerFailure,
    /// The document is not a local file, and only a file was given.
    UnsupportedUri,
}

/// Whether a result is the one that `model` describes: the same error, or a
/// value with the content that `model` gives.
pub open spec fn yields<T: DeepView>(result: Result<T, AnalysisError>, model: Result<T::V, AnalysisError>) -> bool {
    match result {
        Ok(value) => model == Ok::<T::V, AnalysisError>(value.deep_view()),
        Err(error) => model == Err::<T::V, AnalysisError>(error),
    }
}

} // verus!
