//! The decisions around one run of the analyzer.
//!
//! Running the analyzer is the caller's work. This module decides how it is
//! run for an event, and whether a run that has ended gave output that can
//! be read.

use crate::error::{yields, AnalysisError};
use crate::text::same_text;
use vstd::prelude::*;

verus! {

/// How the analyzer is given the document.
#[derive(Clone, Debug, PartialEq, Eq)]
pub enum Invocation {
    /// The text is written to the analyzer's standard input, while its
    /// output is collected.
    Buffer(String),
    /// The document's file is opened as the analyzer's standard input.
    File,
}

/// The content of an [`Invocation`].
pub enum InvocationModel {
    Buffer(Seq<char>),
    File,
}

impl DeepView for Invocation {
    type V = InvocationModel;

    open spec fn deep_view(&self) -> InvocationModel {
        match self {
            Invocation::Buffer(text) => InvocationModel::Buffer(text@),
            Invocation::File => InvocationModel::File,
        }
    }
}

/// How one run of the analyzer ended.
#[derive(Clone, Debug, PartialEq, Eq)]
pub enum AnalyzerRun {
    /// The analyzer could not be started, or its output could not be
    /// collected.
    Failed,
    /// The analyzer ran to its end. `code` is its exit code, if it had one,
    /// and `output` is what it printed.
    Exited { code: Option<i32>, output: Vec<u8> },
}

/// How the analyzer is to be run: on the text where the event carries one,
/// and else on the document's file, which has to be a local one.
pub open spec fn invocation_for(text: Option<Seq<char>>, scheme: Seq<char>, has_local_path: bool) -> Result<
    InvocationModel,
    AnalysisError,
> {
    match text {
        Some(text) => Ok(InvocationModel::Buffer(text)),
        None => if scheme == "file"@ && has_local_path {
            Ok(InvocationModel::File)
        } else {
            Err(AnalysisError::UnsupportedUri)
        },
    }
}

/// Whether a run ended normally: the analyzer ran to its end and left with
/// the exit code 0.
pub open spec fn succeeded(run: AnalyzerRun) -> bool {
    run matches AnalyzerRun::Exited { code: Some(code), .. } && code == 0
}

/// Decides how the analyzer is run. `text` is the text that the event
/// carries, `scheme` the scheme of the document's URI, and `has_local_path`
/// says whether the URI resolves to a path on this machine. Without a text,
/// a URI of another scheme than `file`, or one that resolves to no path, is
/// refused with `UnsupportedUri`.
pub fn select_invocation(text: Option<String>, scheme: &str, has_local_path: bool) -> (invocation: Result<
    Invocation,
    AnalysisError,
>)
    ensures
        yields(invocation, invocation_for(text.deep_view(), scheme@, has_local_path)),
{
    match text {
        Some(text) => Ok(Invocation::Buffer(text)),
        None => if same_text(scheme, "file") && has_local_path {
            Ok(Invocation::File)
        } else {
            Err(AnalysisError::UnsupportedUri)
        },
    }
}

/// Gives what the analyzer printed, where the run ended normally, and
/// `AnalyzerFailure` for every other run.
pub fn analyzer_output(run: AnalyzerRun) -> (output: Result<Vec<u8>, AnalysisError>)
    ensures
        match output {
            Ok(bytes) => succeeded(run) && bytes == run->output,
            Err(error) => !succeeded(run) && error == AnalysisError::AnalyzerFailure,
        },
{
    match run {
        AnalyzerRun::Exited { code: Some(code), output } => if code == 0 {
            Ok(output)
        } else {
            Err(AnalysisError::AnalyzerFailure)
        },
        _ => Err(AnalysisError::AnalyzerFailure),
    }
}

} // verus!
