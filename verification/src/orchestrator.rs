//! What happens to a document on each event.
//!
//! An open, change or save event begins an analysis: the orchestrator gives
//! it a ticket and says how the analyzer is to be run. The caller runs the
//! analyzer, which may take long, and comes back with the ticket and what
//! the run gave. The orchestrator then decides what is cached and what is
//! published. Between the two calls other events may begin and end other
//! analyses, of the same document too.

use crate::analysis::{analysis_from, analyze_output, Analysis, AnalysisModel};
use crate::cache::{DocumentCache, DocumentState};
use crate::diagnostics::{FlatDiagnostic, FlatModel};
use crate::error::AnalysisError;
use crate::invoker::{
    analyzer_output, invocation_for, select_invocation, succeeded, AnalyzerRun, Invocation,
    InvocationModel,
};
use crate::json::{parsed, JsonValue};
use vstd::prelude::*;

verus! {

/// What the editor reports about a document.
#[derive(Clone, Debug, PartialEq, Eq)]
pub enum Event {
    /// The document was opened.
    Opened,
    /// The document was changed. Each change carries the full new text.
    Changed(Vec<String>),
    /// The document was saved.
    Saved,
}

/// The mark of one analysis: the document, and the sequence number that
/// the analysis was given.
#[derive(Clone, Debug, PartialEq, Eq)]
pub struct Ticket {
    pub uri: String,
    pub sequence: u64,
}

/// What the caller does on an event.
#[derive(Clone, Debug, PartialEq, Eq)]
pub enum Start {
    /// Run the analyzer as `invocation` says, and come back with `ticket`.
    Run { ticket: Ticket, invocation: Invocation },
    /// Nothing: the event carries nothing to analyze.
    Skip,
    /// Report the error. No analysis has begun.
    Refuse(AnalysisError),
}

/// What the caller does once an analysis has ended.
#[derive(Clone, Debug, PartialEq, Eq)]
pub enum Action {
    /// Publish these diagnostics for the document. Its tokens and hints
    /// are cached.
    Publish(Vec<FlatDiagnostic>),
    /// Nothing: a later analysis of the document has begun, and the
    /// results of this one are dropped.
    Discard,
    /// Report the error. What was cached for the document stays.
    Report(AnalysisError),
}

/// The content of a [`Start`].
pub enum StartModel {
    Run { uri: Seq<char>, sequence: u64, invocation: InvocationModel },
    Skip,
    Refuse(AnalysisError),
}

/// The content of an [`Action`].
pub enum ActionModel {
    Publish(Seq<FlatModel>),
    Discard,
    Report(AnalysisError),
}

impl DeepView for Start {
    type V = StartModel;

    open spec fn deep_view(&self) -> StartModel {
        match self {
            Start::Run { ticket, invocation } => StartModel::Run {
                uri: ticket.uri@,
                sequence: ticket.sequence,
                invocation: invocation.deep_view(),
            },
            Start::Skip => StartModel::Skip,
            Start::Refuse(error) => StartModel::Refuse(*error),
        }
    }
}

impl DeepView for Action {
    type V = ActionModel;

    open spec fn deep_view(&self) -> ActionModel {
        match self {
            Action::Publish(diagnostics) => ActionModel::Publish(diagnostics.deep_view()),
            Action::Discard => ActionModel::Discard,
            Action::Report(error) => ActionModel::Report(*error),
        }
    }
}

/// The text that an event gives the analyzer: the first change of a change
/// event, and none for the other events, which stand for the file. The
/// outer `None` is for a change event without a change: it gives nothing
/// to analyze.
pub open spec fn text_of(event: Event) -> Option<Option<Seq<char>>> {
    match event {
        Event::Opened => Some(None),
        Event::Saved => Some(None),
        Event::Changed(changes) => if changes@.len() == 0 {
            None
        } else {
            Some(Some(changes@[0]@))
        },
    }
}

/// The state of a document in a cache, whether it is held or not.
pub open spec fn state_in(documents: Map<Seq<char>, DocumentState>, uri: Seq<char>) -> DocumentState {
    if documents.contains_key(uri) {
        documents[uri]
    } else {
        DocumentState::unknown()
    }
}

/// What the caller is told on an event.
pub open spec fn start_of(
    documents: Map<Seq<char>, DocumentState>,
    uri: Seq<char>,
    event: Event,
    scheme: Seq<char>,
    has_local_path: bool,
) -> StartModel {
    match text_of(event) {
        None => StartModel::Skip,
        Some(text) => match invocation_for(text, scheme, has_local_path) {
            Err(error) => StartModel::Refuse(error),
            Ok(invocation) => if state_in(documents, uri).issued == u64::MAX {
                StartModel::Refuse(AnalysisError::AnalyzerFailure)
            } else {
                StartModel::Run {
                    uri,
                    sequence: (state_in(documents, uri).issued + 1) as u64,
                    invocation,
                }
            },
        },
    }
}

/// The cache after an event: an analysis has begun for the document where
/// the caller is told to run the analyzer, and nothing has changed where
/// not.
pub open spec fn documents_after_start(
    documents: Map<Seq<char>, DocumentState>,
    uri: Seq<char>,
    event: Event,
    scheme: Seq<char>,
    has_local_path: bool,
) -> Map<Seq<char>, DocumentState> {
    if start_of(documents, uri, event, scheme, has_local_path) is Run {
        documents.insert(uri, state_in(documents, uri).begun())
    } else {
        documents
    }
}

/// What the caller is told once the analysis `sequence` of a document has
/// ended with `outcome`.
pub open spec fn action_of(
    documents: Map<Seq<char>, DocumentState>,
    uri: Seq<char>,
    sequence: u64,
    outcome: Result<AnalysisModel, AnalysisError>,
) -> ActionModel {
    match outcome {
        Ok(analysis) => if documents.contains_key(uri) && documents[uri].accepts(sequence) {
            ActionModel::Publish(analysis.diagnostics)
        } else {
            ActionModel::Discard
        },
        Err(error) => ActionModel::Report(error),
    }
}

/// The cache once the analysis `sequence` of a document has ended with
/// `outcome`. A document of which no analysis began is not taken in.
pub open spec fn documents_after_end(
    documents: Map<Seq<char>, DocumentState>,
    uri: Seq<char>,
    sequence: u64,
    outcome: Result<AnalysisModel, AnalysisError>,
) -> Map<Seq<char>, DocumentState> {
    if documents.contains_key(uri) {
        documents.insert(
            uri,
            match outcome {
                Ok(analysis) => documents[uri].settled(sequence, analysis.tokens, analysis.hints),
                Err(_) => documents[uri].ended(),
            },
        )
    } else {
        documents
    }
}

/// The outcome of a run of the analyzer on the document `uri`, where
/// `document` is what its output parses to: `AnalyzerFailure` for a run that
/// did not end normally, `MalformedInput` for output that cannot be read,
/// and else what the output gives the editor.
pub open spec fn outcome_of(
    run: AnalyzerRun,
    document: Option<JsonValue>,
    uri: Seq<char>,
) -> Result<AnalysisModel, AnalysisError> {
    if !succeeded(run) {
        Err(AnalysisError::AnalyzerFailure)
    } else {
        match analysis_from(document, uri) {
            Some(analysis) => Ok(analysis),
            None => Err(AnalysisError::MalformedInput),
        }
    }
}

/// The content of an outcome.
pub open spec fn outcome_model(outcome: Result<Analysis, AnalysisError>) -> Result<AnalysisModel, AnalysisError> {
    match outcome {
        Ok(analysis) => Ok(analysis.deep_view()),
        Err(error) => Err(error),
    }
}

/// The orchestrator, with the cache it owns.
pub struct Orchestrator {
    cache: DocumentCache,
}

impl View for Orchestrator {
    type V = Map<Seq<char>, DocumentState>;

    closed spec fn view(&self) -> Map<Seq<char>, DocumentState> {
        self.cache@
    }
}

impl Orchestrator {
    /// An orchestrator that has not heard of any document.
    pub fn new() -> (orchestrator: Orchestrator)
        ensures
            orchestrator@ == Map::<Seq<char>, DocumentState>::empty(),
    {
        Orchestrator { cache: DocumentCache::new() }
    }

    /// The cache, for the queries: they read it and begin nothing.
    pub fn cache(&self) -> (cache: &DocumentCache)
        ensures
            cache@ == self@,
    {
        &self.cache
    }

    /// Takes an event about the document `uri`. `scheme` is the scheme of
    /// the URI and `has_local_path` says whether it resolves to a path on
    /// this machine. Where the event gives something to analyze and the
    /// analyzer can be run on it, an analysis begins. A document that has
    /// used up its sequence numbers is refused with `AnalyzerFailure`.
    pub fn start(&mut self, uri: &str, event: Event, scheme: &str, has_local_path: bool) -> (start:
        Start)
        ensures
            start.deep_view() == start_of(old(self)@, uri@, event, scheme@, has_local_path),
            final(self)@ == documents_after_start(
                old(self)@,
                uri@,
                event,
                scheme@,
                has_local_path,
            ),
    {
        let text = match event {
            Event::Opened => None,
            Event::Saved => None,
            Event::Changed(changes) => {
                if changes.len() == 0 {
                    return Start::Skip;
                }
                Some(changes[0].clone())
            },
        };
        let invocation = match select_invocation(text, scheme, has_local_path) {
            Ok(invocation) => invocation,
            Err(error) => { return Start::Refuse(error); },
        };
        match self.cache.begin(uri) {
            Some(sequence) => Start::Run {
                ticket: Ticket { uri: uri.to_owned(), sequence },
                invocation,
            },
            None => Start::Refuse(AnalysisError::AnalyzerFailure),
        }
    }

    /// Ends the analysis that `ticket` marks with the outcome it had.
    /// Results are committed and their diagnostics published exactly where
    /// no later analysis of the document has begun; an error leaves what was
    /// cached.
    pub fn settle(&mut self, ticket: &Ticket, outcome: Result<Analysis, AnalysisError>) -> (action:
        Action)
        ensures
            action.deep_view() == action_of(
                old(self)@,
                ticket.uri@,
                ticket.sequence,
                outcome_model(outcome),
            ),
            final(self)@ == documents_after_end(
                old(self)@,
                ticket.uri@,
                ticket.sequence,
                outcome_model(outcome),
            ),
    {
        match outcome {
            Ok(analysis) => {
                let Analysis { diagnostics, tokens, hints } = analysis;
                if self.cache.commit(ticket.uri.as_str(), ticket.sequence, tokens, hints) {
                    Action::Publish(diagnostics)
                } else {
                    Action::Discard
                }
            },
            Err(error) => {
                self.cache.abandon(ticket.uri.as_str());
                Action::Report(error)
            },
        }
    }

    /// Ends the analysis that `ticket` marks with what the run of the
    /// analyzer gave: reads the output of a run that ended normally, and
    /// settles the analysis with what came of it.
    pub fn finish(&mut self, ticket: &Ticket, run: AnalyzerRun) -> (action: Action)
        ensures
            action.deep_view() == action_of(
                old(self)@,
                ticket.uri@,
                ticket.sequence,
                outcome_of(run, parsed(run->output@), ticket.uri@),
            ),
            final(self)@ == documents_after_end(
                old(self)@,
                ticket.uri@,
                ticket.sequence,
                outcome_of(run, parsed(run->output@), ticket.uri@),
            ),
    {
        let outcome = match analyzer_output(run) {
            Ok(output) => analyze_output(output.as_slice(), ticket.uri.as_str()),
            Err(error) => Err(error),
        };
        self.settle(ticket, outcome)
    }
}

} // verus!
