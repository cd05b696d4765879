//! One analysis of a document: from the analyzer's output to what the
//! editor is given.

use crate::decode::{get_report, reads_as, report_in};
use crate::diagnostics::{flatten, flattened, FlatDiagnostic, FlatModel};
use crate::error::AnalysisError;
use crate::hints::{hints_of, translate_hints, EncodedHint, EncodedHintModel};
use crate::json::{content, parse, parsed, JsonValue};
use crate::report::{AnalyzerReport, ReportModel};
use crate::tokens::{encodable, encode_tokens, encoded, EncodedToken};
use serde_json::Value;
use vstd::prelude::*;

verus! {

/// What one analysis of a document gives the editor.
#[derive(Clone, Debug, PartialEq, Eq)]
pub struct Analysis {
    /// Published at once, and not kept.
    pub diagnostics: Vec<FlatDiagnostic>,
    /// Kept until the next analysis of the document replaces them.
    pub tokens: Vec<EncodedToken>,
    /// Kept together with the tokens.
    pub hints: Vec<EncodedHint>,
}

/// The content of an [`Analysis`].
pub struct AnalysisModel {
    pub diagnostics: Seq<FlatModel>,
    pub tokens: Seq<EncodedToken>,
    pub hints: Seq<EncodedHintModel>,
}

impl DeepView for Analysis {
    type V = AnalysisModel;

    open spec fn deep_view(&self) -> AnalysisModel {
        AnalysisModel {
            diagnostics: self.diagnostics.deep_view(),
            tokens: self.tokens@,
            hints: self.hints.deep_view(),
        }
    }
}

/// What a report about the document `uri` gives the editor: its
/// diagnostics flattened, its tokens encoded and its hints translated.
/// There is nothing where the tokens cannot be encoded.
pub open spec fn analysis_of(report: ReportModel, uri: Seq<char>) -> Option<AnalysisModel> {
    if encodable(report.tokens) {
        Some(
            AnalysisModel {
                diagnostics: flattened(report.diagnostics, uri),
                tokens: encoded(report.tokens),
                hints: hints_of(report.hints),
            },
        )
    } else {
        None
    }
}

/// What a JSON document gives the editor, when it is read as the
/// analyzer's output about the document `uri`.
pub open spec fn analysis_in(document: JsonValue, uri: Seq<char>) -> Option<AnalysisModel> {
    match report_in(document) {
        Some(report) => analysis_of(report, uri),
        None => None,
    }
}

/// What the bytes that the analyzer printed give the editor: nothing where
/// they are not JSON, and else what the JSON document gives.
pub open spec fn analysis_from(document: Option<JsonValue>, uri: Seq<char>) -> Option<AnalysisModel> {
    match document {
        Some(document) => analysis_in(document, uri),
        None => None,
    }
}

/// Turns a report about the document `uri` into what the editor is given.
/// Fails with `MalformedInput` exactly where the tokens cannot be encoded.
pub fn process_report(report: &AnalyzerReport, uri: &str) -> (analysis: Result<Analysis, AnalysisError>)
    ensures
        reads_as(analysis, analysis_of(report.deep_view(), uri@)),
{
    let tokens = encode_tokens(&report.tokens)?;
    let diagnostics = flatten(&report.diagnostics, uri);
    let hints = translate_hints(&report.hints);
    Ok(Analysis { diagnostics, tokens, hints })
}

/// Reads a JSON document as the analyzer's output about the document `uri`
/// and turns it into what the editor is given. Fails with `MalformedInput`
/// exactly where the document does not follow the schema or its tokens
/// cannot be encoded.
pub fn analyze_document(document: &Value, uri: &str) -> (analysis: Result<Analysis, AnalysisError>)
    ensures
        reads_as(analysis, analysis_in(content(*document), uri@)),
{
    let report = get_report(document)?;
    process_report(&report, uri)
}

/// Parses the bytes that the analyzer printed about the document `uri` and
/// turns them into what the editor is given. Fails with `MalformedInput`
/// exactly where the bytes are not one JSON document, or the document does
/// not follow the schema, or its tokens cannot be encoded.
pub fn analyze_output(output: &[u8], uri: &str) -> (analysis: Result<Analysis, AnalysisError>)
    ensures
        reads_as(analysis, analysis_from(parsed(output@), uri@)),
{
    match parse(output) {
        Ok(document) => analyze_document(&document, uri),
        Err(_) => Err(AnalysisError::MalformedInput),
    }
}

} // verus!
