//! What the analyzer reports about one document, as typed records.
//!
//! These are the analyzer's own terms: a forest of diagnostics, tokens at
//! absolute positions and hint records. Each record type has a mathematical
//! counterpart, its deep view, that the contracts of the library speak of.

use crate::position::{Position, Range};
use vstd::prelude::*;

verus! {

/// One diagnostic of the analyzer with the diagnostics nested under it.
#[derive(Debug, PartialEq, Eq)]
pub struct DiagnosticNode {
    /// The analyzer's level word: "error", "warning", "note", or any other.
    pub level: String,
    pub message: String,
    pub primary_label: String,
    pub secondary_label: String,
    pub range: Range,
    pub sub_diagnostics: Vec<DiagnosticNode>,
}

/// The content of a [`DiagnosticNode`].
pub struct DiagnosticTree {
    pub level: Seq<char>,
    pub message: Seq<char>,
    pub primary_label: Seq<char>,
    pub secondary_label: Seq<char>,
    pub range: Range,
    pub sub_diagnostics: Seq<DiagnosticTree>,
}

/// The content of a node: its own fields, and the contents of the nodes
/// under it in their order.
pub open spec fn tree_of(node: DiagnosticNode) -> DiagnosticTree
    decreases node,
{
    DiagnosticTree {
        level: node.level@,
        message: node.message@,
        primary_label: node.primary_label@,
        secondary_label: node.secondary_label@,
        range: node.range,
        sub_diagnostics: Seq::new(
            node.sub_diagnostics@.len(),
            |i: int|
                if 0 <= i < node.sub_diagnostics@.len() {
                    tree_of(node.sub_diagnostics@[i])
                } else {
                    arbitrary()
                },
        ),
    }
}

impl DeepView for DiagnosticNode {
    type V = DiagnosticTree;

    open spec fn deep_view(&self) -> DiagnosticTree {
        tree_of(*self)
    }
}

/// The sub-diagnostics of a node's content are the contents of its
/// sub-diagnostics.
pub proof fn lemma_tree_children(node: DiagnosticNode)
    ensures
        node.deep_view().sub_diagnostics == node.sub_diagnostics.deep_view(),
{
    assert(node.deep_view().sub_diagnostics =~= node.sub_diagnostics.deep_view());
}

/// What the analyzer says a token is.
#[derive(Clone, Copy, Debug, PartialEq, Eq, Structural)]
pub enum TokenKind {
    Keyword,
    String,
    Number,
    Filter,
    /// A type word outside the token legend.
    Unrecognized,
}

/// A token at its absolute place in the document.
#[derive(Clone, Copy, Debug, PartialEq, Eq, Structural)]
pub struct ClassifiedToken {
    pub kind: TokenKind,
    pub range: Range,
}

/// A hint of the analyzer: a text and the place it is anchored at.
#[derive(Clone, Debug, PartialEq, Eq)]
pub struct HintRecord {
    pub position: Position,
    pub label: String,
}

/// The content of a [`HintRecord`].
pub struct HintModel {
    pub position: Position,
    pub label: Seq<char>,
}

impl DeepView for HintRecord {
    type V = HintModel;

    open spec fn deep_view(&self) -> HintModel {
        HintModel { position: self.position, label: self.label@ }
    }
}

/// Everything the analyzer reports about one document.
#[derive(Debug, PartialEq, Eq)]
pub struct AnalyzerReport {
    pub diagnostics: Vec<DiagnosticNode>,
    pub tokens: Vec<ClassifiedToken>,
    pub hints: Vec<HintRecord>,
}

/// The content of an [`AnalyzerReport`].
pub struct ReportModel {
    pub diagnostics: Seq<DiagnosticTree>,
    pub tokens: Seq<ClassifiedToken>,
    pub hints: Seq<HintModel>,
}

impl DeepView for AnalyzerReport {
    type V = ReportModel;

    open spec fn deep_view(&self) -> ReportModel {
        ReportModel {
            diagnostics: self.diagnostics.deep_view(),
            tokens: self.tokens@,
            hints: self.hints.deep_view(),
        }
    }
}

} // verus!
