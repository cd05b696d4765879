//! From the analyzer's hint records to the editor's inlay hints.
//!
//! Every record becomes one hint at the same position. What is shown is the
//! record's text with a colon after it. The rest is fixed: the hint is a
//! parameter hint with padding on its right only, without a tooltip and
//! without text edits.

use crate::position::{Position, Range};
use crate::report::{HintModel, HintRecord};
use vstd::prelude::*;

verus! {

/// What an inlay hint annotates.
#[derive(Clone, Copy, Debug, PartialEq, Eq, Structural)]
pub enum HintKind {
    Type,
    Parameter,
}

/// A change to the document that accepting a hint would make.
#[derive(Clone, Debug, PartialEq, Eq)]
pub struct TextEdit {
    pub range: Range,
    pub new_text: String,
}

/// One inlay hint as the editor shows it.
#[derive(Clone, Debug, PartialEq, Eq)]
pub struct EncodedHint {
    pub position: Position,
    pub label: String,
    pub kind: HintKind,
    pub padding_left: bool,
    pub padding_right: bool,
    pub tooltip: Option<String>,
    pub text_edits: Vec<TextEdit>,
}

/// The content of a [`TextEdit`].
pub struct TextEditModel {
    pub range: Range,
    pub new_text: Seq<char>,
}

/// The content of an [`EncodedHint`].
pub struct EncodedHintModel {
    pub position: Position,
    pub label: Seq<char>,
    pub kind: HintKind,
    pub padding_left: bool,
    pub padding_right: bool,
    pub tooltip: Option<Seq<char>>,
    pub text_edits: Seq<TextEditModel>,
}

impl DeepView for TextEdit {
    type V = TextEditModel;

    open spec fn deep_view(&self) -> TextEditModel {
        TextEditModel { range: self.range, new_text: self.new_text@ }
    }
}

impl DeepView for EncodedHint {
    type V = EncodedHintModel;

    open spec fn deep_view(&self) -> EncodedHintModel {
        EncodedHintModel {
            position: self.position,
            label: self.label@,
            kind: self.kind,
            padding_left: self.padding_left,
            padding_right: self.padding_right,
            tooltip: self.tooltip.deep_view(),
            text_edits: self.text_edits.deep_view(),
        }
    }
}

/// The hint that is shown for a record.
pub open spec fn hint_of(record: HintModel) -> EncodedHintModel {
    EncodedHintModel {
        position: record.position,
        label: record.label + ":"@,
        kind: HintKind::Parameter,
        padding_left: false,
        padding_right: true,
        tooltip: None,
        text_edits: Seq::empty(),
    }
}

/// The hints that are shown for a list of records: one for each, in the
/// same order.
pub open spec fn hints_of(records: Seq<HintModel>) -> Seq<EncodedHintModel> {
    Seq::new(records.len(), |i: int| hint_of(records[i]))
}

/// Translates one hint record.
pub fn translate_hint(record: &HintRecord) -> (hint: EncodedHint)
    ensures
        hint.deep_view() == hint_of(record.deep_view()),
{
    let mut label = record.label.clone();
    label.append(":");
    let hint = EncodedHint {
        position: record.position,
        label,
        kind: HintKind::Parameter,
        padding_left: false,
        padding_right: true,
        tooltip: None,
        text_edits: Vec::new(),
    };
    proof {
        assert(hint.text_edits.deep_view() =~= Seq::<TextEditModel>::empty());
    }
    hint
}

/// Translates the hint records of a document.
pub fn translate_hints(records: &Vec<HintRecord>) -> (hints: Vec<EncodedHint>)
    ensures
        hints.deep_view() == hints_of(records.deep_view()),
{
    let mut hints: Vec<EncodedHint> = Vec::new();
    let mut i: usize = 0;
    while i < records.len()
        invariant
            i <= records.len(),
            hints@.len() == i,
            forall|k: int|
                0 <= k < i ==> (#[trigger] hints@[k]).deep_view() == hint_of(
                    records@[k].deep_view(),
                ),
        decreases records.len() - i,
    {
        hints.push(translate_hint(&records[i]));
        i += 1;
    }
    proof {
        assert(hints.deep_view() =~= hints_of(records.deep_view()));
    }
    hints
}

} // verus!
