//! Reading the analyzer's JSON against its schema.
//!
//! The schema is stated twice. The spec functions say, for the content of a
//! JSON value, which record it describes, or that it describes none. The
//! executable functions read a `serde_json::Value` and return that record,
//! or `MalformedInput` exactly where there is none.
//!
//! ```text
//! output:     { "diags": [node..], "tokens": [token..], "inlay_hints": [hint..] }
//! node:       { "lvl": string, "message": string, "primary_label": string,
//!               "secondary_label": string, "start": position, "end": position,
//!               "sub_diags": [node..] }
//! token:      { "type": string, "start": position, "end": position }
//! hint:       { "hint": string, "line": integer, "col": integer }
//! position:   { "line": integer, "col": integer }
//! ```
//!
//! Members that the schema does not name are ignored.

use crate::error::AnalysisError;
use crate::json::{content, contents, member, JsonValue};
use crate::position::{Position, Range};
use crate::report::{
    AnalyzerReport, ClassifiedToken, DiagnosticNode, DiagnosticTree, HintModel, HintRecord,
    ReportModel, TokenKind, lemma_tree_children,
};
use crate::text::same_text;
use serde_json::Value;
use vstd::prelude::*;

verus! {

/// The unsigned integer that an object holds under `key`.
pub open spec fn unsigned_field(object: JsonValue, key: Seq<char>) -> Option<u64> {
    match object.member(key) {
        Some(value) => value.unsigned(),
        None => None,
    }
}

/// The string that an object holds under `key`.
pub open spec fn text_field(object: JsonValue, key: Seq<char>) -> Option<Seq<char>> {
    match object.member(key) {
        Some(value) => value.text(),
        None => None,
    }
}

/// The items of the array that an object holds under `key`.
pub open spec fn array_field(object: JsonValue, key: Seq<char>) -> Option<Seq<JsonValue>> {
    match object.member(key) {
        Some(value) => value.items(),
        None => None,
    }
}

/// The position that a record gives in `line` and `col`: both have to be
/// integers that the protocol's 32 bits can hold.
pub open spec fn position_in(record: JsonValue) -> Option<Position> {
    match (unsigned_field(record, "line"@), unsigned_field(record, "col"@)) {
        (Some(line), Some(col)) => if line <= u32::MAX && col <= u32::MAX {
            Some(Position { line: line as u32, character: col as u32 })
        } else {
            None
        },
        _ => None,
    }
}

/// The range that a record gives in the positions under `start` and `end`.
pub open spec fn range_in(record: JsonValue) -> Option<Range> {
    match (record.member("start"@), record.member("end"@)) {
        (Some(start), Some(end)) => match (position_in(start), position_in(end)) {
            (Some(start), Some(end)) => Some(Range { start, end }),
            _ => None,
        },
        _ => None,
    }
}

/// The diagnostic that a record describes, with everything nested under it.
/// There is none as soon as one record at any depth lacks a member or holds
/// one of the wrong kind.
pub open spec fn node_in(record: JsonValue) -> Option<DiagnosticTree>
    decreases record,
{
    match (
        text_field(record, "lvl"@),
        text_field(record, "message"@),
        text_field(record, "primary_label"@),
        text_field(record, "secondary_label"@),
        range_in(record),
        array_field(record, "sub_diags"@),
    ) {
        (
            Some(level),
            Some(message),
            Some(primary_label),
            Some(secondary_label),
            Some(range),
            Some(subs),
        ) => match nodes_in(subs) {
            Some(sub_diagnostics) => Some(
                DiagnosticTree {
                    level,
                    message,
                    primary_label,
                    secondary_label,
                    range,
                    sub_diagnostics,
                },
            ),
            None => None,
        },
        _ => None,
    }
}

/// The diagnostics that the items of an array describe, where each
/// describes one.
pub open spec fn nodes_in(items: Seq<JsonValue>) -> Option<Seq<DiagnosticTree>>
    decreases items,
{
    if forall|i: int| 0 <= i < items.len() ==> node_in(#[trigger] items[i]) is Some {
        Some(
            Seq::new(
                items.len(),
                |i: int|
                    if 0 <= i < items.len() {
                        node_in(items[i])->0
                    } else {
                        arbitrary()
                    },
            ),
        )
    } else {
        None
    }
}

/// The kind that a type word of the analyzer names.
pub open spec fn kind_named(word: Seq<char>) -> TokenKind {
    if word == "keyword"@ {
        TokenKind::Keyword
    } else if word == "string"@ {
        TokenKind::String
    } else if word == "number"@ {
        TokenKind::Number
    } else if word == "filter"@ {
        TokenKind::Filter
    } else {
        TokenKind::Unrecognized
    }
}

/// The token that a record describes. Any string is accepted as its type.
pub open spec fn token_in(record: JsonValue) -> Option<ClassifiedToken> {
    match (range_in(record), text_field(record, "type"@)) {
        (Some(range), Some(word)) => Some(ClassifiedToken { kind: kind_named(word), range }),
        _ => None,
    }
}

/// The hint that a record describes.
pub open spec fn hint_in(record: JsonValue) -> Option<HintModel> {
    match (text_field(record, "hint"@), position_in(record)) {
        (Some(label), Some(position)) => Some(HintModel { position, label }),
        _ => None,
    }
}

/// The tokens that the items of an array describe, where each describes
/// one.
pub open spec fn tokens_in(items: Seq<JsonValue>) -> Option<Seq<ClassifiedToken>> {
    if forall|i: int| 0 <= i < items.len() ==> token_in(#[trigger] items[i]) is Some {
        Some(Seq::new(items.len(), |i: int| token_in(items[i])->0))
    } else {
        None
    }
}

/// The hints that the items of an array describe, where each describes one.
pub open spec fn hints_in(items: Seq<JsonValue>) -> Option<Seq<HintModel>> {
    if forall|i: int| 0 <= i < items.len() ==> hint_in(#[trigger] items[i]) is Some {
        Some(Seq::new(items.len(), |i: int| hint_in(items[i])->0))
    } else {
        None
    }
}

/// The report that the analyzer's whole output describes.
pub open spec fn report_in(output: JsonValue) -> Option<ReportModel> {
    match (
        array_field(output, "diags"@),
        array_field(output, "tokens"@),
        array_field(output, "inlay_hints"@),
    ) {
        (Some(diags), Some(tokens), Some(hints)) => match (
            nodes_in(diags),
            tokens_in(tokens),
            hints_in(hints),
        ) {
            (Some(diagnostics), Some(tokens), Some(hints)) => Some(
                ReportModel { diagnostics, tokens, hints },
            ),
            _ => None,
        },
        _ => None,
    }
}

/// What reading gives for a plain record: the record that the schema finds,
/// and `MalformedInput` where it finds none.
pub open spec fn required<T>(found: Option<T>) -> Result<T, AnalysisError> {
    match found {
        Some(record) => Ok(record),
        None => Err(AnalysisError::MalformedInput),
    }
}

/// The same for a record that owns strings or lists, which is compared by
/// its content.
pub open spec fn reads_as<T: DeepView>(read: Result<T, AnalysisError>, found: Option<T::V>) -> bool {
    match read {
        Ok(record) => found == Some(record.deep_view()),
        Err(error) => found is None && error == AnalysisError::MalformedInput,
    }
}

fn get_unsigned(object: &Value, key: &str) -> (read: Result<u64, AnalysisError>)
    ensures
        read == required(unsigned_field(content(*object), key@)),
{
    match member(object, key) {
        Some(value) => match value.as_u64() {
            Some(number) => Ok(number),
            None => Err(AnalysisError::MalformedInput),
        },
        None => Err(AnalysisError::MalformedInput),
    }
}

fn get_text(object: &Value, key: &str) -> (read: Result<String, AnalysisError>)
    ensures
        reads_as(read, text_field(content(*object), key@)),
{
    match member(object, key) {
        Some(value) => match value.as_str() {
            Some(text) => Ok(text.to_owned()),
            None => Err(AnalysisError::MalformedInput),
        },
        None => Err(AnalysisError::MalformedInput),
    }
}

fn get_array<'a>(object: &'a Value, key: &str) -> (read: Result<&'a Vec<Value>, AnalysisError>)
    ensures
        match read {
            Ok(list) => array_field(content(*object), key@) == Some(contents(list@)),
            Err(error) => array_field(content(*object), key@) is None && error
                == AnalysisError::MalformedInput,
        },
{
    match member(object, key) {
        Some(value) => match value.as_array() {
            Some(list) => Ok(list),
            None => Err(AnalysisError::MalformedInput),
        },
        None => Err(AnalysisError::MalformedInput),
    }
}

/// Reads the position that a record gives in `line` and `col`.
pub fn get_position(value: &Value) -> (read: Result<Position, AnalysisError>)
    ensures
        read == required(position_in(content(*value))),
{
    let line = get_unsigned(value, "line")?;
    let col = get_unsigned(value, "col")?;
    if line > 0xffff_ffff || col > 0xffff_ffff {
        return Err(AnalysisError::MalformedInput);
    }
    Ok(Position { line: line as u32, character: col as u32 })
}

/// Reads the range that a record gives under `start` and `end`.
pub fn get_range(value: &Value) -> (read: Result<Range, AnalysisError>)
    ensures
        read == required(range_in(content(*value))),
{
    let start = match member(value, "start") {
        Some(record) => get_position(record)?,
        None => { return Err(AnalysisError::MalformedInput); },
    };
    let end = match member(value, "end") {
        Some(record) => get_position(record)?,
        None => { return Err(AnalysisError::MalformedInput); },
    };
    Ok(Range { start, end })
}

/// Reads the diagnostics that the items of an array describe.
pub fn get_nodes(list: &Vec<Value>) -> (read: Result<Vec<DiagnosticNode>, AnalysisError>)
    ensures
        reads_as(read, nodes_in(contents(list@))),
    decreases contents(list@),
{
    let ghost records = contents(list@);
    let mut nodes: Vec<DiagnosticNode> = Vec::new();
    let mut i: usize = 0;
    while i < list.len()
        invariant
            i <= list.len(),
            records == contents(list@),
            nodes@.len() == i,
            forall|k: int| 0 <= k < i ==> node_in(records[k]) == Some(#[trigger] nodes@[k].deep_view()),
        decreases list.len() - i,
    {
        match get_node(&list[i]) {
            Ok(node) => {
                nodes.push(node);
            },
            Err(error) => {
                assert(records[i as int] == content(list@[i as int]));
                return Err(error);
            },
        }
        i += 1;
    }
    proof {
        assert forall|k: int| 0 <= k < records.len() implies node_in(#[trigger] records[k]) is Some by {
            assert(node_in(records[k]) == Some(nodes@[k].deep_view()));
        }
        assert(nodes_in(records)->0 =~= nodes.deep_view());
    }
    Ok(nodes)
}

/// Reads the diagnostic that a record describes, with everything nested
/// under it.
pub fn get_node(value: &Value) -> (read: Result<DiagnosticNode, AnalysisError>)
    ensures
        reads_as(read, node_in(content(*value))),
    decreases content(*value),
{
    let level = get_text(value, "lvl")?;
    let message = get_text(value, "message")?;
    let primary_label = get_text(value, "primary_label")?;
    let secondary_label = get_text(value, "secondary_label")?;
    let range = get_range(value)?;
    let subs = get_array(value, "sub_diags")?;
    let sub_diagnostics = get_nodes(subs)?;
    let node = DiagnosticNode {
        level,
        message,
        primary_label,
        secondary_label,
        range,
        sub_diagnostics,
    };
    proof {
        lemma_tree_children(node);
    }
    Ok(node)
}

/// Tells which kind a type word of the analyzer names.
pub fn token_kind(word: &str) -> (kind: TokenKind)
    ensures
        kind == kind_named(word@),
{
    if same_text(word, "keyword") {
        TokenKind::Keyword
    } else if same_text(word, "string") {
        TokenKind::String
    } else if same_text(word, "number") {
        TokenKind::Number
    } else if same_text(word, "filter") {
        TokenKind::Filter
    } else {
        TokenKind::Unrecognized
    }
}

/// Reads the token that a record describes.
pub fn get_token(value: &Value) -> (read: Result<ClassifiedToken, AnalysisError>)
    ensures
        read == required(token_in(content(*value))),
{
    let range = get_range(value)?;
    match member(value, "type") {
        Some(word) => match word.as_str() {
            Some(word) => Ok(ClassifiedToken { kind: token_kind(word), range }),
            None => Err(AnalysisError::MalformedInput),
        },
        None => Err(AnalysisError::MalformedInput),
    }
}

/// Reads the hint that a record describes.
pub fn get_hint(value: &Value) -> (read: Result<HintRecord, AnalysisError>)
    ensures
        reads_as(read, hint_in(content(*value))),
{
    let label = get_text(value, "hint")?;
    let position = get_position(value)?;
    Ok(HintRecord { position, label })
}

/// Reads the tokens that the items of an array describe.
pub fn get_tokens(list: &Vec<Value>) -> (read: Result<Vec<ClassifiedToken>, AnalysisError>)
    ensures
        match read {
            Ok(tokens) => tokens_in(contents(list@)) == Some(tokens@),
            Err(error) => tokens_in(contents(list@)) is None && error
                == AnalysisError::MalformedInput,
        },
{
    let ghost records = contents(list@);
    let mut tokens: Vec<ClassifiedToken> = Vec::new();
    let mut i: usize = 0;
    while i < list.len()
        invariant
            i <= list.len(),
            records == contents(list@),
            tokens@.len() == i,
            forall|k: int| 0 <= k < i ==> token_in(records[k]) == Some(#[trigger] tokens@[k]),
        decreases list.len() - i,
    {
        match get_token(&list[i]) {
            Ok(token) => {
                tokens.push(token);
            },
            Err(error) => {
                assert(records[i as int] == content(list@[i as int]));
                return Err(error);
            },
        }
        i += 1;
    }
    proof {
        assert forall|k: int| 0 <= k < records.len() implies token_in(#[trigger] records[k]) is Some by {
            assert(token_in(records[k]) == Some(tokens@[k]));
        }
        assert(tokens_in(records)->0 =~= tokens@);
    }
    Ok(tokens)
}

/// Reads the hints that the items of an array describe.
pub fn get_hints(list: &Vec<Value>) -> (read: Result<Vec<HintRecord>, AnalysisError>)
    ensures
        reads_as(read, hints_in(contents(list@))),
{
    let ghost records = contents(list@);
    let mut hints: Vec<HintRecord> = Vec::new();
    let mut i: usize = 0;
    while i < list.len()
        invariant
            i <= list.len(),
            records == contents(list@),
            hints@.len() == i,
            forall|k: int| 0 <= k < i ==> hint_in(records[k]) == Some(#[trigger] hints@[k].deep_view()),
        decreases list.len() - i,
    {
        match get_hint(&list[i]) {
            Ok(hint) => {
                hints.push(hint);
            },
            Err(error) => {
                assert(records[i as int] == content(list@[i as int]));
                return Err(error);
            },
        }
        i += 1;
    }
    proof {
        assert forall|k: int| 0 <= k < records.len() implies hint_in(#[trigger] records[k]) is Some by {
            assert(hint_in(records[k]) == Some(hints@[k].deep_view()));
        }
        assert(hints_in(records)->0 =~= hints.deep_view());
    }
    Ok(hints)
}

/// Reads the analyzer's whole output: the diagnostics under `diags`, the
/// tokens under `tokens` and the hints under `inlay_hints`. It is refused
/// as a whole where any part of it is refused.
pub fn get_report(output: &Value) -> (read: Result<AnalyzerReport, AnalysisError>)
    ensures
        reads_as(read, report_in(content(*output))),
{
    let diagnostics = get_nodes(get_array(output, "diags")?)?;
    let tokens = get_tokens(get_array(output, "tokens")?)?;
    let hints = get_hints(get_array(output, "inlay_hints")?)?;
    Ok(AnalyzerReport { diagnostics, tokens, hints })
}

} // verus!
