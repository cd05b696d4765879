use pilot::hints::{translate_hint, translate_hints, EncodedHint, HintKind};
use pilot::position::Position;
use pilot::report::HintRecord;

fn record(line: u32, character: u32, label: &str) -> HintRecord {
    HintRecord { position: Position { line, character }, label: label.to_string() }
}

#[test]
fn hint_label_gets_a_colon() {
    let hint = translate_hint(&record(3, 14, "count"));
    assert_eq!(
        hint,
        EncodedHint {
            position: Position { line: 3, character: 14 },
            label: "count:".to_string(),
            kind: HintKind::Parameter,
            padding_left: false,
            padding_right: true,
            tooltip: None,
            text_edits: Vec::new(),
        }
    );
}

#[test]
fn empty_hint_label_is_a_colon() {
    assert_eq!(translate_hint(&record(0, 0, "")).label, ":");
}

#[test]
fn one_hint_for_each_record_in_order() {
    let hints = translate_hints(&vec![record(1, 1, "a"), record(0, 5, "b"), record(1, 1, "a")]);
    let shown: Vec<(u32, u32, &str)> = hints
        .iter()
        .map(|h| (h.position.line, h.position.character, h.label.as_str()))
        .collect();
    assert_eq!(shown, vec![(1, 1, "a:"), (0, 5, "b:"), (1, 1, "a:")]);
    assert!(hints.iter().all(|h| h.kind == HintKind::Parameter
        && !h.padding_left
        && h.padding_right
        && h.tooltip.is_none()
        && h.text_edits.is_empty()));
}

#[test]
fn no_records_give_no_hints() {
    assert_eq!(translate_hints(&Vec::new()), Vec::new());
}
