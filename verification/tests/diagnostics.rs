use pilot::diagnostics::{
    compose_message, flatten, related_information, severity_of, FlatDiagnostic, Location,
    RelatedInformation, Severity,
};
use pilot::position::{Position, Range};
use pilot::report::DiagnosticNode;

fn range(line: u32, from: u32, to: u32) -> Range {
    Range {
        start: Position { line, character: from },
        end: Position { line, character: to },
    }
}

fn node(level: &str, message: &str, line: u32, subs: Vec<DiagnosticNode>) -> DiagnosticNode {
    DiagnosticNode {
        level: level.to_string(),
        message: message.to_string(),
        primary_label: String::new(),
        secondary_label: String::new(),
        range: range(line, 0, 1),
        sub_diagnostics: subs,
    }
}

#[test]
fn message_without_labels_is_the_base_message() {
    assert_eq!(compose_message("m", "", ""), "m");
}

#[test]
fn message_with_primary_label() {
    assert_eq!(compose_message("m", "p", ""), "m (p)");
}

#[test]
fn message_with_both_labels() {
    assert_eq!(compose_message("m", "p", "s"), "m (p) (s)");
}

#[test]
fn message_with_secondary_label_only() {
    assert_eq!(compose_message("m", "", "s"), "m (s)");
}

#[test]
fn message_keeps_an_empty_base() {
    assert_eq!(compose_message("", "p", "s"), " (p) (s)");
}

#[test]
fn severity_of_warning() {
    assert_eq!(severity_of("warning"), Severity::Warning);
}

#[test]
fn severity_of_note() {
    assert_eq!(severity_of("note"), Severity::Information);
}

#[test]
fn severity_of_error() {
    assert_eq!(severity_of("error"), Severity::Error);
}

#[test]
fn severity_of_an_unknown_word_is_error() {
    assert_eq!(severity_of("fatal"), Severity::Error);
    assert_eq!(severity_of(""), Severity::Error);
    assert_eq!(severity_of("Warning"), Severity::Error);
}

#[test]
fn related_information_has_the_range_and_message_of_the_nested_one() {
    let mut sub = node("note", "see here", 7, Vec::new());
    sub.primary_label = "declared".to_string();
    let related = related_information(&sub, "file:///a.cobra");
    assert_eq!(
        related,
        RelatedInformation {
            location: Location { uri: "file:///a.cobra".to_string(), range: range(7, 0, 1) },
            message: "see here (declared)".to_string(),
        }
    );
}

#[test]
fn flatten_of_nothing_is_nothing() {
    assert_eq!(flatten(&Vec::new(), "file:///a"), Vec::<FlatDiagnostic>::new());
}

#[test]
fn flatten_one_error_with_one_note() {
    let roots = vec![node("error", "bad", 1, vec![node("note", "because", 2, Vec::new())])];
    let flat = flatten(&roots, "file:///a");
    assert_eq!(flat.len(), 2);
    assert_eq!(
        flat[0],
        FlatDiagnostic {
            range: range(1, 0, 1),
            severity: Severity::Error,
            message: "bad".to_string(),
            related_information: vec![RelatedInformation {
                location: Location { uri: "file:///a".to_string(), range: range(2, 0, 1) },
                message: "because".to_string(),
            }],
        }
    );
    assert_eq!(
        flat[1],
        FlatDiagnostic {
            range: range(2, 0, 1),
            severity: Severity::Information,
            message: "because".to_string(),
            related_information: Vec::new(),
        }
    );
}

#[test]
fn flatten_walks_breadth_first() {
    // a            b
    // |- a1        |- b1
    // |  |- a11
    // |- a2
    let a11 = node("note", "a11", 11, Vec::new());
    let a1 = node("warning", "a1", 1, vec![a11]);
    let a2 = node("note", "a2", 2, Vec::new());
    let a = node("error", "a", 0, vec![a1, a2]);
    let b1 = node("note", "b1", 21, Vec::new());
    let b = node("warning", "b", 20, vec![b1]);
    let flat = flatten(&vec![a, b], "u");
    let messages: Vec<&str> = flat.iter().map(|d| d.message.as_str()).collect();
    assert_eq!(messages, vec!["a", "b", "a1", "a2", "b1", "a11"]);
    let related: Vec<usize> = flat.iter().map(|d| d.related_information.len()).collect();
    assert_eq!(related, vec![2, 1, 1, 0, 0, 0]);
    assert_eq!(flat[0].related_information[0].message, "a1");
    assert_eq!(flat[0].related_information[1].message, "a2");
    assert_eq!(flat[1].related_information[0].message, "b1");
    assert_eq!(flat[2].related_information[0].message, "a11");
}

#[test]
fn every_nested_diagnostic_shows_twice() {
    let leaf = node("note", "leaf", 3, Vec::new());
    let mut middle = node("warning", "middle", 2, vec![leaf]);
    middle.secondary_label = "s".to_string();
    let root = node("error", "root", 1, vec![middle]);
    let flat = flatten(&vec![root], "doc");
    assert_eq!(flat.len(), 3);
    for parent in 0..flat.len() {
        for related in &flat[parent].related_information {
            assert_eq!(related.location.uri, "doc");
            let own: Vec<usize> = (parent + 1..flat.len())
                .filter(|at| {
                    flat[*at].message == related.message && flat[*at].range == related.location.range
                })
                .collect();
            assert_eq!(own.len(), 1);
        }
    }
    assert_eq!(flat[1].message, "middle (s)");
    assert_eq!(flat[0].related_information[0].message, "middle (s)");
}

#[test]
fn flatten_gives_the_same_list_each_time() {
    let roots = vec![
        node("error", "x", 1, vec![node("note", "y", 2, Vec::new())]),
        node("other", "z", 3, Vec::new()),
    ];
    assert_eq!(flatten(&roots, "u"), flatten(&roots, "u"));
    assert_eq!(flatten(&roots, "u")[1].severity, Severity::Error);
    assert_eq!(flatten(&roots, "u")[1].message, "z");
    assert_eq!(flatten(&roots, "u")[2].severity, Severity::Information);
}
