use pilot::analysis::Analysis;
use pilot::cache::Phase;
use pilot::diagnostics::Severity;
use pilot::error::AnalysisError;
use pilot::invoker::{AnalyzerRun, Invocation};
use pilot::orchestrator::{Action, Event, Orchestrator, Start, Ticket};
use pilot::tokens::EncodedToken;

const URI: &str = "file:///main.cobra";

const OUTPUT: &str = r#"{
  "diags": [
    {"lvl": "error", "message": "bad", "primary_label": "", "secondary_label": "",
     "start": {"line": 1, "col": 0}, "end": {"line": 1, "col": 3},
     "sub_diags": [
       {"lvl": "note", "message": "why", "primary_label": "", "secondary_label": "",
        "start": {"line": 0, "col": 0}, "end": {"line": 0, "col": 1}, "sub_diags": []}
     ]}
  ],
  "tokens": [{"type": "keyword", "start": {"line": 1, "col": 0}, "end": {"line": 1, "col": 3}}],
  "inlay_hints": [{"hint": "x", "line": 1, "col": 4}]
}"#;

fn exited(output: &str) -> AnalyzerRun {
    AnalyzerRun::Exited { code: Some(0), output: output.as_bytes().to_vec() }
}

fn output_with_token_at(line: u32) -> String {
    format!(
        r#"{{"diags":[],"inlay_hints":[],"tokens":[{{"type":"keyword","start":{{"line":{},"col":0}},"end":{{"line":{},"col":1}}}}]}}"#,
        line, line
    )
}

fn token_at(line: u32) -> Vec<EncodedToken> {
    vec![EncodedToken {
        delta_line: line,
        delta_start: 0,
        length: 1,
        token_type: 0,
        token_modifiers_bitset: 0,
    }]
}

fn run_of(start: Start) -> (Ticket, Invocation) {
    match start {
        Start::Run { ticket, invocation } => (ticket, invocation),
        other => panic!("no analysis began: {:?}", other),
    }
}

#[test]
fn change_event_runs_the_analyzer_on_the_text() {
    let mut orchestrator = Orchestrator::new();
    let start = orchestrator.start(URI, Event::Changed(vec!["text".to_string()]), "file", true);
    assert_eq!(
        start,
        Start::Run {
            ticket: Ticket { uri: URI.to_string(), sequence: 1 },
            invocation: Invocation::Buffer("text".to_string()),
        }
    );
    assert_eq!(orchestrator.cache().phase(URI), Phase::Analyzing);
}

#[test]
fn change_event_takes_its_first_change() {
    let mut orchestrator = Orchestrator::new();
    let changes = vec!["first".to_string(), "second".to_string()];
    let (_, invocation) = run_of(orchestrator.start(URI, Event::Changed(changes), "file", true));
    assert_eq!(invocation, Invocation::Buffer("first".to_string()));
}

#[test]
fn change_event_without_changes_is_skipped() {
    let mut orchestrator = Orchestrator::new();
    assert_eq!(orchestrator.start(URI, Event::Changed(Vec::new()), "file", true), Start::Skip);
    assert_eq!(orchestrator.cache().latest(URI), 0);
    assert_eq!(orchestrator.cache().phase(URI), Phase::Idle);
}

#[test]
fn open_and_save_events_run_the_analyzer_on_the_file() {
    let mut orchestrator = Orchestrator::new();
    let (opened, invocation) = run_of(orchestrator.start(URI, Event::Opened, "file", true));
    assert_eq!(invocation, Invocation::File);
    assert_eq!(opened.sequence, 1);
    let (saved, invocation) = run_of(orchestrator.start(URI, Event::Saved, "file", true));
    assert_eq!(invocation, Invocation::File);
    assert_eq!(saved.sequence, 2);
    assert_eq!(saved.uri, URI);
}

#[test]
fn open_event_for_a_remote_document_is_refused() {
    let mut orchestrator = Orchestrator::new();
    assert_eq!(
        orchestrator.start("https://example.org/a", Event::Opened, "https", false),
        Start::Refuse(AnalysisError::UnsupportedUri)
    );
    assert_eq!(
        orchestrator.start("file://host/a", Event::Saved, "file", false),
        Start::Refuse(AnalysisError::UnsupportedUri)
    );
    assert_eq!(orchestrator.cache().latest("https://example.org/a"), 0);
    assert_eq!(orchestrator.cache().latest("file://host/a"), 0);
}

#[test]
fn change_event_for_a_remote_document_is_analyzed() {
    let mut orchestrator = Orchestrator::new();
    let changes = vec![String::new()];
    let start = orchestrator.start("untitled:1", Event::Changed(changes), "untitled", false);
    let (ticket, invocation) = run_of(start);
    assert_eq!(ticket.uri, "untitled:1");
    assert_eq!(invocation, Invocation::Buffer(String::new()));
}

#[test]
fn buffer_analysis_publishes_once_with_two_diagnostics() {
    let mut orchestrator = Orchestrator::new();
    let event = Event::Changed(vec!["text".to_string()]);
    let (ticket, _) = run_of(orchestrator.start(URI, event, "file", true));
    let mut published = Vec::new();
    match orchestrator.finish(&ticket, exited(OUTPUT)) {
        Action::Publish(diagnostics) => published.push(diagnostics),
        other => panic!("nothing published: {:?}", other),
    }
    assert_eq!(published.len(), 1);
    let diagnostics = &published[0];
    assert_eq!(diagnostics.len(), 2);
    assert_eq!(diagnostics[0].severity, Severity::Error);
    assert_eq!(diagnostics[0].message, "bad");
    assert_eq!(diagnostics[0].related_information.len(), 1);
    assert_eq!(diagnostics[0].related_information[0].message, "why");
    assert_eq!(diagnostics[0].related_information[0].location.uri, URI);
    assert_eq!(diagnostics[1].severity, Severity::Information);
    assert_eq!(diagnostics[1].message, "why");
    assert!(diagnostics[1].related_information.is_empty());
    assert_eq!(
        orchestrator.cache().tokens(URI),
        vec![EncodedToken {
            delta_line: 1,
            delta_start: 0,
            length: 3,
            token_type: 0,
            token_modifiers_bitset: 0,
        }]
    );
    assert_eq!(orchestrator.cache().hints(URI).len(), 1);
    assert_eq!(orchestrator.cache().hints(URI)[0].label, "x:");
    assert_eq!(orchestrator.cache().phase(URI), Phase::Idle);
}

#[test]
fn query_for_a_document_never_analyzed_is_empty() {
    let orchestrator = Orchestrator::new();
    assert_eq!(orchestrator.cache().tokens(URI), Vec::new());
    assert_eq!(orchestrator.cache().hints(URI), Vec::new());
}

#[test]
fn query_does_not_begin_an_analysis() {
    let orchestrator = Orchestrator::new();
    orchestrator.cache().tokens(URI);
    orchestrator.cache().hints(URI);
    assert_eq!(orchestrator.cache().latest(URI), 0);
    assert_eq!(orchestrator.cache().phase(URI), Phase::Idle);
}

#[test]
fn overlapping_changes_ending_out_of_order_keep_the_later_result() {
    let mut orchestrator = Orchestrator::new();
    let (earlier, _) =
        run_of(orchestrator.start(URI, Event::Changed(vec!["one".into()]), "file", true));
    let (later, _) =
        run_of(orchestrator.start(URI, Event::Changed(vec!["two".into()]), "file", true));
    assert!(earlier.sequence < later.sequence);
    let action = orchestrator.finish(&later, exited(&output_with_token_at(2)));
    assert_eq!(action, Action::Publish(Vec::new()));
    let action = orchestrator.finish(&earlier, exited(&output_with_token_at(1)));
    assert_eq!(action, Action::Discard);
    assert_eq!(orchestrator.cache().tokens(URI), token_at(2));
    assert_eq!(orchestrator.cache().version(URI), later.sequence);
    assert_eq!(orchestrator.cache().phase(URI), Phase::Idle);
}

#[test]
fn overlapping_changes_ending_in_order_keep_the_later_result() {
    let mut orchestrator = Orchestrator::new();
    let (earlier, _) =
        run_of(orchestrator.start(URI, Event::Changed(vec!["one".into()]), "file", true));
    let (later, _) =
        run_of(orchestrator.start(URI, Event::Changed(vec!["two".into()]), "file", true));
    let action = orchestrator.finish(&earlier, exited(&output_with_token_at(1)));
    assert_eq!(action, Action::Discard);
    assert_eq!(orchestrator.cache().tokens(URI), Vec::new());
    let action = orchestrator.finish(&later, exited(&output_with_token_at(2)));
    assert_eq!(action, Action::Publish(Vec::new()));
    assert_eq!(orchestrator.cache().tokens(URI), token_at(2));
    assert_eq!(orchestrator.cache().version(URI), later.sequence);
}

#[test]
fn failed_run_is_reported_and_keeps_the_cache() {
    let mut orchestrator = Orchestrator::new();
    let (first, _) = run_of(orchestrator.start(URI, Event::Opened, "file", true));
    orchestrator.finish(&first, exited(&output_with_token_at(5)));
    let (second, _) = run_of(orchestrator.start(URI, Event::Saved, "file", true));
    let action = orchestrator.finish(&second, AnalyzerRun::Failed);
    assert_eq!(action, Action::Report(AnalysisError::AnalyzerFailure));
    assert_eq!(orchestrator.cache().tokens(URI), token_at(5));
    assert_eq!(orchestrator.cache().version(URI), first.sequence);
    assert_eq!(orchestrator.cache().phase(URI), Phase::Idle);
}

#[test]
fn nonzero_exit_is_reported_even_with_good_output() {
    let mut orchestrator = Orchestrator::new();
    let (ticket, _) = run_of(orchestrator.start(URI, Event::Opened, "file", true));
    let run = AnalyzerRun::Exited { code: Some(2), output: OUTPUT.as_bytes().to_vec() };
    assert_eq!(orchestrator.finish(&ticket, run), Action::Report(AnalysisError::AnalyzerFailure));
    assert_eq!(orchestrator.cache().tokens(URI), Vec::new());
}

#[test]
fn malformed_output_is_reported_and_keeps_the_cache() {
    let mut orchestrator = Orchestrator::new();
    let (first, _) = run_of(orchestrator.start(URI, Event::Opened, "file", true));
    orchestrator.finish(&first, exited(&output_with_token_at(5)));
    let (second, _) = run_of(orchestrator.start(URI, Event::Saved, "file", true));
    let action = orchestrator.finish(&second, exited("{\"diags\": 1}"));
    assert_eq!(action, Action::Report(AnalysisError::MalformedInput));
    let (third, _) = run_of(orchestrator.start(URI, Event::Saved, "file", true));
    let action = orchestrator.finish(&third, exited("not json"));
    assert_eq!(action, Action::Report(AnalysisError::MalformedInput));
    assert_eq!(orchestrator.cache().tokens(URI), token_at(5));
    assert_eq!(orchestrator.cache().version(URI), first.sequence);
}

#[test]
fn settle_commits_the_latest_analysis() {
    let mut orchestrator = Orchestrator::new();
    let (ticket, _) = run_of(orchestrator.start(URI, Event::Opened, "file", true));
    let analysis =
        Analysis { diagnostics: Vec::new(), tokens: token_at(3), hints: Vec::new() };
    assert_eq!(orchestrator.settle(&ticket, Ok(analysis)), Action::Publish(Vec::new()));
    assert_eq!(orchestrator.cache().tokens(URI), token_at(3));
}

#[test]
fn settle_reports_the_error_it_is_given() {
    let mut orchestrator = Orchestrator::new();
    let (ticket, _) = run_of(orchestrator.start(URI, Event::Opened, "file", true));
    for error in [
        AnalysisError::MalformedInput,
        AnalysisError::AnalyzerFailure,
        AnalysisError::UnsupportedUri,
    ] {
        assert_eq!(orchestrator.settle(&ticket, Err(error)), Action::Report(error));
    }
    assert_eq!(orchestrator.cache().tokens(URI), Vec::new());
}

#[test]
fn settle_with_a_ticket_that_was_never_given_is_discarded() {
    let mut orchestrator = Orchestrator::new();
    let ticket = Ticket { uri: URI.to_string(), sequence: 1 };
    let analysis =
        Analysis { diagnostics: Vec::new(), tokens: token_at(3), hints: Vec::new() };
    assert_eq!(orchestrator.settle(&ticket, Ok(analysis)), Action::Discard);
    assert_eq!(orchestrator.cache().tokens(URI), Vec::new());
    assert_eq!(orchestrator.cache().latest(URI), 0);
}
