use bazelci_agent::event::{BuildEvent, DecodeError};
use bazelci_agent::parser::BepJsonParser;
use bazelci_agent::sched::{RetryScheduler, SchedState, DEFAULT_RETRIES};

fn bytes(s: &str) -> Vec<u8> {
    s.as_bytes().to_vec()
}

const SUMMARY_LINE: &str = r#"{"id":{"testSummary":{"label":"//foo:bar"}},"testSummary":{"overallStatus":"FAILED","failed":[{"uri":"file:///tmp/x/test.log"}]}}"#;

#[test]
fn parse_summary_then_terminal() {
    let data = bytes(&format!("{}\n{}\n", SUMMARY_LINE, r#"{"lastMessage":true}"#));
    let mut parser = BepJsonParser::new("/tmp/bep.json");
    let r = parser.parse(&data);
    assert!(r.is_ok());
    assert!(parser.done);
    assert_eq!(parser.offset, data.len() as u64);
    assert_eq!(parser.line, 3);
    assert_eq!(parser.test_logs.len(), 1);
    assert_eq!(parser.test_logs[0].target, "//foo:bar");
    assert_eq!(parser.test_logs[0].status, "FAILED");
    assert_eq!(parser.test_logs[0].paths, vec!["file:///tmp/x/test.log".to_string()]);
}

#[test]
fn terminal_marker_stops_reading() {
    let terminal = r#"{"lastMessage":true}"#;
    let data = bytes(&format!("{}\n{}\n", terminal, SUMMARY_LINE));
    let mut parser = BepJsonParser::new("/tmp/bep.json");
    let r = parser.parse(&data);
    assert!(r.is_ok());
    assert!(parser.done);
    // Only the terminal line was consumed; the later record was never read.
    assert_eq!(parser.offset, (terminal.len() + 1) as u64);
    assert_eq!(parser.line, 2);
    assert_eq!(parser.test_logs.len(), 0);
}

#[test]
fn parse_at_eof_is_idempotent() {
    let data = bytes(&format!("{}\n", SUMMARY_LINE));
    let mut parser = BepJsonParser::new("/tmp/bep.json");
    assert!(parser.parse(&data).is_ok());
    assert!(!parser.done);
    let offset = parser.offset;
    let line = parser.line;
    let entries = parser.test_logs.len();
    assert_eq!(entries, 1);
    // No new bytes appended: success again, nothing changes, no duplicates.
    assert!(parser.parse(&data).is_ok());
    assert!(!parser.done);
    assert_eq!(parser.offset, offset);
    assert_eq!(parser.line, line);
    assert_eq!(parser.test_logs.len(), entries);
}

#[test]
fn truncated_line_errors_and_resumes() {
    let data = bytes(r#"{"id": {"#);
    let mut parser = BepJsonParser::new("/tmp/bep.json");
    let e = parser.parse(&data).unwrap_err();
    assert_eq!(e.line_number, 1);
    assert_eq!(parser.offset, 0);
    assert_eq!(parser.line, 1);
    assert_eq!(parser.test_logs.len(), 0);
    // The producer finishes the line: the same bytes are re-read and decode.
    let data2 = bytes("{\"id\": {}}\n");
    assert!(parser.parse(&data2).is_ok());
    assert_eq!(parser.line, 2);
    assert_eq!(parser.offset, data2.len() as u64);
}

#[test]
fn non_object_line_errors() {
    let data = bytes("42\n");
    let mut parser = BepJsonParser::new("/tmp/bep.json");
    let e = parser.parse(&data).unwrap_err();
    assert_eq!(e.line_number, 1);
    assert_eq!(parser.offset, 0);
}

#[test]
fn error_after_good_lines_keeps_progress() {
    let data = bytes(&format!("{}\n{}", SUMMARY_LINE, r#"{"broken"#));
    let mut parser = BepJsonParser::new("/tmp/bep.json");
    let e = parser.parse(&data).unwrap_err();
    // The first line was consumed; the error cites the second line.
    assert_eq!(e.line_number, 2);
    assert_eq!(parser.offset, (SUMMARY_LINE.len() + 1) as u64);
    assert_eq!(parser.test_logs.len(), 1);
}

#[test]
fn decode_error_kinds() {
    assert!(matches!(BuildEvent::from_json_str("{oops"), Err(DecodeError::Syntax)));
    assert!(matches!(BuildEvent::from_json_str("[1,2]"), Err(DecodeError::NotObject)));
    assert!(matches!(BuildEvent::from_json_str(r#""text""#), Err(DecodeError::NotObject)));
    assert!(BuildEvent::from_json_str(r#"{"a":1}"#).is_ok());
}

#[test]
fn dotted_lookup_walks_objects() {
    let ev = BuildEvent::from_json_str(r#"{"a":{"b":{"c":"x"}},"d":5}"#).unwrap();
    assert!(ev.get("a.b.c").is_some());
    assert!(ev.get("a.b").is_some());
    assert!(ev.get("a.b.z").is_none());
    assert!(ev.get("a.b.c.d").is_none());
    assert!(ev.get("d").is_some());
    assert!(ev.get("z").is_none());
}

#[test]
fn event_predicates() {
    let last = BuildEvent::from_json_str(r#"{"lastMessage":true}"#).unwrap();
    assert!(last.is_last_message());
    assert!(!last.is_test_summary());
    let not_bool = BuildEvent::from_json_str(r#"{"lastMessage":"yes"}"#).unwrap();
    assert!(!not_bool.is_last_message());
    let falsy = BuildEvent::from_json_str(r#"{"lastMessage":false}"#).unwrap();
    assert!(!falsy.is_last_message());
    let summary = BuildEvent::from_json_str(r#"{"id":{"testSummary":{}}}"#).unwrap();
    assert!(summary.is_test_summary());
    let no_summary = BuildEvent::from_json_str(r#"{"id":{}}"#).unwrap();
    assert!(!no_summary.is_test_summary());
}

#[test]
fn missing_summary_fields_default_to_empty() {
    let data = bytes("{\"id\":{\"testSummary\":{}},\"testSummary\":{}}\n");
    let mut parser = BepJsonParser::new("/tmp/bep.json");
    assert!(parser.parse(&data).is_ok());
    assert_eq!(parser.test_logs.len(), 1);
    assert_eq!(parser.test_logs[0].target, "");
    assert_eq!(parser.test_logs[0].status, "");
    assert!(parser.test_logs[0].paths.is_empty());
}

#[test]
fn retry_budget_exhaustion_aborts() {
    let data = bytes(r#"{"id": {"#);
    let mut parser = BepJsonParser::new("/tmp/bep.json");
    let mut sched = RetryScheduler::new(DEFAULT_RETRIES);
    let mut last_line = 0;
    for round in 0..5 {
        let e = parser.parse(&data).unwrap_err();
        last_line = e.line_number;
        let abort = sched.on_parse_err();
        assert_eq!(abort, round == 4);
    }
    assert_eq!(sched.state, SchedState::Aborted);
    assert_eq!(last_line, 1);
    assert_eq!(parser.offset, 0);
}

#[test]
fn scheduler_resets_budget_on_success() {
    let mut sched = RetryScheduler::new(2);
    assert!(!sched.on_parse_err());
    assert_eq!(sched.retries_left, 1);
    let batch = sched.on_parse_ok(3, false);
    assert_eq!(batch, (0, 3));
    assert_eq!(sched.retries_left, 2);
    assert_eq!(sched.cursor, 3);
    assert_eq!(sched.state, SchedState::Running);
    let batch2 = sched.on_parse_ok(5, true);
    assert_eq!(batch2, (3, 5));
    assert_eq!(sched.state, SchedState::Done);
}

#[test]
fn has_test_status_finds_flaky() {
    let line = r#"{"id":{"testSummary":{"label":"//a:b"}},"testSummary":{"overallStatus":"FLAKY","failed":[]}}"#;
    let data = bytes(&format!("{}\n", line));
    let mut parser = BepJsonParser::new("/tmp/bep.json");
    assert!(parser.parse(&data).is_ok());
    assert!(parser.has_test_status("FLAKY"));
    assert!(!parser.has_test_status("FAILED"));
}
