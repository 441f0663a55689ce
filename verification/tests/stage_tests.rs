use bazelci_agent::parser::{BepJsonParser, TestLog};
use bazelci_agent::sched::{RetryScheduler, SchedState, DEFAULT_RETRIES};
use bazelci_agent::stage::{stage_test_logs, test_label_to_path};
use bazelci_agent::upload::{
    buildkite_artifact_upload, join_paths, upload_artifacts_plan, upload_bep_json_file, Mode,
};

fn log(target: &str, status: &str, paths: &[&str]) -> TestLog {
    TestLog {
        target: target.to_string(),
        status: status.to_string(),
        paths: paths.iter().map(|p| p.to_string()).collect(),
    }
}

#[test]
fn test_test_label_to_path() {
    assert_eq!(test_label_to_path("//:test", 0), "test/test.log");
    assert_eq!(test_label_to_path("//foo/bar", 0), "foo/bar/test.log");
    assert_eq!(test_label_to_path("//foo/bar", 1), "foo/bar/attempt_1.log");
}

#[test]
fn label_path_edge_cases() {
    assert_eq!(test_label_to_path("", 0), "test.log");
    assert_eq!(test_label_to_path("a:b", 0), "a/b/test.log");
    assert_eq!(test_label_to_path("a", 12), "a/attempt_12.log");
    assert_eq!(test_label_to_path("///", 7), "attempt_7.log");
}

#[test]
fn single_output_maps_to_test_log() {
    let logs = vec![log("//foo:bar", "FAILED", &["file:///tmp/x/test.log"])];
    let plan = stage_test_logs(&logs, 0);
    assert_eq!(plan.len(), 1);
    assert_eq!(plan[0].source, "/tmp/x/test.log");
    assert_eq!(plan[0].dest, "foo/bar/test.log");
}

#[test]
fn two_outputs_number_attempts_from_one() {
    let logs = vec![log("//foo:bar", "TIMEOUT", &["file:///a/1.log", "file:///a/2.log"])];
    let plan = stage_test_logs(&logs, 0);
    assert_eq!(plan.len(), 2);
    assert_eq!(plan[0].dest, "foo/bar/attempt_1.log");
    assert_eq!(plan[1].dest, "foo/bar/attempt_2.log");
    assert_eq!(plan[0].source, "/a/1.log");
    assert_eq!(plan[1].source, "/a/2.log");
}

#[test]
fn non_qualifying_status_is_never_staged() {
    let logs = vec![
        log("//foo:ok", "PASSED", &["file:///a/1.log"]),
        log("//foo:skip", "SKIPPED", &["file:///a/2.log"]),
    ];
    let plan = stage_test_logs(&logs, 0);
    assert!(plan.is_empty());
    // An empty batch must not produce a backend invocation either.
    let artifacts: Vec<String> = Vec::new();
    assert!(upload_artifacts_plan(None, &artifacts, Mode::Buildkite).is_none());
}

#[test]
fn non_file_uri_is_skipped_without_consuming_an_attempt() {
    let logs = vec![log("//t:t", "FLAKY", &["http://host/log", "file:///a/2.log"])];
    let plan = stage_test_logs(&logs, 0);
    assert_eq!(plan.len(), 1);
    assert_eq!(plan[0].dest, "t/t/attempt_1.log");
}

#[test]
fn staging_starts_at_the_cursor() {
    let logs = vec![
        log("//a:a", "FAILED", &["file:///a.log"]),
        log("//b:b", "FAILED", &["file:///b.log"]),
    ];
    let plan = stage_test_logs(&logs, 1);
    assert_eq!(plan.len(), 1);
    assert_eq!(plan[0].dest, "b/b/test.log");
}

#[test]
fn join_paths_uses_semicolons() {
    let empty: Vec<String> = Vec::new();
    assert_eq!(join_paths(&empty), "");
    assert_eq!(join_paths(&vec!["a".to_string()]), "a");
    assert_eq!(join_paths(&vec!["a".to_string(), "b".to_string(), "c".to_string()]), "a;b;c");
}

#[test]
fn backend_invocation_shape() {
    let cwd = "/tmp/staging".to_string();
    let artifacts = vec!["x/test.log".to_string(), "y/test.log".to_string()];
    let cmd = buildkite_artifact_upload(Some(&cwd), &artifacts);
    assert_eq!(cmd.program, "buildkite-agent");
    assert_eq!(cmd.args, vec!["artifact", "upload", "x/test.log;y/test.log"]);
    assert_eq!(cmd.cwd.as_deref(), Some("/tmp/staging"));
}

#[test]
fn dry_mode_never_invokes() {
    let artifacts = vec!["x/test.log".to_string()];
    assert!(upload_artifacts_plan(None, &artifacts, Mode::Dry).is_none());
    assert!(upload_bep_json_file(Mode::Dry, "/tmp/bep.json").is_none());
}

#[test]
fn whole_file_upload_invocation() {
    let cmd = upload_bep_json_file(Mode::Buildkite, "/tmp/bep.json").unwrap();
    assert_eq!(cmd.program, "buildkite-agent");
    assert_eq!(cmd.args, vec!["artifact", "upload", "/tmp/bep.json"]);
    assert!(cmd.cwd.is_none());
}

#[test]
fn scenario_single_failed_target_end_to_end() {
    let line1 = r#"{"id":{"testSummary":{"label":"//foo:bar"}},"testSummary":{"overallStatus":"FAILED","failed":[{"uri":"file:///tmp/x/test.log"}]}}"#;
    let data = format!("{}\n{}\n", line1, r#"{"lastMessage":true}"#).as_bytes().to_vec();
    let mut parser = BepJsonParser::new("/tmp/bep.json");
    let mut sched = RetryScheduler::new(DEFAULT_RETRIES);
    assert!(parser.parse(&data).is_ok());
    let (start, end) = sched.on_parse_ok(parser.test_logs.len(), parser.done);
    assert_eq!((start, end), (0, 1));
    let plan = stage_test_logs(&parser.test_logs, start);
    assert_eq!(plan.len(), 1);
    assert_eq!(plan[0].dest, "foo/bar/test.log");
    // Dry mode: the single staged path is only reported, never invoked.
    let artifacts: Vec<String> = plan.iter().map(|s| s.dest.clone()).collect();
    assert_eq!(artifacts, vec!["foo/bar/test.log".to_string()]);
    assert!(upload_artifacts_plan(None, &artifacts, Mode::Dry).is_none());
    assert_eq!(sched.state, SchedState::Done);
}
