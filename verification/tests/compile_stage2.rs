use bo::compile::stage2::{after_attempt, parse_stage2_response, AttemptStep, Stage2Branch, Stage2Progress};
use bo::compile::CompileError;

fn leaf_files() -> Vec<String> {
    vec!["a.md".to_string(), "b.md".to_string()]
}

#[test]
fn parse_stage2_response_valid_constructs_branch() {
    let response = Ok(r#"{"title": "Concept Name", "body": "Synthesized body."}"#.to_string());
    let leaf_files = leaf_files();
    let branch = parse_stage2_response(&response, "test-cluster", &leaf_files).expect("valid response should parse");
    assert_eq!(branch.title, "Concept Name");
    assert_eq!(branch.body, "Synthesized body.");
    assert_eq!(branch.leaves, leaf_files);
}

#[test]
fn parse_stage2_response_rejects_malformed_json() {
    let response = Ok("not json".to_string());
    let result = parse_stage2_response(&response, "test-cluster", &leaf_files());
    assert!(result.is_err());
    let err = result.unwrap_err().message();
    assert!(err.contains("invalid stage-2"), "expected parse error, got: {}", err);
}

#[test]
fn parse_stage2_response_rejects_empty_title() {
    let response = Ok(r#"{"title": "  ", "body": "Some body."}"#.to_string());
    let result = parse_stage2_response(&response, "test-cluster", &leaf_files());
    assert!(result.is_err());
    let err = result.unwrap_err().message();
    assert!(err.contains("empty title"), "expected empty title error, got: {}", err);
}

#[test]
fn parse_stage2_response_rejects_empty_body() {
    let response = Ok(r#"{"title": "Title", "body": "  "}"#.to_string());
    let result = parse_stage2_response(&response, "test-cluster", &leaf_files());
    assert!(result.is_err());
    let err = result.unwrap_err().message();
    assert!(err.contains("empty body"), "expected empty body error, got: {}", err);
}

#[test]
fn parse_stage2_response_membership_from_cluster_not_response() {
    let response = Ok(r#"{"title": "Concept", "body": "Body.", "leaves": ["hacked.md"]}"#.to_string());
    let result = parse_stage2_response(&response, "test-cluster", &leaf_files());
    assert!(result.is_err(), "should reject unknown fields");
}

#[test]
fn parse_stage2_response_llm_error_propagates() {
    let response: Result<String, CompileError> = Err(CompileError::Truncated);
    let result = parse_stage2_response(&response, "test-cluster", &leaf_files());
    assert!(result.is_err());
    let err = result.unwrap_err().message();
    assert!(err.contains("truncated") || err.contains("LLM call failed"), "expected LLM error propagation, got: {}", err);
}

#[test]
fn stage2_reply_shapes_give_exact_messages() {
    let lf = leaf_files();
    let msg = |text: &str| match parse_stage2_response(&Ok(text.to_string()), "c1", &lf) {
        Err(CompileError::Validation(m)) => m,
        other => panic!("expected a validation error, got {:?}", other),
    };
    assert_eq!(msg("[1, 2]"), "invalid stage-2 response for 'c1': expected a JSON object");
    assert_eq!(msg(r#"{"body": "B"}"#), "invalid stage-2 response for 'c1': missing field `title`");
    assert_eq!(msg(r#"{"title": "T"}"#), "invalid stage-2 response for 'c1': missing field `body`");
    assert_eq!(msg(r#"{"title": 3, "body": "B"}"#), "invalid stage-2 response for 'c1': invalid type for field `title`, expected a string");
    assert_eq!(msg(r#"{"title": "T", "body": "  "}"#), "invalid stage-2 response for 'c1': empty body");
    assert_eq!(
        msg(r#"{"title": "T", "body": "B", "x": "y"}"#),
        "invalid stage-2 response for 'c1': unknown field `x`, expected `title` or `body`"
    );
    match parse_stage2_response(&Err(CompileError::ContentFilter), "c1", &lf) {
        Err(CompileError::Validation(m)) => {
            assert_eq!(m, "stage-2 LLM call failed for 'c1': compile was blocked by content filter")
        },
        other => panic!("unexpected {:?}", other),
    }
    let b = parse_stage2_response(&Ok(r#"{"title": "  Padded  ", "body": "\n body \n"}"#.to_string()), "c1", &lf).unwrap();
    assert_eq!(b.title, "Padded");
    assert_eq!(b.body, "body");
}

#[test]
fn a_failed_cluster_is_retried_once_then_dropped() {
    let mut warnings: Vec<String> = Vec::new();
    let first = after_attempt(1, Err(CompileError::Validation("bad".to_string())), "c1", &mut warnings);
    assert!(matches!(first, AttemptStep::Retry));
    assert!(warnings.is_empty());
    let second = after_attempt(2, Err(CompileError::Truncated), "c1", &mut warnings);
    assert!(matches!(second, AttemptStep::Dropped(CompileError::Truncated)));
    assert_eq!(warnings.len(), 1);
    assert!(warnings[0].starts_with("warning: cluster 'c1' failed after retry \u{2014} dropping (error: compile output was truncated"));
    let ok = after_attempt(
        2,
        Ok(Stage2Branch { title: "T".to_string(), body: "B".to_string(), leaves: leaf_files() }),
        "c1",
        &mut warnings,
    );
    assert!(matches!(ok, AttemptStep::Done(_)));
    assert_eq!(warnings.len(), 2);
    assert_eq!(warnings[1], "warning: cluster 'c1' succeeded on retry");
}

#[test]
fn stage2_fails_only_when_every_cluster_failed() {
    let p = Stage2Progress::new();
    assert!(p.finish().is_err());
    let mut p = Stage2Progress::new();
    let mut warnings: Vec<String> = Vec::new();
    p.record_new(Stage2Branch { title: "T".to_string(), body: "B".to_string(), leaves: leaf_files() }, "t", "T", &mut warnings);
    p.record_new(Stage2Branch { title: "T2".to_string(), body: "B2".to_string(), leaves: leaf_files() }, "t", "T2", &mut warnings);
    assert_eq!(warnings, vec!["warning: cluster 'T2' produced duplicate slug 't' \u{2014} skipping".to_string()]);
    let (updated, created) = p.finish().unwrap();
    assert_eq!(created.len(), 1);
    assert_eq!(created[0].slug, "t");
    assert_eq!(updated.len(), 0);
}
