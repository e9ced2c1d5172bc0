use bo::synthesize::{SynthesisError, SynthesisOutcome, SynthesisResult, SynthesisMode, SynthesisSummary};

#[test]
fn mod_two_stage_threshold_values() {
    assert_eq!(bo::synthesize::TWO_STAGE_FULL_THRESHOLD, 40);
    assert_eq!(bo::synthesize::TWO_STAGE_INCREMENTAL_THRESHOLD, 15);
}

#[test]
fn synthesis_result_constructors_and_stderr_lines() {
    let summary = SynthesisSummary {
        branches: vec![],
        branches_created: vec![],
        branches_updated: vec![],
        branch_deletes: vec![],
        leaves_processed: 3,
        leaves_skipped: vec!["x.md".to_string()],
    };
    let mut r = SynthesisResult::synthesized(summary, SynthesisMode::Full, "gpt", vec!["n".to_string()]);
    assert_eq!(r.status, "synthesized");
    assert_eq!(r.model.as_deref(), Some("gpt"));
    assert_eq!(r.leaves_processed, 3);
    r.warnings.push("w".to_string());
    let ok = SynthesisOutcome { result: Ok(r), warnings: vec!["other".to_string()] };
    assert_eq!(ok.stderr_lines(), &["w".to_string()]);
    let err = SynthesisOutcome {
        result: Err(SynthesisError::Truncated),
        warnings: vec!["other".to_string()],
    };
    assert_eq!(err.stderr_lines(), &["other".to_string()]);
    let noop = SynthesisResult::noop("empty_tree", vec![]);
    assert_eq!(noop.status, "noop");
    assert_eq!(noop.reason.as_deref(), Some("empty_tree"));
    assert_eq!(
        SynthesisError::Truncated.message(),
        "synthesis output was truncated — try reducing collection size or using a model with larger output capacity"
    );
}
