use bo::collect::CollectError;
use bo::compile::{CompileError, CompileResult, CompileRunMode, BranchResult};
use bo::config::ConfigWriteError;
use bo::envelope::{collect_json_error, compile_json_error, config_json_error, query_json_error, result_warnings, show_json_error, synthesis_json_error, Detail};
use bo::query::{LowRelevanceReason, QueryError};
use bo::show::ShowError;
use bo::synthesize::SynthesisError;

fn keys(d: &[(String, Detail)]) -> Vec<&str> {
    d.iter().map(|(k, _)| k.as_str()).collect()
}

#[test]
fn compile_errors_carry_their_details() {
    let e = compile_json_error(CompileError::Validation("bad plan".to_string()));
    assert_eq!(e.code, "validation_error");
    assert_eq!(e.message, "bad plan");
    assert_eq!(keys(&e.details), vec!["phase", "files_changed", "next_step"]);
    assert!(matches!(&e.details[1].1, Detail::Flag(false)));
    let e = compile_json_error(CompileError::ContextOverflow { model: "m".to_string(), estimated_tokens: Some(10), context_tokens: None });
    assert_eq!(e.code, "context_overflow");
    assert!(e.message.starts_with("compile model context is too small for 'm'"));
    assert!(matches!(&e.details[3].1, Detail::Texts(v) if v.len() == 2));
    let e = compile_json_error(CompileError::Truncated);
    assert_eq!(e.code, "truncated");
    assert!(e.details.is_empty());
    let e = synthesis_json_error(SynthesisError::AgentFailed {
        message: "stopped".to_string(),
        turns: 2,
        tool_calls: 3,
        usage: None,
        last_error: None,
        signals_sent: 0,
    });
    assert_eq!(e.code, "agent_error");
    assert_eq!(keys(&e.details), vec!["files_changed", "turns", "tool_calls", "signals_sent", "usage", "last_error"]);
    assert!(matches!(&e.details[1].1, Detail::Count(2)));
}

#[test]
fn other_commands_errors() {
    let e = query_json_error(QueryError::LowRelevance { reason: LowRelevanceReason::WeakMatches, matched_sources: 4 });
    assert_eq!(e.code, "low_relevance");
    assert_eq!(keys(&e.details), vec!["reason", "matched_sources", "next_step"]);
    let e = query_json_error(QueryError::NoTerms);
    assert!(e.details.is_empty());
    let e = show_json_error(ShowError::MissingFile { file: "a.md".to_string() });
    assert_eq!(e.code, "not_found");
    assert_eq!(keys(&e.details), vec!["file"]);
    let e = collect_json_error(CollectError::DuplicateUrl { existing_file: "leaf/a.md".to_string() });
    assert_eq!(e.code, "duplicate_url");
    assert!(matches!(&e.details[0].1, Detail::Text(f) if f == "leaf/a.md"));
    let e = config_json_error(ConfigWriteError::UnknownProvider { raw: "x".to_string(), valid_providers: vec!["openai".to_string()] });
    assert_eq!(e.code, "usage_error");
    assert_eq!(keys(&e.details), vec!["provider", "valid_providers"]);
}

#[test]
fn result_warnings_name_skipped_and_degenerate_results() {
    let mut r = CompileResult::noop("x", vec![]);
    r.leaves_skipped = vec!["bad.md".to_string()];
    let w = result_warnings(&r);
    assert_eq!(w.len(), 1);
    assert_eq!(w[0].code, "skipped_leaves");
    assert_eq!(w[0].message, "skipped 1 leaves with unparseable frontmatter");
    r.mode = Some(CompileRunMode::Full);
    r.branches = vec![BranchResult { slug: "a".to_string(), title: "A".to_string(), leaf_count: 30 }];
    r.leaves_processed = 30;
    let w = result_warnings(&r);
    assert_eq!(w.len(), 2);
    assert_eq!(w[1].code, "degenerate_result");
}
