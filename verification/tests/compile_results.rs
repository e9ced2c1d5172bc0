use bo::compile::render::{render_diagnostics, render_human};
use bo::compile::{
    degenerate_result_warning, BranchResult, CompileDryRunOutcome, CompileError, CompileOutcome,
    CompileResult, CompileRunMode, CompileSummary,
};

fn branch(slug: &str, leaves: usize) -> BranchResult {
    BranchResult { slug: slug.to_string(), title: slug.to_uppercase(), leaf_count: leaves }
}

fn summary(branches: Vec<BranchResult>, processed: usize, skipped: Vec<String>) -> CompileSummary {
    CompileSummary {
        branches,
        branches_created: vec![],
        branches_updated: vec![],
        branch_deletes: vec![],
        leaves_processed: processed,
        leaves_skipped: skipped,
    }
}

const FIX: &str = "the model likely collapsed; try `bo compile --all` again or switch models with `bo config --compile-model <model>`";

#[test]
fn degenerate_only_for_full_mode_over_twenty_leaves() {
    assert_eq!(degenerate_result_warning(Some(CompileRunMode::Incremental), &[], 100), None);
    assert_eq!(degenerate_result_warning(None, &[], 100), None);
    assert_eq!(degenerate_result_warning(Some(CompileRunMode::Full), &[], 20), None);
    assert_eq!(
        degenerate_result_warning(Some(CompileRunMode::Full), &[branch("a", 30)], 30),
        Some(format!("degenerate compile result: 1 branch(es) for 30 leaves — {FIX}"))
    );
}

#[test]
fn degenerate_percentages() {
    // 66 leaves, 15 branched: 51 unbranched = 77.27% (not above 80%); 15/66 < 30% coverage.
    let bs = vec![branch("a", 10), branch("b", 5)];
    assert_eq!(
        degenerate_result_warning(Some(CompileRunMode::Full), &bs, 66),
        Some(format!("degenerate compile result: only 15 of 66 leaves placed in branches — {FIX}"))
    );
    // 40 leaves, 6 branched: 34 unbranched = 85%.
    let bs = vec![branch("a", 3), branch("b", 3)];
    assert_eq!(
        degenerate_result_warning(Some(CompileRunMode::Full), &bs, 40),
        Some(format!("degenerate compile result: 34 of 40 leaves unbranched (85%) — {FIX}"))
    );
    // 40 leaves, 7 branched: 33 unbranched = 82.5%, shown rounded to even.
    let bs = vec![branch("a", 3), branch("b", 4)];
    assert_eq!(
        degenerate_result_warning(Some(CompileRunMode::Full), &bs, 40),
        Some(format!("degenerate compile result: 33 of 40 leaves unbranched (82%) — {FIX}"))
    );
    // 30 leaves, 9 branched: exactly 30% coverage is fine.
    let bs = vec![branch("a", 4), branch("b", 5)];
    assert_eq!(degenerate_result_warning(Some(CompileRunMode::Full), &bs, 30), None);
}

#[test]
fn compile_render_noop_and_summary() {
    let r = CompileResult::noop("empty_tree", vec!["note".to_string()]);
    assert_eq!(render_human(&r, "mytree"), "mytree is empty\n→ note\n");
    let r = CompileResult::noop("no new leaves since last compile", vec![]);
    assert_eq!(render_human(&r, "t"), "nothing new to compile\n");
    let r = CompileResult::noop("other", vec![]);
    assert_eq!(render_human(&r, "t"), "compiled: no work to do\n");

    let r = CompileResult::compiled(
        summary(vec![branch("rust", 1), branch("python", 3)], 4, vec!["bad.md".to_string()]),
        CompileRunMode::Full,
        "gpt-4.1",
        vec![],
    );
    assert_eq!(
        render_human(&r, "t"),
        "compiled (Full) using gpt-4.1\n  2 branches from 4 processed leaves\n  ✓ rust (1 leaf)\n  ✓ python (3 leaves)\n\n  ⚠ skipped 1 leaf (unparseable frontmatter):\n    - bad.md\n"
    );
    let r = CompileResult::compiled(summary(vec![], 0, vec![]), CompileRunMode::Incremental, "m", vec![]);
    assert_eq!(render_human(&r, "t"), "compiled (Incremental) using m\n  no branches found\n");
}

#[test]
fn diagnostics_and_stderr_lines() {
    assert_eq!(render_diagnostics(&["a".to_string(), "b".to_string()]), "a\nb\n");
    let mut r = CompileResult::noop("empty_tree", vec![]);
    r.warnings.push("w".to_string());
    let ok = CompileOutcome { result: Ok(r), warnings: vec!["x".to_string()] };
    assert_eq!(ok.stderr_lines(), &["w".to_string()]);
    let err = CompileOutcome { result: Err(CompileError::Truncated), warnings: vec!["x".to_string()] };
    assert_eq!(err.stderr_lines(), &["x".to_string()]);
    let dry = CompileDryRunOutcome { result: Err(CompileError::ContentFilter), warnings: vec!["y".to_string()] };
    assert_eq!(dry.stderr_lines(), &["y".to_string()]);
}
