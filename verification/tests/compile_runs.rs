use bo::compile::dry_run::{build_preview, dry_run_outcome, dry_run_preflight, noop_preview, preview_model, DryRunLoad, DryRunPreflight};
use bo::compile::orchestrate::{compile_outcome, compile_preflight, dispatches_dry_run, finish_compile, loaded_leaves_noop, state_read_error};
use bo::compile::{BranchResult, CompileError, CompileOptions, CompileResult, CompileRunMode, CompileSummary, PreviewBranch};
use bo::tree::{Branch, Leaf, Timestamp, TreeMetadata, TreeState};

fn leaf(slug: &str, at: i64) -> Leaf {
    Leaf {
        slug: slug.to_string(),
        file: format!("{}.md", slug),
        title: None,
        url: format!("https://example.com/{}", slug),
        collected_at: Timestamp { unix_millis: at },
        summary: None,
    }
}

fn state(leaves: Vec<Leaf>, branches: Vec<Branch>, last: Option<i64>) -> TreeState {
    TreeState {
        tree: TreeMetadata {
            name: "t".to_string(),
            created_at: Timestamp { unix_millis: 0 },
            last_compiled_at: last.map(|ms| Timestamp { unix_millis: ms }),
        },
        leaves,
        branches,
    }
}

fn opts(all: bool) -> CompileOptions {
    CompileOptions { all, agent: false, dry_run: false }
}

fn noop_reason(r: &Result<Vec<String>, CompileResult>) -> Option<String> {
    match r {
        Err(c) => c.reason.clone(),
        Ok(_) => None,
    }
}

#[test]
fn compile_preflight_reports_why_there_is_nothing_to_do() {
    let empty = state(vec![], vec![], None);
    assert_eq!(noop_reason(&compile_preflight(&empty, opts(true), vec![])), Some("empty_tree".to_string()));
    let one = state(vec![leaf("a", 1)], vec![], None);
    assert_eq!(noop_reason(&compile_preflight(&one, opts(true), vec![])), Some("single_leaf".to_string()));
    let old = state(vec![leaf("a", 1), leaf("b", 2)], vec![], Some(10));
    assert_eq!(
        noop_reason(&compile_preflight(&old, opts(false), vec!["n".to_string()])),
        Some("no new leaves since last compile".to_string())
    );
    match compile_preflight(&old, opts(false), vec!["n".to_string()]) {
        Err(c) => assert_eq!(c.notifications, vec!["n".to_string()]),
        Ok(_) => panic!("expected a noop"),
    }
    assert_eq!(compile_preflight(&old, opts(true), vec![]).unwrap(), Vec::<String>::new());
    let mixed = state(vec![leaf("a", 1), leaf("b", 20), leaf("c", 30)], vec![], Some(10));
    assert_eq!(compile_preflight(&mixed, opts(false), vec![]).unwrap(), vec!["b".to_string(), "c".to_string()]);
}

#[test]
fn loaded_leaves_and_outcomes() {
    assert_eq!(loaded_leaves_noop(0, vec![]).unwrap().reason, Some("empty_tree".to_string()));
    assert_eq!(loaded_leaves_noop(1, vec![]).unwrap().reason, Some("single_leaf".to_string()));
    assert!(loaded_leaves_noop(2, vec![]).is_none());
    assert!(dispatches_dry_run(CompileOptions { all: false, agent: false, dry_run: true }));
    assert!(!dispatches_dry_run(opts(true)));
    match state_read_error("gone") {
        CompileError::Io(m) => assert_eq!(m, "failed to read state: gone"),
        other => panic!("unexpected {:?}", other),
    }
    let ok = compile_outcome(Ok(CompileResult::noop("empty_tree", vec![])), vec!["w".to_string()]);
    assert_eq!(ok.result.as_ref().unwrap().warnings, vec!["w".to_string()]);
    assert!(ok.warnings.is_empty());
    let bad = compile_outcome(Err(CompileError::Truncated), vec!["w".to_string()]);
    assert!(bad.result.is_err());
    assert_eq!(bad.warnings, vec!["w".to_string()]);
}

#[test]
fn finished_full_compile_warns_when_degenerate() {
    let summary = CompileSummary {
        branches: vec![BranchResult { slug: "a".to_string(), title: "A".to_string(), leaf_count: 30 }],
        branches_created: vec![],
        branches_updated: vec![],
        branch_deletes: vec![],
        leaves_processed: 30,
        leaves_skipped: vec![],
    };
    let r = finish_compile(summary, CompileRunMode::Full, "m1", vec!["note".to_string()]);
    assert_eq!(r.status, "compiled");
    assert_eq!(r.model, Some("m1".to_string()));
    assert_eq!(r.notifications.len(), 2);
    assert_eq!(r.notifications[0], "note");
    assert!(r.notifications[1].starts_with("degenerate compile result: 1 branch(es) for 30 leaves"));
    let summary = CompileSummary {
        branches: vec![BranchResult { slug: "a".to_string(), title: "A".to_string(), leaf_count: 3 }],
        branches_created: vec![],
        branches_updated: vec![],
        branch_deletes: vec![],
        leaves_processed: 3,
        leaves_skipped: vec![],
    };
    let r = finish_compile(summary, CompileRunMode::Incremental, "m1", vec![]);
    assert!(r.notifications.is_empty());
}

fn preflight_reason(r: &Result<DryRunPreflight, CompileError>) -> Option<String> {
    match r {
        Ok(DryRunPreflight::Noop(p)) => p.reason.clone(),
        _ => None,
    }
}

#[test]
fn dry_run_preflight_blocks_and_decides() {
    let o = opts(false);
    match dry_run_preflight(true, DryRunLoad::FreshSeeded, false, "h", 2, o, "p", "m") {
        Err(CompileError::DryRunBlocked(m)) => assert!(m.starts_with("an unfinished transaction exists")),
        other => panic!("unexpected {:?}", other),
    }
    match dry_run_preflight(false, DryRunLoad::Failed("bad json".to_string()), false, "h", 2, o, "p", "m") {
        Err(CompileError::Io(m)) => assert_eq!(m, "failed to read state: bad json"),
        other => panic!("unexpected {:?}", other),
    }
    let fresh = dry_run_preflight(false, DryRunLoad::FreshSeeded, false, "h", 2, o, "p", "m");
    assert_eq!(preflight_reason(&fresh), Some("empty_tree".to_string()));
    match fresh {
        Ok(DryRunPreflight::Noop(p)) => assert_eq!(p.starting_manifest_hash, "<missing>"),
        _ => panic!(),
    }
    let s = || state(vec![leaf("a", 1), leaf("b", 20)], vec![], Some(10));
    match dry_run_preflight(false, DryRunLoad::Loaded(s()), true, "h", 2, o, "p", "m") {
        Err(CompileError::DryRunBlocked(m)) => assert!(m.starts_with("stale branches require repair")),
        other => panic!("unexpected {:?}", other),
    }
    let r = dry_run_preflight(false, DryRunLoad::Loaded(s()), false, "h", 1, o, "p", "m");
    assert_eq!(preflight_reason(&r), Some("single_leaf".to_string()));
    match dry_run_preflight(false, DryRunLoad::Loaded(s()), false, "h", 2, o, "p", "m") {
        Ok(DryRunPreflight::NeedsLlm { run_mode, new_leaf_slugs }) => {
            assert_eq!(run_mode, CompileRunMode::Full);
            assert_eq!(new_leaf_slugs, vec!["b".to_string()]);
        },
        other => panic!("unexpected {:?}", other),
    }
}

#[test]
fn previews_are_dropped_when_the_tree_changed() {
    let b = PreviewBranch { slug: "s".to_string(), title: "T".to_string(), body: "B".to_string(), leaves: vec![] };
    match build_preview(CompileRunMode::Full, "p", "m", "h1", "h2", false, 0, 0, None, vec![b.clone()], 2, vec![]) {
        Err(CompileError::DryRunBlocked(m)) => assert_eq!(m, "state changed during dry-run; rerun `bo compile --dry-run`"),
        other => panic!("unexpected {:?}", other),
    }
    let p = build_preview(CompileRunMode::Full, "p", "m", "h1", "h1", true, 3, 4, None, vec![b], 2, vec![]).unwrap();
    assert_eq!(p.status, "preview");
    assert!(p.manifest_unchanged);
    assert_eq!(p.turns, 3);
    let out = dry_run_outcome(Ok(p), vec!["w".to_string()]);
    assert_eq!(out.result.as_ref().unwrap().warnings, vec!["w".to_string()]);
    let n = noop_preview("empty_tree", "p", "m", "h", false);
    assert_eq!(n.status, "noop");
    assert_eq!(preview_model(&Some("c".to_string()), "m"), "c");
    assert_eq!(preview_model(&None, "m"), "m");
}
