use bo::compile::tools::{finish_update_leaf, finish_write_branch, plan_update_leaf, plan_write_branch, FrontmatterUpdate};
use bo::synthesize::agent::{
    agent_reasoning_disabled, annotate_unknown_leaf_error, body_page, build_agent_user_message, corpus_limit, corpus_slug,
    dry_run_agent_result, find_branch_to_read, find_leaf_to_read, list_branches, list_leaves, page_bounds,
    strip_branch_prefix, submission_reply, AgentDiagnostics, AgentOutcome,
};
use bo::synthesize::{SynthesisError, SynthesisMode};
use bo::tree::{Branch, Leaf, Timestamp, TreeMetadata, TreeState};

fn s(x: &str) -> String {
    x.to_string()
}

fn state() -> TreeState {
    let leaf = |slug: &str, title: Option<&str>| Leaf {
        slug: s(slug),
        file: format!("{}.md", slug),
        title: title.map(s),
        url: format!("https://example.com/{}", slug),
        collected_at: Timestamp { unix_millis: 0 },
        summary: None,
    };
    TreeState {
        tree: TreeMetadata { name: s("t"), created_at: Timestamp { unix_millis: 0 }, last_compiled_at: None },
        leaves: vec![leaf("alpha", Some("Alpha")), leaf("beta", None), leaf("gamma", Some("Gamma"))],
        branches: vec![Branch {
            slug: s("concept"),
            file: s("branch/concept.md"),
            title: s("Concept"),
            created_at: Timestamp { unix_millis: 0 },
            updated_at: Timestamp { unix_millis: 0 },
            leaves: vec![s("alpha"), s("beta")],
        }],
    }
}

#[test]
fn write_branch_keeps_known_leaves_and_warns_about_the_rest() {
    let valid = vec![s("a.md"), s("b.md")];
    assert_eq!(plan_write_branch(None, Some(s("b")), &None, &valid).unwrap_err(), "error: missing 'title' argument");
    assert_eq!(plan_write_branch(Some(s("t")), None, &None, &valid).unwrap_err(), "error: missing 'body' argument");
    let w = plan_write_branch(Some(s("T")), Some(s("B")), &Some(vec![Some(s("a.md")), None, Some(s("x.md")), Some(s("b.md"))]), &valid)
        .unwrap();
    assert_eq!(w.leaves, vec![s("a.md"), s("b.md")]);
    assert_eq!(w.warnings, vec![s("unknown leaf 'x.md' skipped")]);
    let (msg, rec) = finish_write_branch(w.clone(), "t", Ok(()));
    assert_eq!(msg, "written: t (warnings: unknown leaf 'x.md' skipped)");
    assert_eq!(rec.unwrap().leaf_count, 2);
    let (msg, rec) = finish_write_branch(w, "t", Err(s("disk full")));
    assert_eq!(msg, "error: could not write branch 't': disk full");
    assert!(rec.is_none());
    let w = plan_write_branch(Some(s("T")), Some(s("B")), &None, &valid).unwrap();
    assert!(w.leaves.is_empty());
    assert_eq!(finish_write_branch(w, "t", Ok(())).0, "written: t");
}

#[test]
fn update_leaf_frontmatter_answers_each_step() {
    assert_eq!(plan_update_leaf(None, &None).unwrap_err(), "error: missing 'filename' argument");
    let (f, bs) = plan_update_leaf(Some(s("a.md")), &Some(vec![Some(s("x")), None])).unwrap();
    assert_eq!(f, "a.md");
    assert_eq!(bs, vec![s("x")]);
    assert_eq!(finish_update_leaf("/etc/x", FrontmatterUpdate::OutsideTree), (s("error: path traversal rejected for filename '/etc/x'"), false));
    assert_eq!(finish_update_leaf("a.md", FrontmatterUpdate::ReadFailed(s("gone"))).0, "error: could not read 'a.md': gone");
    assert_eq!(finish_update_leaf("a.md", FrontmatterUpdate::PatchFailed(s("bad"))).0, "error: could not patch frontmatter of 'a.md': bad");
    assert_eq!(finish_update_leaf("a.md", FrontmatterUpdate::WriteFailed(s("ro"))).0, "error: could not write 'a.md': ro");
    assert_eq!(finish_update_leaf("a.md", FrontmatterUpdate::Written), (s("updated: a.md"), true));
}

#[test]
fn listings_page_the_state() {
    let st = state();
    assert_eq!(page_bounds(3, Some(100), 50, 20), (3, 50));
    assert_eq!(page_bounds(0, None, 50, 20), (0, 20));
    let l = list_leaves(&st, 1, Some(1));
    assert_eq!(l.total, 3);
    assert_eq!(l.rows.len(), 1);
    assert_eq!(l.rows[0].slug, "beta");
    assert_eq!(l.rows[0].title, "");
    assert!(list_leaves(&st, 5, None).rows.is_empty());
    let b = list_branches(&st, 0, None);
    assert_eq!(b.rows[0].slug, "branch/concept");
    assert_eq!(b.rows[0].leaf_count, 2);
}

#[test]
fn reads_find_leaves_and_point_branches_elsewhere() {
    let st = state();
    assert_eq!(find_leaf_to_read(&st, "beta"), Ok(1));
    assert_eq!(find_leaf_to_read(&st, "gamma.md"), Ok(2));
    assert_eq!(find_leaf_to_read(&st, "concept").unwrap_err(), "concept is a branch; use read_branch");
    assert_eq!(find_leaf_to_read(&st, "branch/concept").unwrap_err(), "branch/concept is a branch; use read_branch");
    assert_eq!(find_leaf_to_read(&st, "nope").unwrap_err(), "unknown leaf: nope");
    assert_eq!(find_branch_to_read(&st, "branch/concept"), Ok(0));
    assert_eq!(find_branch_to_read(&st, "concept"), Ok(0));
    assert_eq!(find_branch_to_read(&st, "other").unwrap_err(), "unknown branch: other");
    assert_eq!(strip_branch_prefix("branch/x"), Some(s("x")));
    assert_eq!(strip_branch_prefix("branch/"), None);
    assert_eq!(strip_branch_prefix("x"), None);
}

#[test]
fn body_pages_cut_at_character_boundaries() {
    let p = body_page("héllo world", 0, 4);
    assert_eq!(p.body, "hél");
    assert_eq!(p.offset, 0);
    assert_eq!(p.total_bytes, 12);
    assert!(p.truncated);
    // Offset 2 falls inside 'é' and moves back to its start.
    let p = body_page("héllo world", 2, 100);
    assert_eq!(p.body, "éllo world");
    assert_eq!(p.offset, 1);
    assert!(!p.truncated);
    let p = body_page("abc", 10, 5);
    assert_eq!(p.body, "");
    assert_eq!(p.offset, 3);
}

#[test]
fn submissions_and_outcomes() {
    let slugs = vec![s("concept")];
    assert_eq!(
        annotate_unknown_leaf_error("invalid: branch 'X' references unknown leaf 'branch/concept'", &slugs),
        "invalid: branch 'X' references unknown leaf 'branch/concept': branch/concept is a branch slug, not a leaf; leaf lists may only contain leaf slugs (see list_leaves)"
    );
    assert_eq!(annotate_unknown_leaf_error("unknown leaf 'zzz'", &slugs), "unknown leaf 'zzz'");
    assert_eq!(annotate_unknown_leaf_error("no marker", &slugs), "no marker");
    let ok: Result<(u8, Vec<String>), SynthesisError> = Ok((7, vec![]));
    let (plan, msg) = submission_reply(ok, &slugs).unwrap();
    assert_eq!(plan.0, 7);
    assert_eq!(msg, "compile plan submitted and validated");
    let bad: Result<(u8, Vec<String>), SynthesisError> = Err(SynthesisError::Truncated);
    assert!(submission_reply(bad, &slugs).unwrap_err().starts_with("compile submission failed: "));
    let diag = || AgentDiagnostics { turns: 3, tool_calls: 5, usage: None, last_error: Some(s("e")), signals_sent: 1 };
    let done = dry_run_agent_result(AgentOutcome::Completed, diag(), Some((1u8, vec![s("w")]))).unwrap();
    assert_eq!(done.0, 1);
    assert_eq!(done.1.turns, 3);
    assert_eq!(done.2, vec![s("w")]);
    match dry_run_agent_result::<u8>(AgentOutcome::Completed, diag(), None) {
        Err(SynthesisError::AgentFailed { message, turns, .. }) => {
            assert_eq!(message, "agent reported completion but no plan was submitted");
            assert_eq!(turns, 3);
        },
        other => panic!("unexpected {:?}", other.map(|_| ())),
    }
    match dry_run_agent_result::<u8>(AgentOutcome::LimitExceeded { reason: s("max turns") }, diag(), None) {
        Err(SynthesisError::AgentFailed { message, signals_sent, .. }) => {
            assert_eq!(message, "agent hit a resource limit: max turns");
            assert_eq!(signals_sent, 1);
        },
        other => panic!("unexpected {:?}", other.map(|_| ())),
    }
}

#[test]
fn prompts_and_small_rules() {
    let st = state();
    let m = build_agent_user_message(&st, SynthesisMode::Full);
    assert_eq!(m, "Tree has 3 leaves and 1 existing branch(es). Run mode: full (rebuild the whole branch graph).\n\nInspect the leaves and submit a compile plan with submit_compile.");
    assert!(build_agent_user_message(&st, SynthesisMode::Incremental).ends_with("must include a newly processed leaf."));
    assert!(agent_reasoning_disabled("deepseek-v4-flash", "deepseek"));
    assert!(!agent_reasoning_disabled("deepseek-v4-pro", "deepseek"));
    assert!(!agent_reasoning_disabled("flash", "openai"));
    assert_eq!(corpus_limit(None), 5);
    assert_eq!(corpus_limit(Some(50)), 10);
    assert_eq!(corpus_slug(true, "x"), "branch/x");
    assert_eq!(corpus_slug(false, "x"), "x");
}
