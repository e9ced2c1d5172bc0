use bo::compile::delta::{build_manifest_delta, leaf_stem_of, validated_branch_leaf_slugs, CompilePlan, PlannedBranch};
use bo::compile::repair::{
    assemble_repaired_state, classify_deletions, frontmatter_repaired_note, keeps_leaf_file, orphan_prune_message,
    removed_summary_message, repair_branches, repair_report, repaired_summary_message, LeafFileRead, RepairReport,
};
use bo::compile::{CompileError, CompileRunMode};
use bo::tree::{Branch, Leaf, Timestamp, TreeMetadata, TreeState};

fn ts(ms: i64) -> Timestamp {
    Timestamp { unix_millis: ms }
}

fn leaf(slug: &str, at: i64) -> Leaf {
    Leaf {
        slug: slug.to_string(),
        file: format!("{}.md", slug),
        title: None,
        url: format!("https://example.com/{}", slug),
        collected_at: ts(at),
        summary: None,
    }
}

fn branch(slug: &str, leaves: &[&str]) -> Branch {
    Branch {
        slug: slug.to_string(),
        file: format!("branch/{}.md", slug),
        title: slug.to_uppercase(),
        created_at: ts(5),
        updated_at: ts(6),
        leaves: leaves.iter().map(|s| s.to_string()).collect(),
    }
}

fn state(leaves: Vec<Leaf>, branches: Vec<Branch>, last: Option<i64>) -> TreeState {
    TreeState {
        tree: TreeMetadata { name: "t".to_string(), created_at: ts(1), last_compiled_at: last.map(ts) },
        leaves,
        branches,
    }
}

fn planned(slug: &str, files: &[&str]) -> PlannedBranch {
    PlannedBranch {
        slug: slug.to_string(),
        title: format!("Title {}", slug),
        leaves: files.iter().map(|s| s.to_string()).collect(),
        body: format!("Body of {}", slug),
    }
}

#[test]
fn leaf_stems_drop_the_markdown_extension() {
    assert_eq!(leaf_stem_of("a.md"), "a");
    assert_eq!(leaf_stem_of("notes.txt"), "notes.txt");
    assert_eq!(leaf_stem_of(".md"), "");
    let p = planned("x", &["a.md", "b.md"]);
    assert_eq!(validated_branch_leaf_slugs(&p), vec!["a".to_string(), "b".to_string()]);
}

#[test]
fn full_delta_replaces_branches_and_deletes_dropped_files() {
    let current = state(
        vec![leaf("a", 10), leaf("b", 11), leaf("c", 12)],
        vec![branch("keep", &["a", "b"]), branch("gone", &["b", "c"])],
        Some(20),
    );
    let plan = CompilePlan { branches: vec![planned("keep", &["a.md", "c.md"]), planned("fresh", &["b.md", "c.md"])] };
    let d = build_manifest_delta(&current, &plan, CompileRunMode::Full, ts(100));
    let slugs: Vec<&str> = d.new_state.branches.iter().map(|b| b.slug.as_str()).collect();
    assert_eq!(slugs, vec!["keep", "fresh"]);
    assert_eq!(d.branch_deletes, vec!["branch/gone.md".to_string()]);
    // An existing branch keeps its file and creation time; a new one gets both now.
    assert_eq!(d.new_state.branches[0].file, "branch/keep.md");
    assert_eq!(d.new_state.branches[0].created_at, ts(5));
    assert_eq!(d.new_state.branches[0].updated_at, ts(100));
    assert_eq!(d.new_state.branches[0].leaves, vec!["a".to_string(), "c".to_string()]);
    assert_eq!(d.new_state.branches[1].file, "branch/fresh.md");
    assert_eq!(d.new_state.branches[1].created_at, ts(100));
    assert_eq!(d.branches_updated.len(), 1);
    assert_eq!(d.branches_updated[0].slug, "keep");
    assert_eq!(d.branches_created.len(), 1);
    assert_eq!(d.branches_created[0].leaf_count, 2);
    assert_eq!(d.branch_writes.len(), 2);
    assert_eq!(d.branch_writes[1].body, "Body of fresh");
    assert_eq!(d.branch_writes[1].file_leaves, vec!["b.md".to_string(), "c.md".to_string()]);
    assert_eq!(d.new_state.tree.last_compiled_at, Some(ts(100)));
    assert_eq!(d.new_state.tree.created_at, ts(1));
    assert_eq!(d.new_state.leaves.len(), 3);
}

#[test]
fn incremental_delta_keeps_unplanned_branches_and_deletes_nothing() {
    let current = state(
        vec![leaf("a", 10), leaf("b", 11), leaf("c", 12)],
        vec![branch("one", &["a", "b"]), branch("two", &["b", "c"])],
        Some(20),
    );
    let plan = CompilePlan { branches: vec![planned("two", &["b.md", "c.md", "a.md"]), planned("three", &["a.md", "c.md"])] };
    let d = build_manifest_delta(&current, &plan, CompileRunMode::Incremental, ts(200));
    let slugs: Vec<&str> = d.new_state.branches.iter().map(|b| b.slug.as_str()).collect();
    assert_eq!(slugs, vec!["one", "two", "three"]);
    assert!(d.branch_deletes.is_empty());
    assert_eq!(d.new_state.branches[0].updated_at, ts(6));
    assert_eq!(d.new_state.branches[1].updated_at, ts(200));
    assert_eq!(d.new_state.branches[1].leaves.len(), 3);
    assert_eq!(d.branches_updated.len(), 1);
    assert_eq!(d.branches_created.len(), 1);
    assert_eq!(d.branches_created[0].slug, "three");
}

#[test]
fn missing_leaf_files_are_deleted_and_orphans_found() {
    let s = state(
        vec![leaf("a", 10), leaf("b", 11), leaf("c", 12), leaf("d", 13)],
        vec![branch("x", &["a", "b", "c"]), branch("y", &["a", "b"])],
        Some(50),
    );
    let reads = vec![LeafFileRead::Parsed, LeafFileRead::Missing, LeafFileRead::Parsed, LeafFileRead::Missing];
    let class = classify_deletions(&s, &reads).unwrap();
    assert_eq!(class.deleted_slugs, vec!["b".to_string(), "d".to_string()]);
    assert_eq!(class.deleted_filenames, vec!["b.md".to_string(), "d.md".to_string()]);
    assert_eq!(class.orphan_slugs, vec!["d".to_string()]);
    assert!(keeps_leaf_file(&class, "a.md"));
    assert!(!keeps_leaf_file(&class, "b.md"));

    let outcome = repair_branches(&s, &class);
    // x keeps a and c; y is left with one leaf and is removed.
    assert_eq!(outcome.repaired_branches.len(), 1);
    assert_eq!(outcome.repaired_branches[0].leaves, vec!["a".to_string(), "c".to_string()]);
    assert_eq!(outcome.repaired_branch_slugs, vec!["x".to_string()]);
    assert_eq!(outcome.repaired_branch_files, vec!["branch/x.md".to_string()]);
    assert_eq!(outcome.branch_deletes, vec!["branch/y.md".to_string()]);
    assert_eq!(outcome.branches_removed.len(), 1);
    assert_eq!(outcome.branches_removed[0].slug, "y");
    assert_eq!(outcome.branches_removed[0].remaining_leaf_count, 1);
    assert_eq!(outcome.branches_removed[0].reason, "stale_branch_below_minimum_leaves");

    let repaired = assemble_repaired_state(&s, &class, &outcome);
    let leaf_slugs: Vec<&str> = repaired.leaves.iter().map(|l| l.slug.as_str()).collect();
    assert_eq!(leaf_slugs, vec!["a", "c"]);
    assert_eq!(repaired.branches.len(), 1);

    let report = repair_report(class, outcome, vec![frontmatter_repaired_note("x")]);
    assert_eq!(
        report.notifications,
        vec![
            "pruned 1 orphan leaf record (file missing, not in any branch)".to_string(),
            "branch 'x' frontmatter repaired (body may reference removed leaves; recompile with --all to resynthesize)".to_string(),
            "repaired 1 branch with deleted leaves: x".to_string(),
            "removed 1 stale branch below threshold: y".to_string(),
        ]
    );
    assert!(!report.is_empty());
    assert!(RepairReport::empty().is_empty());
}

#[test]
fn unreadable_new_leaf_stops_and_old_leaf_is_skipped() {
    // Leaf "n" was collected after the last compile; "o" before it.
    let s = state(vec![leaf("o", 10), leaf("n", 100)], vec![], Some(50));
    let reads = vec![LeafFileRead::Unreadable("denied".to_string()), LeafFileRead::Parsed];
    let class = classify_deletions(&s, &reads).unwrap();
    assert!(class.deleted_slugs.is_empty());
    let reads = vec![LeafFileRead::Parsed, LeafFileRead::Malformed];
    match classify_deletions(&s, &reads) {
        Err(CompileError::Io(m)) => assert_eq!(m, "newly selected leaf 'n.md' is malformed; no files were changed"),
        other => panic!("unexpected {:?}", other),
    }
    let reads = vec![LeafFileRead::Parsed, LeafFileRead::Unreadable("denied".to_string())];
    match classify_deletions(&s, &reads) {
        Err(CompileError::Io(m)) => {
            assert_eq!(m, "newly selected leaf 'n.md' is unreadable: denied; no files were changed")
        },
        other => panic!("unexpected {:?}", other),
    }
}

#[test]
fn repair_messages_count_and_pluralise() {
    assert_eq!(orphan_prune_message(&vec![]), None);
    assert_eq!(
        orphan_prune_message(&vec!["a".to_string(), "b".to_string()]),
        Some("pruned 2 orphan leaf records (files missing, not in any branch)".to_string())
    );
    assert_eq!(repaired_summary_message(&vec![]), None);
    assert_eq!(
        repaired_summary_message(&vec!["a".to_string(), "b".to_string()]),
        Some("repaired 2 branches with deleted leaves: a, b".to_string())
    );
    assert_eq!(removed_summary_message(&vec![]), None);
}
