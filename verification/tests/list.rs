use bo::collect::commit::StateRead;
use bo::list::{
    filename_fallback, list_tree, render_human, sort_rows, ListLeafRow, terms_match_slug_title, ListError, ListOptions, ListView, ListViewMode,
};
use bo::tree::{Branch, Leaf, Timestamp, TreeMetadata, TreeState};

fn leaf(slug: &str, title: Option<&str>, at: i64) -> Leaf {
    Leaf {
        slug: slug.to_string(),
        file: format!("{}.md", slug),
        title: title.map(|t| t.to_string()),
        url: format!("https://example.com/{}", slug),
        collected_at: Timestamp { unix_millis: at },
        summary: None,
    }
}

fn branch(slug: &str, title: &str, leaves: &[&str]) -> Branch {
    Branch {
        slug: slug.to_string(),
        file: format!("branch/{}.md", slug),
        title: title.to_string(),
        created_at: Timestamp { unix_millis: 0 },
        updated_at: Timestamp { unix_millis: 0 },
        leaves: leaves.iter().map(|s| s.to_string()).collect(),
    }
}

fn tree() -> StateRead {
    StateRead::Read(TreeState {
        tree: TreeMetadata { name: "t".to_string(), created_at: Timestamp { unix_millis: 0 }, last_compiled_at: None },
        leaves: vec![
            leaf("rust-owner", Some("Rust Ownership"), 1_000),
            leaf("py-gen", None, 3_000),
            leaf("rust-trait", Some("  "), 2_000),
        ],
        branches: vec![branch("rust", "Rust", &["rust-owner", "rust-trait"])],
    })
}

fn opts(view: ListViewMode) -> ListOptions {
    ListOptions { view, terms: vec![], limit: None, recent: false, branch: None }
}

fn ok_checks() -> Vec<(bool, bool)> {
    vec![(false, true), (false, true), (false, true)]
}

#[test]
fn list_of_an_uninitialized_tree_is_empty() {
    let r = list_tree(&StateRead::NotInitialized, &opts(ListViewMode::BranchCentric), &vec![]).unwrap();
    assert_eq!(r.total_leaves, 0);
    assert_eq!(render_human(&r), "no content in tree\n");
    match list_tree(&StateRead::Failed("broken manifest".to_string()), &opts(ListViewMode::Leaves), &vec![]) {
        Err(e) => {
            assert_eq!(e.code(), "manifest_error");
            assert_eq!(e.message(), "broken manifest");
        },
        Ok(_) => panic!("expected an error"),
    }
    assert_eq!(ListError::Io("x".to_string()).message(), "I/O error: x");
    assert_eq!(ListError::Json("x".to_string()).code(), "json_error");
}

#[test]
fn branch_centric_view_groups_leaves_under_branches() {
    let r = list_tree(&tree(), &opts(ListViewMode::BranchCentric), &ok_checks()).unwrap();
    match &r.view {
        ListView::BranchCentric { branches, unbranched } => {
            assert_eq!(branches.len(), 1);
            assert_eq!(branches[0].leaves.len(), 2);
            assert_eq!(unbranched.len(), 1);
            assert_eq!(unbranched[0].slug, "py-gen");
            assert_eq!(unbranched[0].display_title, "py-gen");
        },
        other => panic!("unexpected {:?}", other),
    }
    let text = render_human(&r);
    assert!(text.starts_with("## Rust\n  Rust Ownership | 1970-01-01T00:00:01.000Z | [rust]\n"));
    assert!(text.contains("## unbranched\n  py-gen | 1970-01-01T00:00:03.000Z | []\n"));
}

#[test]
fn leaf_view_filters_sorts_and_limits() {
    let mut o = opts(ListViewMode::Leaves);
    o.recent = true;
    let r = list_tree(&tree(), &o, &ok_checks()).unwrap();
    match &r.view {
        ListView::Leaves { items } => {
            let slugs: Vec<&str> = items.iter().map(|r| r.slug.as_str()).collect();
            assert_eq!(slugs, vec!["py-gen", "rust-trait", "rust-owner"]);
        },
        other => panic!("unexpected {:?}", other),
    }
    let mut o = opts(ListViewMode::Leaves);
    o.terms = vec!["rust".to_string()];
    o.limit = Some(1);
    let r = list_tree(&tree(), &o, &ok_checks()).unwrap();
    assert_eq!(render_human(&r), "Rust Ownership | rust-owner | 1970-01-01T00:00:01.000Z | 1 branches\n");
    let mut o = opts(ListViewMode::Leaves);
    o.branch = Some("nope".to_string());
    let r = list_tree(&tree(), &o, &ok_checks()).unwrap();
    assert_eq!(render_human(&r), "no leaves matched branch 'nope'\n");
}

#[test]
fn degraded_rows_say_why() {
    let checks = vec![(false, false), (true, true), (false, true)];
    let r = list_tree(&tree(), &opts(ListViewMode::Leaves), &checks).unwrap();
    let degraded = r.degraded_leaves();
    assert_eq!(degraded.len(), 2);
    assert_eq!(degraded[0].degradation_reasons, vec!["missing file".to_string()]);
    assert_eq!(degraded[1].degradation_reasons, vec!["suspicious path".to_string()]);
    let text = render_human(&r);
    assert!(text.contains("| 1 branches | \u{26a0} DEGRADED: missing file\n"));
}

#[test]
fn branches_view_lists_counts() {
    let r = list_tree(&tree(), &opts(ListViewMode::Branches), &ok_checks()).unwrap();
    assert_eq!(render_human(&r), "rust | Rust | 2 leaves\n");
    let mut o = opts(ListViewMode::Branches);
    o.terms = vec!["python".to_string()];
    let r = list_tree(&tree(), &o, &ok_checks()).unwrap();
    assert_eq!(render_human(&r), "no branches matched\n");
}

#[test]
fn term_matching_and_fallback_titles() {
    let terms = vec!["own".to_string(), "rust".to_string()];
    assert!(terms_match_slug_title("rust-owner", "Rust Ownership", &terms));
    assert!(!terms_match_slug_title("py-gen", "Generators", &terms));
    assert!(terms_match_slug_title("x", "y", &vec![]));
    assert_eq!(filename_fallback("notes/some-file.md"), "some-file");
}

fn sort_row(slug: &str, millis: Option<i64>, index: usize) -> ListLeafRow {
    ListLeafRow {
        slug: slug.to_string(),
        file: format!("{}.md", slug),
        display_title: slug.to_string(),
        collected_at: millis.map(|m| m.to_string()),
        collected_at_millis: millis,
        branches: vec![],
        branch_count: 0,
        degraded: false,
        degradation_reasons: vec![],
        index_position: index,
    }
}

#[test]
fn recent_rows_sort_newest_first_with_undated_last() {
    let rows = vec![
        sort_row("a", None, 0),
        sort_row("b", Some(10), 1),
        sort_row("c", Some(30), 2),
        sort_row("d", Some(10), 3),
        sort_row("e", None, 4),
    ];
    let sorted: Vec<String> = sort_rows(&rows, true).into_iter().map(|r| r.slug).collect();
    assert_eq!(sorted, vec!["c", "b", "d", "a", "e"]);
    let by_position: Vec<String> = sort_rows(&rows, false).into_iter().map(|r| r.slug).collect();
    assert_eq!(by_position, vec!["a", "b", "c", "d", "e"]);
}
