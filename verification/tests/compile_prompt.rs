use bo::compile::cluster::LoadedLeaf;
use bo::compile::discovery::CandidateCluster;
use bo::compile::prompt::{
    build_cluster_message, build_cluster_user_message, build_incremental_cluster_user_message,
    build_incremental_user_message, build_synthesize_update_user_message, build_synthesize_user_message,
    build_user_message,
};
use bo::tree::{Branch, Timestamp};

fn leaf(slug: &str, summary: Option<&str>) -> LoadedLeaf {
    LoadedLeaf {
        slug: slug.to_string(),
        filename: format!("{}.md", slug),
        title: slug.to_uppercase(),
        summary: summary.map(|s| s.to_string()),
        body: format!("body of {}", slug),
        collected_at: "2026-01-01T00:00:00Z".to_string(),
    }
}

#[test]
fn one_shot_request_quotes_every_document() {
    let m = build_user_message(&vec![leaf("a", None), leaf("b", None)]);
    assert_eq!(
        m,
        "Please compile my knowledge base. There are 2 documents.\n\n<document filename=\"a.md\" title=\"A\">\nbody of a\n</document>\n\n<document filename=\"b.md\" title=\"B\">\nbody of b\n</document>\n\n"
    );
}

#[test]
fn incremental_request_lists_branches_catalogue_and_new_bodies() {
    let branch = Branch {
        slug: "x".to_string(),
        file: "branch/x.md".to_string(),
        title: "X".to_string(),
        created_at: Timestamp { unix_millis: 0 },
        updated_at: Timestamp { unix_millis: 0 },
        leaves: vec!["a".to_string(), "b".to_string()],
    };
    let leaves = vec![leaf("a", Some("sum a")), leaf("b", None), leaf("c", None)];
    let new = vec!["c".to_string()];
    let m = build_incremental_user_message(&vec![branch], &vec![Some("existing body".to_string())], &leaves, &new, &new, &new);
    assert!(m.starts_with("Please incrementally compile my knowledge base.\n\nINCREMENTAL RULES:\n"));
    assert!(m.contains("<existing_branches>\n<branch slug=\"x\" title=\"X\" leaves=\"a,b\">\n<branch_body>\nexisting body\n</branch_body>\n</branch>\n</existing_branches>\n\n"));
    assert!(m.contains("<leaf slug=\"a\" file=\"a.md\" title=\"A\" collected_at=\"2026-01-01T00:00:00Z\">\n<summary>sum a</summary>\n</leaf>\n"));
    assert!(m.contains("<new_leaves_to_integrate>\n  - c\n</new_leaves_to_integrate>\n\n"));
    assert!(m.ends_with("<full_leaf_bodies>\n<document slug=\"c\" filename=\"c.md\" title=\"C\">\nbody of c\n</document>\n</full_leaf_bodies>\n"));
}

#[test]
fn cluster_request_names_groups_by_slug() {
    let leaves = vec![leaf("a", Some("sa")), leaf("b", None), leaf("c", None)];
    let m = build_cluster_message(&leaves, &vec![CandidateCluster { leaf_indices: vec![0, 2] }], false);
    assert_eq!(
        m,
        "There are 3 documents to cluster.\n\n<leaf_catalogue>\n<document slug=\"a\" filename=\"a.md\" title=\"A\">\n<summary>sa</summary>\n</document>\n<document slug=\"b\" filename=\"b.md\" title=\"B\">\n</document>\n<document slug=\"c\" filename=\"c.md\" title=\"C\">\n</document>\n</leaf_catalogue>\n\n<candidate_clusters>\nThese groupings are computed from term similarity \u{2014} they are hints, not constraints. Adjust, split, or merge as needed.\n\n  Group 1: a, c\n</candidate_clusters>\n\nOutput a list of clusters with titles and leaf assignments.\n"
    );
    let none = build_cluster_message(&leaves, &vec![], true);
    assert!(!none.contains("<candidate_clusters>"));
    assert!(none.ends_with("Output assignments (for existing branches) and new_clusters (for new concepts).\n"));
}

#[test]
fn cluster_requests_compute_their_hints() {
    let leaves = vec![leaf("a", None), leaf("b", None), leaf("c", None)];
    let tokens = vec![vec!["x".to_string()], vec!["y".to_string()], vec!["x".to_string()]];
    let m = build_cluster_user_message(&leaves, &tokens);
    assert!(m.contains("  Group 1: a, c\n"));
    let m = build_incremental_cluster_user_message(&leaves, &tokens, &vec!["b".to_string(), "c".to_string()]);
    assert!(m.starts_with("There are 2 documents to cluster.\n\n"));
    assert!(!m.contains("<candidate_clusters>"));
}

#[test]
fn stage_two_requests() {
    let leaves = vec![leaf("a", None)];
    let m = build_synthesize_user_message("Topic", &leaves);
    assert!(m.starts_with("The following documents are all related to the concept: \"Topic\".\n\n"));
    assert!(m.ends_with("There are 1 documents.\n\n<document slug=\"a\" filename=\"a.md\" title=\"A\">\nbody of a\n</document>\n\n"));
    let m = build_synthesize_update_user_message("Topic", "old body", &leaves);
    assert!(m.contains("<existing_branch_body>\nold body\n</existing_branch_body>\n\nThere are 1 new documents to integrate.\n\n"));
}
