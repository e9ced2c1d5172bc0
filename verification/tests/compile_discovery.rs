use bo::compile::cluster::LoadedLeaf;
use bo::compile::discovery::{compute_candidate_clusters, searchable_text, CandidateCluster};

fn leaf_with_body(slug: &str, title: &str, body: &str) -> LoadedLeaf {
    LoadedLeaf {
        slug: slug.to_string(),
        filename: format!("{}.md", slug),
        title: title.to_string(),
        summary: None,
        body: body.to_string(),
        collected_at: "2026-01-01T00:00:00Z".to_string(),
    }
}

/// A word tokenizer for the tests: the distinct alphanumeric runs.
fn tokens(text: &str) -> Vec<String> {
    let mut out: Vec<String> = Vec::new();
    for w in text.split(|c: char| !c.is_alphanumeric()) {
        if !w.is_empty() && !out.iter().any(|x| x == w) {
            out.push(w.to_string());
        }
    }
    out
}

fn clusters_of(leaves: &[LoadedLeaf]) -> Vec<CandidateCluster> {
    let token_sets: Vec<Vec<String>> = leaves.iter().map(|l| tokens(&searchable_text(l))).collect();
    compute_candidate_clusters(&token_sets)
}

#[test]
fn compute_candidate_clusters_groups_similar_leaves() {
    let leaves = vec![
        leaf_with_body("rust-1", "Rust Ownership", "rust borrow checker memory safety ownership"),
        leaf_with_body("rust-2", "Rust Traits", "rust trait system generics type safety abstraction"),
        leaf_with_body("python-1", "Python Decorators", "python decorator function wrapper metaprogramming"),
        leaf_with_body("python-2", "Python Generators", "python generator yield iterator lazy evaluation"),
    ];
    let clusters = clusters_of(&leaves);
    assert!(!clusters.is_empty(), "should find at least one cluster");
    let has_rust_cluster = clusters.iter().any(|c| c.leaf_indices.contains(&0) && c.leaf_indices.contains(&1));
    let has_python_cluster = clusters.iter().any(|c| c.leaf_indices.contains(&2) && c.leaf_indices.contains(&3));
    assert!(has_rust_cluster, "rust leaves should cluster together");
    assert!(has_python_cluster, "python leaves should cluster together");
}

#[test]
fn compute_candidate_clusters_empty_for_single_leaf() {
    let leaves = vec![leaf_with_body("only", "Only", "single leaf body")];
    assert!(clusters_of(&leaves).is_empty());
}

#[test]
fn compute_candidate_clusters_no_clusters_for_unrelated() {
    let leaves = vec![
        leaf_with_body("a", "Art", "painting color canvas brush art"),
        leaf_with_body("b", "Bridge", "concrete steel engineering bridge"),
        leaf_with_body("c", "Cooking", "recipe kitchen food cooking"),
    ];
    assert!(clusters_of(&leaves).is_empty());
}

fn set(words: &[&str]) -> Vec<String> {
    words.iter().map(|w| w.to_string()).collect()
}

#[test]
fn groups_follow_links_transitively_largest_first() {
    // 0-1 share "a", 1-2 share "b": one group of three through 1. 3-4 share "z".
    let ts = vec![set(&["a", "x1"]), set(&["a", "b"]), set(&["b", "y1"]), set(&["z", "q"]), set(&["z", "r"]), set(&["lonely"])];
    let c = compute_candidate_clusters(&ts);
    assert_eq!(c, vec![CandidateCluster { leaf_indices: vec![0, 1, 2] }, CandidateCluster { leaf_indices: vec![3, 4] }]);
}

#[test]
fn the_link_needs_more_than_three_percent_overlap() {
    // 1 shared token in a union of 33 is 3.03%: linked. In a union of 34 it is 2.94%: not.
    let mut a: Vec<String> = (0..16).map(|i| format!("a{}", i)).collect();
    let mut b: Vec<String> = (0..16).map(|i| format!("b{}", i)).collect();
    a.push("common".to_string());
    b.push("common".to_string());
    assert_eq!(compute_candidate_clusters(&vec![a.clone(), b.clone()]).len(), 1);
    b.push("extra".to_string());
    assert!(compute_candidate_clusters(&vec![a, b]).is_empty());
    // Exactly 3% (3 of 100) is not above the threshold.
    let mut c: Vec<String> = (0..50).map(|i| format!("c{}", i)).collect();
    let mut d: Vec<String> = (0..47).map(|i| format!("d{}", i)).collect();
    for w in ["s1", "s2", "s3"] {
        c.push(w.to_string());
        d.push(w.to_string());
    }
    // |c| = 53, |d| = 50, shared 3, union 100.
    assert!(compute_candidate_clusters(&vec![c, d]).is_empty());
}

#[test]
fn searchable_text_joins_and_lowercases() {
    let mut l = leaf_with_body("s", "Title", "Body TEXT");
    assert_eq!(searchable_text(&l), "title  body text");
    l.summary = Some("Sum".to_string());
    assert_eq!(searchable_text(&l), "title sum body text");
}
