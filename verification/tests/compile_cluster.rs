use bo::compile::cluster::{
    validate_clusters, validate_incremental_clusters, BranchAssignment, ClusterAssignment,
    ClusterResponse, IncrementalClusterResponse, LoadedLeaf,
};
use bo::compile::CompileError;
use bo::tree::{Branch, Leaf, Timestamp, TreeMetadata, TreeState};

fn loaded_leaf(slug: &str, title: &str) -> LoadedLeaf {
    LoadedLeaf {
        slug: slug.to_string(),
        filename: format!("{}.md", slug),
        title: title.to_string(),
        summary: None,
        body: format!("body of {}", title),
        collected_at: "2026-01-01T00:00:00Z".to_string(),
    }
}

fn leaf_record(slug: &str, file: &str, title: &str, collected_at: &str) -> Leaf {
    Leaf {
        slug: slug.to_string(),
        file: file.to_string(),
        title: Some(title.to_string()),
        url: "https://example.com".to_string(),
        collected_at: Timestamp::parse(collected_at).unwrap(),
        summary: Some("summary text".to_string()),
    }
}

fn err_text(r: Result<bo::compile::cluster::ValidatedClusters, CompileError>) -> String {
    match r {
        Ok(_) => panic!("expected an error"),
        Err(e) => e.message(),
    }
}

#[test]
fn two_stage_threshold_values() {
    assert_eq!(bo::compile::TWO_STAGE_FULL_THRESHOLD, 40);
    assert_eq!(bo::compile::TWO_STAGE_INCREMENTAL_THRESHOLD, 15);
}

#[test]
fn validate_clusters_accepts_valid_response() {
    let leaves = vec![
        loaded_leaf("leaf-1", "Rust"),
        loaded_leaf("leaf-2", "Cargo"),
        loaded_leaf("leaf-3", "Python"),
        loaded_leaf("leaf-4", "Pip"),
    ];
    let response = ClusterResponse {
        clusters: vec![
            ClusterAssignment {
                title: "Rust Ecosystem".to_string(),
                leaf_slugs: vec!["leaf-1".to_string(), "leaf-2".to_string()],
            },
            ClusterAssignment {
                title: "Python Ecosystem".to_string(),
                leaf_slugs: vec!["leaf-3".to_string(), "leaf-4".to_string()],
            },
        ],
    };
    let mut warnings = Vec::new();
    let result = validate_clusters(&response, &leaves, &mut warnings);
    assert!(result.is_ok(), "valid clusters should pass: {:?}", result.as_ref().err());
    let validated = result.unwrap();
    assert_eq!(validated.clusters.len(), 2);
    assert_eq!(validated.clusters[0].title, "Rust Ecosystem");
    assert_eq!(validated.clusters[1].title, "Python Ecosystem");
}

#[test]
fn validate_clusters_rejects_empty_title() {
    let leaves = vec![loaded_leaf("a", "A"), loaded_leaf("b", "B")];
    let response = ClusterResponse {
        clusters: vec![ClusterAssignment {
            title: "  ".to_string(),
            leaf_slugs: vec!["a".to_string(), "b".to_string()],
        }],
    };
    let mut warnings = Vec::new();
    let result = validate_clusters(&response, &leaves, &mut warnings);
    assert!(result.is_err());
    let err = err_text(result);
    assert!(err.contains("empty title"), "expected empty title error, got: {}", err);
}

#[test]
fn validate_clusters_rejects_duplicate_title() {
    let leaves = vec![
        loaded_leaf("a", "A"),
        loaded_leaf("b", "B"),
        loaded_leaf("c", "C"),
        loaded_leaf("d", "D"),
    ];
    let response = ClusterResponse {
        clusters: vec![
            ClusterAssignment {
                title: "Same".to_string(),
                leaf_slugs: vec!["a".to_string(), "b".to_string()],
            },
            ClusterAssignment {
                title: "Same".to_string(),
                leaf_slugs: vec!["c".to_string(), "d".to_string()],
            },
        ],
    };
    let mut warnings = Vec::new();
    let result = validate_clusters(&response, &leaves, &mut warnings);
    assert!(result.is_err());
    let err = err_text(result);
    assert!(err.contains("duplicate"), "expected duplicate error, got: {}", err);
}

#[test]
fn validate_clusters_rejects_single_leaf_cluster() {
    let leaves = vec![loaded_leaf("a", "A"), loaded_leaf("b", "B")];
    let response = ClusterResponse {
        clusters: vec![ClusterAssignment {
            title: "Solo".to_string(),
            leaf_slugs: vec!["a".to_string()],
        }],
    };
    let mut warnings = Vec::new();
    let result = validate_clusters(&response, &leaves, &mut warnings);
    assert!(result.is_err());
    let err = err_text(result);
    assert!(err.contains("at least 2"), "expected min-leaves error, got: {}", err);
}

#[test]
fn validate_clusters_repairs_unknown_leaf_and_drops_cluster_if_below_2() {
    let leaves = vec![loaded_leaf("a", "A"), loaded_leaf("b", "B")];
    let response = ClusterResponse {
        clusters: vec![ClusterAssignment {
            title: "Concept".to_string(),
            leaf_slugs: vec!["a".to_string(), "nonexistent".to_string()],
        }],
    };
    let mut warnings = Vec::new();
    let result = validate_clusters(&response, &leaves, &mut warnings);
    assert!(result.is_err());
    let err = err_text(result);
    assert!(err.contains("repaired away"), "expected repaired-away error, got: {}", err);
    assert!(
        warnings.iter().any(|w| w.contains("unknown leaf")),
        "should warn about unknown leaf"
    );
}

#[test]
fn validate_clusters_repairs_unknown_leaf_keeps_cluster_if_still_valid() {
    let leaves = vec![
        loaded_leaf("a", "A"),
        loaded_leaf("b", "B"),
        loaded_leaf("c", "C"),
    ];
    let response = ClusterResponse {
        clusters: vec![ClusterAssignment {
            title: "Concept".to_string(),
            leaf_slugs: vec!["a".to_string(), "b".to_string(), "nonexistent".to_string()],
        }],
    };
    let mut warnings = Vec::new();
    let result = validate_clusters(&response, &leaves, &mut warnings);
    assert!(result.is_ok());
    let validated = result.unwrap();
    assert_eq!(validated.clusters.len(), 1);
    assert_eq!(validated.clusters[0].leaf_files.len(), 2);
    assert!(
        warnings.iter().any(|w| w.contains("unknown leaf")),
        "should warn about unknown leaf"
    );
}

#[test]
fn validate_clusters_repairs_cross_cluster_duplicate() {
    let leaves = vec![
        loaded_leaf("a", "A"),
        loaded_leaf("b", "B"),
        loaded_leaf("c", "C"),
    ];
    let response = ClusterResponse {
        clusters: vec![
            ClusterAssignment {
                title: "One".to_string(),
                leaf_slugs: vec!["a".to_string(), "b".to_string()],
            },
            ClusterAssignment {
                title: "Two".to_string(),
                leaf_slugs: vec!["b".to_string(), "c".to_string()],
            },
        ],
    };
    let mut warnings = Vec::new();
    let result = validate_clusters(&response, &leaves, &mut warnings);
    assert!(result.is_ok());
    let validated = result.unwrap();
    assert_eq!(validated.clusters.len(), 1);
    assert_eq!(validated.clusters[0].title, "One");
    assert_eq!(validated.clusters[0].leaf_files.len(), 2);
    assert!(
        warnings.iter().any(|w| w.contains("multiple clusters")),
        "should warn about cross-cluster duplicate"
    );
}

fn tree_state(branches: Vec<Branch>, leaves: Vec<Leaf>) -> TreeState {
    TreeState {
        tree: TreeMetadata {
            name: "test".to_string(),
            created_at: Timestamp::parse("2026-01-01T00:00:00Z").unwrap(),
            last_compiled_at: Some(Timestamp::parse("2026-01-02T00:00:00Z").unwrap()),
        },
        leaves,
        branches,
    }
}

#[test]
fn validate_incremental_clusters_accepts_assignment_and_new_cluster() {
    let existing_branch = Branch {
        slug: "existing-concept".to_string(),
        file: "branch/existing-concept.md".to_string(),
        title: "Existing Concept".to_string(),
        created_at: Timestamp::parse("2026-01-01T00:00:00Z").unwrap(),
        updated_at: Timestamp::parse("2026-01-01T00:00:00Z").unwrap(),
        leaves: vec!["old-leaf".to_string()],
    };
    let state = tree_state(
        vec![existing_branch],
        vec![
            leaf_record("old-leaf", "old-leaf.md", "Old Leaf", "2026-01-01T00:00:00Z"),
            leaf_record("new-1", "new-1.md", "New One", "2026-01-03T00:00:00Z"),
            leaf_record("new-2", "new-2.md", "New Two", "2026-01-03T00:00:00Z"),
            leaf_record("new-3", "new-3.md", "New Three", "2026-01-03T00:00:00Z"),
            leaf_record("new-4", "new-4.md", "New Four", "2026-01-03T00:00:00Z"),
        ],
    );
    let leaves = vec![
        loaded_leaf("new-1", "New One"),
        loaded_leaf("new-2", "New Two"),
        loaded_leaf("new-3", "New Three"),
        loaded_leaf("new-4", "New Four"),
    ];
    let response = IncrementalClusterResponse {
        assignments: vec![BranchAssignment {
            branch_slug: "existing-concept".to_string(),
            leaf_slugs: vec!["new-1".to_string(), "new-2".to_string()],
        }],
        new_clusters: vec![ClusterAssignment {
            title: "Brand New Concept".to_string(),
            leaf_slugs: vec!["new-3".to_string(), "new-4".to_string()],
        }],
    };
    let mut warnings = Vec::new();
    let result = validate_incremental_clusters(&response, &state, &leaves, &mut warnings);
    assert!(
        result.is_ok(),
        "valid incremental clusters should pass: {:?}",
        result.as_ref().err()
    );
    let validated = result.unwrap();
    assert_eq!(validated.clusters.len(), 2);
    assert!(validated.clusters[0].is_existing_branch());
    assert_eq!(validated.clusters[0].existing_branch_slug, "existing-concept");
    assert!(!validated.clusters[1].is_existing_branch());
}

#[test]
fn validate_incremental_clusters_repairs_unknown_branch() {
    let state = tree_state(
        vec![],
        vec![
            leaf_record("new-1", "new-1.md", "New One", "2026-01-03T00:00:00Z"),
            leaf_record("new-2", "new-2.md", "New Two", "2026-01-03T00:00:00Z"),
        ],
    );
    let leaves = vec![loaded_leaf("new-1", "New One"), loaded_leaf("new-2", "New Two")];
    let response = IncrementalClusterResponse {
        assignments: vec![BranchAssignment {
            branch_slug: "nonexistent".to_string(),
            leaf_slugs: vec!["new-1".to_string(), "new-2".to_string()],
        }],
        new_clusters: vec![],
    };
    let mut warnings = Vec::new();
    let result = validate_incremental_clusters(&response, &state, &leaves, &mut warnings);
    assert!(result.is_err());
    let err = err_text(result);
    assert!(err.contains("repaired away"), "expected repaired-away error, got: {}", err);
    assert!(
        warnings.iter().any(|w| w.contains("unknown branch")),
        "should warn about unknown branch"
    );
}

#[test]
fn validate_incremental_clusters_rejects_new_cluster_title_collision() {
    let existing_branch = Branch {
        slug: "existing".to_string(),
        file: "branch/existing.md".to_string(),
        title: "Existing".to_string(),
        created_at: Timestamp::parse("2026-01-01T00:00:00Z").unwrap(),
        updated_at: Timestamp::parse("2026-01-01T00:00:00Z").unwrap(),
        leaves: vec!["old".to_string()],
    };
    let state = tree_state(
        vec![existing_branch],
        vec![
            leaf_record("new-1", "new-1.md", "New One", "2026-01-03T00:00:00Z"),
            leaf_record("new-2", "new-2.md", "New Two", "2026-01-03T00:00:00Z"),
        ],
    );
    let leaves = vec![loaded_leaf("new-1", "New One"), loaded_leaf("new-2", "New Two")];
    let response = IncrementalClusterResponse {
        assignments: vec![],
        new_clusters: vec![ClusterAssignment {
            title: "Existing".to_string(),
            leaf_slugs: vec!["new-1".to_string(), "new-2".to_string()],
        }],
    };
    let mut warnings = Vec::new();
    let result = validate_incremental_clusters(&response, &state, &leaves, &mut warnings);
    assert!(result.is_err());
    let err = err_text(result);
    assert!(err.contains("collides"), "expected collision error, got: {}", err);
}

// ── further cases ────────────────────────────────────────────────────────────

#[test]
fn validate_clusters_exact_messages() {
    let leaves = vec![loaded_leaf("a", "A"), loaded_leaf("b", "B")];
    let response = ClusterResponse {
        clusters: vec![ClusterAssignment {
            title: " Concept ".to_string(),
            leaf_slugs: vec!["A.md".to_string(), " b ".to_string(), "zzz".to_string()],
        }],
    };
    let mut warnings = vec!["earlier".to_string()];
    let validated = validate_clusters(&response, &leaves, &mut warnings).unwrap();
    assert_eq!(validated.clusters[0].title, "Concept");
    assert_eq!(validated.clusters[0].leaf_files, vec!["a.md".to_string(), "b.md".to_string()]);
    assert_eq!(validated.clusters[0].existing_branch_slug, "");
    assert_eq!(
        warnings,
        vec![
            "earlier".to_string(),
            "warning: cluster 'Concept' references unknown leaf 'zzz' — dropped".to_string(),
        ]
    );
}

#[test]
fn validate_clusters_empty_leaf_reference_and_numbering() {
    let leaves = vec![loaded_leaf("a", "A"), loaded_leaf("b", "B")];
    let response = ClusterResponse {
        clusters: vec![ClusterAssignment {
            title: "X".to_string(),
            leaf_slugs: vec!["a".to_string(), " ".to_string()],
        }],
    };
    let mut warnings = Vec::new();
    let err = err_text(validate_clusters(&response, &leaves, &mut warnings));
    assert!(err.starts_with("invalid cluster response: cluster 'X' has an empty leaf reference\n"));

    let response = ClusterResponse {
        clusters: vec![
            ClusterAssignment { title: "X".to_string(), leaf_slugs: vec!["a".to_string(), "b".to_string()] },
            ClusterAssignment { title: "".to_string(), leaf_slugs: vec![] },
        ],
    };
    let err = err_text(validate_clusters(&response, &leaves, &mut warnings));
    assert!(err.starts_with("invalid cluster response: cluster #2 has empty title\n"));

    let response = ClusterResponse {
        clusters: vec![ClusterAssignment { title: "Solo".to_string(), leaf_slugs: vec!["a".to_string(), "a".to_string()] }],
    };
    let err = err_text(validate_clusters(&response, &leaves, &mut warnings));
    assert!(err.starts_with(
        "invalid cluster response: cluster 'Solo' has 1 leaf; clusters must have at least 2\n"
    ));
}

#[test]
fn validate_clusters_title_duplicates_ignore_case() {
    let leaves = vec![
        loaded_leaf("a", "A"),
        loaded_leaf("b", "B"),
        loaded_leaf("c", "C"),
        loaded_leaf("d", "D"),
    ];
    let response = ClusterResponse {
        clusters: vec![
            ClusterAssignment { title: "Rust".to_string(), leaf_slugs: vec!["a".to_string(), "b".to_string()] },
            ClusterAssignment { title: "RUST".to_string(), leaf_slugs: vec!["c".to_string(), "d".to_string()] },
        ],
    };
    let mut warnings = Vec::new();
    let err = err_text(validate_clusters(&response, &leaves, &mut warnings));
    assert!(err.starts_with("invalid cluster response: duplicate cluster title 'RUST'\n"));
}

#[test]
fn validate_incremental_clusters_duplicate_assignment_and_dedup() {
    let branch = Branch {
        slug: "b1".to_string(),
        file: "branch/b1.md".to_string(),
        title: "Branch One".to_string(),
        created_at: Timestamp::parse("2026-01-01T00:00:00Z").unwrap(),
        updated_at: Timestamp::parse("2026-01-01T00:00:00Z").unwrap(),
        leaves: vec![],
    };
    let state = tree_state(vec![branch], vec![]);
    let leaves = vec![loaded_leaf("x", "X"), loaded_leaf("y", "Y"), loaded_leaf("z", "Z")];
    let response = IncrementalClusterResponse {
        assignments: vec![
            BranchAssignment { branch_slug: "b1".to_string(), leaf_slugs: vec!["x".to_string()] },
            BranchAssignment { branch_slug: "b1".to_string(), leaf_slugs: vec!["y".to_string()] },
        ],
        new_clusters: vec![],
    };
    let mut warnings = Vec::new();
    let err = err_text(validate_incremental_clusters(&response, &state, &leaves, &mut warnings));
    assert!(err.starts_with("invalid cluster response: duplicate assignment to branch 'b1'\n"));

    let response = IncrementalClusterResponse {
        assignments: vec![BranchAssignment { branch_slug: "b1".to_string(), leaf_slugs: vec!["x".to_string()] }],
        new_clusters: vec![ClusterAssignment {
            title: "Fresh".to_string(),
            leaf_slugs: vec!["x".to_string(), "y".to_string(), "z".to_string()],
        }],
    };
    let mut warnings = Vec::new();
    let validated = validate_incremental_clusters(&response, &state, &leaves, &mut warnings).unwrap();
    assert_eq!(validated.clusters.len(), 2);
    assert_eq!(validated.clusters[0].title, "Branch One");
    assert_eq!(validated.clusters[0].leaf_files, vec!["x.md".to_string()]);
    assert_eq!(validated.clusters[1].leaf_files, vec!["y.md".to_string(), "z.md".to_string()]);
    assert_eq!(
        warnings,
        vec![
            "warning: leaf 'x.md' assigned to multiple clusters; kept in 'Branch One', dropped from 'Fresh'"
                .to_string()
        ]
    );
}

#[test]
fn compile_error_messages_and_codes() {
    let e = CompileError::Validation("bad".to_string());
    assert_eq!(
        e.message(),
        "bad\nNo files were changed. Try `bo compile` again; if this repeats, switch models with `bo config --model <model>` or report the validation message."
    );
    assert_eq!(e.code(), "validation_error");
    assert_eq!(CompileError::Llm("boom".to_string()).message(), "LLM error: boom");
    assert_eq!(CompileError::Busy("busy".to_string()).code(), "tree_busy");
    let overflow = CompileError::ContextOverflow {
        model: "m".to_string(),
        estimated_tokens: Some(10),
        context_tokens: None,
    };
    assert_eq!(
        overflow.message(),
        "compile model context is too small for 'm' — set a larger compile model, for example:\nbo config --compile-model gpt-4.1-mini\nbo config --compile-model gpt-4.1"
    );
}

#[test]
fn validate_incremental_clusters_rejects_blank_assignment_reference() {
    let existing_branch = Branch {
        slug: "existing-concept".to_string(),
        file: "branch/existing-concept.md".to_string(),
        title: "Existing Concept".to_string(),
        created_at: Timestamp::parse("2026-01-01T00:00:00Z").unwrap(),
        updated_at: Timestamp::parse("2026-01-01T00:00:00Z").unwrap(),
        leaves: vec!["old-leaf".to_string()],
    };
    let state = tree_state(
        vec![existing_branch],
        vec![
            leaf_record("old-leaf", "old-leaf.md", "Old Leaf", "2026-01-01T00:00:00Z"),
            leaf_record("new-1", "new-1.md", "New One", "2026-01-03T00:00:00Z"),
        ],
    );
    let leaves = vec![loaded_leaf("new-1", "New One")];
    let response = IncrementalClusterResponse {
        assignments: vec![BranchAssignment {
            branch_slug: "existing-concept".to_string(),
            leaf_slugs: vec!["new-1".to_string(), "  ".to_string()],
        }],
        new_clusters: vec![],
    };
    let mut warnings = Vec::new();
    match validate_incremental_clusters(&response, &state, &leaves, &mut warnings) {
        Err(CompileError::Validation(m)) => {
            assert_eq!(m, "invalid cluster response: assignment to 'existing-concept' has an empty leaf reference")
        },
        other => panic!("unexpected {:?}", other),
    }
}
