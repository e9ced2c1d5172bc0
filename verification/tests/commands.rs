use bo::config::{apply_config_options, render_human as config_render, ConfigValues, ConfigWriteError, ConfigWriteResult, WriteConfigOptions};
use bo::query::{check_finish_reason, finish_query, render_error_human, render_human as query_render, Citation, FinishReason, LowRelevanceReason, QueryError, QueryResult};
use bo::raze::{auth_only_prompt, is_confirmed, is_suspicious_relative_path, manifest_deletes, raze_prompt, render_human as raze_render, AuthCleanup, RazeResult};
use bo::search::{collapse_newlines, extract_prefix, matches_all_terms, page_bounds, render_human as search_render, score_relevance, total_pages, SearchHit, SearchResult};
use bo::seed::{existing_seed_result, non_empty_or_default, render_human as seed_render, prompted_name, ExistingSeed, SeedError, SeedResult, SeedStatus};
use bo::status::{generate_hints, render_human as status_render, size_status, BranchStatus, HealthReport, LeafStatus, MissingLeafFile, StatusResult};

#[test]
fn query_errors() {
    assert_eq!(QueryError::EmptyTree.exit_code(), 1);
    assert_eq!(QueryError::NoTerms.exit_code(), 2);
    assert_eq!(QueryError::InsufficientSources { leaves_consulted: 3 }.exit_code(), 1);
    assert_eq!(QueryError::Truncated.code(), "llm_error");
    assert_eq!(QueryError::LowRelevance { reason: LowRelevanceReason::GenericTerms, matched_sources: 2 }.code(), "low_relevance");
    assert_eq!(QueryError::NoResults.next_step(), Some("collect relevant material or rephrase with terms likely to appear in the tree"));
    assert_eq!(QueryError::Io("x".into()).next_step(), None);
    assert_eq!(
        QueryError::InsufficientSources { leaves_consulted: 3 }.message(),
        "searched 3 sources but could not produce a grounded answer"
    );
    assert_eq!(
        render_error_human(&QueryError::EmptyTree),
        "error: no sources collected yet\nnext step: collect sources first with `bo collect <url>`\n"
    );
    assert_eq!(render_error_human(&QueryError::Parse("bad".into())), "error: synthesis failed — bad\n");
}

#[test]
fn query_render_and_finish() {
    let r = QueryResult {
        answer: "Answer.".to_string(),
        citations: vec![Citation { slug: "a".to_string(), title: "A".to_string() }],
        model: "m".to_string(),
        leaves_consulted: 2,
    };
    assert_eq!(query_render(&r), "Answer.\n\nSources:\n  • [[a]] — A\n");
    match finish_query("x".to_string(), vec![], "m".to_string(), 4) {
        Err(QueryError::InsufficientSources { leaves_consulted }) => assert_eq!(leaves_consulted, 4),
        other => panic!("unexpected {:?}", other),
    }
    assert!(check_finish_reason(&FinishReason::Stop).is_ok());
    assert!(matches!(check_finish_reason(&FinishReason::Length), Err(QueryError::Truncated)));
}

#[test]
fn config_apply_and_render() {
    let current = ConfigValues { provider: "openai".into(), model: "gpt-4.1".into(), compile_model: None };
    let supported = vec!["gpt-4.1".to_string(), "gpt-4.1-mini".to_string()];
    let opts = WriteConfigOptions { provider: None, model: Some(" gpt-4.1-mini ".into()), compile_model: None };
    let c = apply_config_options(current.clone(), opts, &supported).unwrap();
    assert_eq!(c.model, "gpt-4.1-mini");
    let opts = WriteConfigOptions { provider: None, model: None, compile_model: Some("nope".into()) };
    let e = apply_config_options(current, opts, &supported).unwrap_err();
    assert_eq!(e.message(), "unsupported model 'nope' for provider 'openai'; supported models: gpt-4.1, gpt-4.1-mini");
    assert_eq!(e.exit_code(), 2);
    assert_eq!(e.code(), "usage_error");
    assert_eq!(ConfigWriteError::Read("x".into()).exit_code(), 1);
    let r = ConfigWriteResult { status: "ok".into(), provider: "openai".into(), model: "m".into(), compile_model: Some("c".into()) };
    assert_eq!(config_render(&r), "provider: openai\nmodel: m\ncompile_model: c\n");
}

#[test]
fn seed_behaviour() {
    assert_eq!(non_empty_or_default("  ".to_string(), "bo"), "bo");
    assert_eq!(non_empty_or_default(" t ".to_string(), "bo"), "t");
    assert_eq!(prompted_name(Err(SeedError::MissingInput { field: "name".into(), flag: "--name <name>".into() })).unwrap(), "bo");
    assert_eq!(SeedError::PromptIo("x".into()).exit_code(), 1);
    assert_eq!(SeedError::UnsupportedFlag { flag: "--x".into() }.exit_code(), 2);
    assert_eq!(SeedError::UnsupportedFlag { flag: "--x".into() }.message(), "the `--x` flag is not supported for seed.");
    let existing = ExistingSeed {
        path: "/home/u/bo".into(),
        name: "bo".into(),
        created_at: "2026-01-01T00:00:00Z".into(),
        provider: "openai".into(),
        model: "m".into(),
        compile_model: None,
    };
    let err = existing_seed_result(existing.clone(), Some("/tmp/other".into())).unwrap_err();
    assert_eq!(err.message(), "bo is single-tree right now; already seeded at /home/u/bo, refusing to seed /tmp/other");
    let ok = existing_seed_result(existing, None).unwrap();
    assert_eq!(ok.status, SeedStatus::AlreadyExists);
    assert_eq!(
        seed_render(&ok),
        "bo is already seeded\ntree:\n  path: /home/u/bo\n  name: bo\n  created_at: 2026-01-01T00:00:00Z\nprovider: openai\nmodel: m\nuse `bo config` to change provider or model\n"
    );
    let created = SeedResult { status: SeedStatus::Created, compile_model: Some("c".into()), ..ok };
    assert!(seed_render(&created).starts_with("seeded bo\n"));
    assert!(seed_render(&created).ends_with("model: m\ncompile_model: c\n"));
}

#[test]
fn raze_behaviour() {
    assert!(AuthCleanup::Delete.deletes_auth());
    assert!(!AuthCleanup::Preserve.deletes_auth());
    for bad in ["", "/etc/passwd", "../x.md", "a/../b.md", "a/.."] {
        assert!(is_suspicious_relative_path(bad), "{:?}", bad);
    }
    for ok in ["leaf/a.md", "..a.md", "a/..b/c.md", "a..b"] {
        assert!(!is_suspicious_relative_path(ok), "{:?}", ok);
    }
    let (deletes, warnings) = manifest_deletes(&vec!["leaf/a.md".to_string(), "../x".to_string()]);
    assert_eq!(deletes, vec!["leaf/a.md".to_string()]);
    assert_eq!(warnings, vec!["skipping manifest entry with suspicious path: ../x".to_string()]);
    assert!(is_confirmed("yes\n"));
    assert!(!is_confirmed("yes"));
    assert!(!is_confirmed("y\n"));
    assert_eq!(
        raze_prompt("/t", Some((2, 1)), false),
        "This will permanently delete the tree at /t:\n  2 leaves, 1 branches\n  Auth credentials: preserved (use --include-auth to also delete)\nType 'yes' to confirm: "
    );
    assert_eq!(auth_only_prompt("/a.json"), "This will permanently delete your bo credentials at /a.json:\nType 'yes' to confirm: ");
    let r = RazeResult { cancelled: true, ..Default::default() };
    assert_eq!(raze_render(&r), "raze cancelled\n");
    let r = RazeResult {
        deleted_files: 3,
        deleted_manifest: true,
        removed_output_dir: true,
        deleted_config: true,
        preserved_auth: true,
        output_dir: "/t".into(),
        auth_path: "/a".into(),
        ..Default::default()
    };
    assert_eq!(
        raze_render(&r),
        "deleted 3 markdown file(s)\ndeleted manifest\nremoved output directory /t\ndeleted config\npreserved auth: /a\n"
    );
}

#[test]
fn search_behaviour() {
    let terms = vec!["rust".to_string(), "borrow".to_string()];
    assert!(matches_all_terms("rust has a borrow checker", &terms));
    assert!(!matches_all_terms("rust only", &terms));
    // 2 + 1 occurrences over 4 words: 750 per mille.
    assert_eq!(score_relevance("rust rust borrow x", &terms), 750);
    assert_eq!(score_relevance("   ", &terms), 0);
    assert_eq!(score_relevance("aaaa", &vec!["aa".to_string()]), 2000);
    assert_eq!(collapse_newlines("a \n\t b\nc"), "a b c");
    assert_eq!(extract_prefix("hello", 3), "hel…");
    assert_eq!(extract_prefix("hi", 3), "hi");
    assert_eq!(total_pages(0), 0);
    assert_eq!(total_pages(5), 1);
    assert_eq!(total_pages(6), 2);
    assert_eq!(page_bounds(12, 3), (10, 2));
    assert_eq!(page_bounds(12, 4), (15, 0));
    let empty = SearchResult { hits: vec![], total_results: 0, page: 1, total_pages: 0 };
    assert_eq!(search_render(&empty), "no results\n");
    let beyond = SearchResult { hits: vec![], total_results: 7, page: 3, total_pages: 2 };
    assert_eq!(search_render(&beyond), "no results on page 3 (7 total results, 2 pages)\n");
    let one = SearchResult {
        hits: vec![SearchHit { file: "f".into(), title: "T".into(), snippet: "s".into(), score: 1, collected_at: None }],
        total_results: 1,
        page: 1,
        total_pages: 1,
    };
    assert_eq!(search_render(&one), "T\n  s\n\npage 1/1 (1 results)\n");
}

fn status(unsynth: Vec<&str>, hints: Vec<String>) -> StatusResult {
    StatusResult {
        tree_name: "notes".into(),
        leaves: LeafStatus { total: 12, unsynthesized: unsynth.len(), unsynthesized_slugs: unsynth.iter().map(|s| s.to_string()).collect() },
        branches: BranchStatus { total: 2, last_synthesized_at: Some("2026-01-02T00:00:00.000Z".into()) },
        size: size_status(4096),
        health: HealthReport {
            missing_leaf_files: vec![MissingLeafFile { file: "leaf/x.md".into(), title: "X".into(), url: "https://x".into(), remediation: "re-collect 'https://x' or remove the state entry".into() }],
            untracked_leaf_files: vec!["y.md".into()],
        },
        hints,
        provider: "openai".into(),
        model: Some("gpt-4.1".into()),
        synthesis_model: None,
        model_context_tokens: Some(1_047_576),
        synthesis_model_context_tokens: None,
    }
}

#[test]
fn status_hints_and_render() {
    let health = HealthReport { missing_leaf_files: vec![], untracked_leaf_files: vec!["a".into(), "b".into()] };
    let hints = generate_hints(
        &LeafStatus { total: 3, unsynthesized: 3, unsynthesized_slugs: vec![] },
        &BranchStatus { total: 0, last_synthesized_at: None },
        &health,
    );
    assert_eq!(
        hints,
        vec![
            "run 'bo synthesize' to create your first branch from 3 leaves".to_string(),
            "2 leaf files untracked — they won't appear in search or synthesis".to_string(),
        ]
    );
    let hints = generate_hints(
        &LeafStatus { total: 0, unsynthesized: 0, unsynthesized_slugs: vec![] },
        &BranchStatus { total: 0, last_synthesized_at: None },
        &HealthReport { missing_leaf_files: vec![], untracked_leaf_files: vec![] },
    );
    assert_eq!(hints, vec!["run 'bo collect <url>' to add your first source".to_string()]);
    assert_eq!(size_status(4096).estimated_tokens, 1024);
    let s = status(vec!["a", "b"], vec!["h".to_string()]);
    assert_eq!(
        status_render(&s, "1.0k"),
        "bo · notes\n\n  provider:      openai\n  model:         gpt-4.1 (1047K context)\n\n  Leaves:      12 (2 unsynthesized)\n  Branches:    2\n  Last synthesis: 2026-01-02T00:00:00.000Z\n  Size:        4 KB (~1.0k tokens)\n\n  Unsynthesized:\n    • a\n    • b\n\n  Issues:\n    ⚠ orphan: leaf/x.md (re-collect 'https://x' or remove the state entry)\n    ⚠ untracked: y.md (run 'bo collect' to track it)\n\n  → h\n"
    );
    let many: Vec<&str> = vec!["s1", "s2", "s3", "s4", "s5", "s6", "s7", "s8", "s9", "s10", "s11", "s12"];
    let out = status_render(&status(many, vec![]), "1.0k");
    assert!(out.contains("    • s10\n    … and 2 more\n"));
    assert!(!out.contains("s11"));
}
