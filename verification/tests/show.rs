use bo::show::{parse_leaf_document, render_human, show_leaf, LeafFileOutcome, ShowCandidateSummary, ShowError, ShowLoad};
use bo::tree::{Leaf, Timestamp, TreeMetadata, TreeState};

fn leaf(slug: &str, title: Option<&str>) -> Leaf {
    Leaf {
        slug: slug.to_string(),
        file: format!("{}.md", slug),
        title: title.map(|t| t.to_string()),
        url: format!("https://example.com/{}", slug),
        collected_at: Timestamp { unix_millis: 0 },
        summary: None,
    }
}

fn state(leaves: Vec<Leaf>) -> ShowLoad {
    ShowLoad::Loaded(TreeState {
        tree: TreeMetadata { name: "t".to_string(), created_at: Timestamp { unix_millis: 0 }, last_compiled_at: None },
        leaves,
        branches: vec![],
    })
}

fn doc(title: &str) -> String {
    format!("---\ntitle: {}\nurl: https://example.com/x\n---\n\nBody text.\n", title)
}

#[test]
fn documents_divide_into_frontmatter_and_body() {
    let d = parse_leaf_document(&doc("Hello")).unwrap();
    assert_eq!(d.title, Some("Hello".to_string()));
    assert_eq!(d.url, Some("https://example.com/x".to_string()));
    assert_eq!(d.frontmatter_raw, "---\ntitle: Hello\nurl: https://example.com/x\n---\n");
    assert_eq!(d.body, "Body text.\n");
    let plain = parse_leaf_document("just text").unwrap();
    assert_eq!(plain.title, None);
    assert_eq!(plain.frontmatter_raw, "");
    assert_eq!(plain.body, "just text");
    assert_eq!(parse_leaf_document("---\ntitle: x\nno end").unwrap_err(), "no frontmatter delimiters found");
    assert!(parse_leaf_document("---\n: : [\n---\n").is_err());
}

#[test]
fn a_title_is_found_ignoring_case() {
    let reads = vec![
        ("/t/a.md".to_string(), LeafFileOutcome::Content(doc("Alpha Note"))),
        ("/t/b.md".to_string(), LeafFileOutcome::Content(doc("Beta"))),
    ];
    let r = show_leaf("alpha note", false, state(vec![leaf("a", Some("A")), leaf("b", None)]), reads).unwrap();
    assert_eq!(r.title, "Alpha Note");
    assert_eq!(r.file, "a.md");
    assert_eq!(r.path, "/t/a.md");
    assert_eq!(r.url, Some("https://example.com/x".to_string()));
    assert_eq!(r.body, None);
    assert_eq!(render_human(&r), "---\ntitle: Alpha Note\nurl: https://example.com/x\n---\n");
    let reads = vec![("/t/a.md".to_string(), LeafFileOutcome::Content(doc("Alpha Note")))];
    let full = show_leaf("ALPHA NOTE", true, state(vec![leaf("a", None)]), reads).unwrap();
    assert_eq!(render_human(&full), "---\ntitle: Alpha Note\nurl: https://example.com/x\n---\n\nBody text.\n");
}

#[test]
fn missing_ambiguous_and_broken_leaves() {
    let e = show_leaf("", false, state(vec![]), vec![]).unwrap_err();
    assert_eq!(e.code(), "not_found");
    let e = show_leaf("x", false, ShowLoad::FreshSeeded, vec![]).unwrap_err();
    assert_eq!(e.message(), "leaf title 'x' not found; run `bo list` to inspect available leaves");
    let e = show_leaf("x", false, ShowLoad::Failed("bad state".to_string()), vec![]).unwrap_err();
    assert_eq!(e.code(), "state_error");
    assert_eq!(e.message(), "bad state");

    let reads = vec![
        ("/t/a.md".to_string(), LeafFileOutcome::Content(doc("Same"))),
        ("/t/b.md".to_string(), LeafFileOutcome::Content(doc("same"))),
    ];
    let e = show_leaf("same", false, state(vec![leaf("a", None), leaf("b", None)]), reads).unwrap_err();
    assert_eq!(e.code(), "ambiguous");
    assert_eq!(
        e.message(),
        "leaf title 'same' is ambiguous; matches:\n- Same (a.md) at /t/a.md \u{2014} https://example.com/x\n- same (b.md) at /t/b.md \u{2014} https://example.com/x"
    );

    let reads = vec![("/t/gone.md".to_string(), LeafFileOutcome::Missing)];
    let e = show_leaf("Gone", false, state(vec![leaf("gone", Some("Gone"))]), reads).unwrap_err();
    assert_eq!(e.code(), "not_found");
    assert!(matches!(e, ShowError::MissingFile { .. }));
    let reads = vec![("/t/x.md".to_string(), LeafFileOutcome::Suspicious)];
    let e = show_leaf("X", false, state(vec![leaf("x", Some("X"))]), reads).unwrap_err();
    assert_eq!(e.message(), "cannot show 'x.md': suspicious path");
    let reads = vec![("/t/x.md".to_string(), LeafFileOutcome::Unreadable("denied".to_string()))];
    let e = show_leaf("X", false, state(vec![leaf("x", Some("X"))]), reads).unwrap_err();
    assert_eq!(e.message(), "cannot show 'x.md': unreadable file: denied");
    assert_eq!(e.code(), "io_error");
}

#[test]
fn candidate_lines_leave_out_empty_paths_and_urls() {
    let e = ShowError::Ambiguous {
        title: "t".to_string(),
        candidates: vec![ShowCandidateSummary { file: "a.md".to_string(), title: "T".to_string(), path: String::new(), url: None }],
    };
    assert_eq!(e.message(), "leaf title 't' is ambiguous; matches:\n- T (a.md)");
}
