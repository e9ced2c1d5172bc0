use bo::collect::commit::{batch_label, commit_begin, commit_leaf, leaf_file_of_slug, load_or_bootstrap_state, ComputedLeaf, StateRead};
use bo::collect::note::{extract_note_title, note_body, note_leaf, note_url, strip_user_frontmatter, NoteFrontmatter};
use bo::collect::{journal_model, route_collect, CollectError, CollectItemResult, CollectItemStatus, NoteError, Outcome};
use bo::tree::{Timestamp, TreeMetadata, TreeState};

fn computed(url: &str, warning: Option<&str>) -> ComputedLeaf {
    ComputedLeaf {
        url: url.to_string(),
        title: Some("T".to_string()),
        body_markdown: "body".to_string(),
        summary_text: String::new(),
        note_warning: warning.map(|w| w.to_string()),
    }
}

fn empty_state() -> TreeState {
    TreeState {
        tree: TreeMetadata { name: "t".to_string(), created_at: Timestamp { unix_millis: 0 }, last_compiled_at: None },
        leaves: vec![],
        branches: vec![],
    }
}

#[test]
fn a_fresh_tree_is_bootstrapped_named_after_its_directory() {
    let now = Timestamp { unix_millis: 42 };
    let s = load_or_bootstrap_state(StateRead::NotInitialized, Some("notes".to_string()), now).unwrap();
    assert_eq!(s.tree.name, "notes");
    assert_eq!(s.tree.created_at, now);
    let s = load_or_bootstrap_state(StateRead::NotInitialized, None, now).unwrap();
    assert_eq!(s.tree.name, "unnamed");
    match load_or_bootstrap_state(StateRead::Failed("bad".to_string()), None, now) {
        Err(CollectError::TreeState(m)) => assert_eq!(m, "bad"),
        other => panic!("unexpected {:?}", other),
    }
}

#[test]
fn committing_records_the_leaf_and_refuses_a_second_copy() {
    let mut state = empty_state();
    let mut warnings: Vec<String> = Vec::new();
    let (input, c) = commit_begin(&state, &mut warnings, "in".to_string(), "https://a".to_string(), Ok(computed("https://a", Some("stripped"))))
        .ok()
        .unwrap();
    assert_eq!(warnings, vec!["stripped".to_string()]);
    let out = commit_leaf(&mut state, input, c, "a-slug", "/t/leaf/a-slug.md".to_string(), Timestamp { unix_millis: 7 });
    match out {
        Outcome::Collected { result, .. } => {
            assert_eq!(result.file, "leaf/a-slug.md");
            assert_eq!(result.path, "/t/leaf/a-slug.md");
        },
        _ => panic!("expected a collected outcome"),
    }
    assert_eq!(state.leaves.len(), 1);
    assert_eq!(state.leaves[0].summary, None);
    assert_eq!(state.leaves[0].collected_at, Timestamp { unix_millis: 7 });
    match commit_begin(&state, &mut warnings, "again".to_string(), "https://a".to_string(), Ok(computed("https://a", None))) {
        Err(Outcome::Errored { error: CollectError::DuplicateUrl { existing_file }, .. }) => {
            assert_eq!(existing_file, "leaf/a-slug.md")
        },
        _ => panic!("expected a duplicate"),
    }
    match commit_begin(&state, &mut warnings, "x".to_string(), "u".to_string(), Err(CollectError::Fetch("down".to_string()))) {
        Err(Outcome::Errored { error: CollectError::Fetch(m), url, .. }) => {
            assert_eq!(m, "down");
            assert_eq!(url, "u");
        },
        _ => panic!("expected the fetch error"),
    }
    assert_eq!(leaf_file_of_slug("x"), "leaf/x.md");
    assert_eq!(batch_label(3), "batch of 3 urls");
}

#[test]
fn note_titles_come_from_a_leading_heading() {
    assert_eq!(extract_note_title("\n\n#  My Note  \n\n\nBody\n"), (Some("My Note".to_string()), "Body\n".to_string()));
    assert_eq!(extract_note_title("No heading"), (None, "No heading".to_string()));
    assert_eq!(extract_note_title("#   \nBody"), (None, "#   \nBody".to_string()));
    assert_eq!(extract_note_title("# Only"), (Some("Only".to_string()), String::new()));
    assert_eq!(note_url("0123456789abcdef0123"), "bo://note/0123456789abcdef");
    assert_eq!(note_url("abc"), "bo://note/abc");
}

#[test]
fn youtube_urls_route_to_transcripts_and_others_to_fetch() {
    assert!(route_collect("https://example.com/a").unwrap().is_none());
    assert!(route_collect("https://www.youtube.com/watch?v=a1mhk7mAetk").unwrap().is_some());
    assert!(matches!(route_collect("https://www.youtube.com/embed/a1mhk7mAetk"), Err(CollectError::Youtube(_))));
}

#[test]
fn the_journal_names_the_model_only_for_remote_items() {
    let item = |url: Option<&str>| CollectItemResult {
        input: "i".to_string(),
        status: CollectItemStatus::Collected,
        url: url.map(|u| u.to_string()),
        file: None,
        path: None,
        code: None,
        message: None,
        existing_file: None,
        reason: None,
    };
    assert_eq!(journal_model(&vec![item(Some("bo://note/abc")), item(None)], "m"), None);
    assert_eq!(journal_model(&vec![item(Some("bo://note/abc")), item(Some("https://x"))], "m"), Some("m".to_string()));
}

#[test]
fn timestamps_format_with_milliseconds() {
    assert_eq!(Timestamp { unix_millis: 1_500 }.to_rfc3339_millis(), Some("1970-01-01T00:00:01.500Z".to_string()));
    let t = Timestamp::parse("2026-01-01T00:00:00Z").unwrap();
    assert_eq!(t.to_rfc3339_millis(), Some("2026-01-01T00:00:00.000Z".to_string()));
    assert!(Timestamp::parse("yesterday").is_none());
}

#[test]
fn user_frontmatter_is_stripped_with_a_warning() {
    let found = NoteFrontmatter::Parsed { empty: false, body: "# Title\nBody\n".to_string() };
    let (body, warning) = strip_user_frontmatter("n.md", "---\ntags: [x]\n---\n# Title\nBody\n", found).unwrap();
    assert_eq!(body, "# Title\nBody\n");
    assert_eq!(warning.as_deref(), Some("stripped user frontmatter from n.md"));
}

#[test]
fn empty_frontmatter_is_stripped_silently() {
    let found = NoteFrontmatter::Parsed { empty: true, body: "text".to_string() };
    let (body, warning) = strip_user_frontmatter("n.md", "---\n---\ntext", found).unwrap();
    assert_eq!(body, "text");
    assert!(warning.is_none());
}

#[test]
fn a_note_without_frontmatter_is_kept_whole() {
    let (body, warning) = strip_user_frontmatter("n.md", "plain note", NoteFrontmatter::Missing).unwrap();
    assert_eq!(body, "plain note");
    assert!(warning.is_none());
}

#[test]
fn malformed_frontmatter_is_refused() {
    match strip_user_frontmatter("n.md", "---\n: :\n---\n", NoteFrontmatter::Malformed) {
        Err(CollectError::Note(NoteError::MalformedFrontmatter { path })) => assert_eq!(path, "n.md"),
        other => panic!("unexpected {:?}", other),
    }
}

#[test]
fn a_blank_note_is_refused() {
    let found = NoteFrontmatter::Parsed { empty: false, body: " \n\t ".to_string() };
    match note_body("blank.md", "---\na: 1\n---\n \n\t ", found) {
        Err(CollectError::Note(NoteError::Empty { path })) => assert_eq!(path, "blank.md"),
        other => panic!("unexpected {:?}", other),
    }
}

#[test]
fn a_note_leaf_takes_its_title_and_hashed_url() {
    let leaf = note_leaf("# My Note\n\nSome text.", None, "0123456789abcdef0123");
    assert_eq!(leaf.url, "bo://note/0123456789abcdef");
    assert_eq!(leaf.title.as_deref(), Some("My Note"));
    assert_eq!(leaf.summary_text, "");
    assert!(leaf.note_warning.is_none());
}
