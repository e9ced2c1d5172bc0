use bo::collect::commit::{dedup_inputs, duplicate_file, ComputedLeaf, PreparedInput, StateRead};
use bo::collect::input::{
    expand_url_list, has_external_source, input_kind, is_local_note_file, is_single_bare_url,
    is_url_list_file, ExpandedCollectInput, InputKind,
};
use bo::collect::render::{render_batch_human, render_human};
use bo::collect::{
    collect_failure_item, collect_item_from_error, collect_skipped_item, collect_success_item,
    error_code, shape_item, shape_single, summarize_collect_items, BatchCollectResult, CollectError,
    CollectItemStatus, CollectResult, NoteError, Outcome, PendingError,
};
use bo::tree::{Leaf, Timestamp, TreeMetadata, TreeState};
use bo::youtube::YoutubeError;

fn result(url: &str, file: &str) -> CollectResult {
    CollectResult { url: url.to_string(), file: file.to_string(), path: format!("/tree/{}", file) }
}

#[test]
fn error_codes_follow_the_error_kind() {
    assert_eq!(error_code(&CollectError::DuplicateUrl { existing_file: "a.md".into() }), "duplicate_url");
    assert_eq!(error_code(&CollectError::Rejected { url: "u".into(), reason: "r".into() }), "rejected");
    assert_eq!(error_code(&CollectError::Fetch("x".into())), "fetch_error");
    assert_eq!(error_code(&CollectError::Youtube(YoutubeError::EmptyTranscript)), "youtube_error");
    assert_eq!(error_code(&CollectError::TreeState("x".into())), "state_error");
    assert_eq!(error_code(&CollectError::Pending(PendingError::TreeState("x".into()))), "state_error");
    assert_eq!(error_code(&CollectError::Pending(PendingError::Busy("x".into()))), "tree_busy");
    assert_eq!(error_code(&CollectError::Pending(PendingError::Other("x".into()))), "pending_error");
    assert_eq!(error_code(&CollectError::Note(NoteError::Empty { path: "n.md".into() })), "empty_note");
    assert_eq!(
        error_code(&CollectError::Note(NoteError::MalformedFrontmatter { path: "n.md".into() })),
        "malformed_frontmatter"
    );
}

#[test]
fn error_messages() {
    assert_eq!(
        CollectError::DuplicateUrl { existing_file: "leaf/a.md".into() }.message(),
        "already collected → leaf/a.md"
    );
    assert_eq!(
        CollectError::Rejected { url: "https://x".into(), reason: "paywall".into() }.message(),
        "https://x was not collected: paywall"
    );
    assert_eq!(CollectError::Io("denied".into()).message(), "I/O error: denied");
    assert_eq!(
        CollectError::Note(NoteError::Read { path: "n.md".into(), error: "gone".into() }).message(),
        "failed to read note n.md: gone"
    );
}

#[test]
fn items_from_errors() {
    let dup = collect_item_from_error("in", "https://x", &CollectError::DuplicateUrl { existing_file: "leaf/x.md".into() });
    assert_eq!(dup.status, CollectItemStatus::Skipped);
    assert_eq!(dup.existing_file.as_deref(), Some("leaf/x.md"));
    assert_eq!(dup.code.as_deref(), Some("duplicate_url"));
    let rej = collect_item_from_error("in", "https://x", &CollectError::Rejected { url: "https://x".into(), reason: "thin".into() });
    assert_eq!(rej.status, CollectItemStatus::Failed);
    assert_eq!(rej.reason.as_deref(), Some("thin"));
    assert_eq!(rej.message.as_deref(), Some("https://x was not collected: thin"));
    let ok = collect_success_item("in", result("https://x", "leaf/x.md"));
    assert_eq!(ok.status, CollectItemStatus::Collected);
    let sk = collect_skipped_item("in", "u", "duplicate_input", "m".to_string(), None);
    assert_eq!(sk.status, CollectItemStatus::Skipped);
    let f = collect_failure_item("in", None, "empty_url_list", "none".to_string());
    assert_eq!(f.url, None);
}

#[test]
fn summary_counts_add_up_and_failure_message() {
    let items = vec![
        collect_success_item("a", result("https://a", "leaf/a.md")),
        collect_failure_item("b", None, "x", "y".to_string()),
        collect_skipped_item("c", "u", "duplicate_input", "m".to_string(), None),
        collect_failure_item("d", Some("https://d"), "x", "y".to_string()),
    ];
    let summary = summarize_collect_items(&items);
    assert_eq!((summary.total, summary.collected, summary.skipped, summary.failed), (4, 1, 1, 2));
    let batch = BatchCollectResult { summary, items };
    assert!(batch.has_failures());
    assert_eq!(batch.failure_message(), "2 of 4 collect inputs failed");
}

#[test]
fn rendering_single_and_batch() {
    assert_eq!(render_human(&result("https://a", "leaf/a.md")), "✓ collected: https://a → leaf/a.md\n");
    let items = vec![
        collect_success_item("a", result("https://a", "leaf/a.md")),
        collect_skipped_item("c", "https://c", "duplicate_input", "dup".to_string(), None),
        collect_failure_item("list.txt", None, "empty_url_list", "URL list file contains no URLs".to_string()),
    ];
    let summary = summarize_collect_items(&items);
    let out = render_batch_human(&BatchCollectResult { summary, items });
    assert_eq!(
        out,
        "✓ collected: https://a → leaf/a.md\n↷ skipped: https://c (dup)\n✗ failed: list.txt (URL list file contains no URLs)\ncollect summary: 1 collected, 1 skipped, 1 failed\n"
    );
}

#[test]
fn url_list_and_note_classification() {
    assert!(is_url_list_file("urls.txt") == false);
    assert!(is_url_list_file("lists/URLS.TXT"));
    assert!(!is_url_list_file("https://example.com/urls.txt"));
    assert!(!is_url_list_file("example.com/urls.txt"));
    assert!(is_local_note_file("notes/a.MD", true));
    assert!(!is_local_note_file("notes/a.md", false));
    assert!(!is_local_note_file("https://x/a.md", true));
    assert!(is_single_bare_url(&["https://example.com".to_string()], false));
    assert!(!is_single_bare_url(&["urls.txt".to_string()], false));
    assert!(!is_single_bare_url(&["a".to_string(), "b".to_string()], false));
    assert_eq!(input_kind("notes/a.md", true), InputKind::Note);
    assert_eq!(input_kind("x/list.txt", false), InputKind::UrlList);
    assert_eq!(input_kind("https://example.com", false), InputKind::Url);
}

#[test]
fn url_lists_expand_to_one_entry_per_line() {
    let out = expand_url_list("l.txt", Ok("https://a\n\n  https://b  \r\n".to_string()));
    assert_eq!(out.len(), 2);
    match &out[0] {
        ExpandedCollectInput::Url { input, url } => {
            assert_eq!(input, "l.txt:1");
            assert_eq!(url, "https://a");
        }
        other => panic!("unexpected {:?}", other),
    }
    match &out[1] {
        ExpandedCollectInput::Url { input, url } => {
            assert_eq!(input, "l.txt:3");
            assert_eq!(url, "https://b");
        }
        other => panic!("unexpected {:?}", other),
    }
    assert!(has_external_source(&out));
    let empty = expand_url_list("l.txt", Ok(" \n".to_string()));
    match &empty[0] {
        ExpandedCollectInput::Failure { code, message, .. } => {
            assert_eq!(code, "empty_url_list");
            assert_eq!(message, "URL list file contains no URLs");
        }
        other => panic!("unexpected {:?}", other),
    }
    assert!(!has_external_source(&empty));
    let failed = expand_url_list("l.txt", Err("No such file".to_string()));
    match &failed[0] {
        ExpandedCollectInput::Failure { code, message, .. } => {
            assert_eq!(code, "url_list_read_error");
            assert_eq!(message, "failed to read URL list: No such file");
        }
        other => panic!("unexpected {:?}", other),
    }
}

fn state_with(url: &str, file: &str) -> StateRead {
    StateRead::Read(TreeState {
        tree: TreeMetadata {
            name: "t".to_string(),
            created_at: Timestamp { unix_millis: 0 },
            last_compiled_at: None,
        },
        leaves: vec![Leaf {
            slug: "s".to_string(),
            file: file.to_string(),
            title: None,
            url: url.to_string(),
            collected_at: Timestamp { unix_millis: 0 },
            summary: None,
        }],
        branches: vec![],
    })
}

#[test]
fn duplicates_against_state() {
    let st = state_with("https://a", "leaf/a.md");
    assert_eq!(duplicate_file("https://a", &st).unwrap(), Some("leaf/a.md".to_string()));
    assert_eq!(duplicate_file("https://b", &st).unwrap(), None);
    assert_eq!(duplicate_file("https://a", &StateRead::NotInitialized).unwrap(), None);
    match duplicate_file("https://a", &StateRead::Failed("broken".into())) {
        Err(CollectError::TreeState(m)) => assert_eq!(m, "broken"),
        other => panic!("unexpected {:?}", other),
    }
}

#[test]
fn dedup_plan_fetches_each_url_once() {
    let st = state_with("https://old", "leaf/old.md");
    let note = ComputedLeaf {
        url: "bo://note/1".to_string(),
        title: Some("Note".to_string()),
        body_markdown: "body".to_string(),
        summary_text: String::new(),
        note_warning: None,
    };
    let plan = dedup_inputs(
        vec![
            PreparedInput::Url { input: "a".into(), url: "https://a".into() },
            PreparedInput::Url { input: "b".into(), url: "https://a".into() },
            PreparedInput::Url { input: "c".into(), url: "https://old".into() },
            PreparedInput::Failure { input: "l.txt".into(), code: "empty_url_list".into(), message: "none".into() },
            PreparedInput::Note { input: "n.md".into(), path: "n.md".into(), computed: Ok(note) },
        ],
        &st,
    );
    assert_eq!(plan.to_compute, vec![("a".to_string(), "https://a".to_string())]);
    assert_eq!(plan.precomputed_notes.len(), 1);
    assert_eq!(plan.outcomes.len(), 3);
    let items: Vec<_> = plan.outcomes.iter().map(shape_item).collect();
    assert_eq!(items[0].status, CollectItemStatus::Skipped);
    assert_eq!(items[0].message.as_deref(), Some("duplicate input URL first listed at a"));
    assert_eq!(items[1].status, CollectItemStatus::Skipped);
    assert_eq!(items[1].existing_file.as_deref(), Some("leaf/old.md"));
    assert_eq!(items[2].status, CollectItemStatus::Failed);
    for item in &items {
        assert!(item.file.is_none() && item.path.is_none() && item.reason.is_none());
    }
    match &plan.outcomes[0] {
        Outcome::Item(i) => assert!(i.file.is_none() && i.path.is_none() && i.reason.is_none()),
        other => panic!("unexpected {:?}", other),
    }
}

#[test]
fn single_shaping() {
    let r = shape_single(vec![Outcome::Collected { input: "u".into(), result: result("https://a", "leaf/a.md") }]);
    assert_eq!(r.unwrap().file, "leaf/a.md");
    let e = shape_single(vec![Outcome::Errored {
        input: "u".into(),
        url: "https://a".into(),
        error: CollectError::Fetch("timeout".into()),
    }]);
    assert_eq!(e.unwrap_err().message(), "timeout");
}
