use bo::search::leaves::{relevance_saturating, search_leaves, search_leaves_checked, IndexEntry};
use bo::search::{render_human, SearchOptions, SearchQuery};

fn entry(file: &str, title: &str) -> IndexEntry {
    IndexEntry { file: file.to_string(), title: title.to_string() }
}

fn leaf(title: Option<&str>, at: Option<&str>, body: &str) -> Option<String> {
    let fm_title = title.map(|t| format!("title: {}\n", t)).unwrap_or_default();
    let fm_at = at.map(|a| format!("collected_at: \"{}\"\n", a)).unwrap_or_default();
    Some(format!("---\n{}{}---\n{}", fm_title, fm_at, body))
}

fn query(terms: &[&str]) -> SearchQuery {
    SearchQuery { terms: terms.iter().map(|t| t.to_string()).collect() }
}

#[test]
fn matching_leaves_rank_by_density_then_index() {
    let entries = vec![entry("a.md", "A"), entry("b.md", "B"), entry("c.md", "C"), entry("d.md", "D")];
    let reads = vec![
        leaf(Some("Rust Notes"), None, "rust is a language with many other words around it here"),
        leaf(Some("Rust Rust"), None, "rust rust"),
        None,
        leaf(Some("Python"), None, "python only"),
    ];
    let r = search_leaves(&entries, &reads, &query(&["rust"]), &SearchOptions { page: 1, recent: false });
    assert_eq!(r.total_results, 2);
    assert_eq!(r.total_pages, 1);
    let files: Vec<&str> = r.hits.iter().map(|h| h.file.as_str()).collect();
    assert_eq!(files, vec!["b.md", "a.md"]);
    assert_eq!(r.hits[0].title, "Rust Rust");
    assert_eq!(r.hits[0].snippet, "rust rust");
    assert!(render_human(&r).ends_with("page 1/1 (2 results)\n"));
}

#[test]
fn recent_order_puts_undated_leaves_last() {
    let entries = vec![entry("a.md", "A"), entry("b.md", "B"), entry("c.md", "C")];
    let reads = vec![
        leaf(None, Some("2026-01-01T00:00:00Z"), "term one"),
        leaf(None, None, "term two"),
        leaf(None, Some("2026-02-01T00:00:00+01:00"), "term three"),
    ];
    let r = search_leaves(&entries, &reads, &query(&["term"]), &SearchOptions { page: 1, recent: true });
    let files: Vec<&str> = r.hits.iter().map(|h| h.file.as_str()).collect();
    assert_eq!(files, vec!["c.md", "a.md", "b.md"]);
    // Without a frontmatter title the index title is used.
    assert_eq!(r.hits[0].title, "C");
    assert_eq!(r.hits[0].collected_at, Some("2026-02-01T00:00:00+01:00".to_string()));
}

#[test]
fn snippets_cut_a_window_around_the_first_match() {
    let long_before = "x".repeat(100);
    let body = format!("{} Needle\n\nafter", long_before);
    let entries = vec![entry("a.md", "A")];
    let reads = vec![leaf(Some("T"), None, &body)];
    let r = search_leaves(&entries, &reads, &query(&["needle"]), &SearchOptions { page: 1, recent: false });
    let snippet = &r.hits[0].snippet;
    assert!(snippet.starts_with('\u{2026}'));
    assert!(snippet.ends_with("Needle after"));
    assert_eq!(snippet, &format!("\u{2026}{} Needle after", "x".repeat(79)));
}

#[test]
fn a_body_without_the_term_shows_its_beginning() {
    // The term is only in the frontmatter title, not in the body.
    let entries = vec![entry("a.md", "A")];
    let body = "y".repeat(200);
    let reads = vec![leaf(Some("Special"), None, &body)];
    let r = search_leaves(&entries, &reads, &query(&["special"]), &SearchOptions { page: 1, recent: false });
    assert_eq!(r.hits[0].snippet, format!("{}\u{2026}", "y".repeat(160)));
}

#[test]
fn invalid_frontmatter_falls_back_to_the_whole_text() {
    let entries = vec![entry("a.md", "Indexed")];
    let reads = vec![Some("plain text about cats".to_string())];
    let r = search_leaves(&entries, &reads, &query(&["cats"]), &SearchOptions { page: 1, recent: false });
    assert_eq!(r.hits[0].title, "Indexed");
    assert_eq!(r.hits[0].snippet, "plain text about cats");
    assert_eq!(r.hits[0].collected_at, None);
}

#[test]
fn pages_hold_five_hits() {
    let entries: Vec<IndexEntry> = (0..7).map(|i| entry(&format!("{}.md", i), "T")).collect();
    let reads: Vec<Option<String>> = (0..7).map(|_| leaf(Some("T"), None, "word")).collect();
    let r = search_leaves(&entries, &reads, &query(&["word"]), &SearchOptions { page: 2, recent: false });
    assert_eq!(r.total_results, 7);
    assert_eq!(r.total_pages, 2);
    assert_eq!(r.hits.len(), 2);
    assert_eq!(r.hits[0].file, "5.md");
    let r = search_leaves(&entries, &reads, &query(&["word"]), &SearchOptions { page: 3, recent: false });
    assert!(r.hits.is_empty());
    assert_eq!(render_human(&r), "no results on page 3 (7 total results, 2 pages)\n");
    let r = search_leaves(&entries, &reads, &query(&["absent"]), &SearchOptions { page: 1, recent: false });
    assert_eq!(render_human(&r), "no results\n");
}

#[test]
fn relevance_is_capped_not_wrapped() {
    assert_eq!(relevance_saturating("a a b", &vec!["a".to_string()]), 666);
    assert_eq!(relevance_saturating("", &vec!["a".to_string()]), 0);
}

#[test]
fn unreadable_frontmatter_falls_back_to_the_whole_text() {
    let entries = vec![entry("a.md", "Indexed")];
    let reads = vec![Some("---\ntitle: [unclosed\n---\ncats here".to_string())];
    let r = search_leaves(&entries, &reads, &query(&["cats"]), &SearchOptions { page: 1, recent: false });
    assert_eq!(r.hits[0].title, "Indexed");
    assert_eq!(r.hits[0].snippet, "--- title: [unclosed --- cats here");
}

#[test]
fn an_empty_term_with_an_empty_body_on_the_page_is_refused() {
    let entries = vec![entry("a.md", "A"), entry("b.md", "B")];
    let reads = vec![leaf(Some("T"), None, ""), leaf(Some("U"), None, "words")];
    let options = SearchOptions { page: 1, recent: false };
    assert!(search_leaves_checked(&entries, &reads, &query(&[""]), &options).is_none());
    let r = search_leaves_checked(&entries, &reads, &query(&["words"]), &options).unwrap();
    assert_eq!(r.total_results, 1);
    assert_eq!(r.hits[0].title, "U");
}
