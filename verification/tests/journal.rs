use bo::journal::{
    op_label, render_collect, render_compile, render_event_line, render_human, render_query, render_repair, truncate,
    EventPayload, JournalEvent, JournalOp, JournalResult,
};

fn s(x: &str) -> Option<String> {
    Some(x.to_string())
}

#[test]
fn empty_journal_says_so() {
    assert_eq!(render_human(&JournalResult { events: vec![] }), "no journal events yet\n");
}

#[test]
fn collect_lines_count_statuses() {
    let statuses = vec![s("collected"), s("skipped"), s("collected"), None, s("failed")];
    assert_eq!(render_collect(&statuses), "5 items (2 collected, 1 skipped, 1 failed)");
}

#[test]
fn compile_lines_prefer_failures_then_errors_then_counts() {
    let long = "x".repeat(100);
    assert_eq!(
        render_compile(&s("full"), &Some(vec![Some(long.clone())]), &None, 1, 2, 3, Some(9)),
        format!("full  validation failed: {}", "x".repeat(80))
    );
    assert_eq!(
        render_compile(&None, &Some(vec![]), &Some((None, s("boom"))), 0, 0, 0, None),
        "?  error: error: boom"
    );
    assert_eq!(
        render_compile(&s("incremental"), &None, &None, 1, 2, 0, Some(1500)),
        "incremental  1 created, 2 updated, 0 deleted  1500ms"
    );
    assert_eq!(render_compile(&s("full"), &None, &None, 0, 0, 0, None), "full  0 created, 0 updated, 0 deleted  0ms");
}

#[test]
fn repair_and_query_lines() {
    assert_eq!(render_repair(1, 2, 3), "1 orphan leaves pruned, 2 branches repaired, 3 branches removed");
    assert_eq!(render_query(&s("why?"), 2, Some(5)), "\"why?\"  2 citations  5 consulted");
    assert_eq!(render_query(&None, 0, None), "\"\"  0 citations  0 consulted");
    assert_eq!(truncate("abcdef", 3), "abc\u{2026}");
    assert_eq!(truncate("abc", 3), "abc");
    assert_eq!(truncate("äöü", 2), "äö\u{2026}");
}

#[test]
fn event_lines_pad_the_operation_and_name_the_model() {
    let e = JournalEvent {
        ts: "2026-01-01T00:00:00Z".to_string(),
        op: JournalOp::Repair,
        model: None,
        payload: EventPayload::Repair { orphan_leaves: 0, repaired_branches: 1, removed_branches: 0 },
    };
    assert_eq!(
        render_event_line(&e),
        "2026-01-01T00:00:00Z  repair   0 orphan leaves pruned, 1 branches repaired, 0 branches removed"
    );
    let q = JournalEvent {
        ts: "T".to_string(),
        op: JournalOp::Query,
        model: s("m1"),
        payload: EventPayload::Query { question: s("q"), citations: 1, leaves_consulted: Some(2) },
    };
    assert_eq!(render_event_line(&q), "T  query    \"q\"  1 citations  2 consulted  model=m1");
    let text = render_human(&JournalResult { events: vec![e, q] });
    assert_eq!(text.lines().count(), 2);
    assert!(text.ends_with("model=m1\n"));
    assert_eq!(op_label(JournalOp::Collect), "collect");
    assert_eq!(op_label(JournalOp::Query), "query");
}
