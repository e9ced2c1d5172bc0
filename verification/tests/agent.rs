use bo::agent::{
    bounded_output, check_summary_filename, check_summary_markdown, parse_command, parse_options,
    parse_usize, source_groups, take_prefix, upsert_summary, BashCommand, Config, RawRecord,
    SummaryRecord,
};

fn args(v: &[&str]) -> Vec<String> {
    v.iter().map(|s| s.to_string()).collect()
}

#[test]
fn agent_flags_accept_positive_values_and_reject_unknown_or_missing_values() {
    let config = parse_options(args(&[
        "--max-turns",
        "2",
        "--max-tool-calls",
        "3",
        "--max-tool-output-bytes",
        "4",
        "--max-response-tokens",
        "5",
        "--timeout-seconds",
        "6",
    ]))
    .unwrap();
    assert_eq!(config.max_turns, 2);
    assert_eq!(config.max_tool_calls, 3);
    assert_eq!(config.max_tool_output_bytes, 4);
    assert_eq!(config.max_response_tokens, 5);
    assert_eq!(config.timeout_seconds, 6);
    assert!(parse_options(args(&["--unknown", "1"]))
        .unwrap_err()
        .contains("usage: bo agent"));
    assert!(parse_options(args(&["--max-turns"]))
        .unwrap_err()
        .contains("missing value for --max-turns"));
    assert!(parse_options(args(&["--max-turns", "zero"]))
        .unwrap_err()
        .contains("positive integer"));
}

#[test]
fn agent_defaults_and_zero_is_refused() {
    let config = parse_options(vec![]).unwrap();
    assert_eq!(config, Config::default());
    assert_eq!(config.max_turns, 32);
    assert_eq!(config.max_tool_calls, 64);
    assert_eq!(config.max_tool_output_bytes, 65_536);
    assert_eq!(config.max_response_tokens, 4_096);
    assert_eq!(config.timeout_seconds, 120);
    assert_eq!(
        parse_options(args(&["--timeout-seconds", "0"])).unwrap_err(),
        "--timeout-seconds requires a positive integer"
    );
}

#[test]
fn parse_usize_matches_std() {
    for s in ["0", "7", "+12", "0042", "18446744073709551615", "", "+", "-1", " 1", "1a", "18446744073709551616"] {
        assert_eq!(parse_usize(s), s.parse::<usize>().ok(), "input {:?}", s);
    }
}

#[test]
fn take_prefix_cuts_at_char_boundaries() {
    assert_eq!(take_prefix("héllo", 2), "h");
    assert_eq!(take_prefix("héllo", 3), "hé");
    assert_eq!(take_prefix("abc", 10), "abc");
    assert_eq!(take_prefix("€", 2), "");
}

#[test]
fn bounded_output_keeps_short_text_and_marks_long_text() {
    assert_eq!(bounded_output("short", 10), "short");
    let long = "a".repeat(100);
    let out = bounded_output(&long, 40);
    assert_eq!(out, format!("{}\n[truncated at 100 bytes]\n", "a".repeat(14)));
    assert!(out.len() <= 40);
    assert_eq!(bounded_output(&long, 5), "\n[tru");
}

#[test]
fn facade_commands_parse_and_shell_syntax_is_refused() {
    match parse_command("ls").unwrap() {
        BashCommand::Ls(None) => {}
        other => panic!("unexpected {:?}", other),
    }
    match parse_command("grep  fact  notes").unwrap() {
        BashCommand::Grep(p, Some(path)) => {
            assert_eq!(p, "fact");
            assert_eq!(path, "notes");
        }
        other => panic!("unexpected {:?}", other),
    }
    match parse_command("cat article.md").unwrap() {
        BashCommand::Cat(p) => assert_eq!(p, "article.md"),
        other => panic!("unexpected {:?}", other),
    }
    assert_eq!(parse_command("cat article.md | head").unwrap_err(), "unsupported shell syntax");
    assert_eq!(parse_command("").unwrap_err(), "unsupported shell syntax");
    assert_eq!(parse_command("rm -rf x").unwrap_err(), "unsupported command grammar");
    assert_eq!(parse_command("cd").unwrap_err(), "unsupported command grammar");
}

#[test]
fn summary_filenames_must_be_markdown_names() {
    assert!(check_summary_filename("summary.md").is_ok());
    assert!(check_summary_filename("Summary.MD").is_ok());
    for bad in ["", ".", "..", "a/b.md", "a\\b.md", "notes.txt", "md", "x.md.txt"] {
        assert_eq!(
            check_summary_filename(bad).unwrap_err(),
            "summary filename must be a Markdown file name",
            "input {:?}",
            bad
        );
    }
}

#[test]
fn summary_markdown_checks() {
    assert_eq!(check_summary_markdown(" \n", 100).unwrap_err(), "summary Markdown must be non-empty");
    assert_eq!(
        check_summary_markdown("# Summary\n", 4).unwrap_err(),
        "summary exceeds max tool output bytes (4)"
    );
    assert!(check_summary_markdown("# Summary\n", 100).is_ok());
}

#[test]
fn summary_upsert_keeps_created_at_and_advances_updated_at() {
    let mut summaries = vec![SummaryRecord {
        filename: "summary.md".to_string(),
        source_key: "https://example.test/a".to_string(),
        derived_from: "old.md".to_string(),
        created_at: 10,
        updated_at: 11,
    }];
    let file = upsert_summary(&mut summaries, "https://example.test/a", "new.md", 5);
    assert_eq!(file, "summary.md");
    assert_eq!(summaries.len(), 1);
    assert_eq!(summaries[0].created_at, 10);
    assert_eq!(summaries[0].updated_at, 12);
    assert_eq!(summaries[0].derived_from, "new.md");
    let file = upsert_summary(&mut summaries, "raw:other.md", "other.md", 50);
    assert_eq!(file, "other.md");
    assert_eq!(summaries.len(), 2);
    assert_eq!(summaries[1].created_at, 50);
    assert_eq!(summaries[1].updated_at, 50);
}

#[test]
fn source_groups_keep_latest_snapshot_and_raw_fallbacks() {
    let documents = vec![
        "manual.md".to_string(),
        "new.md".to_string(),
        "old.md".to_string(),
        "other.md".to_string(),
    ];
    let raw = vec![
        RawRecord { filename: "old.md".to_string(), url: "https://example.test/a".to_string(), written_at: 1 },
        RawRecord { filename: "new.md".to_string(), url: "https://example.test/a".to_string(), written_at: 2 },
        RawRecord { filename: "other.md".to_string(), url: "https://example.test/b".to_string(), written_at: 3 },
    ];
    let groups = source_groups(&documents, &raw);
    assert_eq!(groups.len(), 3);
    assert_eq!(groups[0].0, "raw:manual.md");
    assert_eq!(groups[1].0, "https://example.test/a");
    assert_eq!(groups[1].1.latest_filename, "new.md");
    assert_eq!(groups[1].1.latest_written_at, 2);
    assert_eq!(groups[2].0, "https://example.test/b");
}
