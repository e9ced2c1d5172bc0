use bo::agent::{
    check_tool_gate, grep_output, missing_sources, opening_message, plan_tool_call, record_summary, summary_written_message,
    tool_message_content, AgentProgress, Config, FinishStep, ToolAction,
};

fn limits(turns: usize, calls: usize) -> Config {
    Config { max_turns: turns, max_tool_calls: calls, ..Config::default() }
}

#[test]
fn max_turns_stop_the_run_with_the_count_written() {
    let c = limits(1, 5);
    let mut p = AgentProgress::new();
    assert!(p.begin_turn(&c, 0, 1).is_ok());
    assert_eq!(p.turns, 1);
    let e = p.begin_turn(&c, 1, 1).unwrap_err();
    assert_eq!(e, "max turns reached (1) with 1 of 1 summaries written");
    assert_eq!(p.turns, 1);
    let c = limits(5, 0);
    let e = p.begin_tool_call(&c, 0, 2).unwrap_err();
    assert_eq!(e, "max tool calls reached (0) with 0 of 2 summaries written");
    assert_eq!(p.tool_calls, 0);
}

#[test]
fn a_stop_with_sources_left_gets_one_correction() {
    let mut p = AgentProgress::new();
    let missing = vec!["a".to_string(), "b".to_string()];
    match p.finish_without_tools(&missing, 0) {
        FinishStep::Correct(m) => assert!(m.ends_with("every missing source identity: a, b")),
        other => panic!("unexpected {:?}", other),
    }
    assert!(p.correction_sent);
    match p.finish_without_tools(&missing, 0) {
        FinishStep::Stop(m) => assert_eq!(m, "model stopped with missing summaries: a, b"),
        other => panic!("unexpected {:?}", other),
    }
    assert!(matches!(p.finish_without_tools(&vec![], 2), FinishStep::Done(2)));
}

#[test]
fn summaries_are_recorded_once_and_missing_ones_listed() {
    let mut written: Vec<String> = Vec::new();
    record_summary(&mut written, "raw:a.md");
    record_summary(&mut written, "raw:a.md");
    assert_eq!(written, vec!["raw:a.md".to_string()]);
    let sources = vec!["raw:a.md".to_string(), "https://x".to_string()];
    assert_eq!(missing_sources(&sources, &written), vec!["https://x".to_string()]);
    assert_eq!(summary_written_message("raw:a.md"), "summary written: raw:a.md");
    assert!(opening_message(&vec!["a.md".to_string(), "b.md".to_string()]).ends_with("Raw documents: a.md, b.md"));
}

#[test]
fn tool_calls_are_checked_before_they_run() {
    assert_eq!(check_tool_gate("bash", false).unwrap_err(), "read_state must be called before other tools");
    assert!(check_tool_gate("read_state", false).is_ok());
    assert!(check_tool_gate("bash", true).is_ok());
    assert!(matches!(plan_tool_call("read_state", &vec![]), Ok(ToolAction::ReadState)));
    let args = vec![("command".to_string(), Some("ls".to_string()))];
    assert!(matches!(plan_tool_call("bash", &args), Ok(ToolAction::Bash(c)) if c == "ls"));
    let bad = vec![("command".to_string(), None)];
    assert_eq!(plan_tool_call("bash", &bad).unwrap_err(), "bash.command must be a string");
    let w = vec![("source_key".to_string(), Some("k".to_string())), ("markdown".to_string(), Some("# S".to_string()))];
    assert!(matches!(plan_tool_call("write_summary", &w), Ok(ToolAction::WriteSummary(k, m)) if k == "k" && m == "# S"));
    assert_eq!(
        plan_tool_call("write_summary", &vec![("source_key".to_string(), Some("k".to_string()))]).unwrap_err(),
        "write_summary arguments must contain only source_key and markdown"
    );
    assert_eq!(plan_tool_call("rm", &vec![]).unwrap_err(), "unsupported tool: rm");
    assert_eq!(plan_tool_call("read_state", &args).unwrap_err(), "read_state arguments must be empty");
}

#[test]
fn tool_replies_mark_errors_and_grep_numbers_lines() {
    assert_eq!(tool_message_content(&Err("nope".to_string()), 100), "ERROR: nope");
    assert_eq!(tool_message_content(&Ok("fine".to_string()), 100), "fine");
    let files = vec![
        ("a.md".to_string(), vec!["fact one".to_string(), "other".to_string(), "a fact".to_string()]),
        ("b.md".to_string(), vec!["nothing".to_string()]),
    ];
    assert_eq!(grep_output(&files, "fact"), "a.md:1:fact one\na.md:3:a fact\n");
    assert_eq!(grep_output(&files, "zzz"), "(no matches)\n");
}
