use compaction::ToolFailure;

fn failure(id: &str, name: &str, summary: &str, exit_code: Option<i32>) -> ToolFailure {
    ToolFailure {
        tool_call_id: id.to_string(),
        tool_name: name.to_string(),
        error_summary: summary.to_string(),
        exit_code,
    }
}

#[test]
fn failures_section_empty_for_no_failures() {
    assert_eq!(compaction::format_tool_failures_section(vec![]), "");
}

#[test]
fn failures_section_single_bullet() {
    let s = compaction::format_tool_failures_section(vec![failure(
        "1", "bash", "command not found", None,
    )]);
    assert_eq!(s, "\n\n## Tool Failures\n- bash: command not found");
}

#[test]
fn failures_section_exit_code_suffix() {
    let s = compaction::format_tool_failures_section(vec![
        failure("1", "bash", "killed", Some(137)),
        failure("2", "python", "traceback", Some(-1)),
    ]);
    assert_eq!(
        s,
        "\n\n## Tool Failures\n- bash (exit 137): killed\n- python (exit -1): traceback"
    );
}

#[test]
fn nine_failures_give_eight_bullets_and_one_more_line() {
    let failures: Vec<ToolFailure> = (0..9)
        .map(|i| failure(&format!("id-{}", i), "tool", &format!("error {}", i), None))
        .collect();
    let s = compaction::format_tool_failures_section(failures);
    let lines: Vec<&str> = s.trim_start_matches('\n').lines().collect();
    assert_eq!(lines[0], "## Tool Failures");
    let bullets = &lines[1..];
    assert_eq!(bullets.len(), 9);
    for (i, line) in bullets[..8].iter().enumerate() {
        assert_eq!(*line, format!("- tool: error {}", i));
    }
    assert_eq!(bullets[8], "- ...and 1 more");
}

#[test]
fn twelve_failures_count_four_more() {
    let failures: Vec<ToolFailure> = (0..12)
        .map(|i| failure(&format!("id-{}", i), "tool", "e", None))
        .collect();
    let s = compaction::format_tool_failures_section(failures);
    assert!(s.ends_with("- ...and 4 more"));
}

#[test]
fn extreme_exit_codes_render_in_full() {
    let s = compaction::format_tool_failures_section(vec![failure(
        "1",
        "proc",
        "aborted",
        Some(i32::MIN),
    )]);
    assert_eq!(s, "\n\n## Tool Failures\n- proc (exit -2147483648): aborted");
}

#[test]
fn files_section_empty_when_both_lists_empty() {
    assert_eq!(compaction::format_file_operations_section(vec![], vec![]), "");
}

#[test]
fn files_section_both_blocks() {
    let s = compaction::format_file_operations_section(
        vec!["a.rs".to_string(), "b.rs".to_string()],
        vec!["c.rs".to_string()],
    );
    assert_eq!(
        s,
        "\n\n<read-files>\na.rs\nb.rs\n</read-files>\n\n<modified-files>\nc.rs\n</modified-files>"
    );
}

#[test]
fn files_section_read_only() {
    let s = compaction::format_file_operations_section(vec!["a.rs".to_string()], vec![]);
    assert_eq!(s, "\n\n<read-files>\na.rs\n</read-files>");
}

#[test]
fn files_section_modified_only() {
    let s = compaction::format_file_operations_section(vec![], vec!["m.rs".to_string()]);
    assert_eq!(s, "\n\n<modified-files>\nm.rs\n</modified-files>");
}
