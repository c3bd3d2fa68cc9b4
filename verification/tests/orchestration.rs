use compaction::Content;
use compaction::FileOperations;
use compaction::Message;

fn text_msg(text: &str) -> Message {
    Message {
        role: "user".to_string(),
        content: Content::Text(text.to_string()),
        timestamp: None,
        tool_call_id: None,
        tool_name: None,
        is_error: None,
        details: None,
    }
}

fn failing_tool(id: &str, text: &str) -> Message {
    Message {
        role: "toolResult".to_string(),
        content: Content::Text(text.to_string()),
        timestamp: None,
        tool_call_id: Some(id.to_string()),
        tool_name: Some("bash".to_string()),
        is_error: Some(true),
        details: None,
    }
}

fn ops() -> FileOperations {
    FileOperations {
        read: vec!["src/read.rs".to_string(), "src/both.rs".to_string()],
        edited: vec!["src/both.rs".to_string()],
        written: vec!["src/new.rs".to_string()],
    }
}

#[test]
fn assemble_is_pure_concatenation() {
    let s = compaction::assemble_summary(
        "S".to_string(),
        "\n\nF".to_string(),
        "\n\nG".to_string(),
    );
    assert_eq!(s, "S\n\nF\n\nG");
}

#[test]
fn assemble_adds_nothing_for_empty_sections() {
    let s = compaction::assemble_summary("summary".to_string(), String::new(), String::new());
    assert_eq!(s, "summary");
}

#[test]
fn prepare_rejects_oversized_input() {
    // 20 characters -> 5 raw tokens -> 6 margined; max 7 -> limit 5.
    let m = text_msg("abcdefghijklmnopqrst");
    let err = compaction::prepare_compaction(vec![m], ops(), 7).unwrap_err();
    assert_eq!(err.input_tokens, 6);
    assert_eq!(err.max_input_tokens, 7);
    assert_eq!(
        err.message(),
        "Input too large to compact: 6 tokens exceeds maximum 7 tokens. \
         Caller should reduce input size before attempting compaction."
    );
}

#[test]
fn prepare_accepts_at_the_boundary() {
    let m = text_msg("abcdefghijklmnopqrst");
    let p = compaction::prepare_compaction(vec![m], ops(), 8).unwrap();
    assert_eq!(p.input_tokens, 6);
}

#[test]
fn prepare_packages_metadata_and_sections() {
    let messages = vec![
        text_msg("hello"),
        failing_tool("call-1", "it broke"),
        failing_tool("call-1", "duplicate, discarded"),
        failing_tool("call-2", ""),
    ];
    let p = compaction::prepare_compaction(messages, ops(), 1_000_000).unwrap();
    assert_eq!(p.metadata.tool_failures.len(), 2);
    assert_eq!(p.metadata.tool_failures[0].tool_call_id, "call-1");
    assert_eq!(p.metadata.tool_failures[0].error_summary, "it broke");
    assert_eq!(p.metadata.tool_failures[1].error_summary, "failed (no output)");
    assert_eq!(p.metadata.files_read, vec!["src/read.rs".to_string()]);
    assert_eq!(
        p.metadata.files_modified,
        vec!["src/both.rs".to_string(), "src/new.rs".to_string()]
    );
    assert_eq!(
        p.failures_section,
        "\n\n## Tool Failures\n- bash: it broke\n- bash: failed (no output)"
    );
    assert_eq!(
        p.files_section,
        "\n\n<read-files>\nsrc/read.rs\n</read-files>\n\n<modified-files>\nsrc/both.rs\nsrc/new.rs\n</modified-files>"
    );
}

#[test]
fn prepare_then_assemble_matches_direct_calls() {
    let messages = vec![
        text_msg("context"),
        failing_tool("call-9", "network unreachable"),
    ];
    let p = compaction::prepare_compaction(messages.clone(), ops(), 1_000_000).unwrap();

    let direct_failures = compaction::extract_tool_failures(messages);
    let direct_lists = compaction::compute_file_lists(ops());
    let direct_failures_section = compaction::format_tool_failures_section(direct_failures);
    let direct_files_section = compaction::format_file_operations_section(
        direct_lists.files_read,
        direct_lists.files_modified,
    );
    assert_eq!(p.failures_section, direct_failures_section);
    assert_eq!(p.files_section, direct_files_section);

    let assembled = compaction::assemble_summary(
        "the summary".to_string(),
        p.failures_section,
        p.files_section,
    );
    let expected = format!(
        "the summary{}{}",
        direct_failures_section, direct_files_section
    );
    assert_eq!(assembled, expected);
}

#[test]
fn static_path_names_the_asset_directory() {
    assert_eq!(compaction::static_path(), "/home/liam/liminal/server/static");
}
