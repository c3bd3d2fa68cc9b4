use compaction::Content;
use compaction::FileOperations;
use compaction::Message;
use compaction::MessageDetails;

fn tool_result(id: Option<&str>, is_error: Option<bool>, text: &str) -> Message {
    Message {
        role: "toolResult".to_string(),
        content: Content::Text(text.to_string()),
        timestamp: None,
        tool_call_id: id.map(|s| s.to_string()),
        tool_name: Some("bash".to_string()),
        is_error,
        details: None,
    }
}

#[test]
fn first_occurrence_wins_per_identifier() {
    let first = tool_result(Some("call-1"), Some(true), "first failure");
    let second = tool_result(Some("call-1"), Some(true), "second failure");
    let failures = compaction::extract_tool_failures(vec![first, second]);
    assert_eq!(failures.len(), 1);
    assert_eq!(failures[0].tool_call_id, "call-1");
    assert_eq!(failures[0].error_summary, "first failure");
}

#[test]
fn non_errors_and_missing_identifiers_are_skipped() {
    let not_flagged = tool_result(Some("a"), None, "boom");
    let flagged_false = tool_result(Some("b"), Some(false), "boom");
    let no_id = tool_result(None, Some(true), "boom");
    let mut wrong_role = tool_result(Some("c"), Some(true), "boom");
    wrong_role.role = "assistant".to_string();
    let real = tool_result(Some("d"), Some(true), "boom");
    let failures =
        compaction::extract_tool_failures(vec![not_flagged, flagged_false, no_id, wrong_role, real]);
    assert_eq!(failures.len(), 1);
    assert_eq!(failures[0].tool_call_id, "d");
}

#[test]
fn whitespace_is_normalized() {
    let m = tool_result(Some("x"), Some(true), "  error:\n\tsomething   broke \r\n");
    let failures = compaction::extract_tool_failures(vec![m]);
    assert_eq!(failures[0].error_summary, "error: something broke");
}

#[test]
fn empty_output_gets_the_fixed_phrase() {
    let m = tool_result(Some("x"), Some(true), "   \n\t ");
    let failures = compaction::extract_tool_failures(vec![m]);
    assert_eq!(failures[0].error_summary, "failed (no output)");
}

#[test]
fn text_of_241_characters_truncates_to_240_with_ellipsis() {
    let long = "a".repeat(241);
    let m = tool_result(Some("x"), Some(true), &long);
    let failures = compaction::extract_tool_failures(vec![m]);
    let summary = &failures[0].error_summary;
    assert_eq!(summary.chars().count(), 240);
    assert!(summary.ends_with("..."));
    assert_eq!(&summary[..237], &long[..237]);
}

#[test]
fn truncation_counts_characters_not_bytes() {
    let long = "\u{20ac}".repeat(241);
    let m = tool_result(Some("x"), Some(true), &long);
    let failures = compaction::extract_tool_failures(vec![m]);
    let summary = &failures[0].error_summary;
    assert_eq!(summary.chars().count(), 240);
    assert!(summary.ends_with("..."));
    assert_eq!(summary.chars().take(237).collect::<String>(), "\u{20ac}".repeat(237));
}

#[test]
fn unicode_whitespace_is_collapsed() {
    let m = tool_result(Some("x"), Some(true), "a\u{a0}\u{2003}b\u{3000}");
    let failures = compaction::extract_tool_failures(vec![m]);
    assert_eq!(failures[0].error_summary, "a b");
}

#[test]
fn text_of_240_characters_is_kept_whole() {
    let long = "b".repeat(240);
    let m = tool_result(Some("x"), Some(true), &long);
    let failures = compaction::extract_tool_failures(vec![m]);
    assert_eq!(failures[0].error_summary, long);
}

#[test]
fn tool_name_defaults_and_exit_code_is_read_from_details() {
    let mut m = tool_result(Some("x"), Some(true), "oops");
    m.tool_name = None;
    m.details = Some(MessageDetails { status: Some("exited".to_string()), exit_code: Some(127) });
    let failures = compaction::extract_tool_failures(vec![m]);
    assert_eq!(failures[0].tool_name, "tool");
    assert_eq!(failures[0].exit_code, Some(127));

    let plain = tool_result(Some("y"), Some(true), "oops");
    let failures = compaction::extract_tool_failures(vec![plain]);
    assert_eq!(failures[0].tool_name, "bash");
    assert_eq!(failures[0].exit_code, None);
}

#[test]
fn file_lists_classify_and_sort() {
    let ops = FileOperations {
        read: vec!["a".to_string(), "b".to_string()],
        edited: vec!["b".to_string()],
        written: vec!["c".to_string()],
    };
    let r = compaction::compute_file_lists(ops);
    assert_eq!(r.files_read, vec!["a".to_string()]);
    assert_eq!(r.files_modified, vec!["b".to_string(), "c".to_string()]);
}

#[test]
fn file_lists_deduplicate_and_order_by_code_point() {
    let ops = FileOperations {
        read: vec!["z.txt".to_string(), "A.txt".to_string(), "z.txt".to_string()],
        edited: vec!["m.txt".to_string(), "b.txt".to_string(), "m.txt".to_string()],
        written: vec!["m.txt".to_string(), "a.txt".to_string()],
    };
    let r = compaction::compute_file_lists(ops);
    assert_eq!(
        r.files_modified,
        vec!["a.txt".to_string(), "b.txt".to_string(), "m.txt".to_string()]
    );
    assert_eq!(r.files_read, vec!["A.txt".to_string(), "z.txt".to_string()]);
}

#[test]
fn file_lists_empty_inputs_give_empty_outputs() {
    let ops = FileOperations { read: vec![], edited: vec![], written: vec![] };
    let r = compaction::compute_file_lists(ops);
    assert!(r.files_read.is_empty());
    assert!(r.files_modified.is_empty());
}
