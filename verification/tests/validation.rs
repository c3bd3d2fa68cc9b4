use compaction::Content;
use compaction::Message;

fn text_msg(text: &str) -> Message {
    Message {
        role: "user".to_string(),
        content: Content::Text(text.to_string()),
        timestamp: None,
        tool_call_id: None,
        tool_name: None,
        is_error: None,
        details: None,
    }
}

#[test]
fn max_input_tokens_for_a_million_token_window() {
    // floor((1_000_000 / 1.2) * 0.75) = 625_000
    assert_eq!(compaction::calculate_max_input_tokens(1_000_000), 625_000);
}

#[test]
fn max_input_tokens_small_windows() {
    assert_eq!(compaction::calculate_max_input_tokens(0), 0);
    assert_eq!(compaction::calculate_max_input_tokens(8), 5);
    assert_eq!(compaction::calculate_max_input_tokens(16), 10);
}

#[test]
fn can_compact_boundary_equality_is_ok() {
    // 20 characters -> 5 raw tokens -> ceil(5 * 1.2) = 6 margined tokens;
    // max 8 -> floor(8 * 0.75) = 6: both sides equal, so ok.
    let m = text_msg("abcdefghijklmnopqrst");
    let r = compaction::can_compact(vec![m], 8);
    assert!(r.ok);
    assert_eq!(r.reason, None);
    assert_eq!(r.input_tokens, None);
}

#[test]
fn can_compact_rejects_past_the_boundary() {
    // Same 6 margined tokens; max 7 -> floor(7 * 0.75) = 5 < 6.
    let m = text_msg("abcdefghijklmnopqrst");
    let r = compaction::can_compact(vec![m], 7);
    assert!(!r.ok);
    assert_eq!(r.input_tokens, Some(6));
    assert_eq!(
        r.reason.as_deref(),
        Some("Input (6 tokens) exceeds limit (5 tokens)")
    );
}

#[test]
fn can_compact_empty_batch_is_ok() {
    let r = compaction::can_compact(vec![], 0);
    assert!(r.ok);
}
