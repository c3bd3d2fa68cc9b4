//! The data carried through a compaction call: messages and their content,
//! extracted tool failures, file-operation logs, and the packaged results.

use vstd::prelude::*;

verus! {

/// Optional status details attached to a tool-result message.
#[derive(Debug, Clone, PartialEq)]
pub struct MessageDetails {
    pub status: Option<String>,
    pub exit_code: Option<i32>,
}

/// One typed fragment of a structured message body. Only blocks whose
/// `block_type` is `"text"` and which carry a `text` value contribute
/// extractable text.
#[derive(Debug, Clone, PartialEq)]
pub struct ContentBlock {
    pub block_type: String,
    pub text: Option<String>,
}

/// The body of a message: a plain string, an ordered sequence of typed
/// blocks, or the textual serialization of a value of any other shape.
#[derive(Debug, Clone, PartialEq)]
pub enum Content {
    Text(String),
    Blocks(Vec<ContentBlock>),
    Other(String),
}

/// A conversation message.
#[derive(Debug, Clone, PartialEq)]
pub struct Message {
    pub role: String,
    pub content: Content,
    pub timestamp: Option<i64>,
    pub tool_call_id: Option<String>,
    pub tool_name: Option<String>,
    pub is_error: Option<bool>,
    pub details: Option<MessageDetails>,
}

/// A tool invocation that failed.
#[derive(Debug, Clone, PartialEq)]
pub struct ToolFailure {
    pub tool_call_id: String,
    pub tool_name: String,
    pub error_summary: String,
    pub exit_code: Option<i32>,
}

/// File operations tracked during a session.
#[derive(Debug, Clone, PartialEq)]
pub struct FileOperations {
    pub read: Vec<String>,
    pub edited: Vec<String>,
    pub written: Vec<String>,
}

/// Result of classifying file operations.
#[derive(Debug, Clone, PartialEq)]
pub struct FileListsResult {
    pub files_read: Vec<String>,
    pub files_modified: Vec<String>,
}

/// Metadata extracted from messages during compaction.
#[derive(Debug, Clone, PartialEq)]
pub struct CompactionMetadata {
    pub tool_failures: Vec<ToolFailure>,
    pub files_read: Vec<String>,
    pub files_modified: Vec<String>,
}

/// Result of input validation.
#[derive(Debug, Clone, PartialEq)]
pub struct ValidationResult {
    pub ok: bool,
    pub reason: Option<String>,
    pub input_tokens: Option<u32>,
}

/// Prepared data for compaction, handed back before summarization.
#[derive(Debug, Clone, PartialEq)]
pub struct PreparedCompaction {
    pub input_tokens: u32,
    pub metadata: CompactionMetadata,
    pub failures_section: String,
    pub files_section: String,
}

} // verus!
