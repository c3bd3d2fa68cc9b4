//! Preprocessing for conversation-history compaction: token estimation,
//! input-size validation, tool-failure extraction, file-operation
//! classification, section formatting, and final summary assembly.
//!
//! Every function is pure: no I/O, no shared state, no panics on inputs
//! the contracts admit. The contracts are stated over character
//! sequences and exact integer arithmetic; the laws relating the
//! functions stand as public proof functions beside them.

pub mod estimate;
pub mod extract;
pub mod format;
pub mod orchestrate;
pub mod paths;
pub mod text;
pub mod types;
pub mod validate;

pub use estimate::estimate_messages_tokens;
pub use estimate::estimate_tokens;
pub use estimate::extract_text_from_content;
pub use extract::compute_file_lists;
pub use extract::extract_tool_failures;
pub use format::format_file_operations_section;
pub use format::format_tool_failures_section;
pub use orchestrate::assemble_summary;
pub use orchestrate::prepare_compaction;
pub use orchestrate::CompactionError;
pub use paths::static_path;
pub use types::CompactionMetadata;
pub use types::Content;
pub use types::ContentBlock;
pub use types::FileListsResult;
pub use types::FileOperations;
pub use types::Message;
pub use types::MessageDetails;
pub use types::PreparedCompaction;
pub use types::ToolFailure;
pub use types::ValidationResult;
pub use validate::calculate_max_input_tokens;
pub use validate::can_compact;
