//! Orchestration: validate, extract, and format in one call, and assemble
//! the final text once the caller supplies the summary.

use vstd::prelude::*;
use vstd::string::StringExecFns;

use crate::estimate::clamp_u32;
use crate::estimate::estimate_messages_tokens_in;
use crate::extract::compute_file_lists;
use crate::extract::extract_tool_failures_in;
use crate::extract::failure_views;
use crate::extract::failures_of;
use crate::format::failures_section_view;
use crate::format::files_section_view;
use crate::format::format_file_operations_section_in;
use crate::format::format_tool_failures_section_in;
use crate::text::decimal_of;
use crate::text::lemma_sorted_unique_canonical;
use crate::text::seq_has;
use crate::text::str_views;
use crate::text::strictly_sorted;
use crate::text::u64_to_decimal;
use crate::types::CompactionMetadata;
use crate::types::FileOperations;
use crate::types::Message;
use crate::types::PreparedCompaction;
use crate::types::ToolFailure;
use crate::validate::fits;
use crate::validate::input_tokens_of;

verus! {

/// The one failure this module reports: the input is too large to
/// compact. It carries the measured (margined) token count and the stated
/// maximum; the caller must reduce the input before retrying.
#[derive(Debug, Clone, PartialEq)]
pub struct CompactionError {
    pub input_tokens: u32,
    pub max_input_tokens: u32,
}

/// The text describing an input-too-large failure.
pub open spec fn too_large_message(input: nat, max: nat) -> Seq<char> {
    "Input too large to compact: "@ + decimal_of(input) + " tokens exceeds maximum "@
        + decimal_of(max)
        + " tokens. Caller should reduce input size before attempting compaction."@
}

impl CompactionError {
    /// Renders the failure as the human-readable text the caller reports.
    pub fn message(&self) -> (r: String)
        ensures
            r@ == too_large_message(self.input_tokens as nat, self.max_input_tokens as nat),
    {
        let mut s = String::from_str("Input too large to compact: ");
        let measured = u64_to_decimal(self.input_tokens as u64);
        s.append(measured.as_str());
        s.append(" tokens exceeds maximum ");
        let limit = u64_to_decimal(self.max_input_tokens as u64);
        s.append(limit.as_str());
        s.append(" tokens. Caller should reduce input size before attempting compaction.");
        proof {
            assert(s@ =~= too_large_message(
                self.input_tokens as nat,
                self.max_input_tokens as nat,
            ));
        }
        s
    }
}

/// Whether `out_read` and `out_modified` are the classified file lists of
/// `ops`: strictly sorted, modified holding exactly the union of edited
/// and written, read holding exactly the read paths not modified.
pub open spec fn classified_file_lists(
    ops: FileOperations,
    out_read: Seq<Seq<char>>,
    out_modified: Seq<Seq<char>>,
) -> bool {
    &&& strictly_sorted(out_read)
    &&& strictly_sorted(out_modified)
    &&& forall|y: Seq<char>|
        #[trigger] seq_has(out_modified, y) <==> (seq_has(str_views(ops.edited@), y) || seq_has(
            str_views(ops.written@),
            y,
        ))
    &&& forall|y: Seq<char>|
        #[trigger] seq_has(out_read, y) <==> (seq_has(str_views(ops.read@), y) && !seq_has(
            str_views(ops.edited@),
            y,
        ) && !seq_has(str_views(ops.written@), y))
}

/// Validates the batch, extracts metadata from the full message batch
/// (validation filters nothing), and formats the two sections; fails
/// exactly when the batch does not fit.
pub fn prepare_compaction(
    messages: Vec<Message>,
    file_ops: FileOperations,
    max_input_tokens: u32,
) -> (r: Result<PreparedCompaction, CompactionError>)
    ensures
        r is Ok <==> fits(messages@, max_input_tokens as nat),
        r is Err ==> {
            &&& r->Err_0.input_tokens as nat == clamp_u32(input_tokens_of(messages@))
            &&& r->Err_0.max_input_tokens == max_input_tokens
        },
        r is Ok ==> {
            &&& r->Ok_0.input_tokens as nat == input_tokens_of(messages@)
            &&& failure_views(r->Ok_0.metadata.tool_failures@) == failures_of(messages@)
            &&& classified_file_lists(
                file_ops,
                str_views(r->Ok_0.metadata.files_read@),
                str_views(r->Ok_0.metadata.files_modified@),
            )
            &&& r->Ok_0.failures_section@ == failures_section_view(failures_of(messages@))
            &&& r->Ok_0.files_section@ == files_section_view(
                str_views(r->Ok_0.metadata.files_read@),
                str_views(r->Ok_0.metadata.files_modified@),
            )
        },
{
    let raw = estimate_messages_tokens_in(&messages);
    let input: u64 = ((raw as u64) * 6 + 4) / 5;
    let limit: u64 = (max_input_tokens as u64) * 3 / 4;
    if input > limit {
        let reported: u32 = if input > u32::MAX as u64 {
            u32::MAX
        } else {
            input as u32
        };
        return Err(CompactionError { input_tokens: reported, max_input_tokens });
    }
    let tool_failures = extract_tool_failures_in(&messages);
    let file_lists = compute_file_lists(file_ops);
    let failures_section = format_tool_failures_section_in(&tool_failures);
    let files_section = format_file_operations_section_in(
        &file_lists.files_read,
        &file_lists.files_modified,
    );
    Ok(
        PreparedCompaction {
            input_tokens: input as u32,
            metadata: CompactionMetadata {
                tool_failures,
                files_read: file_lists.files_read,
                files_modified: file_lists.files_modified,
            },
            failures_section,
            files_section,
        },
    )
}

/// Assembles the final text: the summary, then the failures section, then
/// the files section, concatenated with nothing added between them.
pub fn assemble_summary(summary: String, failures_section: String, files_section: String) -> (r:
    String)
    ensures
        r@ == summary@ + failures_section@ + files_section@,
{
    let mut out = summary;
    out.append(failures_section.as_str());
    out.append(files_section.as_str());
    out
}

/// Preparing and then assembling reproduces exactly what the extraction
/// and formatting functions yield on the same inputs: the sections a
/// successful preparation carries are the ones obtained by extracting
/// tool failures and classifying file operations directly, so the
/// assembled text is the same either way.
pub proof fn lemma_prepare_assemble_round_trip(
    summary: Seq<char>,
    msgs: Seq<Message>,
    ops: FileOperations,
    direct_failures: Seq<ToolFailure>,
    direct_read: Seq<Seq<char>>,
    direct_modified: Seq<Seq<char>>,
    prepared_read: Seq<Seq<char>>,
    prepared_modified: Seq<Seq<char>>,
)
    requires
        failure_views(direct_failures) == failures_of(msgs),
        classified_file_lists(ops, direct_read, direct_modified),
        classified_file_lists(ops, prepared_read, prepared_modified),
    ensures
        summary + failures_section_view(failures_of(msgs)) + files_section_view(
            prepared_read,
            prepared_modified,
        ) == summary + failures_section_view(failure_views(direct_failures))
            + files_section_view(direct_read, direct_modified),
{
    lemma_sorted_unique_canonical(prepared_read, direct_read);
    lemma_sorted_unique_canonical(prepared_modified, direct_modified);
}

} // verus!
