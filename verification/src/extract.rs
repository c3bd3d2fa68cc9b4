//! Metadata extraction: collecting tool failures from a message sequence
//! and classifying file operations into read and modified lists.

use vstd::prelude::*;
use vstd::string::StrSliceExecFns;
use vstd::string::StringExecFns;

use crate::estimate::content_text;
use crate::estimate::extract_text_from_content;
use crate::text::insert_sorted_unique;
use crate::text::normalize_whitespace;
use crate::text::normalized_ws;
use crate::text::seq_has;
use crate::text::str_views;
use crate::text::strictly_sorted;
use crate::text::vec_has_string;
use crate::types::FileListsResult;
use crate::types::FileOperations;
use crate::types::Message;
use crate::types::ToolFailure;

verus! {

/// Maximum characters kept of one failure's normalized error text.
pub const MAX_FAILURE_CHARS: usize = 240;

/// The view of a collected tool failure: its fields as mathematical
/// values.
pub ghost struct FailureView {
    pub id: Seq<char>,
    pub name: Seq<char>,
    pub summary: Seq<char>,
    pub exit: Option<int>,
}

/// Whether a message records a tool failure that can be collected: a tool
/// result, explicitly flagged as an error, carrying a tool-call
/// identifier.
pub open spec fn is_failure_message(m: Message) -> bool {
    m.role@ == "toolResult"@ && m.is_error == Some(true) && m.tool_call_id is Some
}

/// The bound applied to an already normalized error text: a fixed phrase
/// when it is empty, truncation with a trailing ellipsis past the
/// character limit, else the text itself.
pub open spec fn failure_summary_from_normalized(n: Seq<char>) -> Seq<char> {
    if n.len() == 0 {
        "failed (no output)"@
    } else if n.len() > MAX_FAILURE_CHARS {
        n.take(MAX_FAILURE_CHARS - 3) + "..."@
    } else {
        n
    }
}

/// The bounded error summary: the text with whitespace runs collapsed and
/// ends trimmed, then bounded.
pub open spec fn failure_summary(text: Seq<char>) -> Seq<char> {
    failure_summary_from_normalized(normalized_ws(text))
}

/// The failure record a qualifying message yields.
pub open spec fn failure_of(m: Message) -> FailureView {
    FailureView {
        id: m.tool_call_id->0@,
        name: match m.tool_name {
            Some(n) => n@,
            None => "tool"@,
        },
        summary: failure_summary(content_text(m.content)),
        exit: match m.details {
            Some(d) => match d.exit_code {
                Some(c) => Some(c as int),
                None => None,
            },
            None => None,
        },
    }
}

/// Whether `fs` already holds a failure with the given identifier.
pub open spec fn has_failure_id(fs: Seq<FailureView>, id: Seq<char>) -> bool {
    exists|i: int| 0 <= i < fs.len() && fs[i].id == id
}

/// The failures collected from a message sequence, in first-occurrence
/// order, one per tool-call identifier.
pub open spec fn failures_of(msgs: Seq<Message>) -> Seq<FailureView>
    decreases msgs.len(),
{
    if msgs.len() == 0 {
        Seq::empty()
    } else {
        let prev = failures_of(msgs.drop_last());
        let m = msgs.last();
        if is_failure_message(m) && !has_failure_id(prev, m.tool_call_id->0@) {
            prev.push(failure_of(m))
        } else {
            prev
        }
    }
}

/// The view of an executable failure record.
pub open spec fn failure_view(f: ToolFailure) -> FailureView {
    FailureView {
        id: f.tool_call_id@,
        name: f.tool_name@,
        summary: f.error_summary@,
        exit: match f.exit_code {
            Some(c) => Some(c as int),
            None => None,
        },
    }
}

/// The views of a sequence of executable failure records.
pub open spec fn failure_views(fs: Seq<ToolFailure>) -> Seq<FailureView> {
    fs.map_values(|f: ToolFailure| failure_view(f))
}

fn truncate_summary(normalized: String) -> (r: String)
    ensures
        r@ == failure_summary_from_normalized(normalized@),
{
    if normalized.as_str().is_empty() {
        String::from_str("failed (no output)")
    } else {
        let len = normalized.as_str().unicode_len();
        if len > MAX_FAILURE_CHARS {
            let mut t = normalized.as_str().substring_char(0, MAX_FAILURE_CHARS - 3).to_owned();
            t.append("...");
            proof {
                assert(normalized@.subrange(0, MAX_FAILURE_CHARS - 3 as int) =~= normalized@.take(
                    MAX_FAILURE_CHARS - 3 as int,
                ));
            }
            t
        } else {
            normalized
        }
    }
}

pub(crate) fn extract_tool_failures_in(messages: &Vec<Message>) -> (r: Vec<ToolFailure>)
    ensures
        failure_views(r@) == failures_of(messages@),
{
    let tool_result_tag: String = String::from_str("toolResult");
    let default_name: String = String::from_str("tool");
    let mut failures: Vec<ToolFailure> = Vec::new();
    let mut i: usize = 0;
    while i < messages.len()
        invariant
            tool_result_tag@ == "toolResult"@,
            default_name@ == "tool"@,
            i <= messages@.len(),
            failure_views(failures@) == failures_of(messages@.take(i as int)),
        decreases messages@.len() - i,
    {
        proof {
            assert(messages@.take(i + 1).drop_last() =~= messages@.take(i as int));
            assert(messages@.take(i + 1).last() == messages@[i as int]);
        }
        let ghost prev = failures_of(messages@.take(i as int));
        let m = &messages[i];
        if m.role.eq(&tool_result_tag) {
            let is_err = match m.is_error {
                Some(b) => b,
                None => false,
            };
            if is_err {
                match &m.tool_call_id {
                    Some(id) => {
                        if !failures_have_id(&failures, id) {
                            let text = extract_text_from_content(&m.content);
                            let normalized = normalize_whitespace(text.as_str());
                            let summary = truncate_summary(normalized);
                            let name = match &m.tool_name {
                                Some(n) => n.clone(),
                                None => default_name.clone(),
                            };
                            let exit_code = match &m.details {
                                Some(d) => d.exit_code,
                                None => None,
                            };
                            let record = ToolFailure {
                                tool_call_id: id.clone(),
                                tool_name: name,
                                error_summary: summary,
                                exit_code,
                            };
                            proof {
                                assert(failure_view(record) == failure_of(messages@[i as int]));
                            }
                            failures.push(record);
                            proof {
                                assert(failure_views(failures@) =~= prev.push(
                                    failure_of(messages@[i as int]),
                                ));
                            }
                        }
                    },
                    None => {},
                }
            }
        }
        i = i + 1;
    }
    proof {
        assert(messages@.take(messages@.len() as int) =~= messages@);
    }
    failures
}

fn failures_have_id(failures: &Vec<ToolFailure>, id: &String) -> (r: bool)
    ensures
        r == has_failure_id(failure_views(failures@), id@),
{
    let mut i: usize = 0;
    while i < failures.len()
        invariant
            i <= failures@.len(),
            forall|j: int| 0 <= j < i ==> failure_views(failures@)[j].id != id@,
        decreases failures@.len() - i,
    {
        if failures[i].tool_call_id.eq(id) {
            assert(failure_views(failures@)[i as int].id == id@);
            return true;
        }
        i = i + 1;
    }
    false
}

/// Collects tool failures from a message batch: one record per tool-call
/// identifier, first occurrence winning, in order of first occurrence; a
/// message that is not a tool result, is not flagged as an error, or has
/// no identifier contributes nothing.
pub fn extract_tool_failures(messages: Vec<Message>) -> (r: Vec<ToolFailure>)
    ensures
        failure_views(r@) == failures_of(messages@),
{
    extract_tool_failures_in(&messages)
}

/// Collected failures carry pairwise distinct tool-call identifiers:
/// later messages reusing an identifier are discarded.
pub proof fn lemma_failures_deduplicated(msgs: Seq<Message>)
    ensures
        forall|i: int, j: int|
            0 <= i < j < failures_of(msgs).len() ==> (#[trigger] failures_of(msgs)[i]).id != (
            #[trigger] failures_of(msgs)[j]).id,
    decreases msgs.len(),
{
    if msgs.len() > 0 {
        lemma_failures_deduplicated(msgs.drop_last());
    }
}

/// Appending a message that is not a collectable failure, or whose
/// identifier was already collected, leaves the collected failures
/// unchanged; appending a fresh failure appends exactly its record.
pub proof fn lemma_failures_step(msgs: Seq<Message>, m: Message)
    ensures
        !(is_failure_message(m) && !has_failure_id(failures_of(msgs), m.tool_call_id->0@))
            ==> failures_of(msgs.push(m)) == failures_of(msgs),
        is_failure_message(m) && !has_failure_id(failures_of(msgs), m.tool_call_id->0@)
            ==> failures_of(msgs.push(m)) == failures_of(msgs).push(failure_of(m)),
{
    assert(msgs.push(m).drop_last() =~= msgs);
    assert(msgs.push(m).last() == m);
}

/// Every collected failure is the record of some qualifying message of
/// the batch: a message that is not a tool result, not flagged as an
/// error, or without an identifier never contributes one.
pub proof fn lemma_failures_come_from_messages(msgs: Seq<Message>)
    ensures
        forall|k: int|
            0 <= k < failures_of(msgs).len() ==> exists|i: int|
                0 <= i < msgs.len() && is_failure_message(#[trigger] msgs[i]) && (
                #[trigger] failures_of(msgs)[k]) == failure_of(msgs[i]),
    decreases msgs.len(),
{
    if msgs.len() > 0 {
        lemma_failures_come_from_messages(msgs.drop_last());
        let prev = failures_of(msgs.drop_last());
        assert forall|k: int| 0 <= k < failures_of(msgs).len() implies exists|i: int|
            0 <= i < msgs.len() && is_failure_message(#[trigger] msgs[i]) && (
        #[trigger] failures_of(msgs)[k]) == failure_of(msgs[i]) by {
            if k < prev.len() {
                let i = choose|i: int|
                    0 <= i < msgs.drop_last().len() && is_failure_message(
                        #[trigger] msgs.drop_last()[i],
                    ) && prev[k] == failure_of(msgs.drop_last()[i]);
                assert(msgs.drop_last()[i] == msgs[i]);
                assert(is_failure_message(msgs[i]) && failures_of(msgs)[k] == failure_of(msgs[i]));
            } else {
                let i = msgs.len() - 1;
                assert(msgs.last() == msgs[i]);
                assert(is_failure_message(msgs[i]) && failures_of(msgs)[k] == failure_of(msgs[i]));
            }
        }
    }
}

/// A normalized error text longer than the limit is cut to exactly the
/// limit, the last three characters being the ellipsis.
pub proof fn lemma_summary_truncated(text: Seq<char>)
    requires
        normalized_ws(text).len() > MAX_FAILURE_CHARS,
    ensures
        failure_summary(text).len() == MAX_FAILURE_CHARS,
        failure_summary(text).skip(MAX_FAILURE_CHARS - 3) == "..."@,
{
    reveal_strlit("...");
    let n = normalized_ws(text);
    assert(failure_summary(text) == n.take(MAX_FAILURE_CHARS - 3) + "..."@);
    assert(failure_summary(text).skip(MAX_FAILURE_CHARS - 3) =~= "..."@);
}

/// Classifies file operations: modified is the union of edited and
/// written; read is the set of read paths not also modified; both lists
/// strictly sorted in code-point order, so free of duplicates.
pub fn compute_file_lists(file_ops: FileOperations) -> (r: FileListsResult)
    ensures
        strictly_sorted(str_views(r.files_modified@)),
        strictly_sorted(str_views(r.files_read@)),
        forall|y: Seq<char>|
            #[trigger] seq_has(str_views(r.files_modified@), y) <==> (seq_has(
                str_views(file_ops.edited@),
                y,
            ) || seq_has(str_views(file_ops.written@), y)),
        forall|y: Seq<char>|
            #[trigger] seq_has(str_views(r.files_read@), y) <==> (seq_has(
                str_views(file_ops.read@),
                y,
            ) && !seq_has(str_views(file_ops.edited@), y) && !seq_has(
                str_views(file_ops.written@),
                y,
            )),
{
    let mut modified: Vec<String> = Vec::new();
    let mut i: usize = 0;
    while i < file_ops.edited.len()
        invariant
            i <= file_ops.edited@.len(),
            strictly_sorted(str_views(modified@)),
            forall|y: Seq<char>|
                #[trigger] seq_has(str_views(modified@), y) <==> seq_has(
                    str_views(file_ops.edited@).take(i as int),
                    y,
                ),
        decreases file_ops.edited@.len() - i,
    {
        insert_sorted_unique(&mut modified, file_ops.edited[i].clone());
        proof {
            lemma_take_has(str_views(file_ops.edited@), i as int);
        }
        i = i + 1;
    }
    proof {
        assert(str_views(file_ops.edited@).take(file_ops.edited@.len() as int) =~= str_views(
            file_ops.edited@,
        ));
    }
    let mut j: usize = 0;
    while j < file_ops.written.len()
        invariant
            j <= file_ops.written@.len(),
            strictly_sorted(str_views(modified@)),
            forall|y: Seq<char>|
                #[trigger] seq_has(str_views(modified@), y) <==> (seq_has(
                    str_views(file_ops.edited@),
                    y,
                ) || seq_has(str_views(file_ops.written@).take(j as int), y)),
        decreases file_ops.written@.len() - j,
    {
        insert_sorted_unique(&mut modified, file_ops.written[j].clone());
        proof {
            lemma_take_has(str_views(file_ops.written@), j as int);
        }
        j = j + 1;
    }
    proof {
        assert(str_views(file_ops.written@).take(file_ops.written@.len() as int) =~= str_views(
            file_ops.written@,
        ));
    }
    let mut reads: Vec<String> = Vec::new();
    let mut k: usize = 0;
    while k < file_ops.read.len()
        invariant
            k <= file_ops.read@.len(),
            strictly_sorted(str_views(modified@)),
            strictly_sorted(str_views(reads@)),
            forall|y: Seq<char>|
                #[trigger] seq_has(str_views(modified@), y) <==> (seq_has(
                    str_views(file_ops.edited@),
                    y,
                ) || seq_has(str_views(file_ops.written@), y)),
            forall|y: Seq<char>|
                #[trigger] seq_has(str_views(reads@), y) <==> (seq_has(
                    str_views(file_ops.read@).take(k as int),
                    y,
                ) && !seq_has(str_views(modified@), y)),
        decreases file_ops.read@.len() - k,
    {
        if !vec_has_string(&modified, &file_ops.read[k]) {
            insert_sorted_unique(&mut reads, file_ops.read[k].clone());
        }
        proof {
            lemma_take_has(str_views(file_ops.read@), k as int);
        }
        k = k + 1;
    }
    proof {
        assert(str_views(file_ops.read@).take(file_ops.read@.len() as int) =~= str_views(
            file_ops.read@,
        ));
    }
    FileListsResult { files_read: reads, files_modified: modified }
}

proof fn lemma_take_has(v: Seq<Seq<char>>, i: int)
    requires
        0 <= i < v.len(),
    ensures
        forall|y: Seq<char>|
            #[trigger] seq_has(v.take(i + 1), y) <==> (seq_has(v.take(i), y) || y == v[i]),
{
    assert forall|y: Seq<char>| #[trigger]
        seq_has(v.take(i + 1), y) <==> (seq_has(v.take(i), y) || y == v[i]) by {
        if seq_has(v.take(i + 1), y) {
            let k = choose|k: int| 0 <= k < v.take(i + 1).len() && (#[trigger] v.take(i + 1)[k]) == y;
            if k < i {
                assert(v.take(i)[k] == y);
            }
        }
        if seq_has(v.take(i), y) {
            let k = choose|k: int| 0 <= k < v.take(i).len() && (#[trigger] v.take(i)[k]) == y;
            assert(v.take(i + 1)[k] == y);
        }
        if y == v[i] {
            assert(v.take(i + 1)[i] == y);
        }
    }
}

} // verus!
