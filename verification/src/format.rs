//! Section formatting: bounded text blocks for tool failures and file
//! operations, with fixed markers other components parse against.

use vstd::prelude::*;
use vstd::string::StringExecFns;

use crate::extract::FailureView;
use crate::extract::failure_view;
use crate::extract::failure_views;
use crate::text::decimal_of;
use crate::text::decimal_of_int;
use crate::text::i32_to_decimal;
use crate::text::join_strings;
use crate::text::join_with;
use crate::text::str_views;
use crate::text::u64_to_decimal;
use crate::types::ToolFailure;

verus! {

/// Maximum failures rendered in full; the rest are summed up in one
/// trailing line.
pub const MAX_TOOL_FAILURES: usize = 8;

/// The suffix naming an exit code, or nothing when there is none.
pub open spec fn exit_suffix(exit: Option<int>) -> Seq<char> {
    match exit {
        Some(c) => " (exit "@ + decimal_of_int(c) + ")"@,
        None => Seq::empty(),
    }
}

/// One rendered failure bullet.
pub open spec fn failure_line(f: FailureView) -> Seq<char> {
    "- "@ + f.name + exit_suffix(f.exit) + ": "@ + f.summary
}

/// The trailing line counting failures past the rendering limit.
pub open spec fn more_line(n: nat) -> Seq<char> {
    "- ...and "@ + decimal_of(n) + " more"@
}

/// The lines of the failures section: the first eight failures as
/// bullets, then one counting line when more exist.
pub open spec fn failure_lines(fs: Seq<FailureView>) -> Seq<Seq<char>> {
    if fs.len() > MAX_TOOL_FAILURES {
        fs.take(MAX_TOOL_FAILURES as int).map_values(|f: FailureView| failure_line(f)).push(
            more_line((fs.len() - MAX_TOOL_FAILURES) as nat),
        )
    } else {
        fs.map_values(|f: FailureView| failure_line(f))
    }
}

/// The failures section: empty for no failures, else a heading and the
/// lines joined by newlines.
pub open spec fn failures_section_view(fs: Seq<FailureView>) -> Seq<char> {
    if fs.len() == 0 {
        Seq::empty()
    } else {
        "\n\n## Tool Failures\n"@ + join_with(failure_lines(fs), "\n"@)
    }
}

fn render_failure_line(f: &ToolFailure) -> (r: String)
    ensures
        r@ == failure_line(failure_view(*f)),
{
    let mut line = String::from_str("- ");
    line.append(f.tool_name.as_str());
    match f.exit_code {
        Some(c) => {
            line.append(" (exit ");
            let digits = i32_to_decimal(c);
            line.append(digits.as_str());
            line.append(")");
        },
        None => {},
    }
    line.append(": ");
    line.append(f.error_summary.as_str());
    proof {
        assert(line@ =~= failure_line(failure_view(*f)));
    }
    line
}

pub(crate) fn format_tool_failures_section_in(failures: &Vec<ToolFailure>) -> (r: String)
    ensures
        r@ == failures_section_view(failure_views(failures@)),
{
    let ghost fvs = failure_views(failures@);
    let ghost lines = failure_lines(fvs);
    if failures.len() == 0 {
        let r = String::new();
        assert(r@ == failures_section_view(fvs));
        return r;
    }
    let shown: usize = if failures.len() > MAX_TOOL_FAILURES {
        MAX_TOOL_FAILURES
    } else {
        failures.len()
    };
    proof {
        assert(fvs.len() == failures@.len());
        if failures@.len() > MAX_TOOL_FAILURES {
            assert(lines.len() == MAX_TOOL_FAILURES + 1);
        } else {
            assert(lines.len() == fvs.len());
        }
    }
    let mut out = String::from_str("\n\n## Tool Failures\n");
    proof {
        assert(out@ =~= "\n\n## Tool Failures\n"@ + join_with(lines.take(0), "\n"@));
    }
    let mut i: usize = 0;
    while i < shown
        invariant
            0 < failures@.len(),
            fvs == failure_views(failures@),
            lines == failure_lines(fvs),
            shown <= failures@.len(),
            shown <= MAX_TOOL_FAILURES,
            shown as int == if failures@.len() > MAX_TOOL_FAILURES {
                MAX_TOOL_FAILURES as int
            } else {
                failures@.len() as int
            },
            i <= shown,
            out@ == "\n\n## Tool Failures\n"@ + join_with(lines.take(i as int), "\n"@),
        decreases shown - i,
    {
        proof {
            if fvs.len() > MAX_TOOL_FAILURES {
                assert(lines[i as int] == failure_line(
                    fvs.take(MAX_TOOL_FAILURES as int)[i as int],
                ));
            }
            assert(lines[i as int] == failure_line(failure_view(failures@[i as int])));
        }
        if i > 0 {
            out.append("\n");
        }
        let line = render_failure_line(&failures[i]);
        out.append(line.as_str());
        proof {
            assert(lines.take(i + 1).drop_last() =~= lines.take(i as int));
            assert(lines.take(i + 1).last() == lines[i as int]);
            if i == 0 {
                assert(out@ =~= "\n\n## Tool Failures\n"@ + join_with(lines.take(1), "\n"@));
            }
        }
        i = i + 1;
    }
    if failures.len() > MAX_TOOL_FAILURES {
        out.append("\n");
        out.append("- ...and ");
        let rest = u64_to_decimal((failures.len() - MAX_TOOL_FAILURES) as u64);
        out.append(rest.as_str());
        out.append(" more");
        proof {
            assert(lines.drop_last() =~= lines.take(shown as int));
            assert(lines.last() == more_line((fvs.len() - MAX_TOOL_FAILURES) as nat));
            assert(out@ =~= "\n\n## Tool Failures\n"@ + join_with(lines, "\n"@));
        }
    } else {
        proof {
            assert(lines.take(shown as int) =~= lines);
        }
    }
    out
}

/// Renders the tool-failures section: one bullet per failure up to eight,
/// then a counting line for any remainder; empty when there are none.
pub fn format_tool_failures_section(failures: Vec<ToolFailure>) -> (r: String)
    ensures
        r@ == failures_section_view(failure_views(failures@)),
{
    format_tool_failures_section_in(&failures)
}

/// The tagged block listing read files.
pub open spec fn read_block(r: Seq<Seq<char>>) -> Seq<char> {
    "<read-files>\n"@ + join_with(r, "\n"@) + "\n</read-files>"@
}

/// The tagged block listing modified files.
pub open spec fn modified_block(m: Seq<Seq<char>>) -> Seq<char> {
    "<modified-files>\n"@ + join_with(m, "\n"@) + "\n</modified-files>"@
}

/// The file-operations section: the non-empty blocks joined by a blank
/// line after a leading blank line; empty when both lists are empty.
pub open spec fn files_section_view(r: Seq<Seq<char>>, m: Seq<Seq<char>>) -> Seq<char> {
    if r.len() == 0 && m.len() == 0 {
        Seq::empty()
    } else if m.len() == 0 {
        "\n\n"@ + read_block(r)
    } else if r.len() == 0 {
        "\n\n"@ + modified_block(m)
    } else {
        "\n\n"@ + read_block(r) + "\n\n"@ + modified_block(m)
    }
}

pub(crate) fn format_file_operations_section_in(
    files_read: &Vec<String>,
    files_modified: &Vec<String>,
) -> (r: String)
    ensures
        r@ == files_section_view(str_views(files_read@), str_views(files_modified@)),
{
    let ghost rv = str_views(files_read@);
    let ghost mv = str_views(files_modified@);
    if files_read.len() == 0 && files_modified.len() == 0 {
        let r = String::new();
        assert(r@ == files_section_view(rv, mv));
        return r;
    }
    let mut out = String::from_str("\n\n");
    if files_read.len() > 0 {
        out.append("<read-files>\n");
        let joined = join_strings(files_read, "\n");
        out.append(joined.as_str());
        out.append("\n</read-files>");
    }
    if files_read.len() > 0 && files_modified.len() > 0 {
        out.append("\n\n");
    }
    if files_modified.len() > 0 {
        out.append("<modified-files>\n");
        let joined = join_strings(files_modified, "\n");
        out.append(joined.as_str());
        out.append("\n</modified-files>");
    }
    proof {
        assert(out@ =~= files_section_view(rv, mv));
    }
    out
}

/// Renders the file-operations section from the two lists.
pub fn format_file_operations_section(files_read: Vec<String>, files_modified: Vec<String>) -> (r:
    String)
    ensures
        r@ == files_section_view(str_views(files_read@), str_views(files_modified@)),
{
    format_file_operations_section_in(&files_read, &files_modified)
}

} // verus!
