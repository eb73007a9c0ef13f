//! The lines that tell the user how each commit fared.

use vstd::prelude::*;
use vstd::string::*;
use vstd::utf8::*;

use crate::outcome::{text_of, ExecutionOutcome, OutcomeView, Status};
use crate::report::RunReport;
use crate::text::{append_decimal, decimal_of, hex_of, trim, trimmed};

verus! {

/// Where a line is printed.
#[derive(Clone, Copy, Debug, PartialEq, Eq, Structural)]
pub enum Stream {
    /// Standard output.
    Output,
    /// Standard error.
    Error,
}

/// Where the lines of a commit that ended with `status` are printed: those
/// of a success on standard output, all others on standard error.
pub open spec fn stream_of(status: Status) -> Stream {
    if status == Status::Success {
        Stream::Output
    } else {
        Stream::Error
    }
}

/// Where the lines of `outcome` are printed.
pub fn stream_for(outcome: &ExecutionOutcome) -> (stream: Stream)
    ensures
        stream == stream_of(outcome@.status),
{
    match outcome.status() {
        Status::Success => Stream::Output,
        _ => Stream::Error,
    }
}

/// The line that names the commit and says how the command fared on it.
pub open spec fn headline(outcome: OutcomeView) -> Seq<char> {
    if outcome.status == Status::Success {
        "Commit "@ + hex_of(outcome.commit) + " successful"@
    } else {
        "Commit "@ + hex_of(outcome.commit) + " failed with exit code "@ + decimal_of(
            outcome.exit_code,
        )
    }
}

/// What follows the headline of a commit that did not succeed: the text of
/// its standard error, trimmed. There is none after a success, none where
/// the bytes are not text, and none where nothing is left after trimming.
pub open spec fn diagnostics(outcome: OutcomeView) -> Option<Seq<char>> {
    if outcome.status != Status::Success && valid_utf8(outcome.stderr) && trimmed(
        decode_utf8(outcome.stderr),
    ).len() > 0 {
        Some(trimmed(decode_utf8(outcome.stderr)))
    } else {
        None
    }
}

/// Everything that is printed for one commit: the headline, and the
/// diagnostics where there are any.
pub open spec fn outcome_lines(outcome: OutcomeView) -> Seq<Seq<char>> {
    match diagnostics(outcome) {
        Some(text) => seq![headline(outcome), text],
        None => seq![headline(outcome)],
    }
}

/// Everything that is printed for a run: for each commit in range order what
/// is printed for it, and for an empty range the notice that says so.
pub open spec fn report_lines(report: Seq<OutcomeView>) -> Seq<Seq<char>> {
    if report.len() == 0 {
        seq!["no commits in range"@]
    } else {
        all_outcome_lines(report)
    }
}

/// What is printed for each of `outcomes`, one after the other.
pub open spec fn all_outcome_lines(outcomes: Seq<OutcomeView>) -> Seq<Seq<char>>
    decreases outcomes.len(),
{
    if outcomes.len() == 0 {
        Seq::empty()
    } else {
        all_outcome_lines(outcomes.drop_last()) + outcome_lines(outcomes.last())
    }
}

/// The texts of a list of lines.
pub open spec fn texts_of(lines: Seq<String>) -> Seq<Seq<char>> {
    lines.map_values(|line: String| line@)
}

/// The notice for a range without commits.
pub fn empty_range_notice() -> (notice: String)
    ensures
        notice@ == "no commits in range"@,
{
    String::from_str("no commits in range")
}

/// The headline of `outcome`.
pub fn render_headline(outcome: &ExecutionOutcome) -> (line: String)
    ensures
        line@ == headline(outcome@),
{
    let mut line = String::from_str("Commit ");
    let commit = outcome.commit().to_hex();
    line.append(commit.as_str());
    match outcome.status() {
        Status::Success => {
            line.append(" successful");
        },
        _ => {
            line.append(" failed with exit code ");
            append_decimal(&mut line, outcome.exit_code());
        },
    }
    line
}

/// The diagnostics of `outcome`, where there are any.
pub fn render_diagnostics(outcome: &ExecutionOutcome) -> (text: Option<String>)
    ensures
        match diagnostics(outcome@) {
            Some(expected) => text is Some && text->0@ == expected,
            None => text is None,
        },
{
    match outcome.status() {
        Status::Success => None,
        _ => match text_of(outcome.stderr().as_slice()) {
            None => None,
            Some(raw) => {
                proof {
                    encode_utf8_decode_utf8(raw@);
                }
                let text = trim(raw);
                if text.as_str().is_empty() {
                    None
                } else {
                    Some(text)
                }
            },
        },
    }
}

/// Appends what is printed for `outcome` to `lines`.
pub fn push_outcome_lines(lines: &mut Vec<String>, outcome: &ExecutionOutcome)
    ensures
        texts_of(final(lines)@) == texts_of(old(lines)@) + outcome_lines(outcome@),
{
    let line = render_headline(outcome);
    lines.push(line);
    match render_diagnostics(outcome) {
        Some(text) => {
            lines.push(text);
        },
        None => {},
    }
}

/// What is printed for `outcome`.
pub fn render_outcome(outcome: &ExecutionOutcome) -> (lines: Vec<String>)
    ensures
        texts_of(lines@) == outcome_lines(outcome@),
{
    let mut lines: Vec<String> = Vec::new();
    push_outcome_lines(&mut lines, outcome);
    lines
}

/// What is printed for a run, in range order.
pub fn render_report(report: &RunReport) -> (lines: Vec<String>)
    ensures
        texts_of(lines@) == report_lines(report@),
{
    let mut lines: Vec<String> = Vec::new();
    let total = report.len();
    if total == 0 {
        lines.push(empty_range_notice());
        return lines;
    }
    let mut i: usize = 0;
    while i < total
        invariant
            i <= total == report@.len(),
            texts_of(lines@) == all_outcome_lines(report@.take(i as int)),
        decreases total - i,
    {
        match report.get(i) {
            Some(outcome) => {
                proof {
                    let next = report@.take(i as int + 1);
                    assert(next.drop_last() =~= report@.take(i as int));
                }
                push_outcome_lines(&mut lines, outcome);
            },
            None => {},
        }
        i += 1;
    }
    assert(report@.take(total as int) =~= report@);
    lines
}

} // verus!
