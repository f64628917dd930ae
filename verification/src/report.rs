//! The diagnostic reporter: the document as numbered lines, one of them marked.

use vstd::prelude::*;
use colored::Colorize;
use crate::text::{decimal, push_decimal, lines, split_lines, texts};

verus! {

/// `Colorize::red` of the crate `colored`, written out as a string. Whether the
/// text comes back with colour codes around it depends on the terminal and on
/// the environment, so nothing is claimed of the result.
#[verifier::external_body]
fn emphasized(text: &str) -> (out: String) {
    text.red().to_string()
}

/// The number of a line in a field of three characters, filled up with spaces
/// on the right; a longer number takes the room that it needs.
pub open spec fn number_field(n: nat) -> Seq<char> {
    if n < 10 {
        decimal(n) + "  "@
    } else if n < 100 {
        decimal(n) + " "@
    } else {
        decimal(n)
    }
}

/// One line of the report: the marker of the line that is pointed at or two
/// spaces, the line's number, four spaces, the text.
pub open spec fn report_line(marked: bool, number: nat, text: Seq<char>) -> Seq<char> {
    (if marked {
        "> "@
    } else {
        "  "@
    }) + number_field(number) + "    "@ + text
}

/// Lays out one line of the report.
pub fn render_line(marked: bool, number: usize, text: &str) -> (out: String)
    ensures
        out@ == report_line(marked, number as nat, text@),
{
    let mut out = String::from_str(
        if marked {
            "> "
        } else {
            "  "
        },
    );
    push_decimal(&mut out, number);
    if number < 10 {
        out.append("  ");
    } else if number < 100 {
        out.append(" ");
    }
    out.append("    ");
    out.append(text);
    assert(out@ =~= report_line(marked, number as nat, text@));
    out
}

/// The report on the document `input` that points at line `error_line`: one
/// string for each line, in order. Every other line stands in it as it is; the
/// line pointed at is marked, and its text is emphasized for a terminal.
pub fn document_with_error(input: &str, error_line: usize) -> (out: Vec<String>)
    ensures
        out.len() == lines(input@).len(),
        forall|i: int|
            0 <= i < out.len() && i != error_line ==> #[trigger] out[i]@ == report_line(
                false,
                i as nat,
                lines(input@)[i],
            ),
        error_line < out.len() ==> exists|shown: Seq<char>|
            out[error_line as int]@ == report_line(true, error_line as nat, shown),
{
    let document = split_lines(input);
    let mut out: Vec<String> = Vec::new();
    let mut i: usize = 0;
    while i < document.len()
        invariant
            i <= document.len(),
            texts(document@) == lines(input@),
            out.len() == i,
            forall|k: int|
                0 <= k < i && k != error_line ==> #[trigger] out[k]@ == report_line(
                    false,
                    k as nat,
                    lines(input@)[k],
                ),
            error_line < i ==> exists|shown: Seq<char>|
                out[error_line as int]@ == report_line(true, error_line as nat, shown),
        decreases document.len() - i,
    {
        assert(texts(document@)[i as int] == document[i as int]@);
        if i == error_line {
            let shown = emphasized(document[i].as_str());
            out.push(render_line(true, i, shown.as_str()));
            assert(out[error_line as int]@ == report_line(true, error_line as nat, shown@));
        } else {
            out.push(render_line(false, i, document[i].as_str()));
        }
        i += 1;
    }
    assert(texts(document@).len() == document.len());
    out
}

} // verus!
