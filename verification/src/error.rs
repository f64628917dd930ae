//! The failures that end a translation.

use vstd::prelude::*;
use crate::text::{decimal, push_decimal};

verus! {

/// Why a translation stopped.
#[derive(Clone, Copy, Debug, PartialEq, Eq, Structural, Hash)]
pub enum ErrorKind {
    /// A line starts with `cargo:` and is no `cargo:<key>=<value>`.
    MalformedDirective,
    /// The value of a directive does not split into the parts that its key asks for.
    MalformedCompoundValue,
    /// The key is known and deliberately not supported.
    UnimplementedDirective,
    /// The directive names an environment variable after the package's links
    /// name, and none was supplied.
    MissingNamespace,
    /// The key is not in the table of directives.
    UnknownDirective,
}

/// A fatal error, with the line that caused it.
#[derive(Clone, Debug, PartialEq, Eq)]
pub struct TranslateError {
    pub kind: ErrorKind,
    /// Zero-based number of the line in the document.
    pub line_number: usize,
    /// The line as it stands in the document.
    pub line: String,
    /// The directive's key; empty where the line has none.
    pub key: String,
}

pub ghost struct ErrorView {
    pub kind: ErrorKind,
    pub line_number: nat,
    pub line: Seq<char>,
    pub key: Seq<char>,
}

impl View for TranslateError {
    type V = ErrorView;

    open spec fn view(&self) -> ErrorView {
        ErrorView {
            kind: self.kind,
            line_number: self.line_number as nat,
            line: self.line@,
            key: self.key@,
        }
    }
}

/// The text that describes `e` to a person.
pub open spec fn message_text(e: ErrorView) -> Seq<char> {
    match e.kind {
        ErrorKind::MalformedDirective => "Unknown command to parse on line "@ + decimal(
            e.line_number,
        ) + ": '"@ + e.line + "'"@,
        ErrorKind::MalformedCompoundValue => "Unable to parse "@ + e.key + " argument at "@
            + decimal(e.line_number) + ": '"@ + e.line + "'"@,
        ErrorKind::UnimplementedDirective => "Command: '"@ + e.key + "' on line: '"@ + decimal(
            e.line_number,
        ) + "' not implemented yet!"@,
        ErrorKind::MissingNamespace => "Command: '"@ + e.key + "' on line: '"@ + decimal(
            e.line_number,
        ) + "' needs the links name of the package"@,
        ErrorKind::UnknownDirective => "Command: '"@ + e.key + "' on line: '"@ + decimal(
            e.line_number,
        ) + "' is not a known directive"@,
    }
}

impl TranslateError {
    /// The error's description.
    pub fn message(&self) -> (out: String)
        ensures
            out@ == message_text(self@),
    {
        let mut out = String::new();
        match self.kind {
            ErrorKind::MalformedDirective => {
                out.append("Unknown command to parse on line ");
                push_decimal(&mut out, self.line_number);
                out.append(": '");
                out.append(self.line.as_str());
                out.append("'");
            },
            ErrorKind::MalformedCompoundValue => {
                out.append("Unable to parse ");
                out.append(self.key.as_str());
                out.append(" argument at ");
                push_decimal(&mut out, self.line_number);
                out.append(": '");
                out.append(self.line.as_str());
                out.append("'");
            },
            ErrorKind::UnimplementedDirective => {
                out.append("Command: '");
                out.append(self.key.as_str());
                out.append("' on line: '");
                push_decimal(&mut out, self.line_number);
                out.append("' not implemented yet!");
            },
            ErrorKind::MissingNamespace => {
                out.append("Command: '");
                out.append(self.key.as_str());
                out.append("' on line: '");
                push_decimal(&mut out, self.line_number);
                out.append("' needs the links name of the package");
            },
            ErrorKind::UnknownDirective => {
                out.append("Command: '");
                out.append(self.key.as_str());
                out.append("' on line: '");
                push_decimal(&mut out, self.line_number);
                out.append("' is not a known directive");
            },
        }
        assert(out@ =~= message_text(self@));
        out
    }
}

} // verus!
