//! The directive parser: one line of the document to a key and a value.

use vstd::prelude::*;
use crate::error::{ErrorKind, ErrorView, TranslateError};
use crate::text::{find, from_chars, index_of, skip_spaces, skip_whitespace, to_chars, trim, trimmed};

verus! {

/// One `cargo:<key>=<value>` instruction.
#[derive(Clone, Debug, PartialEq, Eq)]
pub struct Directive {
    pub key: String,
    pub value: String,
}

pub ghost struct DirectiveView {
    pub key: Seq<char>,
    pub value: Seq<char>,
}

impl View for Directive {
    type V = DirectiveView;

    open spec fn view(&self) -> DirectiveView {
        DirectiveView { key: self.key@, value: self.value@ }
    }
}

/// What a line of the document is.
pub ghost enum Parsed {
    /// The line does not start with `cargo:` and is passed over.
    Skipped,
    /// The line starts with `cargo:` and is no directive.
    Malformed,
    Found(DirectiveView),
}

/// The text `cargo:`.
pub open spec fn prefix() -> Seq<char> {
    seq!['c', 'a', 'r', 'g', 'o', ':']
}

pub open spec fn has_prefix(t: Seq<char>) -> bool {
    t.len() >= 6 && t.subrange(0, 6) == prefix()
}

/// The grammar of a line. Whitespace around the line does not count. After
/// `cargo:` the key runs up to the first `=` and is not empty; the value is
/// what follows that `=` and the whitespace after it, and is not empty.
pub open spec fn parse(line: Seq<char>) -> Parsed {
    let t = trim(line);
    if !has_prefix(t) {
        Parsed::Skipped
    } else {
        let eq = index_of(t, '=', 6);
        let start = skip_spaces(t, eq + 1);
        if eq == 6 || eq >= t.len() || start >= t.len() {
            Parsed::Malformed
        } else {
            Parsed::Found(
                DirectiveView { key: t.subrange(6, eq), value: t.subrange(start, t.len() as int) },
            )
        }
    }
}

fn starts_with_prefix(t: &Vec<char>) -> (b: bool)
    ensures
        b == has_prefix(t@),
{
    if t.len() < 6 {
        return false;
    }
    let b = t[0] == 'c' && t[1] == 'a' && t[2] == 'r' && t[3] == 'g' && t[4] == 'o' && t[5] == ':';
    proof {
        if b {
            assert(t@.subrange(0, 6) =~= prefix());
        } else {
            assert(forall|i: int| 0 <= i < 6 ==> t@.subrange(0, 6)[i] == t@[i]);
        }
    }
    b
}

/// Parses one line of the document. A line that is no directive gives `None`;
/// a line that starts with `cargo:` and does not follow the grammar is an error
/// that carries `line_number` and the line.
pub fn parse_line(line: &str, line_number: usize) -> (r: Result<Option<Directive>, TranslateError>)
    ensures
        match parse(line@) {
            Parsed::Skipped => r == Ok::<Option<Directive>, TranslateError>(None),
            Parsed::Malformed => r is Err && r->Err_0@ == (ErrorView {
                kind: ErrorKind::MalformedDirective,
                line_number: line_number as nat,
                line: line@,
                key: Seq::empty(),
            }),
            Parsed::Found(d) => r is Ok && r->Ok_0 is Some && r->Ok_0->Some_0@ == d,
        },
{
    let chars = to_chars(line);
    let t = trimmed(&chars);
    if !starts_with_prefix(&t) {
        return Ok(None);
    }
    let eq = find(&t, '=', 6);
    if eq == 6 || eq >= t.len() {
        return Err(
            TranslateError {
                kind: ErrorKind::MalformedDirective,
                line_number,
                line: String::from_str(line),
                key: String::new(),
            },
        );
    }
    let start = skip_whitespace(&t, eq + 1);
    if start >= t.len() {
        return Err(
            TranslateError {
                kind: ErrorKind::MalformedDirective,
                line_number,
                line: String::from_str(line),
                key: String::new(),
            },
        );
    }
    let key = from_chars(&t, 6, eq);
    let value = from_chars(&t, start, t.len());
    Ok(Some(Directive { key, value }))
}

} // verus!
