//! The translation of a whole document: every line is parsed and dispatched
//! in order, and the three buckets are filled.

use vstd::prelude::*;
use crate::directive::{parse, parse_line, Parsed};
use crate::dispatch::{dispatch, namespace, outcome, Bucket, Entry, EntryView, Outcome, OutcomeView, Severity};
use crate::error::{ErrorKind, ErrorView, TranslateError};
use crate::text::{join, joined, lemma_texts_push, lines, split_lines, texts};

verus! {

/// A message that the build script addressed to the person who builds.
#[derive(Clone, Debug, PartialEq, Eq)]
pub struct Diagnostic {
    pub severity: Severity,
    pub message: String,
    /// Zero-based number of the line that carried the message.
    pub line_number: usize,
}

pub ghost struct DiagnosticView {
    pub severity: Severity,
    pub message: Seq<char>,
    pub line_number: nat,
}

impl View for Diagnostic {
    type V = DiagnosticView;

    open spec fn view(&self) -> DiagnosticView {
        DiagnosticView {
            severity: self.severity,
            message: self.message@,
            line_number: self.line_number as nat,
        }
    }
}

/// A message as it is shown on a terminal: the severity in bold, yellow for a
/// warning and red for an error, then a colon, a space and the message.
pub open spec fn note_text(d: DiagnosticView) -> Seq<char> {
    (match d.severity {
        Severity::Warning => "\x1b[1;33mwarning\x1b[0m: "@,
        Severity::Error => "\x1b[1;31merror\x1b[0m: "@,
    }) + d.message
}

impl Diagnostic {
    /// The message as it is shown on a terminal.
    pub fn text(&self) -> (out: String)
        ensures
            out@ == note_text(self@),
    {
        let mut out = String::from_str(
            match self.severity {
                Severity::Warning => "\x1b[1;33mwarning\x1b[0m: ",
                Severity::Error => "\x1b[1;31merror\x1b[0m: ",
            },
        );
        out.append(self.message.as_str());
        out
    }
}

/// The views of the diagnostics of `v`, in order.
pub open spec fn notes(v: Seq<Diagnostic>) -> Seq<DiagnosticView> {
    Seq::new(v.len(), |i: int| v[i]@)
}

/// What a translation returns: the three buckets.
#[derive(Clone, Debug, PartialEq, Eq)]
pub struct TheResult {
    pub rustc_arguments: Vec<String>,
    pub rustc_propagated_arguments: Vec<String>,
    pub environment_variables: Vec<String>,
}

pub ghost struct TheResultView {
    pub rustc_arguments: Seq<Seq<char>>,
    pub rustc_propagated_arguments: Seq<Seq<char>>,
    pub environment_variables: Seq<Seq<char>>,
}

impl TheResultView {
    pub open spec fn bucket(self, b: Bucket) -> Seq<Seq<char>> {
        match b {
            Bucket::RustcArguments => self.rustc_arguments,
            Bucket::RustcPropagatedArguments => self.rustc_propagated_arguments,
            Bucket::EnvironmentVariables => self.environment_variables,
        }
    }
}

impl View for TheResult {
    type V = TheResultView;

    open spec fn view(&self) -> TheResultView {
        TheResultView {
            rustc_arguments: texts(self.rustc_arguments@),
            rustc_propagated_arguments: texts(self.rustc_propagated_arguments@),
            environment_variables: texts(self.environment_variables@),
        }
    }
}

/// What `entry` adds to bucket `b`.
pub open spec fn entry_in(entry: EntryView, b: Bucket) -> Seq<Seq<char>> {
    if entry.bucket == b {
        seq![entry.text]
    } else {
        Seq::empty()
    }
}

/// What an outcome adds to bucket `b`.
pub open spec fn entries(o: OutcomeView, b: Bucket) -> Seq<Seq<char>> {
    match o {
        OutcomeView::Append(e) => entry_in(e, b),
        OutcomeView::AppendBoth(first, second) => entry_in(first, b) + entry_in(second, b),
        _ => Seq::empty(),
    }
}

/// What an outcome on line `line_number` sends to the side channel.
pub open spec fn said(o: OutcomeView, line_number: int) -> Seq<DiagnosticView> {
    match o {
        OutcomeView::Diagnostic(severity, message) => seq![
            DiagnosticView { severity, message, line_number: line_number as nat },
        ],
        _ => Seq::empty(),
    }
}

/// The separator between the strings of a bucket when they are written out.
pub open spec fn separator(b: Bucket) -> Seq<char> {
    match b {
        Bucket::EnvironmentVariables => "\n"@,
        _ => " "@,
    }
}

/// The name of the file that holds a bucket.
pub open spec fn file_name(b: Bucket) -> Seq<char> {
    match b {
        Bucket::RustcArguments => "rustc-arguments"@,
        Bucket::RustcPropagatedArguments => "rustc-propagated-arguments"@,
        Bucket::EnvironmentVariables => "environment-variables"@,
    }
}

impl Bucket {
    /// The separator between the strings of this bucket when they are written
    /// out: a space between arguments, a line feed between assignments.
    pub fn separator(&self) -> (sep: &'static str)
        ensures
            sep@ == separator(*self),
    {
        match self {
            Bucket::EnvironmentVariables => "\n",
            _ => " ",
        }
    }

    /// The name of the file that holds this bucket.
    pub fn file_name(&self) -> (name: &'static str)
        ensures
            name@ == file_name(*self),
    {
        match self {
            Bucket::RustcArguments => "rustc-arguments",
            Bucket::RustcPropagatedArguments => "rustc-propagated-arguments",
            Bucket::EnvironmentVariables => "environment-variables",
        }
    }
}

impl TheResult {
    /// Three empty buckets.
    pub fn new() -> (r: TheResult)
        ensures
            forall|b: Bucket| r@.bucket(b) == Seq::<Seq<char>>::empty(),
    {
        let r = TheResult {
            rustc_arguments: Vec::new(),
            rustc_propagated_arguments: Vec::new(),
            environment_variables: Vec::new(),
        };
        assert forall|b: Bucket| r@.bucket(b) == Seq::<Seq<char>>::empty() by {
            assert(r@.bucket(b) =~= Seq::<Seq<char>>::empty());
        }
        r
    }

    /// The strings of bucket `b`.
    pub fn bucket(&self, b: Bucket) -> (v: &Vec<String>)
        ensures
            texts(v@) == self@.bucket(b),
    {
        match b {
            Bucket::RustcArguments => &self.rustc_arguments,
            Bucket::RustcPropagatedArguments => &self.rustc_propagated_arguments,
            Bucket::EnvironmentVariables => &self.environment_variables,
        }
    }

    /// Puts `entry` at the end of its bucket.
    pub fn push(&mut self, entry: Entry)
        ensures
            forall|b: Bucket|
                #[trigger] final(self)@.bucket(b) == old(self)@.bucket(b) + entry_in(entry@, b),
    {
        let ghost before = self@;
        let Entry { bucket, text } = entry;
        proof {
            lemma_texts_push(self.rustc_arguments@, text);
            lemma_texts_push(self.rustc_propagated_arguments@, text);
            lemma_texts_push(self.environment_variables@, text);
        }
        match bucket {
            Bucket::RustcArguments => self.rustc_arguments.push(text),
            Bucket::RustcPropagatedArguments => self.rustc_propagated_arguments.push(text),
            Bucket::EnvironmentVariables => self.environment_variables.push(text),
        }
        assert forall|b: Bucket| #[trigger]
            self@.bucket(b) == before.bucket(b) + entry_in(entry@, b) by {
            assert(self@.bucket(b) =~= before.bucket(b) + entry_in(entry@, b));
        }
    }

    /// Bucket `b` as one text: its strings in order, with the bucket's
    /// separator between them.
    pub fn joined(&self, b: Bucket) -> (out: String)
        ensures
            out@ == joined(self@.bucket(b), separator(b)),
    {
        join(self.bucket(b), b.separator())
    }
}

/// What a line of the document does.
pub open spec fn line_outcome(line: Seq<char>, links: Option<Seq<char>>) -> OutcomeView {
    match parse(line) {
        Parsed::Skipped => OutcomeView::Ignore,
        Parsed::Malformed => OutcomeView::Fail(ErrorKind::MalformedDirective),
        Parsed::Found(d) => outcome(d, links),
    }
}

/// The key that the error for a line names.
pub open spec fn line_key(line: Seq<char>) -> Seq<char> {
    match parse(line) {
        Parsed::Found(d) => d.key,
        _ => Seq::empty(),
    }
}

/// The first line at or after `from` that stops the translation, or the
/// number of lines.
pub open spec fn first_failure(doc: Seq<Seq<char>>, links: Option<Seq<char>>, from: int) -> int
    decreases doc.len() - from,
{
    if 0 <= from < doc.len() && !(line_outcome(doc[from], links) is Fail) {
        first_failure(doc, links, from + 1)
    } else {
        from
    }
}

/// What the first `n` lines add to bucket `b`, in the order of the lines.
pub open spec fn appended(doc: Seq<Seq<char>>, links: Option<Seq<char>>, b: Bucket, n: int) -> Seq<
    Seq<char>,
>
    decreases n,
{
    if n <= 0 || n > doc.len() {
        Seq::empty()
    } else {
        appended(doc, links, b, n - 1) + entries(line_outcome(doc[n - 1], links), b)
    }
}

/// What the first `n` lines send to the side channel, in the order of the lines.
pub open spec fn emitted(doc: Seq<Seq<char>>, links: Option<Seq<char>>, n: int) -> Seq<
    DiagnosticView,
>
    decreases n,
{
    if n <= 0 || n > doc.len() {
        Seq::empty()
    } else {
        emitted(doc, links, n - 1) + said(line_outcome(doc[n - 1], links), n - 1)
    }
}

/// The error that line `at` of the document stops the translation with.
pub open spec fn failure(doc: Seq<Seq<char>>, links: Option<Seq<char>>, at: int) -> ErrorView {
    ErrorView {
        kind: line_outcome(doc[at], links)->Fail_0,
        line_number: at as nat,
        line: doc[at],
        key: line_key(doc[at]),
    }
}

/// The translation of a document, given the links name of the package: the
/// error of the first line that fails, or, where no line fails, the buckets
/// with what every line adds, in the order of the lines.
pub open spec fn translation(doc: Seq<Seq<char>>, links: Option<Seq<char>>) -> Result<
    TheResultView,
    ErrorView,
> {
    let stop = first_failure(doc, links, 0);
    if stop < doc.len() {
        Err(failure(doc, links, stop))
    } else {
        Ok(
            TheResultView {
                rustc_arguments: appended(doc, links, Bucket::RustcArguments, doc.len() as int),
                rustc_propagated_arguments: appended(
                    doc,
                    links,
                    Bucket::RustcPropagatedArguments,
                    doc.len() as int,
                ),
                environment_variables: appended(
                    doc,
                    links,
                    Bucket::EnvironmentVariables,
                    doc.len() as int,
                ),
            },
        )
    }
}

/// What a translation sends to the side channel: the messages of the lines
/// before the first one that fails.
pub open spec fn side_channel(doc: Seq<Seq<char>>, links: Option<Seq<char>>) -> Seq<
    DiagnosticView,
> {
    emitted(doc, links, first_failure(doc, links, 0))
}

/// Whether `r` is the translation of the document `input`.
pub open spec fn is_translation(
    r: Result<TheResult, TranslateError>,
    input: Seq<char>,
    links: Option<Seq<char>>,
) -> bool {
    match translation(lines(input), links) {
        Ok(v) => r is Ok && r->Ok_0@ == v,
        Err(e) => r is Err && r->Err_0@ == e,
    }
}

/// Translates the document `input`. `links` is the links name of the package,
/// in upper case, where the caller has one. The messages of the build script
/// go to the end of `side`. A line that fails ends the translation: no bucket
/// is returned then.
pub fn handle_content(input: String, links: Option<String>, side: &mut Vec<Diagnostic>) -> (r:
    Result<TheResult, TranslateError>)
    ensures
        is_translation(r, input@, namespace(links)),
        notes(final(side)@) == notes(old(side)@) + side_channel(lines(input@), namespace(links)),
{
    let document = split_lines(input.as_str());
    let ghost doc = lines(input@);
    let ghost ns = namespace(links);
    let mut result = TheResult::new();
    let mut i: usize = 0;
    assert(notes(side@) =~= notes(old(side)@) + emitted(doc, ns, 0));
    while i < document.len()
        invariant
            i <= document.len(),
            texts(document@) == doc,
            doc == lines(input@),
            ns == namespace(links),
            first_failure(doc, ns, 0) == first_failure(doc, ns, i as int),
            forall|b: Bucket| #[trigger] result@.bucket(b) == appended(doc, ns, b, i as int),
            notes(side@) == notes(old(side)@) + emitted(doc, ns, i as int),
        decreases document.len() - i,
    {
        let ghost before = result@;
        let ghost told = side@;
        assert(doc[i as int] == document[i as int]@);
        match parse_line(document[i].as_str(), i) {
            Err(e) => {
                assert(line_outcome(doc[i as int], ns) is Fail);
                assert(first_failure(doc, ns, i as int) == i);
                return Err(e);
            },
            Ok(None) => {
                assert forall|b: Bucket| #[trigger]
                    result@.bucket(b) == appended(doc, ns, b, i + 1) by {
                    assert(before.bucket(b) + Seq::<Seq<char>>::empty() =~= before.bucket(b));
                }
                assert(emitted(doc, ns, i + 1) =~= emitted(doc, ns, i as int));
            },
            Ok(Some(directive)) => {
                match dispatch(&directive, &links) {
                    Outcome::Append(entry) => {
                        result.push(entry);
                        assert(emitted(doc, ns, i + 1) =~= emitted(doc, ns, i as int));
                    },
                    Outcome::AppendBoth(first, second) => {
                        result.push(first);
                        result.push(second);
                        assert forall|b: Bucket| #[trigger]
                            result@.bucket(b) == appended(doc, ns, b, i + 1) by {
                            assert(before.bucket(b) + entry_in(first@, b) + entry_in(second@, b)
                                =~= before.bucket(b) + (entry_in(first@, b) + entry_in(
                                second@,
                                b,
                            )));
                        }
                        assert(emitted(doc, ns, i + 1) =~= emitted(doc, ns, i as int));
                    },
                    Outcome::Ignore => {
                        assert forall|b: Bucket| #[trigger]
                            result@.bucket(b) == appended(doc, ns, b, i + 1) by {
                            assert(before.bucket(b) + Seq::<Seq<char>>::empty() =~= before.bucket(
                                b,
                            ));
                        }
                        assert(emitted(doc, ns, i + 1) =~= emitted(doc, ns, i as int));
                    },
                    Outcome::Diagnostic(severity, message) => {
                        let note = Diagnostic { severity, message, line_number: i };
                        side.push(note);
                        assert forall|b: Bucket| #[trigger]
                            result@.bucket(b) == appended(doc, ns, b, i + 1) by {
                            assert(before.bucket(b) + Seq::<Seq<char>>::empty() =~= before.bucket(
                                b,
                            ));
                        }
                        assert(notes(side@) =~= notes(told).push(note@));
                        assert(notes(side@) =~= notes(old(side)@) + emitted(doc, ns, i + 1));
                    },
                    Outcome::Fail(kind) => {
                        assert(line_outcome(doc[i as int], ns) is Fail);
                        assert(first_failure(doc, ns, i as int) == i);
                        return Err(
                            TranslateError {
                                kind,
                                line_number: i,
                                line: document[i].clone(),
                                key: directive.key,
                            },
                        );
                    },
                }
            },
        }
        i += 1;
    }
    proof {
        let v = translation(doc, ns)->Ok_0;
        assert(result@.bucket(Bucket::RustcArguments) == v.rustc_arguments);
        assert(result@.bucket(Bucket::RustcPropagatedArguments) == v.rustc_propagated_arguments);
        assert(result@.bucket(Bucket::EnvironmentVariables) == v.environment_variables);
    }
    Ok(result)
}

} // verus!
