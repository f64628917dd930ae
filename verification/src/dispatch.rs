//! The directive dispatcher: what each key does with its value.

use vstd::prelude::*;
use crate::directive::{Directive, DirectiveView};
use crate::error::ErrorKind;
use crate::text::{end_of_last, env_suffix, find_last, from_chars, skip_spaces, skip_whitespace, suffix_of, to_chars};

verus! {

/// One of the three sequences that a translation fills.
#[derive(Clone, Copy, Debug, PartialEq, Eq, Structural, Hash)]
pub enum Bucket {
    /// Arguments for the compiler of this package.
    RustcArguments,
    /// Arguments that the packages depending on this one get too.
    RustcPropagatedArguments,
    /// Assignments of environment variables.
    EnvironmentVariables,
}

/// How serious a message of the build script is.
#[derive(Clone, Copy, Debug, PartialEq, Eq, Structural, Hash)]
pub enum Severity {
    Warning,
    Error,
}

/// The rows of the table of directives.
#[derive(Clone, Copy, Debug, PartialEq, Eq, Structural, Hash)]
pub enum KeyClass {
    RustcCfg,
    RustcCheckCfg,
    RustcEnv,
    RustcLinkLib,
    RustcLinkSearch,
    /// `include`, `root`, `conf`, `version_number`, `static`: metadata for the
    /// packages that depend on this one.
    Namespaced,
    RustcLinkArgBenches,
    /// A warning of the build script: a message, nothing else.
    Warning,
    /// An error message of the build script: a message too, which by itself
    /// does not stop the translation.
    Error,
    /// Keys that are read and have no effect.
    Ignored,
    /// Keys that are known and deliberately not supported.
    Unimplemented,
    /// Any other key. It stops the translation: a directive that nobody knows
    /// is never passed over in silence.
    Unknown,
}

/// The row of the table that `key` belongs to. Keys are compared exactly.
pub open spec fn class_of(key: Seq<char>) -> KeyClass {
    if key == "rustc-cfg"@ {
        KeyClass::RustcCfg
    } else if key == "rustc-check-cfg"@ {
        KeyClass::RustcCheckCfg
    } else if key == "rustc-env"@ {
        KeyClass::RustcEnv
    } else if key == "rustc-link-lib"@ {
        KeyClass::RustcLinkLib
    } else if key == "rustc-link-search"@ {
        KeyClass::RustcLinkSearch
    } else if key == "include"@ || key == "root"@ || key == "conf"@ || key == "version_number"@
        || key == "static"@ {
        KeyClass::Namespaced
    } else if key == "rustc-link-arg-benches"@ {
        KeyClass::RustcLinkArgBenches
    } else if key == "warning"@ {
        KeyClass::Warning
    } else if key == "error"@ {
        KeyClass::Error
    } else if key == "lib_dir"@ || key == "rerun-if-changed"@ || key == "rerun-if-env-changed"@
        || key == "rerun-if-changed-bin"@ || key == "rerun-if-changed-glob"@ || key
        == "rerun-if-changed-dir"@ || key == "rerun-if-changed-recursive"@ || key
        == "rerun-if-changed-env"@ {
        KeyClass::Ignored
    } else if key == "rustc-cdylib-link-arg"@ || key == "rustc-link-arg-cdylib"@ || key
        == "rustc-link-arg-bin"@ || key == "rustc-link-arg-bins"@ || key == "rustc-link-arg-tests"@
        || key == "rustc-link-arg-examples"@ || key == "rustc-flags"@ || key == "rustc-link-arg"@
        || key == "metadata"@ {
        KeyClass::Unimplemented
    } else {
        KeyClass::Unknown
    }
}

/// Looks `key` up in the table of directives.
pub fn classify(key: &str) -> (class: KeyClass)
    ensures
        class == class_of(key@),
{
    if key.eq("rustc-cfg") {
        KeyClass::RustcCfg
    } else if key.eq("rustc-check-cfg") {
        KeyClass::RustcCheckCfg
    } else if key.eq("rustc-env") {
        KeyClass::RustcEnv
    } else if key.eq("rustc-link-lib") {
        KeyClass::RustcLinkLib
    } else if key.eq("rustc-link-search") {
        KeyClass::RustcLinkSearch
    } else if key.eq("include") || key.eq("root") || key.eq("conf") || key.eq("version_number")
        || key.eq("static") {
        KeyClass::Namespaced
    } else if key.eq("rustc-link-arg-benches") {
        KeyClass::RustcLinkArgBenches
    } else if key.eq("warning") {
        KeyClass::Warning
    } else if key.eq("error") {
        KeyClass::Error
    } else if key.eq("lib_dir") || key.eq("rerun-if-changed") || key.eq("rerun-if-env-changed")
        || key.eq("rerun-if-changed-bin") || key.eq("rerun-if-changed-glob") || key.eq(
        "rerun-if-changed-dir",
    ) || key.eq("rerun-if-changed-recursive") || key.eq("rerun-if-changed-env") {
        KeyClass::Ignored
    } else if key.eq("rustc-cdylib-link-arg") || key.eq("rustc-link-arg-cdylib") || key.eq(
        "rustc-link-arg-bin",
    ) || key.eq("rustc-link-arg-bins") || key.eq("rustc-link-arg-tests") || key.eq(
        "rustc-link-arg-examples",
    ) || key.eq("rustc-flags") || key.eq("rustc-link-arg") || key.eq("metadata") {
        KeyClass::Unimplemented
    } else {
        KeyClass::Unknown
    }
}

/// A string for one bucket.
#[derive(Clone, Debug, PartialEq, Eq)]
pub struct Entry {
    pub bucket: Bucket,
    pub text: String,
}

pub ghost struct EntryView {
    pub bucket: Bucket,
    pub text: Seq<char>,
}

impl View for Entry {
    type V = EntryView;

    open spec fn view(&self) -> EntryView {
        EntryView { bucket: self.bucket, text: self.text@ }
    }
}

/// What one directive does.
#[derive(Clone, Debug, PartialEq, Eq)]
pub enum Outcome {
    /// One string goes to the end of one bucket.
    Append(Entry),
    /// Two strings go to the ends of their buckets, the first before the second.
    AppendBoth(Entry, Entry),
    /// Nothing happens.
    Ignore,
    /// A message goes to the side channel; no bucket changes.
    Diagnostic(Severity, String),
    /// The translation stops.
    Fail(ErrorKind),
}

pub ghost enum OutcomeView {
    Append(EntryView),
    AppendBoth(EntryView, EntryView),
    Ignore,
    Diagnostic(Severity, Seq<char>),
    Fail(ErrorKind),
}

impl View for Outcome {
    type V = OutcomeView;

    open spec fn view(&self) -> OutcomeView {
        match self {
            Outcome::Append(e) => OutcomeView::Append(e@),
            Outcome::AppendBoth(a, b) => OutcomeView::AppendBoth(a@, b@),
            Outcome::Ignore => OutcomeView::Ignore,
            Outcome::Diagnostic(s, m) => OutcomeView::Diagnostic(*s, m@),
            Outcome::Fail(k) => OutcomeView::Fail(*k),
        }
    }
}

/// The links name as text.
pub open spec fn namespace(links: Option<String>) -> Option<Seq<char>> {
    match links {
        Some(name) => Some(name@),
        None => None,
    }
}

/// `head`, then `value` between single quotes. Quotes inside `value` stay as
/// they are.
pub open spec fn quoted(head: Seq<char>, value: Seq<char>) -> Seq<char> {
    head + "'"@ + value + "'"@
}

/// The environment assignment that `rustc-env` makes of `value`: the name is
/// what stands before the last `=` and is not empty, the content is what
/// follows that `=` and the whitespace after it.
pub open spec fn env_assignment(value: Seq<char>) -> Option<Seq<char>> {
    let end = end_of_last(value, '=', value.len() as int);
    if end < 2 {
        None
    } else {
        let start = skip_spaces(value, end);
        Some(quoted(value.subrange(0, end - 1) + "="@, value.subrange(start, value.len() as int)))
    }
}

/// The mode of a `rustc-link-search` value `<mode>=<path>`: what stands before
/// the last `=` that has something on both sides.
pub open spec fn search_mode(value: Seq<char>) -> Option<Seq<char>> {
    if value.len() == 0 {
        None
    } else {
        let end = end_of_last(value, '=', value.len() - 1);
        if end < 2 {
            None
        } else {
            Some(value.subrange(0, end - 1))
        }
    }
}

/// The name `DEP_<links>_<SUFFIX>` that a metadata key gets.
pub open spec fn dep_name(links: Seq<char>, key: Seq<char>) -> Seq<char> {
    "DEP_"@ + links + "_"@ + env_suffix(key)
}

/// The table of directives: what the directive `d` does, given the links name
/// of the package.
pub open spec fn outcome(d: DirectiveView, links: Option<Seq<char>>) -> OutcomeView {
    match class_of(d.key) {
        KeyClass::RustcCfg => OutcomeView::Append(
            EntryView { bucket: Bucket::RustcArguments, text: quoted("--cfg "@, d.value) },
        ),
        KeyClass::RustcCheckCfg => OutcomeView::Append(
            EntryView { bucket: Bucket::RustcArguments, text: quoted("--check-cfg "@, d.value) },
        ),
        KeyClass::RustcEnv => match env_assignment(d.value) {
            Some(text) => OutcomeView::Append(
                EntryView { bucket: Bucket::EnvironmentVariables, text },
            ),
            None => OutcomeView::Fail(ErrorKind::MalformedCompoundValue),
        },
        KeyClass::RustcLinkLib => OutcomeView::Append(
            EntryView { bucket: Bucket::RustcArguments, text: quoted("-l "@, d.value) },
        ),
        KeyClass::RustcLinkSearch => match search_mode(d.value) {
            Some(mode) => OutcomeView::AppendBoth(
                EntryView { bucket: Bucket::RustcPropagatedArguments, text: quoted("-L "@, d.value) },
                EntryView { bucket: Bucket::RustcArguments, text: "-L \""@ + mode + "=$out\""@ },
            ),
            None => OutcomeView::Fail(ErrorKind::MalformedCompoundValue),
        },
        KeyClass::Namespaced => match links {
            Some(name) => OutcomeView::Append(
                EntryView {
                    bucket: Bucket::EnvironmentVariables,
                    text: quoted(dep_name(name, d.key) + "="@, d.value),
                },
            ),
            None => OutcomeView::Fail(ErrorKind::MissingNamespace),
        },
        KeyClass::RustcLinkArgBenches => OutcomeView::Append(
            EntryView { bucket: Bucket::RustcArguments, text: quoted("-C link-arg="@, d.value) },
        ),
        KeyClass::Warning => OutcomeView::Diagnostic(Severity::Warning, d.value),
        KeyClass::Error => OutcomeView::Diagnostic(Severity::Error, d.value),
        KeyClass::Ignored => OutcomeView::Ignore,
        KeyClass::Unimplemented => OutcomeView::Fail(ErrorKind::UnimplementedDirective),
        KeyClass::Unknown => OutcomeView::Fail(ErrorKind::UnknownDirective),
    }
}

fn quote(head: &str, value: &str) -> (out: String)
    ensures
        out@ == quoted(head@, value@),
{
    let mut out = String::from_str(head);
    out.append("'");
    out.append(value);
    out.append("'");
    out
}

fn assign_env(value: &str) -> (out: Option<String>)
    ensures
        match env_assignment(value@) {
            Some(text) => out is Some && out->Some_0@ == text,
            None => out is None,
        },
{
    let chars = to_chars(value);
    let end = find_last(&chars, '=', chars.len());
    if end < 2 {
        return None;
    }
    let start = skip_whitespace(&chars, end);
    let mut name = from_chars(&chars, 0, end - 1);
    name.append("=");
    let content = from_chars(&chars, start, chars.len());
    Some(quote(name.as_str(), content.as_str()))
}

fn mode_of(value: &str) -> (out: Option<String>)
    ensures
        match search_mode(value@) {
            Some(mode) => out is Some && out->Some_0@ == mode,
            None => out is None,
        },
{
    let chars = to_chars(value);
    if chars.len() == 0 {
        return None;
    }
    let end = find_last(&chars, '=', chars.len() - 1);
    if end < 2 {
        return None;
    }
    Some(from_chars(&chars, 0, end - 1))
}

fn name_dep(links: &str, key: &str) -> (out: String)
    ensures
        out@ == dep_name(links@, key@),
{
    let mut out = String::from_str("DEP_");
    out.append(links);
    out.append("_");
    let suffix = suffix_of(key);
    out.append(suffix.as_str());
    out
}

/// Decides what `directive` does. `links` is the links name of the package,
/// in upper case, where the caller has one.
pub fn dispatch(directive: &Directive, links: &Option<String>) -> (o: Outcome)
    ensures
        o@ == outcome(directive@, namespace(*links)),
{
    let value = directive.value.as_str();
    match classify(directive.key.as_str()) {
        KeyClass::RustcCfg => Outcome::Append(
            Entry { bucket: Bucket::RustcArguments, text: quote("--cfg ", value) },
        ),
        KeyClass::RustcCheckCfg => Outcome::Append(
            Entry { bucket: Bucket::RustcArguments, text: quote("--check-cfg ", value) },
        ),
        KeyClass::RustcEnv => match assign_env(value) {
            Some(text) => Outcome::Append(Entry { bucket: Bucket::EnvironmentVariables, text }),
            None => Outcome::Fail(ErrorKind::MalformedCompoundValue),
        },
        KeyClass::RustcLinkLib => Outcome::Append(
            Entry { bucket: Bucket::RustcArguments, text: quote("-l ", value) },
        ),
        KeyClass::RustcLinkSearch => match mode_of(value) {
            Some(mode) => {
                let mut own = String::from_str("-L \"");
                own.append(mode.as_str());
                own.append("=$out\"");
                Outcome::AppendBoth(
                    Entry { bucket: Bucket::RustcPropagatedArguments, text: quote("-L ", value) },
                    Entry { bucket: Bucket::RustcArguments, text: own },
                )
            },
            None => Outcome::Fail(ErrorKind::MalformedCompoundValue),
        },
        KeyClass::Namespaced => match links {
            Some(name) => {
                let mut head = name_dep(name.as_str(), directive.key.as_str());
                head.append("=");
                Outcome::Append(
                    Entry { bucket: Bucket::EnvironmentVariables, text: quote(head.as_str(), value) },
                )
            },
            None => Outcome::Fail(ErrorKind::MissingNamespace),
        },
        KeyClass::RustcLinkArgBenches => Outcome::Append(
            Entry { bucket: Bucket::RustcArguments, text: quote("-C link-arg=", value) },
        ),
        KeyClass::Warning => Outcome::Diagnostic(Severity::Warning, directive.value.clone()),
        KeyClass::Error => Outcome::Diagnostic(Severity::Error, directive.value.clone()),
        KeyClass::Ignored => Outcome::Ignore,
        KeyClass::Unimplemented => Outcome::Fail(ErrorKind::UnimplementedDirective),
        KeyClass::Unknown => Outcome::Fail(ErrorKind::UnknownDirective),
    }
}

} // verus!
