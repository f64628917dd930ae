//! What holds of every translation.

use vstd::prelude::*;
use crate::directive::{has_prefix, parse, prefix, DirectiveView, Parsed};
use crate::dispatch::{class_of, outcome, quoted, Bucket, EntryView, KeyClass, OutcomeView};
use crate::error::{ErrorKind, TranslateError};
use crate::text::{end_of_last, index_of, is_space, skip_spaces, skip_spaces_back, trim};
use crate::translate::{
    appended, entries, first_failure, is_translation, line_key, line_outcome, translation, TheResult,
};

verus! {

proof fn lemma_skip_spaces_stops(s: Seq<char>, from: int)
    requires
        0 <= from <= s.len(),
    ensures
        from <= skip_spaces(s, from) <= s.len(),
        skip_spaces(s, from) < s.len() ==> !is_space(s[skip_spaces(s, from)]),
    decreases s.len() - from,
{
    if from < s.len() && is_space(s[from]) {
        lemma_skip_spaces_stops(s, from + 1);
    }
}

proof fn lemma_skip_spaces_back_bounds(s: Seq<char>, to: int)
    requires
        0 <= to <= s.len(),
    ensures
        0 <= skip_spaces_back(s, to) <= to,
    decreases to,
{
    if 0 < to && is_space(s[to - 1]) {
        lemma_skip_spaces_back_bounds(s, to - 1);
    }
}

/// Two texts that agree from `from1` and `from2` on, up to a character that is
/// no whitespace, have the same number of whitespace characters there.
proof fn lemma_skip_spaces_agree(s1: Seq<char>, from1: int, s2: Seq<char>, from2: int, p: int)
    requires
        0 <= p,
        0 <= from1,
        0 <= from2,
        from1 + p < s1.len(),
        from2 + p < s2.len(),
        forall|k: int| from1 <= k <= from1 + p ==> #[trigger] s1[k] == s2[k + (from2 - from1)],
        !is_space(s1[from1 + p]),
    ensures
        skip_spaces(s1, from1) - from1 == skip_spaces(s2, from2) - from2,
        skip_spaces(s1, from1) <= from1 + p,
    decreases p,
{
    assert(s1[from1] == s2[from1 + (from2 - from1)]);
    if is_space(s1[from1]) {
        lemma_skip_spaces_agree(s1, from1 + 1, s2, from2 + 1, p - 1);
    }
}

/// Two texts that agree before `to1` and `to2`, back to a character that is
/// no whitespace, end in the same number of whitespace characters there.
proof fn lemma_skip_spaces_back_agree(s1: Seq<char>, to1: int, s2: Seq<char>, to2: int, p: int)
    requires
        1 <= p <= to1 <= s1.len(),
        p <= to2 <= s2.len(),
        forall|k: int| to1 - p <= k < to1 ==> #[trigger] s1[k] == s2[k + (to2 - to1)],
        !is_space(s1[to1 - p]),
    ensures
        to1 - skip_spaces_back(s1, to1) == to2 - skip_spaces_back(s2, to2),
        skip_spaces_back(s1, to1) > to1 - p,
    decreases p,
{
    assert(s1[to1 - 1] == s2[to1 - 1 + (to2 - to1)]);
    if is_space(s1[to1 - 1]) {
        lemma_skip_spaces_back_agree(s1, to1 - 1, s2, to2 - 1, p - 1);
    }
}

proof fn lemma_index_of_first(s: Seq<char>, c: char, from: int, at: int)
    requires
        0 <= from <= at < s.len(),
        s[at] == c,
        forall|k: int| from <= k < at ==> s[k] != c,
    ensures
        index_of(s, c, from) == at,
    decreases at - from,
{
    if from < at {
        lemma_index_of_first(s, c, from + 1, at);
    }
}

/// A line made of `cargo:`, a key without `=`, one `=` and a rest that holds
/// more than whitespace is the directive of that key, and its value is the
/// rest without the whitespace around it.
pub proof fn lemma_parse_directive(key: Seq<char>, rest: Seq<char>)
    requires
        key.len() > 0,
        forall|i: int| 0 <= i < key.len() ==> key[i] != '=',
        trim(rest).len() > 0,
    ensures
        parse(prefix() + key + seq!['='] + rest) == Parsed::Found(
            DirectiveView { key, value: trim(rest) },
        ),
{
    let head = prefix() + key + seq!['='];
    let line = head + rest;
    let h = head.len() as int;
    let from = skip_spaces(rest, 0);
    let to = skip_spaces_back(rest, rest.len() as int);
    assert(from < to);
    lemma_skip_spaces_stops(rest, 0);
    lemma_skip_spaces_back_bounds(rest, rest.len() as int);
    assert(!is_space(rest[from]));
    // the end of the line is the end of the rest
    lemma_skip_spaces_back_agree(
        line,
        line.len() as int,
        rest,
        rest.len() as int,
        rest.len() - from,
    );
    let end = skip_spaces_back(line, line.len() as int);
    assert(end == h + to);
    assert(line[0] == 'c');
    assert(skip_spaces(line, 0) == 0);
    let t = trim(line);
    assert(t =~= line.subrange(0, end));
    assert(t.subrange(0, 6) =~= prefix());
    assert(has_prefix(t));
    let eq = 6 + key.len() as int;
    assert(t[eq] == '=');
    assert forall|k: int| 6 <= k < eq implies t[k] != '=' by {
        assert(t[k] == key[k - 6]);
    }
    lemma_index_of_first(t, '=', 6, eq);
    lemma_skip_spaces_agree(t, h, rest, 0, from);
    assert(skip_spaces(t, eq + 1) == h + from);
    assert(t.subrange(6, eq) =~= key);
    assert(t.subrange(h + from, t.len() as int) =~= rest.subrange(from, to));
}

/// A line `cargo:rustc-cfg=V`, where `V` holds more than whitespace, adds
/// `--cfg 'V'` to the compiler arguments, `V` taken without the whitespace
/// around it, and nothing to the other buckets.
pub proof fn law_rustc_cfg(value: Seq<char>, links: Option<Seq<char>>)
    requires
        trim(value).len() > 0,
    ensures
        line_outcome("cargo:rustc-cfg="@ + value, links) == OutcomeView::Append(
            EntryView { bucket: Bucket::RustcArguments, text: quoted("--cfg "@, trim(value)) },
        ),
        entries(line_outcome("cargo:rustc-cfg="@ + value, links), Bucket::RustcArguments) == seq![
            quoted("--cfg "@, trim(value)),
        ],
{
    reveal_strlit("cargo:rustc-cfg=");
    reveal_strlit("rustc-cfg");
    let key = "rustc-cfg"@;
    assert("cargo:rustc-cfg="@ + value =~= prefix() + key + seq!['='] + value);
    lemma_parse_directive(key, value);
}

/// A line `cargo:rustc-check-cfg=V`, where `V` holds more than whitespace,
/// adds `--check-cfg 'V'` to the compiler arguments, `V` taken without the
/// whitespace around it, and nothing to the other buckets.
pub proof fn law_rustc_check_cfg(value: Seq<char>, links: Option<Seq<char>>)
    requires
        trim(value).len() > 0,
    ensures
        line_outcome("cargo:rustc-check-cfg="@ + value, links) == OutcomeView::Append(
            EntryView { bucket: Bucket::RustcArguments, text: quoted("--check-cfg "@, trim(value)) },
        ),
        entries(line_outcome("cargo:rustc-check-cfg="@ + value, links), Bucket::RustcArguments)
            == seq![quoted("--check-cfg "@, trim(value))],
{
    reveal_strlit("cargo:rustc-check-cfg=");
    reveal_strlit("rustc-check-cfg");
    reveal_strlit("rustc-cfg");
    let key = "rustc-check-cfg"@;
    assert("cargo:rustc-check-cfg="@ + value =~= prefix() + key + seq!['='] + value);
    lemma_parse_directive(key, value);
}

/// A value without `=` is no environment assignment: `rustc-env` fails on it.
pub proof fn law_rustc_env_needs_equals(value: Seq<char>, links: Option<Seq<char>>)
    requires
        forall|i: int| 0 <= i < value.len() ==> value[i] != '=',
    ensures
        outcome(DirectiveView { key: "rustc-env"@, value }, links) == OutcomeView::Fail(
            ErrorKind::MalformedCompoundValue,
        ),
{
    reveal_strlit("rustc-env");
    reveal_strlit("rustc-check-cfg");
    reveal_strlit("rustc-cfg");
    assert("rustc-env"@[6] != "rustc-cfg"@[6]);
    assert("rustc-env"@.len() != "rustc-check-cfg"@.len());
    lemma_end_of_last_absent(value, '=', value.len() as int);
}

proof fn lemma_end_of_last_found(s: Seq<char>, c: char, to: int, at: int)
    requires
        0 <= at < to <= s.len(),
        s[at] == c,
        forall|i: int| at < i < to ==> s[i] != c,
    ensures
        end_of_last(s, c, to) == at + 1,
    decreases to,
{
    if to > at + 1 {
        lemma_end_of_last_found(s, c, to - 1, at);
    }
}

/// A directive `rustc-link-search` with the value `<mode>=<path>`, where the
/// path holds no `=`, adds `-L '<mode>=<path>'` to the propagated arguments
/// and `-L "<mode>=$out"` to the compiler arguments: the path is left out.
pub proof fn law_link_search(mode: Seq<char>, path: Seq<char>, links: Option<Seq<char>>)
    requires
        mode.len() > 0,
        path.len() > 0,
        forall|i: int| 0 <= i < path.len() ==> path[i] != '=',
    ensures
        outcome(DirectiveView { key: "rustc-link-search"@, value: mode + seq!['='] + path }, links)
            == OutcomeView::AppendBoth(
            EntryView {
                bucket: Bucket::RustcPropagatedArguments,
                text: quoted("-L "@, mode + seq!['='] + path),
            },
            EntryView { bucket: Bucket::RustcArguments, text: "-L \""@ + mode + "=$out\""@ },
        ),
{
    reveal_strlit("rustc-link-search");
    reveal_strlit("rustc-link-lib");
    reveal_strlit("rustc-env");
    reveal_strlit("rustc-check-cfg");
    reveal_strlit("rustc-cfg");
    assert("rustc-link-search"@.len() == 17);
    let value = mode + seq!['='] + path;
    let at = mode.len() as int;
    assert(value[at] == '=');
    assert forall|i: int| at < i < value.len() - 1 implies value[i] != '=' by {
        assert(value[i] == path[i - at - 1]);
    }
    lemma_end_of_last_found(value, '=', value.len() - 1, at);
    assert(value.subrange(0, at) =~= mode);
}

proof fn lemma_end_of_last_absent(s: Seq<char>, c: char, to: int)
    requires
        0 <= to <= s.len(),
        forall|i: int| 0 <= i < to ==> s[i] != c,
    ensures
        end_of_last(s, c, to) == 0,
    decreases to,
{
    if to > 0 {
        lemma_end_of_last_absent(s, c, to - 1);
    }
}

/// A line `cargo:rustc-link-arg-bin=X` stops the translation as not
/// implemented, whatever `X` is, as long as `X` holds more than whitespace.
pub proof fn law_link_arg_bin_unimplemented(value: Seq<char>, links: Option<Seq<char>>)
    requires
        trim(value).len() > 0,
    ensures
        line_outcome("cargo:rustc-link-arg-bin="@ + value, links) == OutcomeView::Fail(
            ErrorKind::UnimplementedDirective,
        ),
{
    reveal_strlit("cargo:rustc-link-arg-bin=");
    reveal_strlit("rustc-link-arg-bin");
    let key = "rustc-link-arg-bin"@;
    assert("cargo:rustc-link-arg-bin="@ + value =~= prefix() + key + seq!['='] + value);
    lemma_parse_directive(key, value);
    lemma_link_arg_bin_class();
}

proof fn lemma_link_arg_bin_class()
    ensures
        class_of("rustc-link-arg-bin"@) == KeyClass::Unimplemented,
{
    reveal_strlit("rustc-link-arg-bin");
    reveal_strlit("rustc-cfg");
    reveal_strlit("rustc-check-cfg");
    reveal_strlit("rustc-env");
    reveal_strlit("rustc-link-lib");
    reveal_strlit("rustc-link-search");
    reveal_strlit("include");
    reveal_strlit("root");
    reveal_strlit("conf");
    reveal_strlit("version_number");
    reveal_strlit("static");
    reveal_strlit("rustc-link-arg-benches");
    reveal_strlit("warning");
    reveal_strlit("error");
    reveal_strlit("lib_dir");
    reveal_strlit("rerun-if-changed");
    reveal_strlit("rerun-if-env-changed");
    reveal_strlit("rerun-if-changed-bin");
    reveal_strlit("rerun-if-changed-glob");
    reveal_strlit("rerun-if-changed-dir");
    reveal_strlit("rerun-if-changed-recursive");
    reveal_strlit("rerun-if-changed-env");
    assert("rustc-link-arg-bin"@.len() == 18);
}

/// Translating again changes nothing: two translations of one document with
/// one links name succeed together or fail together, with the same buckets,
/// string for string, or with the same error.
pub proof fn law_same_input_same_translation(
    input: Seq<char>,
    links: Option<Seq<char>>,
    first: Result<TheResult, TranslateError>,
    second: Result<TheResult, TranslateError>,
)
    requires
        is_translation(first, input, links),
        is_translation(second, input, links),
    ensures
        first is Ok <==> second is Ok,
        first is Ok ==> first->Ok_0@ == second->Ok_0@,
        first is Err ==> first->Err_0@ == second->Err_0@,
{
}

proof fn lemma_appended_grows(
    doc: Seq<Seq<char>>,
    links: Option<Seq<char>>,
    b: Bucket,
    m: int,
    n: int,
)
    requires
        0 <= m <= n <= doc.len(),
    ensures
        appended(doc, links, b, m).len() <= appended(doc, links, b, n).len(),
    decreases n - m,
{
    if m < n {
        lemma_appended_grows(doc, links, b, m, n - 1);
    }
}

/// What line `i` adds stands in what the first `n` lines add, behind what the
/// lines before `i` add.
proof fn lemma_appended_run(doc: Seq<Seq<char>>, links: Option<Seq<char>>, b: Bucket, i: int, n: int)
    requires
        0 <= i < n <= doc.len(),
    ensures
        appended(doc, links, b, i).len() <= appended(doc, links, b, i + 1).len() <= appended(
            doc,
            links,
            b,
            n,
        ).len(),
        appended(doc, links, b, n).subrange(
            appended(doc, links, b, i).len() as int,
            appended(doc, links, b, i + 1).len() as int,
        ) == entries(line_outcome(doc[i], links), b),
    decreases n - i,
{
    let start = appended(doc, links, b, i).len() as int;
    let end = appended(doc, links, b, i + 1).len() as int;
    let all = appended(doc, links, b, n);
    if n == i + 1 {
        assert(all.subrange(start, end) =~= entries(line_outcome(doc[i], links), b));
    } else {
        lemma_appended_run(doc, links, b, i, n - 1);
        let before = appended(doc, links, b, n - 1);
        assert(all == before + entries(line_outcome(doc[n - 1], links), b));
        assert(all.subrange(start, end) =~= before.subrange(start, end));
    }
}

/// Order is kept. In a translation that succeeds, what line `earlier` adds to
/// a bucket stands in it as one run, at the place that the lines before it
/// have filled, and that run ends before the run of any line `later` begins.
pub proof fn law_order_preserved(
    doc: Seq<Seq<char>>,
    links: Option<Seq<char>>,
    b: Bucket,
    earlier: int,
    later: int,
)
    requires
        0 <= earlier < later < doc.len(),
        translation(doc, links) is Ok,
    ensures
        ({
            let bucket = translation(doc, links)->Ok_0.bucket(b);
            let start = appended(doc, links, b, earlier).len() as int;
            let end = appended(doc, links, b, earlier + 1).len() as int;
            let next = appended(doc, links, b, later).len() as int;
            let last = appended(doc, links, b, later + 1).len() as int;
            &&& start <= end <= next <= last <= bucket.len()
            &&& bucket.subrange(start, end) == entries(line_outcome(doc[earlier], links), b)
            &&& bucket.subrange(next, last) == entries(line_outcome(doc[later], links), b)
        }),
{
    let n = doc.len() as int;
    assert(translation(doc, links)->Ok_0.bucket(b) == appended(doc, links, b, n));
    lemma_appended_run(doc, links, b, earlier, n);
    lemma_appended_run(doc, links, b, later, n);
    lemma_appended_grows(doc, links, b, earlier + 1, later);
}

/// Two lines that each add one string to a bucket: in a translation that
/// succeeds the bucket holds both, the string of the earlier line before the
/// string of the later one.
proof fn lemma_two_entries_in_order(
    doc: Seq<Seq<char>>,
    links: Option<Seq<char>>,
    b: Bucket,
    earlier: int,
    later: int,
)
    requires
        0 <= earlier < later < doc.len(),
        translation(doc, links) is Ok,
        entries(line_outcome(doc[earlier], links), b).len() == 1,
        entries(line_outcome(doc[later], links), b).len() == 1,
    ensures
        ({
            let bucket = translation(doc, links)->Ok_0.bucket(b);
            let first = appended(doc, links, b, earlier).len() as int;
            let second = appended(doc, links, b, later).len() as int;
            &&& 0 <= first < second < bucket.len()
            &&& bucket[first] == entries(line_outcome(doc[earlier], links), b)[0]
            &&& bucket[second] == entries(line_outcome(doc[later], links), b)[0]
        }),
{
    law_order_preserved(doc, links, b, earlier, later);
    let bucket = translation(doc, links)->Ok_0.bucket(b);
    let first = appended(doc, links, b, earlier).len() as int;
    let second = appended(doc, links, b, later).len() as int;
    assert(bucket.subrange(first, first + 1)[0] == bucket[first]);
    assert(bucket.subrange(second, second + 1)[0] == bucket[second]);
}

/// Two lines `cargo:rustc-cfg=V` of a document that translates: the compiler
/// arguments hold `--cfg 'V'` for both, in the order of the lines.
pub proof fn law_rustc_cfg_in_order(
    doc: Seq<Seq<char>>,
    links: Option<Seq<char>>,
    earlier: int,
    later: int,
    first_value: Seq<char>,
    second_value: Seq<char>,
)
    requires
        0 <= earlier < later < doc.len(),
        translation(doc, links) is Ok,
        doc[earlier] == "cargo:rustc-cfg="@ + first_value,
        doc[later] == "cargo:rustc-cfg="@ + second_value,
        trim(first_value).len() > 0,
        trim(second_value).len() > 0,
    ensures
        ({
            let bucket = translation(doc, links)->Ok_0.rustc_arguments;
            let first = appended(doc, links, Bucket::RustcArguments, earlier).len() as int;
            let second = appended(doc, links, Bucket::RustcArguments, later).len() as int;
            &&& 0 <= first < second < bucket.len()
            &&& bucket[first] == quoted("--cfg "@, trim(first_value))
            &&& bucket[second] == quoted("--cfg "@, trim(second_value))
        }),
{
    law_rustc_cfg(first_value, links);
    law_rustc_cfg(second_value, links);
    lemma_two_entries_in_order(doc, links, Bucket::RustcArguments, earlier, later);
}

/// Two lines `cargo:rustc-check-cfg=V` of a document that translates: the
/// compiler arguments hold `--check-cfg 'V'` for both, in the order of the
/// lines.
pub proof fn law_rustc_check_cfg_in_order(
    doc: Seq<Seq<char>>,
    links: Option<Seq<char>>,
    earlier: int,
    later: int,
    first_value: Seq<char>,
    second_value: Seq<char>,
)
    requires
        0 <= earlier < later < doc.len(),
        translation(doc, links) is Ok,
        doc[earlier] == "cargo:rustc-check-cfg="@ + first_value,
        doc[later] == "cargo:rustc-check-cfg="@ + second_value,
        trim(first_value).len() > 0,
        trim(second_value).len() > 0,
    ensures
        ({
            let bucket = translation(doc, links)->Ok_0.rustc_arguments;
            let first = appended(doc, links, Bucket::RustcArguments, earlier).len() as int;
            let second = appended(doc, links, Bucket::RustcArguments, later).len() as int;
            &&& 0 <= first < second < bucket.len()
            &&& bucket[first] == quoted("--check-cfg "@, trim(first_value))
            &&& bucket[second] == quoted("--check-cfg "@, trim(second_value))
        }),
{
    law_rustc_check_cfg(first_value, links);
    law_rustc_check_cfg(second_value, links);
    lemma_two_entries_in_order(doc, links, Bucket::RustcArguments, earlier, later);
}

/// A translation succeeds exactly if no line fails, and then every bucket
/// holds what all the lines add to it, line by line.
pub proof fn law_success(doc: Seq<Seq<char>>, links: Option<Seq<char>>)
    ensures
        translation(doc, links) is Ok <==> forall|i: int|
            0 <= i < doc.len() ==> !(#[trigger] line_outcome(doc[i], links) is Fail),
        translation(doc, links) is Ok ==> forall|b: Bucket|
            #[trigger] translation(doc, links)->Ok_0.bucket(b) == appended(
                doc,
                links,
                b,
                doc.len() as int,
            ),
{
    lemma_first_failure_is_first(doc, links, 0);
}

/// A translation fails exactly if some line fails, and then with the error of
/// the first such line: its kind, its number, its text and its key. No line
/// behind it is looked at.
pub proof fn law_first_failure_stops(doc: Seq<Seq<char>>, links: Option<Seq<char>>)
    requires
        translation(doc, links) is Err,
    ensures
        ({
            let e = translation(doc, links)->Err_0;
            let at = e.line_number as int;
            &&& 0 <= at < doc.len()
            &&& line_outcome(doc[at], links) == OutcomeView::Fail(e.kind)
            &&& e.line == doc[at]
            &&& e.key == line_key(doc[at])
            &&& forall|i: int| 0 <= i < at ==> !(#[trigger] line_outcome(doc[i], links) is Fail)
            &&& translation(doc.take(at + 1), links) == translation(doc, links)
        }),
{
    lemma_first_failure_is_first(doc, links, 0);
    let at = first_failure(doc, links, 0);
    lemma_first_failure_of_prefix(doc, links, 0, at);
}

/// The first failure of a document is the first failure of the lines up to it.
proof fn lemma_first_failure_of_prefix(
    doc: Seq<Seq<char>>,
    links: Option<Seq<char>>,
    from: int,
    at: int,
)
    requires
        0 <= from <= at < doc.len(),
        first_failure(doc, links, from) == at,
    ensures
        first_failure(doc.take(at + 1), links, from) == at,
    decreases at - from,
{
    assert(doc.take(at + 1)[from] == doc[from]);
    if from < at {
        lemma_first_failure_is_first(doc, links, from);
        assert(!(line_outcome(doc[from], links) is Fail));
        lemma_first_failure_of_prefix(doc, links, from + 1, at);
    } else {
        lemma_first_failure_is_first(doc, links, from);
    }
}

proof fn lemma_first_failure_is_first(doc: Seq<Seq<char>>, links: Option<Seq<char>>, from: int)
    requires
        0 <= from <= doc.len(),
    ensures
        from <= first_failure(doc, links, from) <= doc.len(),
        forall|i: int|
            from <= i < first_failure(doc, links, from) ==> !(#[trigger] line_outcome(
                doc[i],
                links,
            ) is Fail),
        first_failure(doc, links, from) < doc.len() ==> line_outcome(
            doc[first_failure(doc, links, from)],
            links,
        ) is Fail,
    decreases doc.len() - from,
{
    if from < doc.len() && !(line_outcome(doc[from], links) is Fail) {
        lemma_first_failure_is_first(doc, links, from + 1);
    }
}

} // verus!
