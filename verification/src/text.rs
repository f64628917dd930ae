//! Character-level helpers shared by the parser, the dispatcher and the reporter.

use vstd::prelude::*;

verus! {

/// `String::push` appends the given character to the end of the string.
pub assume_specification[ String::push ](s: &mut String, c: char)
    ensures
        final(s)@ == old(s)@.push(c),
;

/// `str::eq` compares two string slices character by character.
pub assume_specification[ <str as PartialEq>::eq ](a: &str, b: &str) -> (same: bool)
    ensures
        same == (a@ == b@),
;

/// Whether `c` has the Unicode property `White_Space`.
pub open spec fn is_space(c: char) -> bool {
    let n = c as u32;
    ||| 0x09 <= n <= 0x0D
    ||| n == 0x20
    ||| n == 0x85
    ||| n == 0xA0
    ||| n == 0x1680
    ||| 0x2000 <= n <= 0x200A
    ||| n == 0x2028
    ||| n == 0x2029
    ||| n == 0x202F
    ||| n == 0x205F
    ||| n == 0x3000
}

/// Whether `c` is whitespace.
pub fn is_whitespace(c: char) -> (b: bool)
    ensures
        b == is_space(c),
{
    let n: u32 = c as u32;
    (0x09 <= n && n <= 0x0D) || n == 0x20 || n == 0x85 || n == 0xA0 || n == 0x1680 || (0x2000 <= n
        && n <= 0x200A) || n == 0x2028 || n == 0x2029 || n == 0x202F || n == 0x205F || n == 0x3000
}

/// The first index at or after `from` that holds no whitespace, or the length.
pub open spec fn skip_spaces(s: Seq<char>, from: int) -> int
    decreases s.len() - from,
{
    if 0 <= from < s.len() && is_space(s[from]) {
        skip_spaces(s, from + 1)
    } else {
        from
    }
}

/// The end of the text before `to` once its trailing whitespace is dropped.
pub open spec fn skip_spaces_back(s: Seq<char>, to: int) -> int
    decreases to,
{
    if 0 < to <= s.len() && is_space(s[to - 1]) {
        skip_spaces_back(s, to - 1)
    } else {
        to
    }
}

/// `s` without its leading and trailing whitespace.
pub open spec fn trim(s: Seq<char>) -> Seq<char> {
    let a = skip_spaces(s, 0);
    let b = skip_spaces_back(s, s.len() as int);
    if a < b {
        s.subrange(a, b)
    } else {
        Seq::empty()
    }
}

/// The first index at or after `from` that holds `c`, or the length.
pub open spec fn index_of(s: Seq<char>, c: char, from: int) -> int
    decreases s.len() - from,
{
    if 0 <= from < s.len() && s[from] != c {
        index_of(s, c, from + 1)
    } else {
        from
    }
}

/// One more than the last index before `to` that holds `c`, or 0.
pub open spec fn end_of_last(s: Seq<char>, c: char, to: int) -> int
    decreases to,
{
    if 0 < to <= s.len() && s[to - 1] != c {
        end_of_last(s, c, to - 1)
    } else {
        to
    }
}

/// `index_of` stays inside the text, and short of its end it points at `c`.
pub proof fn lemma_index_of_bounds(s: Seq<char>, c: char, from: int)
    requires
        0 <= from <= s.len(),
    ensures
        from <= index_of(s, c, from) <= s.len(),
        index_of(s, c, from) < s.len() ==> s[index_of(s, c, from)] == c,
    decreases s.len() - from,
{
    if from < s.len() && s[from] != c {
        lemma_index_of_bounds(s, c, from + 1);
    }
}

/// The characters of `s`, in order.
pub fn to_chars(s: &str) -> (chars: Vec<char>)
    ensures
        chars@ == s@,
{
    broadcast use vstd::string::group_string_axioms;
    let mut chars: Vec<char> = Vec::new();
    for c in it: s.chars()
        invariant
            it.seq() == s@,
            chars@ == it.seq().take(it.index()),
    {
        chars.push(c);
        assert(it.seq().take(it.index() + 1) =~= it.seq().take(it.index()).push(c));
    }
    assert(chars@ =~= s@);
    chars
}

/// The string made of `chars[from..to]`.
pub fn from_chars(chars: &Vec<char>, from: usize, to: usize) -> (s: String)
    requires
        from <= to <= chars.len(),
    ensures
        s@ == chars@.subrange(from as int, to as int),
{
    let mut s = String::new();
    let mut i: usize = from;
    while i < to
        invariant
            from <= i <= to <= chars.len(),
            s@ == chars@.subrange(from as int, i as int),
        decreases to - i,
    {
        s.push(chars[i]);
        i += 1;
        assert(s@ =~= chars@.subrange(from as int, i as int));
    }
    s
}

/// The first index at or after `from` that holds no whitespace, or the length.
pub fn skip_whitespace(chars: &Vec<char>, from: usize) -> (at: usize)
    requires
        from <= chars.len(),
    ensures
        at == skip_spaces(chars@, from as int),
        from <= at <= chars.len(),
{
    let mut i: usize = from;
    while i < chars.len() && is_whitespace(chars[i])
        invariant
            from <= i <= chars.len(),
            skip_spaces(chars@, from as int) == skip_spaces(chars@, i as int),
        decreases chars.len() - i,
    {
        i += 1;
    }
    i
}

/// The end of `chars[..to]` once its trailing whitespace is dropped.
pub fn skip_whitespace_back(chars: &Vec<char>, to: usize) -> (at: usize)
    requires
        to <= chars.len(),
    ensures
        at == skip_spaces_back(chars@, to as int),
        at <= to,
{
    let mut i: usize = to;
    while i > 0 && is_whitespace(chars[i - 1])
        invariant
            i <= to <= chars.len(),
            skip_spaces_back(chars@, to as int) == skip_spaces_back(chars@, i as int),
        decreases i,
    {
        i -= 1;
    }
    i
}

/// The first index at or after `from` that holds `c`, or the length.
pub fn find(chars: &Vec<char>, c: char, from: usize) -> (at: usize)
    requires
        from <= chars.len(),
    ensures
        at == index_of(chars@, c, from as int),
        from <= at <= chars.len(),
{
    let mut i: usize = from;
    while i < chars.len() && chars[i] != c
        invariant
            from <= i <= chars.len(),
            index_of(chars@, c, from as int) == index_of(chars@, c, i as int),
        decreases chars.len() - i,
    {
        i += 1;
    }
    i
}

/// One more than the last index before `to` that holds `c`, or 0.
pub fn find_last(chars: &Vec<char>, c: char, to: usize) -> (end: usize)
    requires
        to <= chars.len(),
    ensures
        end == end_of_last(chars@, c, to as int),
        end <= to,
{
    let mut i: usize = to;
    while i > 0 && chars[i - 1] != c
        invariant
            i <= to <= chars.len(),
            end_of_last(chars@, c, to as int) == end_of_last(chars@, c, i as int),
        decreases i,
    {
        i -= 1;
    }
    i
}

/// The characters of `chars` without leading and trailing whitespace.
pub fn trimmed(chars: &Vec<char>) -> (t: Vec<char>)
    ensures
        t@ == trim(chars@),
{
    let a = skip_whitespace(chars, 0);
    let b = skip_whitespace_back(chars, chars.len());
    let mut t: Vec<char> = Vec::new();
    if a < b {
        let mut i: usize = a;
        while i < b
            invariant
                a <= i <= b <= chars.len(),
                t@ == chars@.subrange(a as int, i as int),
            decreases b - i,
        {
            t.push(chars[i]);
            i += 1;
            assert(t@ =~= chars@.subrange(a as int, i as int));
        }
    }
    t
}

/// The views of the strings of `v`, in order.
pub open spec fn texts(v: Seq<String>) -> Seq<Seq<char>> {
    Seq::new(v.len(), |i: int| v[i]@)
}

/// Pushing a string pushes its text.
pub proof fn lemma_texts_push(v: Seq<String>, s: String)
    ensures
        texts(v.push(s)) == texts(v).push(s@),
{
    assert(texts(v.push(s)) =~= texts(v).push(s@));
}

/// The line that starts at `from` and ends before `end`, the index of its line
/// feed or the length of the text. A carriage return just before the line feed
/// belongs to the line ending, not to the line.
pub open spec fn line_text(s: Seq<char>, from: int, end: int) -> Seq<char> {
    if end < s.len() && from < end && s[end - 1] == '\r' {
        s.subrange(from, end - 1)
    } else {
        s.subrange(from, end)
    }
}

/// The lines of `s` from index `from` on.
pub open spec fn lines_from(s: Seq<char>, from: int) -> Seq<Seq<char>>
    decreases s.len() - from,
    via lines_from_decreases
{
    if 0 <= from < s.len() {
        let end = index_of(s, '\n', from);
        if end < s.len() {
            seq![line_text(s, from, end)] + lines_from(s, end + 1)
        } else {
            seq![line_text(s, from, end)]
        }
    } else {
        Seq::empty()
    }
}

#[via_fn]
proof fn lines_from_decreases(s: Seq<char>, from: int) {
    if 0 <= from < s.len() {
        lemma_index_of_bounds(s, '\n', from);
    }
}

/// The lines of `s`: the text between line feeds, each without the carriage
/// return that precedes its line feed; a final line feed opens no further line.
pub open spec fn lines(s: Seq<char>) -> Seq<Seq<char>> {
    lines_from(s, 0)
}

/// Splits `input` into its lines.
pub fn split_lines(input: &str) -> (out: Vec<String>)
    ensures
        texts(out@) == lines(input@),
{
    let chars = to_chars(input);
    let mut out: Vec<String> = Vec::new();
    let mut from: usize = 0;
    assert(texts(out@) =~= Seq::<Seq<char>>::empty());
    while from < chars.len()
        invariant
            from <= chars.len(),
            chars@ == input@,
            lines(chars@) == texts(out@) + lines_from(chars@, from as int),
        decreases chars.len() - from,
    {
        let end = find(&chars, '\n', from);
        let stop = if end < chars.len() && from < end && chars[end - 1] == '\r' {
            end - 1
        } else {
            end
        };
        let line = from_chars(&chars, from, stop);
        proof {
            lemma_texts_push(out@, line);
            assert(line@ == line_text(chars@, from as int, end as int));
            if end < chars.len() {
                assert(texts(out@).push(line@) + lines_from(chars@, end + 1) =~= texts(out@) + (
                seq![line@] + lines_from(chars@, end + 1)));
            } else {
                assert(texts(out@).push(line@) + Seq::<Seq<char>>::empty() =~= texts(out@)
                    + seq![line@]);
                assert(lines_from(chars@, end as int) =~= Seq::<Seq<char>>::empty());
            }
        }
        out.push(line);
        if end == chars.len() {
            from = end;
        } else {
            from = end + 1;
        }
    }
    assert(lines_from(chars@, from as int) =~= Seq::<Seq<char>>::empty());
    out
}

/// The parts of `parts` in order, with `sep` between neighbours.
pub open spec fn joined(parts: Seq<Seq<char>>, sep: Seq<char>) -> Seq<char>
    decreases parts.len(),
{
    if parts.len() == 0 {
        Seq::empty()
    } else if parts.len() == 1 {
        parts[0]
    } else {
        joined(parts.drop_last(), sep) + sep + parts.last()
    }
}

/// Joins `parts` with `sep` between neighbours.
pub fn join(parts: &Vec<String>, sep: &str) -> (out: String)
    ensures
        out@ == joined(texts(parts@), sep@),
{
    let mut out = String::new();
    let mut i: usize = 0;
    while i < parts.len()
        invariant
            i <= parts.len(),
            out@ == joined(texts(parts@).take(i as int), sep@),
        decreases parts.len() - i,
    {
        if i > 0 {
            out.append(sep);
        }
        out.append(parts[i].as_str());
        proof {
            let all = texts(parts@);
            assert(all.take(i + 1).drop_last() =~= all.take(i as int));
            assert(all.take(i + 1).last() == parts[i as int]@);
            assert(out@ =~= joined(all.take(i + 1), sep@));
        }
        i += 1;
    }
    assert(texts(parts@).take(parts.len() as int) =~= texts(parts@));
    out
}

/// The decimal digit for `d`.
pub open spec fn digit(d: int) -> char {
    if d == 0 {
        '0'
    } else if d == 1 {
        '1'
    } else if d == 2 {
        '2'
    } else if d == 3 {
        '3'
    } else if d == 4 {
        '4'
    } else if d == 5 {
        '5'
    } else if d == 6 {
        '6'
    } else if d == 7 {
        '7'
    } else if d == 8 {
        '8'
    } else {
        '9'
    }
}

/// `n` written in decimal, without leading zeros.
pub open spec fn decimal(n: nat) -> Seq<char>
    decreases n,
{
    if n < 10 {
        seq![digit(n as int)]
    } else {
        decimal(n / 10).push(digit((n % 10) as int))
    }
}

fn digit_char(d: usize) -> (c: char)
    requires
        d < 10,
    ensures
        c == digit(d as int),
{
    if d == 0 {
        '0'
    } else if d == 1 {
        '1'
    } else if d == 2 {
        '2'
    } else if d == 3 {
        '3'
    } else if d == 4 {
        '4'
    } else if d == 5 {
        '5'
    } else if d == 6 {
        '6'
    } else if d == 7 {
        '7'
    } else if d == 8 {
        '8'
    } else {
        '9'
    }
}

/// Appends `n` in decimal to `out`.
pub fn push_decimal(out: &mut String, n: usize)
    ensures
        final(out)@ == old(out)@ + decimal(n as nat),
    decreases n,
{
    if n >= 10 {
        push_decimal(out, n / 10);
    }
    out.push(digit_char(n % 10));
    assert(final(out)@ =~= old(out)@ + decimal(n as nat));
}

/// A key's character in the name of an environment variable: ASCII lower case
/// in upper case, a hyphen as an underscore, any other character as it is.
pub open spec fn suffix_char(c: char) -> char {
    if 'a' <= c <= 'z' {
        ((c as u8 - 32) as u8) as char
    } else if c == '-' {
        '_'
    } else {
        c
    }
}

/// `c` as it stands in the name of an environment variable.
pub fn to_suffix_char(c: char) -> (r: char)
    ensures
        r == suffix_char(c),
{
    let n: u32 = c as u32;
    if 0x61 <= n && n <= 0x7A {
        let b: u8 = c as u8;
        (b - 32) as char
    } else if n == 0x2D {
        '_'
    } else {
        c
    }
}

/// `key` as the suffix of an environment variable's name.
pub open spec fn env_suffix(key: Seq<char>) -> Seq<char> {
    Seq::new(key.len(), |i: int| suffix_char(key[i]))
}

/// `key` as the suffix of an environment variable's name.
pub fn suffix_of(key: &str) -> (out: String)
    ensures
        out@ == env_suffix(key@),
{
    let chars = to_chars(key);
    let mut out = String::new();
    let mut i: usize = 0;
    while i < chars.len()
        invariant
            i <= chars.len(),
            chars@ == key@,
            out@ == env_suffix(key@).take(i as int),
        decreases chars.len() - i,
    {
        out.push(to_suffix_char(chars[i]));
        i += 1;
        assert(out@ =~= env_suffix(key@).take(i as int));
    }
    assert(env_suffix(key@).take(chars.len() as int) =~= env_suffix(key@));
    out
}

} // verus!
