//! Text handling on sequences of characters.
//!
//! Every function here works on `char` slices, whose view is a `Seq<char>`,
//! so that the contracts can speak of positions. [`chars_of`] and
//! [`string_of`] move between these and `String`.

use vstd::prelude::*;

verus! {

/// `String::push` appends one character and changes nothing else.
pub assume_specification[ String::push ](s: &mut String, ch: char)
    ensures
        final(s)@ == old(s)@.push(ch),
;

/// The characters of `s`, in order.
pub fn chars_of(s: &str) -> (v: Vec<char>)
    ensures
        v@ == s@,
{
    let mut v: Vec<char> = Vec::new();
    for c in it: s.chars()
        invariant
            v@ == s@.take(it.index() as int),
            it.seq() == s@,
    {
        v.push(c);
    }
    v
}

/// The string made of the characters of `v`, in order.
pub fn string_of(v: &[char]) -> (s: String)
    ensures
        s@ == v@,
{
    let mut s = String::new();
    let mut i: usize = 0;
    while i < v.len()
        invariant
            i <= v.len(),
            s@ == v@.take(i as int),
        decreases v.len() - i,
    {
        s.push(v[i]);
        i += 1;
    }
    s
}

/// Appends the characters of `tail` to `out`.
pub fn push_all(out: &mut Vec<char>, tail: &[char])
    ensures
        final(out)@ == old(out)@ + tail@,
{
    let mut i: usize = 0;
    while i < tail.len()
        invariant
            i <= tail.len(),
            out@ == old(out)@ + tail@.take(i as int),
        decreases tail.len() - i,
    {
        out.push(tail[i]);
        i += 1;
    }
}

/// Appends the characters of the string `tail` to `out`.
pub fn push_str(out: &mut Vec<char>, tail: &str)
    ensures
        final(out)@ == old(out)@ + tail@,
{
    for c in it: tail.chars()
        invariant
            out@ == old(out)@ + tail@.take(it.index() as int),
            it.seq() == tail@,
    {
        out.push(c);
    }
}

/// The characters of `v` from `from` up to, not including, `to`.
pub fn slice_of(v: &[char], from: usize, to: usize) -> (out: Vec<char>)
    requires
        from <= to <= v.len(),
    ensures
        out@ == v@.subrange(from as int, to as int),
{
    let mut out: Vec<char> = Vec::new();
    let mut i: usize = from;
    while i < to
        invariant
            from <= i <= to <= v.len(),
            out@ == v@.subrange(from as int, i as int),
        decreases to - i,
    {
        out.push(v[i]);
        i += 1;
    }
    out
}

/// Whether `a` and `b` hold the same characters.
pub fn same_chars(a: &[char], b: &[char]) -> (r: bool)
    ensures
        r == (a@ == b@),
{
    if a.len() != b.len() {
        return false;
    }
    let mut i: usize = 0;
    while i < a.len()
        invariant
            i <= a.len(),
            a.len() == b.len(),
            a@.take(i as int) == b@.take(i as int),
        decreases a.len() - i,
    {
        if a[i] != b[i] {
            return false;
        }
        assert(a@.take(i + 1) == a@.take(i as int).push(a@[i as int]));
        assert(b@.take(i + 1) == b@.take(i as int).push(b@[i as int]));
        i += 1;
    }
    assert(a@ == a@.take(a.len() as int));
    assert(b@ == b@.take(b.len() as int));
    true
}

/// White space as Unicode defines it (the property `White_Space`).
pub open spec fn is_space(c: char) -> bool {
    ||| '\u{9}' <= c <= '\u{d}'
    ||| c == ' '
    ||| c == '\u{85}'
    ||| c == '\u{a0}'
    ||| c == '\u{1680}'
    ||| '\u{2000}' <= c <= '\u{200a}'
    ||| c == '\u{2028}'
    ||| c == '\u{2029}'
    ||| c == '\u{202f}'
    ||| c == '\u{205f}'
    ||| c == '\u{3000}'
}

/// Whether `c` is white space.
pub fn is_whitespace(c: char) -> (b: bool)
    ensures
        b == is_space(c),
{
    ('\u{9}' <= c && c <= '\u{d}') || c == ' ' || c == '\u{85}' || c == '\u{a0}' || c
        == '\u{1680}' || ('\u{2000}' <= c && c <= '\u{200a}') || c == '\u{2028}' || c
        == '\u{2029}' || c == '\u{202f}' || c == '\u{205f}' || c == '\u{3000}'
}

/// The text of `s`, if there is one.
pub open spec fn text_of(s: Option<String>) -> Option<Seq<char>> {
    match s {
        Some(s) => Some(s@),
        None => None,
    }
}

/// The texts held by the vectors of `v`, in order.
pub open spec fn views(v: Seq<Vec<char>>) -> Seq<Seq<char>> {
    Seq::new(v.len(), |i: int| v[i]@)
}

/// The kinds of character that [`scan`] can look for.
#[derive(Clone, Copy, Debug, PartialEq, Eq, Structural)]
pub enum CharClass {
    /// The line feed, `'\n'`.
    Newline,
    /// White space.
    Space,
    /// Anything but white space.
    Visible,
}

/// Whether `c` belongs to `class`.
pub open spec fn in_class(c: char, class: CharClass) -> bool {
    match class {
        CharClass::Newline => c == '\n',
        CharClass::Space => is_space(c),
        CharClass::Visible => !is_space(c),
    }
}

/// The first position at or after `from` whose character belongs to
/// `class`; the length of `s` when there is none.
pub open spec fn first_at(s: Seq<char>, from: int, class: CharClass) -> int
    decreases s.len() - from,
{
    if from >= s.len() || in_class(s[from], class) {
        from
    } else {
        first_at(s, from + 1, class)
    }
}

/// `first_at` is the least position at or after `from` that is the end of
/// `s` or holds a character of `class`.
pub proof fn lemma_first_at(s: Seq<char>, from: int, class: CharClass)
    requires
        0 <= from <= s.len(),
    ensures
        from <= first_at(s, from, class) <= s.len(),
        first_at(s, from, class) < s.len() ==> in_class(s[first_at(s, from, class)], class),
        forall|k: int| from <= k < first_at(s, from, class) ==> !in_class(#[trigger] s[k], class),
    decreases s.len() - from,
{
    if from >= s.len() || in_class(s[from], class) {
    } else {
        lemma_first_at(s, from + 1, class);
    }
}

/// Whether `c` belongs to `class`.
pub fn has_class(c: char, class: CharClass) -> (b: bool)
    ensures
        b == in_class(c, class),
{
    match class {
        CharClass::Newline => c == '\n',
        CharClass::Space => is_whitespace(c),
        CharClass::Visible => !is_whitespace(c),
    }
}

/// Finds the first character of `class` at or after `from`.
pub fn scan(s: &[char], from: usize, class: CharClass) -> (at: usize)
    requires
        from <= s.len(),
    ensures
        at == first_at(s@, from as int, class),
        from <= at <= s.len(),
{
    let mut i: usize = from;
    while i < s.len() && !has_class(s[i], class)
        invariant
            from <= i <= s.len(),
            first_at(s@, from as int, class) == first_at(s@, i as int, class),
        decreases s.len() - i,
    {
        i += 1;
    }
    i
}

/// The line that lies between `from` and the line end `end`: a carriage
/// return just before a line feed belongs to the line ending.
pub open spec fn line_at(s: Seq<char>, from: int, end: int) -> Seq<char> {
    if end < s.len() && from < end && s[end - 1] == '\r' {
        s.subrange(from, end - 1)
    } else {
        s.subrange(from, end)
    }
}

/// The lines of `s` that start at or after `from`.
pub open spec fn lines_from(s: Seq<char>, from: int) -> Seq<Seq<char>>
    decreases s.len() - from,
{
    if from < 0 || from >= s.len() {
        Seq::empty()
    } else {
        let end = first_at(s, from, CharClass::Newline);
        proof {
            lemma_first_at(s, from, CharClass::Newline);
        }
        if end >= s.len() {
            seq![line_at(s, from, end)]
        } else {
            seq![line_at(s, from, end)] + lines_from(s, end + 1)
        }
    }
}

/// The lines of `s`. A line ends at a line feed, or at a carriage return
/// followed by one; neither belongs to the line. A last line needs no
/// line ending, and an empty rest after the last line ending is no line.
pub open spec fn lines(s: Seq<char>) -> Seq<Seq<char>> {
    lines_from(s, 0)
}

/// Splits `text` into its lines.
pub fn split_lines(text: &[char]) -> (out: Vec<Vec<char>>)
    ensures
        views(out@) == lines(text@),
{
    let mut out: Vec<Vec<char>> = Vec::new();
    let mut pos: usize = 0;
    while pos < text.len()
        invariant
            pos <= text.len(),
            lines(text@) == views(out@) + lines_from(text@, pos as int),
        decreases text.len() - pos,
    {
        let end = scan(text, pos, CharClass::Newline);
        let stop = if end < text.len() && pos < end && text[end - 1] == '\r' {
            end - 1
        } else {
            end
        };
        let line = slice_of(text, pos, stop);
        let ghost before = views(out@);
        out.push(line);
        assert(views(out@) =~= before + seq![line_at(text@, pos as int, end as int)]);
        if end == text.len() {
            return out;
        }
        pos = end + 1;
    }
    out
}

/// The white-space-separated fields of `s` that start at or after `from`.
pub open spec fn fields_from(s: Seq<char>, from: int) -> Seq<Seq<char>>
    decreases s.len() - from,
{
    if from < 0 || from >= s.len() {
        Seq::empty()
    } else {
        let start = first_at(s, from, CharClass::Visible);
        let end = first_at(s, start, CharClass::Space);
        proof {
            lemma_first_at(s, from, CharClass::Visible);
            if start < s.len() {
                lemma_first_at(s, start, CharClass::Space);
            }
        }
        if start >= s.len() {
            Seq::empty()
        } else {
            seq![s.subrange(start, end)] + fields_from(s, end)
        }
    }
}

/// The fields of `s`: its maximal runs of characters that are not white
/// space, in order.
pub open spec fn fields(s: Seq<char>) -> Seq<Seq<char>> {
    fields_from(s, 0)
}

/// Splits `text` at white space.
pub fn split_fields(text: &[char]) -> (out: Vec<Vec<char>>)
    ensures
        views(out@) == fields(text@),
{
    let mut out: Vec<Vec<char>> = Vec::new();
    let mut pos: usize = 0;
    while pos < text.len()
        invariant
            pos <= text.len(),
            fields(text@) == views(out@) + fields_from(text@, pos as int),
        decreases text.len() - pos,
    {
        let start = scan(text, pos, CharClass::Visible);
        if start == text.len() {
            return out;
        }
        let end = scan(text, start, CharClass::Space);
        proof {
            lemma_first_at(text@, start as int, CharClass::Space);
            lemma_first_at(text@, pos as int, CharClass::Visible);
        }
        let field = slice_of(text, start, end);
        let ghost before = views(out@);
        out.push(field);
        assert(views(out@) =~= before + seq![text@.subrange(start as int, end as int)]);
        pos = end;
    }
    out
}

/// Whether `pat` stands in `s` at position `at`.
pub open spec fn occurs_at(s: Seq<char>, pat: Seq<char>, at: int) -> bool {
    0 <= at && at + pat.len() <= s.len() && s.subrange(at, at + pat.len()) == pat
}

/// Whether `pat` stands somewhere in `s`.
pub open spec fn contains(s: Seq<char>, pat: Seq<char>) -> bool {
    exists|at: int| occurs_at(s, pat, at)
}

/// Tests whether `pat` stands in `s` at position `at`.
pub fn matches_at(s: &[char], pat: &[char], at: usize) -> (r: bool)
    ensures
        r == occurs_at(s@, pat@, at as int),
{
    if at > s.len() || pat.len() > s.len() - at {
        return false;
    }
    let mut i: usize = 0;
    while i < pat.len()
        invariant
            i <= pat.len(),
            at + pat.len() <= s.len(),
            s@.subrange(at as int, at + i) == pat@.take(i as int),
        decreases pat.len() - i,
    {
        if s[at + i] != pat[i] {
            assert(s@.subrange(at as int, at + pat.len())[i as int] != pat@[i as int]);
            return false;
        }
        assert(s@.subrange(at as int, at + i + 1) == s@.subrange(at as int, at + i).push(
            s@[at + i],
        ));
        assert(pat@.take(i + 1) == pat@.take(i as int).push(pat@[i as int]));
        i += 1;
    }
    assert(pat@.take(pat.len() as int) == pat@);
    true
}

/// Finds the first place at or after `from` where `pat` stands in `s`.
pub fn find(s: &[char], pat: &[char], from: usize) -> (r: Option<usize>)
    ensures
        match r {
            Some(at) => from <= at && occurs_at(s@, pat@, at as int) && forall|k: int|
                from <= k < at ==> !occurs_at(s@, pat@, k),
            None => forall|k: int| from <= k ==> !occurs_at(s@, pat@, k),
        },
{
    let mut i: usize = from;
    while i <= s.len()
        invariant
            from <= i,
            forall|k: int| from <= k < i ==> !occurs_at(s@, pat@, k),
        decreases s.len() + 1 - i,
    {
        if matches_at(s, pat, i) {
            return Some(i);
        }
        if i == s.len() {
            return None;
        }
        i += 1;
    }
    None
}

/// Tests whether `pat` stands somewhere in `s`.
pub fn includes(s: &[char], pat: &[char]) -> (r: bool)
    ensures
        r == contains(s@, pat@),
{
    find(s, pat, 0).is_some()
}

/// `s` from position `from` on, with `to` in place of each occurrence of
/// `pat`. Occurrences are taken from left to right and do not overlap.
pub open spec fn replaced_from(s: Seq<char>, pat: Seq<char>, to: Seq<char>, from: int) -> Seq<
    char,
>
    decreases s.len() - from,
{
    if from < 0 || from >= s.len() {
        Seq::empty()
    } else if pat.len() > 0 && occurs_at(s, pat, from) {
        to + replaced_from(s, pat, to, from + pat.len())
    } else {
        seq![s[from]] + replaced_from(s, pat, to, from + 1)
    }
}

/// `s` with `to` in place of each occurrence of `pat`. An empty `pat`
/// occurs nowhere.
pub open spec fn replaced(s: Seq<char>, pat: Seq<char>, to: Seq<char>) -> Seq<char> {
    replaced_from(s, pat, to, 0)
}

/// Replaces each occurrence of `pat` in `s` by `to`.
pub fn replace_all(s: &[char], pat: &[char], to: &[char]) -> (out: Vec<char>)
    ensures
        out@ == replaced(s@, pat@, to@),
{
    let mut out: Vec<char> = Vec::new();
    let mut pos: usize = 0;
    while pos < s.len()
        invariant
            pos <= s.len(),
            replaced(s@, pat@, to@) == out@ + replaced_from(s@, pat@, to@, pos as int),
        decreases s.len() - pos,
    {
        if pat.len() > 0 && matches_at(s, pat, pos) {
            push_all(&mut out, to);
            pos += pat.len();
        } else {
            out.push(s[pos]);
            pos += 1;
        }
    }
    out
}

/// The character that stands for the digit `d`.
pub open spec fn digit_char(d: int) -> char {
    if d == 0 {
        '0'
    } else if d == 1 {
        '1'
    } else if d == 2 {
        '2'
    } else if d == 3 {
        '3'
    } else if d == 4 {
        '4'
    } else if d == 5 {
        '5'
    } else if d == 6 {
        '6'
    } else if d == 7 {
        '7'
    } else if d == 8 {
        '8'
    } else {
        '9'
    }
}

/// The decimal digits of `n`, most significant first, without leading zeros.
pub open spec fn digits(n: nat) -> Seq<char>
    decreases n,
{
    if n < 10 {
        seq![digit_char(n as int)]
    } else {
        digits(n / 10).push(digit_char((n % 10) as int))
    }
}

/// `n` in decimal notation, with a minus sign when it is negative.
pub open spec fn decimal(n: int) -> Seq<char> {
    if n < 0 {
        seq!['-'] + digits((-n) as nat)
    } else {
        digits(n as nat)
    }
}

fn digit_of(d: u128) -> (c: char)
    requires
        d < 10,
    ensures
        c == digit_char(d as int),
{
    if d == 0 {
        '0'
    } else if d == 1 {
        '1'
    } else if d == 2 {
        '2'
    } else if d == 3 {
        '3'
    } else if d == 4 {
        '4'
    } else if d == 5 {
        '5'
    } else if d == 6 {
        '6'
    } else if d == 7 {
        '7'
    } else if d == 8 {
        '8'
    } else {
        '9'
    }
}

/// Appends the decimal digits of `n` to `out`.
pub fn push_digits(out: &mut Vec<char>, n: u128)
    ensures
        final(out)@ == old(out)@ + digits(n as nat),
    decreases n,
{
    if n >= 10 {
        push_digits(out, n / 10);
    }
    out.push(digit_of(n % 10));
}

/// Appends `n` in decimal notation to `out`.
pub fn push_decimal(out: &mut Vec<char>, n: i128)
    ensures
        final(out)@ == old(out)@ + decimal(n as int),
{
    if n < 0 {
        out.push('-');
        let m: u128 = if n == i128::MIN {
            0x8000_0000_0000_0000_0000_0000_0000_0000u128
        } else {
            (0 - n) as u128
        };
        push_digits(out, m);
    } else {
        push_digits(out, n as u128);
    }
}

/// The length of the path `s` without the components at its end that
/// are empty or `.`: a path names the same file with or without them.
pub open spec fn path_end(s: Seq<char>) -> int
    decreases s.len(),
{
    if s.len() == 0 {
        0
    } else if s.last() == '/' || (s.last() == '.' && (s.len() == 1 || s[s.len() - 2] == '/')) {
        path_end(s.drop_last())
    } else {
        s.len() as int
    }
}

/// The position just after the last `'/'` of `s`; 0 when `s` holds none.
pub open spec fn name_start(s: Seq<char>) -> int
    decreases s.len(),
{
    if s.len() == 0 {
        0
    } else if s.last() == '/' {
        s.len() as int
    } else {
        name_start(s.drop_last())
    }
}

/// `name_start` is the least position from which on `s` holds no `'/'`.
pub proof fn lemma_name_start(s: Seq<char>)
    ensures
        0 <= name_start(s) <= s.len(),
        name_start(s) > 0 ==> s[name_start(s) - 1] == '/',
        forall|k: int| name_start(s) <= k < s.len() ==> s[k] != '/',
    decreases s.len(),
{
    if s.len() > 0 && s.last() != '/' {
        let front = s.drop_last();
        lemma_name_start(front);
        assert forall|k: int| name_start(s) <= k < s.len() implies s[k] != '/' by {
            if k < front.len() {
                assert(front[k] == s[k]);
            }
        }
    }
}

/// Where the last component of the path `s` starts.
pub open spec fn base_start(s: Seq<char>) -> int {
    name_start(s.take(path_end(s)))
}

/// The last component of the path `s`: what stands between the last
/// `'/'` before the end of the path and that end, where components that
/// are empty or `.` do not count as the end. So the last component of
/// `opt/job`, of `opt/job/` and of `opt/job/.` is `job`.
pub open spec fn base_name(s: Seq<char>) -> Seq<char> {
    s.subrange(base_start(s), path_end(s))
}

/// Whether the path `s` names a file: it has a last component, and that
/// is not `..`.
pub open spec fn names_file(s: Seq<char>) -> bool {
    base_name(s).len() > 0 && base_name(s) != seq!['.', '.']
}

/// The length of what a directory path keeps in any case: the `'/'` of
/// the root, or a `.` that is its first component.
pub open spec fn front_len(p: Seq<char>) -> int {
    if p.len() > 0 && (p[0] == '/' || (p[0] == '.' && (p.len() == 1 || p[1] == '/'))) {
        1
    } else {
        0
    }
}

/// The length of the directory path `p` without the `'/'` and the `.`
/// components at its end, as far as it does not keep them in any case.
pub open spec fn dir_end(p: Seq<char>) -> int
    decreases p.len(),
{
    if p.len() <= front_len(p) {
        p.len() as int
    } else if p.last() == '/' || (p.last() == '.' && p[p.len() - 2] == '/') {
        dir_end(p.drop_last())
    } else {
        p.len() as int
    }
}

/// The directory part of the path `s`: what stands before its last
/// component, without the `'/'` and the `.` components at the end of
/// that. It is the root `/` for a file in the root, and empty for a
/// path of one component.
pub open spec fn dir_name(s: Seq<char>) -> Seq<char> {
    let p = s.take(base_start(s));
    p.take(dir_end(p))
}

/// Finds the end of the path `s`.
pub fn find_path_end(s: &[char]) -> (end: usize)
    ensures
        end == path_end(s@),
        end <= s.len(),
{
    let mut i: usize = s.len();
    assert(s@.take(s.len() as int) == s@);
    while i > 0 && (s[i - 1] == '/' || (s[i - 1] == '.' && (i == 1 || s[i - 2] == '/')))
        invariant
            i <= s.len(),
            path_end(s@) == path_end(s@.take(i as int)),
        decreases i,
    {
        assert(s@.take(i as int).drop_last() == s@.take(i - 1));
        i -= 1;
    }
    i
}

/// Finds where the last component starts of the first `end` characters
/// of `s`: just after the last `'/'` among them.
pub fn find_name_start(s: &[char], end: usize) -> (at: usize)
    requires
        end <= s.len(),
    ensures
        at == name_start(s@.take(end as int)),
        at <= end,
        at > 0 ==> s@[at - 1] == '/',
        forall|k: int| at <= k < end ==> s@[k] != '/',
{
    proof {
        lemma_name_start(s@.take(end as int));
        assert forall|k: int| name_start(s@.take(end as int)) <= k < end implies s@[k]
            != '/' by {
            assert(s@.take(end as int)[k] == s@[k]);
        }
    }
    let ghost whole = s@.take(end as int);
    let mut i: usize = end;
    assert(whole.take(end as int) == whole);
    while i > 0 && s[i - 1] != '/'
        invariant
            i <= end <= s.len(),
            whole == s@.take(end as int),
            name_start(whole) == name_start(whole.take(i as int)),
        decreases i,
    {
        assert(whole.take(i as int).drop_last() == whole.take(i - 1));
        i -= 1;
    }
    i
}

/// Finds the end of the directory path that the first `end` characters
/// of `s` make.
pub fn find_dir_end(s: &[char], end: usize) -> (at: usize)
    requires
        end <= s.len(),
    ensures
        at == dir_end(s@.take(end as int)),
        at <= end,
{
    let ghost whole = s@.take(end as int);
    let mut i: usize = end;
    assert(whole.take(end as int) == whole);
    loop
        invariant_except_break
            i <= end <= s.len(),
            whole == s@.take(end as int),
            dir_end(whole) == dir_end(whole.take(i as int)),
        ensures
            i <= end,
            i == dir_end(whole),
        decreases i,
    {
        let front: usize = if i > 0 && (s[0] == '/' || (s[0] == '.' && (i == 1 || s[1] == '/'))) {
            1
        } else {
            0
        };
        assert(front == front_len(whole.take(i as int)));
        if i <= front {
            break;
        }
        if s[i - 1] == '/' || (s[i - 1] == '.' && s[i - 2] == '/') {
            assert(whole.take(i as int).drop_last() == whole.take(i - 1));
            i -= 1;
        } else {
            break;
        }
    }
    i
}

/// Splits the path `s` into its directory part and its last component.
/// `None` when the path names no file.
pub fn split_path(s: &[char]) -> (r: Option<(Vec<char>, Vec<char>)>)
    ensures
        r is Some <==> names_file(s@),
        r matches Some((dir, name)) ==> dir@ == dir_name(s@) && name@ == base_name(s@),
{
    let end = find_path_end(s);
    let at = find_name_start(s, end);
    let name = slice_of(s, at, end);
    if name.len() == 0 || (name.len() == 2 && name[0] == '.' && name[1] == '.') {
        assert(name@.len() == 2 && name@[0] == '.' && name@[1] == '.' ==> name@ == seq!['.', '.']);
        return None;
    }
    assert(name@ != seq!['.', '.']) by {
        if name@ == seq!['.', '.'] {
            assert(name@.len() == 2 && name@[0] == '.' && name@[1] == '.');
        }
    }
    let stop = find_dir_end(s, at);
    let dir = slice_of(s, 0, stop);
    assert(dir@ == s@.take(at as int).take(stop as int));
    Some((dir, name))
}

} // verus!
