//! Character-level helpers: ASCII case folding, case-insensitive substring
//! search, line boundaries and decimal digits.

use vstd::prelude::*;
use vstd::string::*;

verus! {

/// `c` with the ASCII capitals mapped to their small letters; every other
/// character is left alone.
pub open spec fn fold_char(c: char) -> char {
    if 'A' <= c && c <= 'Z' {
        ((c as u8) + 32) as char
    } else {
        c
    }
}

/// Whether `needle` stands in `hay` at position `at`, capitals in `hay`
/// counting as small letters. `needle` is taken as it is.
pub open spec fn matches_at(hay: Seq<char>, at: int, needle: Seq<char>) -> bool {
    &&& 0 <= at
    &&& at + needle.len() <= hay.len()
    &&& forall|j: int| 0 <= j < needle.len() ==> fold_char(#[trigger] hay[at + j]) == needle[j]
}

/// Whether `needle` occurs somewhere in `hay`, ignoring ASCII case in `hay`.
pub open spec fn contains_folded(hay: Seq<char>, needle: Seq<char>) -> bool {
    exists|at: int| matches_at(hay, at, needle)
}

/// The index of the first line feed at or after `from`, or the length of `s`
/// where there is none.
pub open spec fn line_end(s: Seq<char>, from: int) -> int
    decreases s.len() - from,
{
    if from < 0 || from >= s.len() {
        s.len() as int
    } else if s[from] == '\n' {
        from
    } else {
        line_end(s, from + 1)
    }
}

/// Where the text of the line that starts at `from` stops: at its line
/// feed, or one earlier where a carriage return stands right before it.
pub open spec fn line_stop(s: Seq<char>, from: int) -> int {
    let end = line_end(s, from);
    if end < s.len() && from < end && s[end - 1] == '\r' {
        end - 1
    } else {
        end
    }
}

/// The line that starts at `from`, without its terminator.
pub open spec fn line_at(s: Seq<char>, from: int) -> Seq<char> {
    s.subrange(from, line_stop(s, from))
}

/// The lines of `s` from position `from` on. A line ends at a line feed, or
/// at a carriage return directly followed by one; a final line needs no
/// terminator, and a terminator at the very end opens no further line.
pub open spec fn lines_from(s: Seq<char>, from: int) -> Seq<Seq<char>>
    decreases s.len() + 1 - from,
    via lines_from_terminates
{
    if from < 0 || from >= s.len() {
        Seq::empty()
    } else {
        seq![line_at(s, from)] + lines_from(s, line_end(s, from) + 1)
    }
}

#[via_fn]
proof fn lines_from_terminates(s: Seq<char>, from: int) {
    if 0 <= from < s.len() {
        lemma_line_end_bounds(s, from);
    }
}

/// All lines of `s`.
pub open spec fn lines(s: Seq<char>) -> Seq<Seq<char>> {
    lines_from(s, 0)
}

/// The first line of `s`; empty where `s` is empty.
pub open spec fn first_line(s: Seq<char>) -> Seq<char> {
    if s.len() == 0 {
        Seq::empty()
    } else {
        line_at(s, 0)
    }
}

/// A line's end lies at or after its start and within the text, its stop
/// between the two; no line feed stands before the end, and one stands at
/// the end unless the text ends there.
pub proof fn lemma_line_end_bounds(s: Seq<char>, from: int)
    requires
        0 <= from <= s.len(),
    ensures
        from <= line_end(s, from) <= s.len(),
        from <= line_stop(s, from) <= line_end(s, from),
        forall|k: int| from <= k < line_end(s, from) ==> s[k] != '\n',
        line_end(s, from) < s.len() ==> s[line_end(s, from)] == '\n',
    decreases s.len() - from,
{
    if from < s.len() && s[from] != '\n' {
        lemma_line_end_bounds(s, from + 1);
    }
}

/// The texts of a run of strings.
pub open spec fn texts(v: Seq<String>) -> Seq<Seq<char>> {
    Seq::new(v.len(), |i: int| v[i]@)
}

/// The decimal digit `d` as a character.
pub open spec fn digit_char(d: int) -> char {
    if d == 0 {
        '0'
    } else if d == 1 {
        '1'
    } else if d == 2 {
        '2'
    } else if d == 3 {
        '3'
    } else if d == 4 {
        '4'
    } else if d == 5 {
        '5'
    } else if d == 6 {
        '6'
    } else if d == 7 {
        '7'
    } else if d == 8 {
        '8'
    } else {
        '9'
    }
}

/// `n` written in decimal, without leading zeros.
pub open spec fn decimal(n: nat) -> Seq<char>
    decreases n,
{
    if n < 10 {
        seq![digit_char(n as int)]
    } else {
        decimal(n / 10).push(digit_char((n % 10) as int))
    }
}

/// Whether `s` holds no line feed.
pub open spec fn single_line(s: Seq<char>) -> bool {
    forall|i: int| 0 <= i < s.len() ==> s[i] != '\n'
}

/// A line of a text holds no line feed.
pub proof fn lemma_line_is_single(s: Seq<char>, from: int)
    requires
        0 <= from <= s.len(),
    ensures
        single_line(line_at(s, from)),
        single_line(first_line(s)),
{
    lemma_line_end_bounds(s, from);
    lemma_line_end_bounds(s, 0);
}

/// No line of a text holds a line feed.
pub proof fn lemma_lines_are_single(s: Seq<char>, from: int)
    requires
        0 <= from,
    ensures
        forall|i: int|
            0 <= i < lines_from(s, from).len() ==> single_line(#[trigger] lines_from(s, from)[i]),
    decreases s.len() + 1 - from,
{
    if from < s.len() {
        lemma_line_end_bounds(s, from);
        lemma_line_is_single(s, from);
        let rest = lines_from(s, line_end(s, from) + 1);
        lemma_lines_are_single(s, line_end(s, from) + 1);
        let here = lines_from(s, from);
        assert(here == seq![line_at(s, from)] + rest);
        assert forall|i: int| 0 <= i < here.len() implies single_line(#[trigger] here[i]) by {
            if i > 0 {
                assert(here[i] == rest[i - 1]);
            }
        }
    }
}

/// The characters of `s`.
pub fn to_chars(s: &str) -> (v: Vec<char>)
    ensures
        v@ == s@,
{
    let mut v: Vec<char> = Vec::new();
    for c in it: s.chars()
        invariant
            it.seq() == s@,
            v@ == it.seq().take(it.index() as int),
    {
        v.push(c);
        assert(it.seq().take(it.index() + 1) =~= it.seq().take(it.index() as int).push(c));
    }
    assert(v@ =~= s@);
    v
}

/// Appends a copy of `s` to `v`.
pub fn push_text(v: &mut Vec<String>, s: &str)
    ensures
        texts(final(v)@) == texts(old(v)@).push(s@),
{
    v.push(String::from_str(s));
    assert(texts(v@) =~= texts(old(v)@).push(s@));
}

/// Appends `s` to `v`.
pub fn push_string(v: &mut Vec<String>, s: String)
    ensures
        texts(final(v)@) == texts(old(v)@).push(s@),
{
    v.push(s);
    assert(texts(v@) =~= texts(old(v)@).push(s@));
}

/// Whether two runs of characters are the same.
pub fn same_chars(a: &[char], b: &[char]) -> (same: bool)
    ensures
        same == (a@ == b@),
{
    if a.len() != b.len() {
        return false;
    }
    let mut i: usize = 0;
    while i < a.len()
        invariant
            a@.len() == b@.len(),
            i <= a@.len(),
            forall|k: int| 0 <= k < i ==> a@[k] == b@[k],
        decreases a@.len() - i,
    {
        if a[i] != b[i] {
            return false;
        }
        i = i + 1;
    }
    assert(a@ =~= b@);
    true
}

/// `c` folded as `fold_char` says.
pub fn fold(c: char) -> (r: char)
    ensures
        r == fold_char(c),
{
    if 'A' <= c && c <= 'Z' {
        ((c as u8) + 32u8) as char
    } else {
        c
    }
}

/// The one-character string of a decimal digit.
fn digit_str(d: u16) -> (s: &'static str)
    requires
        d < 10,
    ensures
        s@ == seq![digit_char(d as int)],
{
    proof {
        reveal_strlit("0");
        reveal_strlit("1");
        reveal_strlit("2");
        reveal_strlit("3");
        reveal_strlit("4");
        reveal_strlit("5");
        reveal_strlit("6");
        reveal_strlit("7");
        reveal_strlit("8");
        reveal_strlit("9");
    }
    let s = if d == 0 {
        "0"
    } else if d == 1 {
        "1"
    } else if d == 2 {
        "2"
    } else if d == 3 {
        "3"
    } else if d == 4 {
        "4"
    } else if d == 5 {
        "5"
    } else if d == 6 {
        "6"
    } else if d == 7 {
        "7"
    } else if d == 8 {
        "8"
    } else {
        "9"
    };
    assert(s@ =~= seq![digit_char(d as int)]);
    s
}

/// Appends `n` in decimal to `out`.
pub fn push_decimal(out: &mut String, n: u16)
    ensures
        final(out)@ == old(out)@ + decimal(n as nat),
    decreases n,
{
    if n >= 10 {
        push_decimal(out, n / 10);
    }
    out.append(digit_str(n % 10));
    assert(final(out)@ =~= old(out)@ + decimal(n as nat));
}

/// `n` written in decimal.
pub fn decimal_string(n: u16) -> (s: String)
    ensures
        s@ == decimal(n as nat),
{
    let mut s = String::new();
    push_decimal(&mut s, n);
    assert(s@ =~= decimal(n as nat));
    s
}

/// Whether `needle` stands at `at` in `text[from..to]`, ignoring ASCII case
/// in the text.
pub fn matches_at_in(text: &[char], from: usize, to: usize, at: usize, needle: &[char]) -> (b:
    bool)
    requires
        from <= to <= text@.len(),
        at + needle@.len() <= to - from,
    ensures
        b == matches_at(text@.subrange(from as int, to as int), at as int, needle@),
{
    let ghost hay = text@.subrange(from as int, to as int);
    let mut j: usize = 0;
    while j < needle.len()
        invariant
            from <= to <= text@.len(),
            at + needle@.len() <= to - from,
            hay == text@.subrange(from as int, to as int),
            j <= needle@.len(),
            forall|k: int| 0 <= k < j ==> fold_char(#[trigger] hay[at + k]) == needle@[k],
        decreases needle@.len() - j,
    {
        if fold(text[from + at + j]) != needle[j] {
            assert(hay[at + j] == text@[from + at + j]);
            return false;
        }
        assert(hay[at + j] == text@[from + at + j]);
        j = j + 1;
    }
    true
}

/// Whether `needle` occurs in `text[from..to]`, ignoring ASCII case in the
/// text.
pub fn contains_in(text: &[char], from: usize, to: usize, needle: &[char]) -> (b: bool)
    requires
        from <= to <= text@.len(),
    ensures
        b == contains_folded(text@.subrange(from as int, to as int), needle@),
{
    let ghost hay = text@.subrange(from as int, to as int);
    if needle.len() > to - from {
        return false;
    }
    let last: usize = to - from - needle.len();
    let mut at: usize = 0;
    while at <= last
        invariant
            from <= to <= text@.len(),
            needle@.len() <= to - from,
            last == to - from - needle@.len(),
            hay == text@.subrange(from as int, to as int),
            at <= last + 1,
            forall|k: int| 0 <= k < at ==> !matches_at(hay, k, needle@),
        decreases last + 1 - at,
    {
        if matches_at_in(text, from, to, at, needle) {
            return true;
        }
        at = at + 1;
    }
    false
}

/// The position of the first line feed in `text` at or after `from`.
pub fn find_line_end(text: &[char], from: usize) -> (end: usize)
    requires
        from <= text@.len(),
    ensures
        end == line_end(text@, from as int),
        from <= end <= text@.len(),
{
    let mut i: usize = from;
    while i < text.len() && text[i] != '\n'
        invariant
            from <= i <= text@.len(),
            line_end(text@, from as int) == line_end(text@, i as int),
        decreases text@.len() - i,
    {
        i = i + 1;
    }
    i
}

/// Where the text of the line from `from` to its line feed at `end` stops.
pub fn find_line_stop(text: &[char], from: usize, end: usize) -> (stop: usize)
    requires
        from <= text@.len(),
        end == line_end(text@, from as int),
    ensures
        stop == line_stop(text@, from as int),
        from <= stop <= end,
{
    proof {
        lemma_line_end_bounds(text@, from as int);
    }
    if end < text.len() && from < end && text[end - 1] == '\r' {
        end - 1
    } else {
        end
    }
}

} // verus!
