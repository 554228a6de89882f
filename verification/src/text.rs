//! The mathematical model of a text: a sequence of characters, its line
//! structure and its edits.
//!
//! A line break is one of LF, VT, FF, CR, NEL, LS, PS, or the pair CR LF, which
//! counts once.  A line break belongs to the line that it ends; line 0 starts
//! at the start of the text and every other line right behind a line break.

use vstd::prelude::*;
use vstd::utf8::encode_utf8;

verus! {

/// `c` is a character that breaks a line.
pub open spec fn is_break_char(c: char) -> bool {
    c == '\n' || c == '\u{0B}' || c == '\u{0C}' || c == '\r' || c == '\u{85}' || c == '\u{2028}'
        || c == '\u{2029}'
}

/// A line break ends with the character at `i`.  A CR that an LF follows does
/// not end one: the pair does, at the LF.
pub open spec fn break_ends_at(s: Seq<char>, i: int) -> bool {
    0 <= i < s.len() && is_break_char(s[i]) && !(s[i] == '\r' && i + 1 < s.len() && s[i + 1]
        == '\n')
}

/// The number of line breaks that end before position `n`.
pub open spec fn breaks_before(s: Seq<char>, n: int) -> nat
    decreases n,
{
    if n <= 0 {
        0
    } else {
        breaks_before(s, n - 1) + if break_ends_at(s, n - 1) {
            1nat
        } else {
            0nat
        }
    }
}

/// The number of lines: one more than the number of line breaks.
pub open spec fn line_count(s: Seq<char>) -> nat {
    breaks_before(s, s.len() as int) + 1
}

/// The first position at or behind `p` before which `line` line breaks end, or
/// the length of the text where there is none.
pub open spec fn first_in_line(s: Seq<char>, line: int, p: int) -> int
    decreases s.len() - p,
{
    if p >= s.len() {
        s.len() as int
    } else if breaks_before(s, p) >= line {
        p
    } else {
        first_in_line(s, line, p + 1)
    }
}

/// The position at which line `line` starts.  The line one past the last
/// starts at the end of the text.
pub open spec fn line_start(s: Seq<char>, line: int) -> int {
    first_in_line(s, line, 0)
}

/// The number of characters of line `line`, its line break included.
pub open spec fn line_span(s: Seq<char>, line: int) -> int {
    line_start(s, line + 1) - line_start(s, line)
}

/// The number of characters of line `line` that a cursor can stand before: on
/// the last line all of them, on the others all but the last one of its line
/// break.
pub open spec fn line_width(s: Seq<char>, line: int) -> int {
    if line == line_count(s) - 1 {
        line_span(s, line)
    } else if line_span(s, line) > 0 {
        line_span(s, line) - 1
    } else {
        0
    }
}

/// The characters of line `line`, its line break included.
pub open spec fn line_text(s: Seq<char>, line: int) -> Seq<char> {
    s.subrange(line_start(s, line), line_start(s, line + 1))
}

/// The number of characters at the start of `s` that are `c`.
pub open spec fn leading(s: Seq<char>, c: char) -> nat {
    leading_from(s, c, 0)
}

/// The first position at or behind `i` at which `s` does not hold `c`.
pub open spec fn leading_from(s: Seq<char>, c: char, i: nat) -> nat
    decreases s.len() - i,
{
    if i < s.len() && s[i as int] == c {
        leading_from(s, c, i + 1)
    } else {
        i
    }
}

/// `a` divided by `b`, rounded up.
pub open spec fn ceil_div(a: nat, b: nat) -> nat {
    if b == 0 {
        0
    } else if a % b == 0 {
        a / b
    } else {
        a / b + 1
    }
}

/// The offsets at which `pat` occurs in `s` at or behind `from`, found from
/// left to right, each search starting behind the occurrence before it.
pub open spec fn occurrences<T>(s: Seq<T>, pat: Seq<T>, from: int) -> Seq<int>
    decreases s.len() - from,
{
    if pat.len() == 0 || from < 0 || from + pat.len() > s.len() {
        Seq::empty()
    } else if s.subrange(from, from + pat.len()) == pat {
        seq![from] + occurrences(s, pat, from + pat.len())
    } else {
        occurrences(s, pat, from + 1)
    }
}

/// No more occurrences are found than there are positions left.
pub proof fn lemma_occurrences_bound<T>(s: Seq<T>, pat: Seq<T>, from: int)
    requires
        0 <= from,
    ensures
        occurrences(s, pat, from).len() <= if from <= s.len() {
            s.len() - from
        } else {
            0
        },
        forall|k: int|
            0 <= k < occurrences(s, pat, from).len() ==> from <= #[trigger] occurrences(
                s,
                pat,
                from,
            )[k] && occurrences(s, pat, from)[k] + pat.len() <= s.len(),
    decreases s.len() - from,
{
    if pat.len() == 0 || from + pat.len() > s.len() {
    } else if s.subrange(from, from + pat.len()) == pat {
        lemma_occurrences_bound(s, pat, from + pat.len());
    } else {
        lemma_occurrences_bound(s, pat, from + 1);
    }
}

/// `s` with `t` inserted before position `at`.
pub open spec fn insert_at(s: Seq<char>, at: int, t: Seq<char>) -> Seq<char> {
    s.subrange(0, at) + t + s.subrange(at, s.len() as int)
}

/// `s` without the characters from `from` up to `to`.
pub open spec fn remove_range(s: Seq<char>, from: int, to: int) -> Seq<char> {
    s.subrange(0, from) + s.subrange(to, s.len() as int)
}

/// The number of bytes that the first `n` characters take in UTF-8.
pub open spec fn byte_offset(s: Seq<char>, n: int) -> nat {
    encode_utf8(s.subrange(0, n)).len()
}

/// Taking out what was put in gives the text back.
pub proof fn lemma_remove_inserted(s: Seq<char>, at: int, t: Seq<char>)
    requires
        0 <= at <= s.len(),
    ensures
        insert_at(s, at, t).len() == s.len() + t.len(),
        insert_at(s, at, t).subrange(at, at + t.len()) == t,
        remove_range(insert_at(s, at, t), at, at + t.len()) == s,
{
    assert(insert_at(s, at, t).subrange(at, at + t.len()) =~= t);
    assert(remove_range(insert_at(s, at, t), at, at + t.len()) =~= s);
}

/// Putting back what was taken out gives the text back.
pub proof fn lemma_insert_removed(s: Seq<char>, from: int, to: int)
    requires
        0 <= from <= to <= s.len(),
    ensures
        remove_range(s, from, to).len() == s.len() - (to - from),
        insert_at(remove_range(s, from, to), from, s.subrange(from, to)) == s,
{
    assert(insert_at(remove_range(s, from, to), from, s.subrange(from, to)) =~= s);
}

/// The number of line breaks before a position grows with the position and is
/// at most the position.
pub proof fn lemma_breaks_monotone(s: Seq<char>, a: int, b: int)
    requires
        a <= b,
    ensures
        breaks_before(s, a) <= breaks_before(s, b),
        breaks_before(s, b) <= if b <= 0 { 0 } else { b },
        b <= 0 ==> breaks_before(s, b) == 0,
    decreases b - a, b,
{
    if b > 0 {
        lemma_breaks_bound(s, b);
    }
    if a < b {
        lemma_breaks_monotone(s, a, b - 1);
    }
}

/// At most `n` line breaks end before position `n`, and none ends behind the
/// text.
pub proof fn lemma_breaks_bound(s: Seq<char>, n: int)
    ensures
        breaks_before(s, n) <= if n <= 0 { 0 } else { n },
        n >= s.len() ==> breaks_before(s, n) == breaks_before(s, s.len() as int),
    decreases
            if n <= 0 {
                0
            } else {
                n
            },
{
    if n > 0 {
        lemma_breaks_bound(s, n - 1);
    }
}

/// Where a line starts: within the text, behind as many line breaks as the
/// line's number, and at the first such position.
pub proof fn lemma_line_start(s: Seq<char>, line: int)
    requires
        0 <= line < line_count(s),
    ensures
        0 <= line_start(s, line) <= s.len(),
        breaks_before(s, line_start(s, line)) == line,
        forall|q: int| 0 <= q < line_start(s, line) ==> breaks_before(s, q) < line,
{
    lemma_first_in_line(s, line, 0);
    lemma_breaks_monotone(s, 0, 0);
}

/// The scan behind `line_start`: from a position before which fewer than
/// `line` line breaks end, it stops at the first position with `line` of them.
pub proof fn lemma_first_in_line(s: Seq<char>, line: int, p: int)
    requires
        0 <= p <= s.len(),
        0 <= line <= breaks_before(s, s.len() as int),
        breaks_before(s, p) <= line,
    ensures
        p <= first_in_line(s, line, p) <= s.len(),
        breaks_before(s, first_in_line(s, line, p)) == line,
        forall|q: int| p <= q < first_in_line(s, line, p) ==> breaks_before(s, q) < line,
    decreases s.len() - p,
{
    if p >= s.len() {
    } else if breaks_before(s, p) >= line {
    } else {
        assert(breaks_before(s, p + 1) <= breaks_before(s, p) + 1);
        lemma_first_in_line(s, line, p + 1);
    }
}

/// The line one past the last starts at the end of the text, and so does
/// every line behind it.
pub proof fn lemma_line_start_past_end(s: Seq<char>, line: int)
    requires
        line >= line_count(s),
    ensures
        line_start(s, line) == s.len(),
{
    lemma_scan_past_end(s, line, 0);
}

proof fn lemma_scan_past_end(s: Seq<char>, line: int, p: int)
    requires
        0 <= p,
        line > breaks_before(s, s.len() as int),
    ensures
        first_in_line(s, line, p) == s.len(),
    decreases s.len() - p,
{
    if p < s.len() {
        lemma_breaks_monotone(s, p, s.len() as int);
        lemma_scan_past_end(s, line, p + 1);
    }
}

/// Line starts grow with the line number.
pub proof fn lemma_line_start_monotone(s: Seq<char>, a: int, b: int)
    requires
        0 <= a <= b,
    ensures
        0 <= line_start(s, a) <= line_start(s, b) <= s.len(),
{
    if a >= line_count(s) {
        lemma_line_start_past_end(s, a);
        lemma_line_start_past_end(s, b);
    } else {
        lemma_line_start(s, a);
        if b >= line_count(s) {
            lemma_line_start_past_end(s, b);
        } else {
            lemma_line_start(s, b);
            if line_start(s, b) < line_start(s, a) {
                lemma_breaks_monotone(s, line_start(s, b), line_start(s, a));
                assert(breaks_before(s, line_start(s, b)) < a);
            }
        }
    }
}

/// Two texts that agree before position `q` have the same line breaks before
/// every position below `q`; the break that might end at `q - 1` depends on
/// what follows.
pub proof fn lemma_breaks_agree(a: Seq<char>, b: Seq<char>, q: int, p: int)
    requires
        0 <= q <= a.len(),
        q <= b.len(),
        forall|j: int| 0 <= j < q ==> a[j] == b[j],
        p < q,
    ensures
        breaks_before(a, p) == breaks_before(b, p),
    decreases p,
{
    if p > 0 {
        lemma_breaks_agree(a, b, q, p - 1);
        assert(break_ends_at(a, p - 1) == break_ends_at(b, p - 1));
    }
}

/// The position at which a line starts is the first one before which that
/// many line breaks end.
pub proof fn lemma_line_start_is(s: Seq<char>, line: int, p: int)
    requires
        0 <= p <= s.len(),
        breaks_before(s, p) >= line,
        forall|q: int| 0 <= q < p ==> breaks_before(s, q) < line,
    ensures
        line_start(s, line) == p,
{
    lemma_scan_to(s, line, p, 0);
}

proof fn lemma_scan_to(s: Seq<char>, line: int, p: int, from: int)
    requires
        0 <= from <= p <= s.len(),
        breaks_before(s, p) >= line,
        forall|q: int| 0 <= q < p ==> breaks_before(s, q) < line,
    ensures
        first_in_line(s, line, from) == p,
    decreases p - from,
{
    if from < p {
        lemma_scan_to(s, line, p, from + 1);
    }
}

/// One line break ends right before the start of every line but the first.
pub proof fn lemma_break_before_line(s: Seq<char>, line: int)
    requires
        0 < line < line_count(s),
    ensures
        line_start(s, line) >= 1,
        breaks_before(s, line_start(s, line) - 1) == line - 1,
        break_ends_at(s, line_start(s, line) - 1),
{
    lemma_line_start(s, line);
}

/// Every line but the last holds at least its line break, so the next line
/// starts behind it.
pub proof fn lemma_line_not_empty(s: Seq<char>, line: int)
    requires
        0 <= line,
        line + 1 < line_count(s),
    ensures
        line_start(s, line) < line_start(s, line + 1),
{
    lemma_line_start(s, line);
    lemma_line_start(s, line + 1);
    if line_start(s, line + 1) <= line_start(s, line) {
        lemma_breaks_monotone(s, line_start(s, line + 1), line_start(s, line));
    }
}

/// A place in a text is still a place in it after the text from there on, up
/// to any later offset, was removed.
pub proof fn lemma_place_survives_removal(s: Seq<char>, row: int, col: int, to: int)
    requires
        0 <= row <= line_count(s),
        0 <= col,
        line_start(s, row) + col <= to <= s.len(),
    ensures
        row <= line_count(remove_range(s, line_start(s, row) + col, to)),
        line_start(remove_range(s, line_start(s, row) + col, to), row) + col <= remove_range(
            s,
            line_start(s, row) + col,
            to,
        ).len(),
        col > 0 ==> line_start(remove_range(s, line_start(s, row) + col, to), row) == line_start(
            s,
            row,
        ),
{
    let ls = line_start(s, row);
    let from = ls + col;
    let t = remove_range(s, from, to);
    lemma_line_start_monotone(s, row, row);
    lemma_line_start_monotone(t, row, row);
    assert(t.len() == s.len() - (to - from));
    assert forall|j: int| 0 <= j < from implies s[j] == t[j] by {}
    if row == line_count(s) {
        lemma_line_start_past_end(s, row);
        assert(t =~= s);
    } else if col > 0 {
        lemma_line_start(s, row);
        assert forall|q: int| 0 <= q <= ls implies breaks_before(t, q) == breaks_before(s, q) by {
            lemma_breaks_agree(s, t, from, q);
        }
        lemma_line_start_is(t, row, ls);
        lemma_breaks_monotone(t, ls, t.len() as int);
    } else if row > 0 {
        lemma_break_before_line(s, row);
        lemma_breaks_agree(s, t, from, ls - 1);
        lemma_breaks_monotone(t, ls - 1, t.len() as int);
    }
}

/// The empty text has one line, which is empty.
pub proof fn lemma_empty_text()
    ensures
        line_count(Seq::<char>::empty()) == 1,
        line_start(Seq::<char>::empty(), 0) == 0,
        line_start(Seq::<char>::empty(), 1) == 0,
        line_width(Seq::<char>::empty(), 0) == 0,
{
}

} // verus!
