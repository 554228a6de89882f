//! Conversions between strings and vectors of characters, and the character
//! classes that the editor distinguishes.

use vstd::prelude::*;
use vstd::string::StringSliceAdditionalSpecFns;

verus! {

/// The characters of `s`, in order.
pub fn str_chars(s: &str) -> (v: Vec<char>)
    ensures
        v@ == s@,
{
    let mut v: Vec<char> = Vec::new();
    for c in it: s.chars()
        invariant
            it.seq() == s@,
            v@ == it.seq().take(it.index() as int),
    {
        v.push(c);
        assert(v@ =~= it.seq().take(it.index() + 1));
    }
    assert(v@ =~= s@);
    v
}

/// Whether a character beyond ASCII is white space, as `char::is_whitespace`
/// tells it.
pub uninterp spec fn wide_space(c: char) -> bool;

/// Whether a character beyond ASCII is a letter or a digit, as
/// `char::is_alphanumeric` tells it.
pub uninterp spec fn wide_alnum(c: char) -> bool;

/// Whether a character beyond ASCII is a control code, as `char::is_control`
/// tells it.
pub uninterp spec fn wide_control(c: char) -> bool;

/// Whether a character is white space.  In ASCII these are the space and the
/// characters from the tab to the carriage return.
pub open spec fn is_space(c: char) -> bool {
    if (c as u32) < 0x80 {
        c == ' ' || (0x09 <= (c as u32) && (c as u32) <= 0x0d)
    } else {
        wide_space(c)
    }
}

/// Whether a character is a letter or a digit.  In ASCII these are the
/// digits and the letters of both cases.
pub open spec fn is_alnum(c: char) -> bool {
    if (c as u32) < 0x80 {
        ('0' <= c && c <= '9') || ('A' <= c && c <= 'Z') || ('a' <= c && c <= 'z')
    } else {
        wide_alnum(c)
    }
}

/// Whether a character is a control code.  In ASCII these are the
/// characters before the space, and the last one.
pub open spec fn is_control_code(c: char) -> bool {
    if (c as u32) < 0x80 {
        (c as u32) < 0x20 || (c as u32) == 0x7f
    } else {
        wide_control(c)
    }
}

/// `char::is_whitespace`: whether the character has the property
/// `White_Space`.  Of the ASCII characters the space and those from U+0009
/// to U+000D have it; what holds beyond ASCII is left to the name.
#[verifier::external_body]
pub(crate) fn is_whitespace(c: char) -> (r: bool)
    ensures
        r == is_space(c),
        (c as u32) >= 0x80 ==> r == wide_space(c),
{
    c.is_whitespace()
}

/// `char::is_alphanumeric`: whether the character is alphabetic or numeric.
/// Of the ASCII characters the letters and the digits are; what holds beyond
/// ASCII is left to the name.
#[verifier::external_body]
pub(crate) fn is_alphanumeric(c: char) -> (r: bool)
    ensures
        r == is_alnum(c),
        (c as u32) >= 0x80 ==> r == wide_alnum(c),
{
    c.is_alphanumeric()
}

/// `char::is_control`: whether the character has the general category of
/// control codes.  Of the ASCII characters those before the space and
/// U+007F have it; what holds beyond ASCII is left to the name.
#[verifier::external_body]
pub(crate) fn is_control(c: char) -> (r: bool)
    ensures
        r == is_control_code(c),
        (c as u32) >= 0x80 ==> r == wide_control(c),
{
    c.is_control()
}

/// A character of a word: a letter, a digit or an underscore.
pub open spec fn is_word_char(c: char) -> bool {
    is_alnum(c) || c == '_'
}

/// Whether `c` is a character of a word.
pub fn word_char(c: char) -> (r: bool)
    ensures
        r == is_word_char(c),
{
    is_alphanumeric(c) || c == '_'
}

/// `unit`, `n` times in a row.
pub open spec fn repeated(unit: Seq<char>, n: nat) -> Seq<char>
    decreases n,
{
    if n == 0 {
        Seq::empty()
    } else {
        repeated(unit, (n - 1) as nat) + unit
    }
}

/// The string that holds `unit` `n` times in a row.
pub fn repeat(unit: &str, n: usize) -> (s: String)
    ensures
        s@ == repeated(unit@, n as nat),
{
    let mut s = String::new();
    if unit.is_empty() {
        proof {
            lemma_repeated_empty(unit@, n as nat);
        }
        return s;
    }
    let mut i: usize = 0;
    while i < n
        invariant
            i <= n,
            s@ == repeated(unit@, i as nat),
        decreases n - i,
    {
        s = vstd::string::StringExecFns::concat(s, unit);
        i += 1;
    }
    s
}

/// Repeating nothing gives nothing.
pub proof fn lemma_repeated_empty(unit: Seq<char>, n: nat)
    requires
        unit.len() == 0,
    ensures
        repeated(unit, n) == Seq::<char>::empty(),
    decreases n,
{
    if n > 0 {
        lemma_repeated_empty(unit, (n - 1) as nat);
        assert(repeated(unit, (n - 1) as nat) + unit =~= Seq::<char>::empty());
    }
}

/// `a` comes before `b` in the order of dictionaries, byte by byte: at the
/// first place where they differ `a` has the smaller byte, or `a` ends there
/// and `b` goes on.
pub open spec fn lex_less(a: Seq<u8>, b: Seq<u8>) -> bool
    decreases a.len(),
{
    if b.len() == 0 {
        false
    } else if a.len() == 0 {
        true
    } else if a[0] != b[0] {
        a[0] < b[0]
    } else {
        lex_less(a.drop_first(), b.drop_first())
    }
}

/// Nothing comes before itself, and of two texts at most one comes before
/// the other.
pub proof fn lemma_lex_asym(a: Seq<u8>, b: Seq<u8>)
    requires
        lex_less(a, b),
    ensures
        !lex_less(b, a),
    decreases a.len(),
{
    if a.len() > 0 && b.len() > 0 && a[0] == b[0] {
        lemma_lex_asym(a.drop_first(), b.drop_first());
    }
}

/// Where `b` does not come before `a`, nor `c` before `b`, `c` does not come
/// before `a`.
pub proof fn lemma_lex_order(a: Seq<u8>, b: Seq<u8>, c: Seq<u8>)
    requires
        !lex_less(b, a),
        !lex_less(c, b),
    ensures
        !lex_less(c, a),
    decreases a.len(),
{
    if a.len() > 0 && b.len() > 0 && c.len() > 0 && a[0] == b[0] && b[0] == c[0] {
        lemma_lex_order(a.drop_first(), b.drop_first(), c.drop_first());
    }
}

/// Whether `a` comes before `b` in the order of their bytes, which is the
/// order of `str`.
pub fn text_less(a: &str, b: &str) -> (r: bool)
    ensures
        r == lex_less(a.spec_bytes(), b.spec_bytes()),
{
    let x = a.as_bytes();
    let y = b.as_bytes();
    let mut i: usize = 0;
    assert(x@.skip(0) =~= x@ && y@.skip(0) =~= y@);
    while i < x.len() && i < y.len()
        invariant
            x@ == a.spec_bytes(),
            y@ == b.spec_bytes(),
            i <= x@.len(),
            i <= y@.len(),
            lex_less(x@, y@) == lex_less(x@.skip(i as int), y@.skip(i as int)),
        decreases x@.len() - i,
    {
        assert(x@.skip(i as int)[0] == x@[i as int]);
        assert(y@.skip(i as int)[0] == y@[i as int]);
        if x[i] != y[i] {
            return x[i] < y[i];
        }
        assert(x@.skip(i as int).drop_first() =~= x@.skip(i + 1));
        assert(y@.skip(i as int).drop_first() =~= y@.skip(i + 1));
        i += 1;
    }
    i < y.len()
}

/// `a` followed by `b`.
pub fn joined(a: &str, b: &str) -> (s: String)
    ensures
        s@ == a@ + b@,
{
    let s = str_to_string(a);
    vstd::string::StringExecFns::concat(s, b)
}

/// The number of bytes that a character takes in UTF-8.
pub open spec fn char_bytes(c: char) -> usize {
    if (c as u32) < 0x80 {
        1
    } else if (c as u32) < 0x800 {
        2
    } else if (c as u32) < 0x10000 {
        3
    } else {
        4
    }
}

/// The number of bytes that a character takes in UTF-8.
pub fn utf8_len(c: char) -> (n: usize)
    ensures
        n == char_bytes(c),
{
    let code = c as u32;
    if code < 0x80 {
        1
    } else if code < 0x800 {
        2
    } else if code < 0x10000 {
        3
    } else {
        4
    }
}

/// An owned copy of `s`.
pub fn str_to_string(s: &str) -> (r: String)
    ensures
        r@ == s@,
{
    s.to_owned()
}

/// Whether two strings hold the same characters.
pub fn same_text(a: &str, b: &str) -> (r: bool)
    ensures
        r == (a@ == b@),
{
    let x = str_chars(a);
    let y = str_chars(b);
    if x.len() != y.len() {
        return false;
    }
    let mut i: usize = 0;
    while i < x.len()
        invariant
            x@ == a@,
            y@ == b@,
            x@.len() == y@.len(),
            i <= x@.len(),
            forall|j: int| 0 <= j < i ==> x@[j] == y@[j],
        decreases x@.len() - i,
    {
        if x[i] != y[i] {
            return false;
        }
        i += 1;
    }
    assert(x@ =~= y@);
    true
}

/// `String::push`: appends one character.
#[verifier::external_body]
pub(crate) fn push_char(s: &mut String, c: char)
    ensures
        final(s)@ == old(s)@.push(c),
{
    s.push(c)
}

/// The string that holds the characters of `v`, in order.
pub fn chars_to_string(v: &Vec<char>) -> (s: String)
    ensures
        s@ == v@,
{
    let mut s = String::new();
    let mut i: usize = 0;
    while i < v.len()
        invariant
            i <= v.len(),
            s@ == v@.take(i as int),
        decreases v.len() - i,
    {
        push_char(&mut s, v[i]);
        i += 1;
        assert(s@ =~= v@.take(i as int));
    }
    assert(s@ =~= v@);
    s
}

} // verus!
