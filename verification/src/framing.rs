//! The framing of messages to and from a language server: each message is
//! sent as `Content-Length: N`, an empty line, and the `N` bytes of its body.
//! Lines of the header end with a carriage return and a line feed.

use vstd::prelude::*;
use vstd::slice::slice_subrange;

verus! {

/// Why a stream of bytes does not start with a message.
#[derive(Clone, Copy, Debug, PartialEq, Eq, Structural)]
pub enum FrameError {
    /// A line of the header ends without a carriage return.
    BadLineEnd,
    /// A line of the header has no `: ` in it.
    BadHeader,
    /// The length is not a number that fits.
    BadLength,
    /// The header ends without a length.
    MissingLength,
}

/// What a stream of bytes starts with.
#[derive(Debug)]
pub enum Frame {
    /// A whole message: its body, and the number of bytes that the message
    /// takes in the stream.
    Message { body: Vec<u8>, consumed: usize },
    /// The start of a message: more bytes are needed.
    Incomplete,
    /// No message.
    Malformed(FrameError),
}

/// What a stream of bytes starts with, as plain values.
pub enum FrameView {
    Message { body: Seq<u8>, consumed: int },
    Incomplete,
    Malformed(FrameError),
}

impl View for Frame {
    type V = FrameView;

    open spec fn view(&self) -> FrameView {
        match *self {
            Frame::Message { body, consumed } => FrameView::Message {
                body: body@,
                consumed: consumed as int,
            },
            Frame::Incomplete => FrameView::Incomplete,
            Frame::Malformed(e) => FrameView::Malformed(e),
        }
    }
}

/// The bytes of `Content-Length`.
pub open spec fn length_name() -> Seq<u8> {
    seq![
        0x43u8, 0x6fu8, 0x6eu8, 0x74u8, 0x65u8, 0x6eu8, 0x74u8, 0x2du8, 0x4cu8, 0x65u8, 0x6eu8,
        0x67u8, 0x74u8, 0x68u8,
    ]
}

/// The character that stands for the digit `d`.
pub open spec fn digit(d: nat) -> u8 {
    (0x30 + d) as u8
}

/// The decimal digits of `n`, without leading zeros.
pub open spec fn decimal(n: nat) -> Seq<u8>
    decreases n,
{
    if n < 10 {
        seq![digit(n)]
    } else {
        decimal(n / 10).push(digit(n % 10))
    }
}

/// Every byte is a decimal digit.
pub open spec fn all_digits(s: Seq<u8>) -> bool {
    forall|i: int| 0 <= i < s.len() ==> 0x30 <= #[trigger] s[i] <= 0x39
}

/// The number that decimal digits spell.
pub open spec fn number(digits: Seq<u8>) -> nat
    decreases digits.len(),
{
    if digits.len() == 0 {
        0
    } else {
        number(digits.drop_last()) * 10 + (digits.last() - 0x30) as nat
    }
}

/// The length that the value of a header spells: digits, with or without a
/// plus sign before them, that spell a number which fits.
pub open spec fn parse_length(value: Seq<u8>) -> Option<usize> {
    let digits = if value.len() > 0 && value[0] == 0x2b {
        value.drop_first()
    } else {
        value
    };
    if digits.len() > 0 && all_digits(digits) && number(digits) <= usize::MAX {
        Some(number(digits) as usize)
    } else {
        None
    }
}

/// The message that carries `body`.
pub open spec fn frame(body: Seq<u8>) -> Seq<u8> {
    length_name() + seq![0x3au8, 0x20u8] + decimal(body.len()) + seq![0x0du8, 0x0au8, 0x0du8, 0x0au8]
        + body
}

/// The first position at or behind `p` at which `s` holds `b`, or the length
/// of `s`.
pub open spec fn find_byte(s: Seq<u8>, b: u8, p: int) -> int
    decreases s.len() - p,
{
    if p < 0 || p >= s.len() {
        s.len() as int
    } else if s[p] == b {
        p
    } else {
        find_byte(s, b, p + 1)
    }
}

/// The first position at or behind `p` at which `s` holds a colon and a
/// space, or the length of `s`.
pub open spec fn find_separator(s: Seq<u8>, p: int) -> int
    decreases s.len() - p,
{
    if p < 0 || p + 1 >= s.len() {
        s.len() as int
    } else if s[p] == 0x3a && s[p + 1] == 0x20 {
        p
    } else {
        find_separator(s, p + 1)
    }
}

/// What the stream holds from position `p` on, where the header read so far
/// gave the length `size`.  Each line of the header ends with a carriage
/// return and a line feed and holds a name, `: ` and a value; the length is
/// the value of the last `Content-Length`.  An empty line ends the header,
/// and the body follows.
pub open spec fn parse_from(s: Seq<u8>, p: int, size: Option<usize>) -> FrameView
    decreases s.len() - p,
{
    let e = find_byte(s, 0x0a, p);
    if p < 0 || e >= s.len() {
        FrameView::Incomplete
    } else if e == p || s[e - 1] != 0x0d {
        FrameView::Malformed(FrameError::BadLineEnd)
    } else {
        let line = s.subrange(p, e - 1);
        if line.len() == 0 {
            match size {
                None => FrameView::Malformed(FrameError::MissingLength),
                Some(n) => if e + 1 + n <= s.len() {
                    FrameView::Message { body: s.subrange(e + 1, e + 1 + n), consumed: e + 1 + n }
                } else {
                    FrameView::Incomplete
                },
            }
        } else {
            let k = find_separator(line, 0);
            if k >= line.len() {
                FrameView::Malformed(FrameError::BadHeader)
            } else if line.subrange(0, k) == length_name() {
                match parse_length(line.subrange(k + 2, line.len() as int)) {
                    None => FrameView::Malformed(FrameError::BadLength),
                    Some(n) => {
                        proof {
                            lemma_find_byte(s, 0x0a, p);
                        }
                        parse_from(s, e + 1, Some(n))
                    },
                }
            } else {
                proof {
                    lemma_find_byte(s, 0x0a, p);
                }
                parse_from(s, e + 1, size)
            }
        }
    }
}

/// What the stream starts with.
pub open spec fn parse(s: Seq<u8>) -> FrameView {
    parse_from(s, 0, None)
}

/// Where `find_byte` stops: within the stream, at the byte or at the end,
/// with no such byte before.
pub proof fn lemma_find_byte(s: Seq<u8>, b: u8, p: int)
    requires
        0 <= p <= s.len(),
    ensures
        p <= find_byte(s, b, p) <= s.len(),
        find_byte(s, b, p) < s.len() ==> s[find_byte(s, b, p)] == b,
        forall|i: int| p <= i < find_byte(s, b, p) ==> s[i] != b,
    decreases s.len() - p,
{
    if p < s.len() && s[p] != b {
        lemma_find_byte(s, b, p + 1);
    }
}

/// Where `find_separator` stops.
pub proof fn lemma_find_separator(s: Seq<u8>, p: int)
    requires
        0 <= p <= s.len(),
    ensures
        p <= find_separator(s, p) <= s.len(),
        find_separator(s, p) < s.len() ==> find_separator(s, p) + 1 < s.len() && s[find_separator(
            s,
            p,
        )] == 0x3a && s[find_separator(s, p) + 1] == 0x20,
        forall|i: int|
            p <= i < find_separator(s, p) && i + 1 < s.len() ==> !(#[trigger] s[i] == 0x3a && s[i
                + 1] == 0x20),
    decreases s.len() - p,
{
    if p + 1 < s.len() && !(s[p] == 0x3a && s[p + 1] == 0x20) {
        lemma_find_separator(s, p + 1);
    }
}

/// The position of the first `b` in `s` at or behind `p`; the length of `s`
/// where there is none.
pub fn position_of(s: &[u8], b: u8, p: usize) -> (at: usize)
    requires
        p <= s@.len(),
    ensures
        at == find_byte(s@, b, p as int),
        p <= at <= s@.len(),
{
    let mut i = p;
    while i < s.len() && s[i] != b
        invariant
            p <= i <= s@.len(),
            find_byte(s@, b, i as int) == find_byte(s@, b, p as int),
        decreases s@.len() - i,
    {
        i += 1;
    }
    proof {
        lemma_find_byte(s@, b, p as int);
    }
    i
}

/// The position of the first `: ` in `s`; the length of `s` where there is
/// none.
pub fn separator_of(s: &[u8]) -> (at: usize)
    ensures
        at == find_separator(s@, 0),
        at <= s@.len(),
{
    let n = s.len();
    let mut i: usize = 0;
    while i < n && n - i >= 2 && !(s[i] == 0x3a && s[i + 1] == 0x20)
        invariant
            n == s@.len(),
            i <= s@.len(),
            find_separator(s@, i as int) == find_separator(s@, 0),
        decreases s@.len() - i,
    {
        i += 1;
    }
    proof {
        lemma_find_separator(s@, 0);
    }
    if i < n && n - i >= 2 {
        i
    } else {
        n
    }
}

/// Whether two runs of bytes are the same.
pub fn same_bytes(a: &[u8], b: &[u8]) -> (r: bool)
    ensures
        r == (a@ == b@),
{
    if a.len() != b.len() {
        return false;
    }
    let mut i: usize = 0;
    while i < a.len()
        invariant
            a@.len() == b@.len(),
            i <= a@.len(),
            forall|j: int| 0 <= j < i ==> a@[j] == b@[j],
        decreases a@.len() - i,
    {
        if a[i] != b[i] {
            return false;
        }
        i += 1;
    }
    assert(a@ =~= b@);
    true
}

/// The length that the value of a header spells.
pub fn read_length(value: &[u8]) -> (n: Option<usize>)
    ensures
        n == parse_length(value@),
{
    let start: usize = if value.len() > 0 && value[0] == 0x2b {
        1
    } else {
        0
    };
    let ghost digits = if start == 1 {
        value@.drop_first()
    } else {
        value@
    };
    if value.len() == start {
        return None;
    }
    assert(digits =~= value@.subrange(start as int, value@.len() as int));
    let mut n: usize = 0;
    let mut i: usize = start;
    while i < value.len()
        invariant
            start <= i <= value@.len(),
            start <= 1,
            digits == value@.subrange(start as int, value@.len() as int),
            digits == (if value@.len() > 0 && value@[0] == 0x2b {
                value@.drop_first()
            } else {
                value@
            }),
            all_digits(digits.take(i - start)),
            n == number(digits.take(i - start)),
        decreases value@.len() - i,
    {
        let b = value[i];
        let ghost taken = digits.take(i - start + 1);
        proof {
            assert(taken.drop_last() =~= digits.take(i - start));
            assert(taken.last() == b);
        }
        if b < 0x30 || b > 0x39 {
            assert(digits[i - start] == b);
            return None;
        }
        let next = match n.checked_mul(10) {
            Some(m) => m.checked_add((b - 0x30) as usize),
            None => None,
        };
        match next {
            Some(m) => {
                n = m;
            },
            None => {
                proof {
                    if all_digits(digits) {
                        lemma_number_grows(digits, i - start + 1);
                    }
                }
                return None;
            },
        }
        i += 1;
    }
    assert(digits.take(i - start) =~= digits);
    Some(n)
}

/// The number that digits spell is no less than what a part of them spells.
pub proof fn lemma_number_grows(digits: Seq<u8>, k: int)
    requires
        0 <= k <= digits.len(),
        all_digits(digits),
    ensures
        number(digits.take(k)) <= number(digits),
    decreases digits.len() - k,
{
    if k == digits.len() {
        assert(digits.take(k) =~= digits);
    } else {
        lemma_number_grows(digits, k + 1);
        assert(digits.take(k + 1).drop_last() =~= digits.take(k));
    }
}

/// The bytes of `Content-Length`.
pub fn length_name_bytes() -> (name: Vec<u8>)
    ensures
        name@ == length_name(),
{
    let name = vec![
        0x43u8, 0x6fu8, 0x6eu8, 0x74u8, 0x65u8, 0x6eu8, 0x74u8, 0x2du8, 0x4cu8, 0x65u8, 0x6eu8,
        0x67u8, 0x74u8, 0x68u8,
    ];
    assert(name@ =~= length_name());
    name
}

/// What the stream starts with: a whole message, the start of one, or
/// neither.
pub fn decode_message(stream: &[u8]) -> (frame: Frame)
    ensures
        frame@ == parse(stream@),
{
    let name = length_name_bytes();
    let total = stream.len();
    let mut size: Option<usize> = None;
    let mut p: usize = 0;
    loop
        invariant
            total == stream@.len(),
            p <= stream@.len(),
            name@ == length_name(),
            parse_from(stream@, p as int, size) == parse(stream@),
        decreases stream@.len() - p,
    {
        let e = position_of(stream, 0x0a, p);
        if e >= total {
            return Frame::Incomplete;
        }
        if e == p || stream[e - 1] != 0x0d {
            return Frame::Malformed(FrameError::BadLineEnd);
        }
        let line = slice_subrange(stream, p, e - 1);
        if line.len() == 0 {
            return match size {
                None => Frame::Malformed(FrameError::MissingLength),
                Some(n) => {
                    if n <= total - (e + 1) {
                        let body = vstd::slice::slice_to_vec(slice_subrange(stream, e + 1, e + 1 + n));
                        Frame::Message { body, consumed: e + 1 + n }
                    } else {
                        Frame::Incomplete
                    }
                },
            };
        }
        let k = separator_of(line);
        if k >= line.len() {
            return Frame::Malformed(FrameError::BadHeader);
        }
        proof {
            lemma_find_separator(line@, 0);
        }
        if same_bytes(slice_subrange(line, 0, k), name.as_slice()) {
            match read_length(slice_subrange(line, k + 2, line.len())) {
                None => {
                    return Frame::Malformed(FrameError::BadLength);
                },
                Some(n) => {
                    size = Some(n);
                },
            }
        }
        p = e + 1;
    }
}

/// The decimal digits of `n`.
pub fn decimal_digits(n: usize) -> (digits: Vec<u8>)
    ensures
        digits@ == decimal(n as nat),
    decreases n,
{
    if n < 10 {
        let digits = vec![0x30u8 + n as u8];
        assert(digits@ =~= decimal(n as nat));
        digits
    } else {
        let mut digits = decimal_digits(n / 10);
        digits.push(0x30u8 + (n % 10) as u8);
        digits
    }
}

/// The message that carries `body`.
pub fn encode_message(body: &[u8]) -> (message: Vec<u8>)
    ensures
        message@ == frame(body@),
{
    let mut message = length_name_bytes();
    message.push(0x3a);
    message.push(0x20);
    let mut digits = decimal_digits(body.len());
    message.append(&mut digits);
    message.push(0x0d);
    message.push(0x0a);
    message.push(0x0d);
    message.push(0x0a);
    message.extend_from_slice(body);
    assert(message@ =~= frame(body@));
    message
}

/// The decimal digits of a number are digits, at least one, and spell the
/// number.
pub proof fn lemma_decimal(n: nat)
    ensures
        decimal(n).len() >= 1,
        all_digits(decimal(n)),
        number(decimal(n)) == n,
    decreases n,
{
    if n < 10 {
        assert(decimal(n).drop_last() =~= Seq::<u8>::empty());
        assert(number(decimal(n).drop_last()) == 0);
    } else {
        lemma_decimal(n / 10);
        assert(decimal(n).drop_last() =~= decimal(n / 10));
    }
}

/// A run of bytes that holds no `b` is searched through to its end, and the
/// search goes on in what follows.
pub proof fn lemma_find_byte_skips(s: Seq<u8>, b: u8, p: int, q: int)
    requires
        0 <= p <= q <= s.len(),
        forall|i: int| p <= i < q ==> s[i] != b,
    ensures
        find_byte(s, b, p) == find_byte(s, b, q),
    decreases q - p,
{
    if p < q {
        lemma_find_byte_skips(s, b, p + 1, q);
    }
}

/// A run of bytes that holds no colon is searched through to its end.
pub proof fn lemma_find_separator_skips(s: Seq<u8>, p: int, q: int)
    requires
        0 <= p <= q,
        q + 1 < s.len(),
        forall|i: int| p <= i < q ==> s[i] != 0x3a,
    ensures
        find_separator(s, p) == find_separator(s, q),
    decreases q - p,
{
    if p < q {
        lemma_find_separator_skips(s, p + 1, q);
    }
}

/// Reading what was written gives the body back: a stream that starts with
/// the message that carries `body` starts with a whole message, whose body is
/// `body` and which takes as many bytes as were written, whatever follows.
pub proof fn lemma_decode_encoded(body: Seq<u8>, rest: Seq<u8>)
    requires
        body.len() <= usize::MAX,
    ensures
        parse(frame(body) + rest) == (FrameView::Message {
            body,
            consumed: frame(body).len() as int,
        }),
{
    let n = body.len();
    let dec = decimal(n);
    lemma_decimal(n);
    let s = frame(body) + rest;
    let head = length_name() + seq![0x3au8, 0x20u8] + dec;
    let l = head.len() as int;
    assert(l == 16 + dec.len());
    assert(frame(body) =~= head + seq![0x0du8, 0x0au8, 0x0du8, 0x0au8] + body);
    assert(s.len() == l + 4 + n + rest.len());
    assert forall|i: int| 0 <= i < l implies s[i] == head[i] by {}
    assert forall|i: int| 0 <= i < 14 implies s[i] == length_name()[i] by {}
    assert forall|i: int| 16 <= i < l implies s[i] == dec[i - 16] by {}
    assert(s[14] == 0x3a && s[15] == 0x20);
    assert(s[l] == 0x0d && s[l + 1] == 0x0a && s[l + 2] == 0x0d && s[l + 3] == 0x0a);
    assert forall|i: int| 0 <= i < l + 1 implies s[i] != 0x0a by {
        if 16 <= i < l {
            assert(s[i] == dec[i - 16]);
        } else if i < 14 {
            assert(s[i] == length_name()[i]);
        }
    }
    // The first line.
    lemma_find_byte_skips(s, 0x0a, 0, l + 1);
    assert(find_byte(s, 0x0a, 0) == l + 1);
    let line = s.subrange(0, l);
    assert(line =~= head);
    assert forall|i: int| 0 <= i < 14 implies line[i] != 0x3a by {
        assert(line[i] == length_name()[i]);
    }
    lemma_find_separator_skips(line, 0, 14);
    assert(find_separator(line, 0) == 14);
    assert(line.subrange(0, 14) =~= length_name());
    assert(line.subrange(16, line.len() as int) =~= dec);
    assert(dec[0] != 0x2b);
    assert(parse_length(dec) == Some(n as usize));
    // The empty line, and the body.
    lemma_find_byte_skips(s, 0x0a, l + 2, l + 3);
    assert(find_byte(s, 0x0a, l + 3) == l + 3);
    assert(find_byte(s, 0x0a, l + 2) == l + 3);
    assert(s.subrange(l + 2, l + 2).len() == 0);
    assert(s.subrange(l + 4, l + 4 + n) =~= body);
    assert(parse_from(s, l + 2, Some(n as usize)) == (FrameView::Message {
        body,
        consumed: l + 4 + n,
    }));
    assert(parse_from(s, 0, None) == parse_from(s, l + 2, Some(n as usize)));
}

/// Two bodies that are written alike are the same body.
pub proof fn lemma_frame_injective(a: Seq<u8>, b: Seq<u8>)
    requires
        a.len() <= usize::MAX,
        b.len() <= usize::MAX,
        frame(a) == frame(b),
    ensures
        a == b,
{
    lemma_decode_encoded(a, Seq::empty());
    lemma_decode_encoded(b, Seq::empty());
}

/// What is read as a whole message from a stream that was written by
/// `frame` is written back as the same bytes.
pub proof fn lemma_encode_decoded(body: Seq<u8>, rest: Seq<u8>)
    requires
        body.len() <= usize::MAX,
    ensures
        parse(frame(body) + rest) matches FrameView::Message { body: read, consumed } && frame(read)
            == (frame(body) + rest).take(consumed),
{
    lemma_decode_encoded(body, rest);
    assert((frame(body) + rest).take(frame(body).len() as int) =~= frame(body));
}

} // verus!
