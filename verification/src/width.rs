//! How many cells of the screen a character or a text takes.

use vstd::prelude::*;

verus! {

/// The number of cells that a character takes, as `unicode-width` tells it;
/// nothing for a control character.
pub uninterp spec fn char_cells(c: char) -> Option<usize>;

/// The number of cells that a text takes, as `unicode-width` tells it.
pub uninterp spec fn text_cells(text: Seq<char>) -> usize;

/// `UnicodeWidthChar::width`: the displayed width of a character in
/// columns; nothing for a control character.
#[verifier::external_body]
pub(crate) fn char_width(c: char) -> (w: Option<usize>)
    ensures
        w == char_cells(c),
{
    unicode_width::UnicodeWidthChar::width(c)
}

/// `UnicodeWidthStr::width`: the displayed width of a text in columns.
#[verifier::external_body]
pub(crate) fn text_width(text: &str) -> (w: usize)
    ensures
        w == text_cells(text@),
{
    unicode_width::UnicodeWidthStr::width(text)
}

/// The cells that a character takes on the screen: those that it is wide,
/// one for a control character.
pub open spec fn cells_of(c: char) -> usize {
    match char_cells(c) {
        Some(w) => w,
        None => 1,
    }
}

/// The cells that a character takes on the screen.
pub fn cells(c: char) -> (w: usize)
    ensures
        w == cells_of(c),
{
    match char_width(c) {
        Some(w) => w,
        None => 1,
    }
}

/// The number of characters of `line` from `from` on that fit into `room`
/// cells, `used` of which are taken: those before the first one that would
/// reach beyond the room.
pub open spec fn fitting(line: Seq<char>, from: int, room: int, used: int) -> int
    decreases line.len() - from,
{
    if from < 0 || from >= line.len() || used + cells_of(line[from]) > room {
        0
    } else {
        1 + fitting(line, from + 1, room, used + cells_of(line[from]))
    }
}

/// The number of characters of `line` from `from` on that fit into `room`
/// cells.
pub fn count_fitting(line: &Vec<char>, from: usize, room: usize) -> (n: usize)
    requires
        from <= line@.len(),
    ensures
        n == fitting(line@, from as int, room as int, 0),
        from + n <= line@.len(),
{
    let total = line.len();
    let mut n: usize = 0;
    let mut used: usize = 0;
    while from + n < total
        invariant
            total == line@.len(),
            from + n <= total,
            used <= room,
            n + fitting(line@, from + n, room as int, used as int) == fitting(
                line@,
                from as int,
                room as int,
                0,
            ),
        decreases total - from - n,
    {
        let w = cells(line[from + n]);
        if w > room - used {
            return n;
        }
        used += w;
        n += 1;
    }
    n
}

} // verus!
