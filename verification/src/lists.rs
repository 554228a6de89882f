//! The rows of popups and of the search line, as they are painted.

use crate::chars::{chars_to_string, str_chars};
use crate::code::{in_text, offset_of, place_of, word_around};
use crate::editing::above;
use crate::editor::{Diagnostic, Editor};
use crate::popup::{place_of_popup, popup_place, ListPopup};
use crate::rope::{rope_len_chars, rope_substring};
use crate::search::{FileSearchResult, SearchResult};
use crate::utils::{pad_left, spaces};
use crate::view::{digits_of, gutter, number_chars};
use vstd::prelude::*;

verus! {

/// One row of a popup as it is painted.
#[derive(Debug)]
pub struct PopupRow {
    /// The row of the screen.
    pub row: usize,
    /// The column at which the row starts.
    pub col: usize,
    /// What the row shows.
    pub text: String,
    /// The row is the chosen one.
    pub selected: bool,
    /// The index of the entry that the row shows.
    pub entry: usize,
}

/// The first `limit` characters of a label within a space on either side,
/// the label padded with spaces to `width` characters.
pub open spec fn framed(label: Seq<char>, width: int, limit: int) -> Seq<char> {
    let whole = seq![' '] + label + spaces(
        if width > label.len() {
            (width - label.len()) as nat
        } else {
            0
        },
    ) + seq![' '];
    whole.take(
        if limit < 0 {
            0
        } else if limit > whole.len() {
            whole.len() as int
        } else {
            limit
        },
    )
}

/// A label as a row of a popup shows it.
pub fn frame_label(label: &str, width: usize, limit: usize) -> (text: String)
    ensures
        text@ == framed(label@, width as int, limit as int),
{
    let mut whole: Vec<char> = Vec::new();
    whole.push(' ');
    let mut padded = str_chars(pad_left(label, width).as_str());
    whole.append(&mut padded);
    whole.push(' ');
    let n = if limit > whole.len() {
        whole.len()
    } else {
        limit
    };
    let ghost all = whole@;
    whole.truncate(n);
    proof {
        assert(all =~= seq![' '] + label@ + spaces(
            if width > label@.len() {
                (width - label@.len()) as nat
            } else {
                0
            },
        ) + seq![' ']);
        assert(whole@ =~= all.take(n as int));
    }
    chars_to_string(&whole)
}

/// The most bytes among the first `n` labels.
pub open spec fn longest(labels: Seq<String>, n: nat) -> nat
    decreases n,
{
    if n == 0 || n > labels.len() {
        0
    } else if vstd::utf8::encode_utf8(labels[n - 1]@).len() > longest(labels, (n - 1) as nat) {
        vstd::utf8::encode_utf8(labels[n - 1]@).len()
    } else {
        longest(labels, (n - 1) as nat)
    }
}

/// The most bytes among the labels; `fallback` for no labels.
pub fn widest(labels: &Vec<String>, fallback: usize) -> (w: usize)
    ensures
        labels@.len() == 0 ==> w == fallback,
        labels@.len() > 0 ==> w == longest(labels@, labels@.len()),
        labels@.len() > 0 ==> (forall|i: int|
            0 <= i < labels@.len() ==> vstd::utf8::encode_utf8((#[trigger] labels@[i])@).len() <= w)
            && (exists|i: int|
            0 <= i < labels@.len() && vstd::utf8::encode_utf8((#[trigger] labels@[i])@).len() == w),
{
    if labels.len() == 0 {
        return fallback;
    }
    let mut w = labels[0].as_str().as_bytes().len();
    let ghost mut at: int = 0;
    assert(longest(labels@, 0) == 0);
    let mut i: usize = 1;
    while i < labels.len()
        invariant
            1 <= i <= labels@.len(),
            0 <= at < i,
            vstd::utf8::encode_utf8(labels@[at]@).len() == w,
            w == longest(labels@, i as nat),
            forall|j: int|
                0 <= j < i ==> vstd::utf8::encode_utf8((#[trigger] labels@[j])@).len() <= w,
        decreases labels@.len() - i,
    {
        let n = labels[i].as_str().as_bytes().len();
        if n > w {
            w = n;
            proof {
                at = i as int;
            }
        }
        i += 1;
    }
    w
}

impl Editor {
    /// The column of the screen at which a popup at the cursor starts, and
    /// the cells that it has from there: it starts one column before the
    /// word around the cursor.  Nothing where the cursor does not stand in
    /// the text.
    pub open spec fn popup_spot(&self) -> Option<(usize, usize)> {
        let text = self.code.chars();
        let at = offset_of(text, self.r as int, self.c as int);
        let start = word_around(text, at as usize).0;
        let left = above(above(self.lp_width + gutter(self)) + place_of(text, start as int).1);
        if !in_text(text, self.r as int, self.c as int) || start > text.len() {
            None
        } else {
            Some(
                (
                    if left >= 1 {
                        (left - 1) as usize
                    } else {
                        0
                    },
                    if self.width >= left {
                        (self.width - left) as usize
                    } else {
                        0
                    },
                ),
            )
        }
    }

    /// The column of the screen at which a popup at the cursor starts, and
    /// the cells that it has from there.
    pub fn popup_column(&self) -> (col: Option<(usize, usize)>)
        ensures
            col == self.popup_spot(),
    {
        if !self.code.has_position(self.r, self.c) {
            return None;
        }
        let total = self.code.len_chars();
        let ln_width = self.get_line_number_width();
        let word_offset = self.code.offset(self.r, self.c);
        let (word_start, _) = self.code.word_boundaries(word_offset);
        if word_start > total {
            return None;
        }
        let (_, word_start_col) = self.code.point(word_start);
        let left = self.lp_width.saturating_add(ln_width).saturating_add(word_start_col);
        Some((left.saturating_sub(1), self.width.saturating_sub(left)))
    }

    /// The number of rows that a popup at the cursor has: as many as
    /// `place_of_popup` gives it and there are labels from the first one
    /// shown on; none where the cursor lies above the view or outside the
    /// text.
    pub open spec fn popup_height(&self, labels: Seq<String>, popup: ListPopup, height: usize) -> int {
        let place = place_of_popup(
            labels.len() as usize,
            height,
            (self.r - self.y) as usize,
            self.height,
        );
        if self.r < self.y || self.popup_spot() is None || popup.offset >= labels.len() {
            0
        } else if place.rows <= labels.len() - popup.offset {
            place.rows as int
        } else {
            labels.len() - popup.offset
        }
    }

    /// The rows of a popup at the cursor, which shows `height` of the labels
    /// at most, from the first one shown on: below the cursor, or above it
    /// where there is too little room below.  Each row shows its label
    /// between two spaces, as wide as the longest label, 30 for no labels,
    /// and no wider than the screen has room for.  Nothing is shown where
    /// the cursor does not stand in the text or lies above the view.
    pub fn popup_rows(&self, labels: &Vec<String>, popup: &ListPopup, height: usize) -> (rows:
        Vec<PopupRow>)
        ensures
            rows@.len() == self.popup_height(labels@, *popup, height),
            forall|i: int|
                0 <= i < rows@.len() ==> {
                    let place = place_of_popup(
                        labels@.len() as usize,
                        height,
                        (self.r - self.y) as usize,
                        self.height,
                    );
                    &&& (#[trigger] rows@[i]).entry == popup.offset + i
                    &&& rows@[i].entry < labels@.len()
                    &&& rows@[i].selected == (popup.selected == rows@[i].entry)
                    &&& rows@[i].row == above(place.from_y + i)
                    &&& self.popup_spot() matches Some(spot) && rows@[i].col == spot.0
                        && rows@[i].text@ == framed(
                        labels@[popup.offset + i]@,
                        longest(labels@, labels@.len()) as int,
                        spot.1 as int,
                    )
                },
    {
        let mut rows: Vec<PopupRow> = Vec::new();
        if self.r < self.y {
            return rows;
        }
        let (col, limit) = match self.popup_column() {
            Some(pair) => pair,
            None => {
                return rows;
            },
        };
        let place = popup_place(labels.len(), height, self.r - self.y, self.height);
        let width = widest(labels, 30);
        let mut row: usize = 0;
        while row < place.rows
            invariant
                row <= place.rows,
                place.rows <= height,
                place.rows <= labels@.len(),
                rows@.len() == row,
                self.r >= self.y,
                self.popup_spot() == Some((col, limit)),
                place == place_of_popup(
                    labels@.len() as usize,
                    height,
                    (self.r - self.y) as usize,
                    self.height,
                ),
                popup.offset < labels@.len() ==> row <= labels@.len() - popup.offset,
                popup.offset >= labels@.len() ==> row == 0,
                labels@.len() > 0 ==> width == longest(labels@, labels@.len()),
                forall|i: int|
                    0 <= i < rows@.len() ==> {
                        &&& (#[trigger] rows@[i]).entry == popup.offset + i
                        &&& rows@[i].entry < labels@.len()
                        &&& rows@[i].selected == (popup.selected == rows@[i].entry)
                        &&& rows@[i].row == above(place.from_y + i)
                        &&& rows@[i].col == col
                        &&& rows@[i].text@ == framed(
                            labels@[popup.offset + i]@,
                            longest(labels@, labels@.len()) as int,
                            limit as int,
                        )
                    },
            decreases place.rows - row,
        {
            if popup.offset >= labels.len() || row >= labels.len() - popup.offset {
                return rows;
            }
            let i = row + popup.offset;
            rows.push(
                PopupRow {
                    row: place.from_y.saturating_add(row),
                    col,
                    text: frame_label(labels[i].as_str(), width, limit),
                    selected: popup.selected == i,
                    entry: i,
                },
            );
            row += 1;
        }
        rows
    }

    /// The rows of a list at the bottom of the screen, which shows `height`
    /// of the labels at most, from the first one shown on, from row `fromy`
    /// of the screen down.
    pub fn list_rows_of(
        &self,
        labels: &Vec<String>,
        popup: &ListPopup,
        height: usize,
        fromy: usize,
    ) -> (rows: Vec<PopupRow>)
        ensures
            rows@.len() == (if popup.offset >= labels@.len() {
                0
            } else if labels@.len() - popup.offset <= height {
                labels@.len() - popup.offset
            } else {
                height as int
            }),
            forall|i: int|
                0 <= i < rows@.len() ==> (#[trigger] rows@[i]).entry == popup.offset + i
                    && rows@[i].entry < labels@.len() && rows@[i].selected == (popup.selected
                    == rows@[i].entry) && rows@[i].col == self.lp_width && rows@[i].text@
                    == labels@[rows@[i].entry as int]@ && rows@[i].row == above(fromy + i),
    {
        let mut rows: Vec<PopupRow> = Vec::new();
        let mut row: usize = 0;
        while row < labels.len() && row < height
            invariant
                row <= labels@.len(),
                row <= height,
                rows@.len() == row,
                popup.offset < labels@.len() ==> row <= labels@.len() - popup.offset,
                popup.offset >= labels@.len() ==> row == 0,
                forall|i: int|
                    0 <= i < rows@.len() ==> (#[trigger] rows@[i]).entry == popup.offset + i
                        && rows@[i].entry < labels@.len() && rows@[i].selected == (popup.selected
                        == rows@[i].entry) && rows@[i].col == self.lp_width && rows@[i].text@
                        == labels@[rows@[i].entry as int]@ && rows@[i].row == above(fromy + i),
            decreases labels@.len() - row,
        {
            if popup.offset >= labels.len() || row >= labels.len() - popup.offset {
                return rows;
            }
            let i = row + popup.offset;
            rows.push(
                PopupRow {
                    row: fromy.saturating_add(row),
                    col: self.lp_width,
                    text: labels[i].clone(),
                    selected: popup.selected == i,
                    entry: i,
                },
            );
            row += 1;
        }
        rows
    }

    /// The text of the search line: the pattern, and behind it which of how
    /// many places is shown, where the pattern is found.
    pub open spec fn search_text(&self) -> Seq<char> {
        "search: "@ + self.search.pattern_chars() + seq![' '] + (
        if self.search.results@.len() > 0 && self.search.pattern_chars().len() > 0 {
            digits_of(crate::editing::above(self.search.index + 1) as nat) + seq!['/'] + digits_of(
                self.search.results@.len(),
            )
        } else {
            Seq::empty()
        })
    }

    /// The text of the search line.
    pub fn search_line(&self) -> (text: String)
        ensures
            text@ == self.search_text(),
    {
        let len = rope_len_chars(&self.search.pattern);
        let pattern = rope_substring(&self.search.pattern, 0, len);
        assert(pattern@ =~= self.search.pattern_chars());
        let mut out = str_chars("search: ");
        let mut p = str_chars(pattern.as_str());
        out.append(&mut p);
        out.push(' ');
        if self.search.results.len() > 0 && len > 0 {
            let mut index = number_chars(self.search.index.saturating_add(1));
            out.append(&mut index);
            out.push('/');
            let mut total = number_chars(self.search.results.len());
            out.append(&mut total);
        }
        assert(out@ =~= self.search_text());
        chars_to_string(&out)
    }
}

/// What a list shows of a place that the language server points at: which
/// of how many it is, its path, its line and its character.
pub open spec fn place_label(
    index: usize,
    len: usize,
    path: Seq<char>,
    line: usize,
    character: usize,
) -> Seq<char> {
    digits_of(crate::editing::above(index + 1) as nat) + seq!['/'] + digits_of(len as nat) + seq![
        ' ',
    ] + path + seq![':'] + digits_of(line as nat) + seq![' '] + digits_of(character as nat)
}

/// What a list shows of a place that the language server points at.
pub fn reference_label(index: usize, len: usize, path: &str, line: usize, character: usize) -> (text:
    String)
    ensures
        text@ == place_label(index, len, path@, line, character),
{
    let mut out = number_chars(index.saturating_add(1));
    out.push('/');
    let mut n = number_chars(len);
    out.append(&mut n);
    out.push(' ');
    let mut p = str_chars(path);
    out.append(&mut p);
    out.push(':');
    let mut l = number_chars(line);
    out.append(&mut l);
    out.push(' ');
    let mut c = number_chars(character);
    out.append(&mut c);
    assert(out@ =~= place_label(index, len, path@, line, character));
    chars_to_string(&out)
}

/// What stands before the text of an entry of a list: which of how many it
/// is, its line and its column.
pub open spec fn entry_prefix(index: usize, len: usize, line: usize, column: usize) -> Seq<char> {
    digits_of(crate::editing::above(index + 1) as nat) + seq!['/'] + digits_of(len as nat) + seq![
        ' ',
    ] + digits_of(line as nat) + seq![':'] + digits_of(column as nat) + seq![' ']
}

/// What stands before the text of an entry of a list.
pub fn prefix_of_entry(index: usize, len: usize, line: usize, column: usize) -> (out: Vec<char>)
    ensures
        out@ == entry_prefix(index, len, line, column),
{
    let mut out = number_chars(index.saturating_add(1));
    out.push('/');
    let mut n = number_chars(len);
    out.append(&mut n);
    out.push(' ');
    let mut l = number_chars(line);
    out.append(&mut l);
    out.push(':');
    let mut c = number_chars(column);
    out.append(&mut c);
    out.push(' ');
    assert(out@ =~= entry_prefix(index, len, line, column));
    out
}

/// The first `n` characters of a text.
pub fn first_chars(text: &str, n: usize) -> (v: Vec<char>)
    ensures
        v@ == text@.take(
            if n > text@.len() {
                text@.len() as int
            } else {
                n as int
            },
        ),
{
    let mut v = str_chars(text);
    let ghost all = v@;
    v.truncate(n);
    assert(v@ =~= all.take(
        if n > all.len() {
            all.len() as int
        } else {
            n as int
        },
    ));
    v
}

/// A text with its line feeds turned into spaces.
pub open spec fn flattened(text: Seq<char>) -> Seq<char> {
    text.map_values(
        |c: char|
            if c == '\n' {
                ' '
            } else {
                c
            },
    )
}

/// What the list of errors shows of an error: which of how many it is, its
/// line and character, and as much of its message as fits into `limit`
/// characters, with line feeds turned into spaces.
pub fn error_label(index: usize, len: usize, diagnostic: &Diagnostic, limit: usize) -> (text: String)
    ensures
        text@ == entry_prefix(index, len, diagnostic.line, diagnostic.character) + flattened(
            diagnostic.message@.take(
                if limit - entry_prefix(index, len, diagnostic.line, diagnostic.character).len()
                    < 0 {
                    0
                } else if limit - entry_prefix(
                    index,
                    len,
                    diagnostic.line,
                    diagnostic.character,
                ).len() > diagnostic.message@.len() {
                    diagnostic.message@.len() as int
                } else {
                    limit - entry_prefix(index, len, diagnostic.line, diagnostic.character).len()
                },
            ),
        ),
{
    let mut out = prefix_of_entry(index, len, diagnostic.line, diagnostic.character);
    let ghost prefix = out@;
    let room = limit.saturating_sub(out.len());
    let message = first_chars(diagnostic.message.as_str(), room);
    let mut i: usize = 0;
    assert(out@ =~= prefix + flattened(message@.take(0)));
    while i < message.len()
        invariant
            i <= message@.len(),
            out@ == prefix + flattened(message@.take(i as int)),
        decreases message@.len() - i,
    {
        let c = message[i];
        out.push(
            if c == '\n' {
                ' '
            } else {
                c
            },
        );
        i += 1;
        assert(out@ =~= prefix + flattened(message@.take(i as int)));
    }
    assert(message@.take(i as int) =~= message@);
    chars_to_string(&out)
}

/// What the list of places in all files shows of a place: which of how many
/// it is, its line and column, and as much of its path as fits into `limit`
/// characters.
pub fn search_label(index: usize, len: usize, path: &str, result: &SearchResult, limit: usize) -> (text:
    String)
    ensures
        text@ == entry_prefix(index, len, result.line, result.column) + seq![' '] + path@.take(
            if limit - entry_prefix(index, len, result.line, result.column).len() < 0 {
                0
            } else if limit - entry_prefix(index, len, result.line, result.column).len()
                > path@.len() {
                path@.len() as int
            } else {
                limit - entry_prefix(index, len, result.line, result.column).len()
            },
        ),
{
    let mut out = prefix_of_entry(index, len, result.line, result.column);
    let room = limit.saturating_sub(out.len());
    out.push(' ');
    let mut p = first_chars(path, room);
    out.append(&mut p);
    chars_to_string(&out)
}

/// The places that were found in all files, each with the path of its file,
/// file by file.
pub fn global_results(files: Vec<FileSearchResult>) -> (all: Vec<(String, SearchResult)>)
    ensures
        all@.len() == total_results(files@, files@.len()),
{
    let mut all: Vec<(String, SearchResult)> = Vec::new();
    let ghost whole = files@;
    for file in it: files
        invariant
            it.seq() == whole,
            all@.len() == total_results(whole, it.index() as nat),
    {
        let path = file.file_path;
        let ghost before = all@.len();
        let ghost count = file.search_results@.len();
        for result in inner: file.search_results
            invariant
                inner.seq().len() == count,
                all@.len() == before + inner.index(),
        {
            all.push((path.clone(), result));
        }
    }
    all
}

/// The number of places in the first `n` files.
pub open spec fn total_results(files: Seq<FileSearchResult>, n: nat) -> nat
    decreases n,
{
    if n == 0 || n > files.len() {
        0
    } else {
        total_results(files, (n - 1) as nat) + files[n - 1].search_results@.len()
    }
}

/// What a language server says of what the cursor stands on: one text, a
/// list of texts, or a text with a kind.
#[derive(Debug)]
pub enum HoverContents {
    Scalar(String),
    Array(Vec<String>),
    Markup(String),
}

/// The texts of a list with a line feed between each two.
pub open spec fn lined(parts: Seq<Seq<char>>, n: nat) -> Seq<char>
    decreases n,
{
    if n == 0 || n > parts.len() {
        Seq::empty()
    } else if n == 1 {
        parts[0]
    } else {
        lined(parts, (n - 1) as nat) + seq!['\n'] + parts[n - 1]
    }
}

/// The text of a hover: the text itself, or the texts of a list with a line
/// feed between each two.
pub fn hover_text(contents: &HoverContents) -> (text: String)
    ensures
        text@ == (match *contents {
            HoverContents::Scalar(s) => s@,
            HoverContents::Markup(s) => s@,
            HoverContents::Array(parts) => lined(
                crate::config::strings_view(parts@),
                parts@.len(),
            ),
        }),
{
    match contents {
        HoverContents::Scalar(s) => s.clone(),
        HoverContents::Markup(s) => s.clone(),
        HoverContents::Array(parts) => {
            let mut out: Vec<char> = Vec::new();
            let mut i: usize = 0;
            while i < parts.len()
                invariant
                    i <= parts@.len(),
                    out@ == lined(crate::config::strings_view(parts@), i as nat),
                decreases parts@.len() - i,
            {
                if i > 0 {
                    out.push('\n');
                }
                let mut part = str_chars(parts[i].as_str());
                out.append(&mut part);
                i += 1;
                assert(crate::config::strings_view(parts@)[i - 1] == parts@[i - 1]@);
                assert(out@ =~= lined(crate::config::strings_view(parts@), i as nat));
            }
            chars_to_string(&out)
        },
    }
}

impl Editor {
    /// The word before the cursor that completions are measured against:
    /// what stands on the cursor's row between the last word break before
    /// the cursor and the cursor.
    pub open spec fn typed_word(&self) -> Seq<char> {
        let line = crate::text::line_text(self.code.chars(), self.r as int);
        let from = crate::utils::prev_break(line, self.c as int);
        line.subrange(
            if from > line.len() {
                line.len() as int
            } else {
                from
            },
            if self.c > line.len() {
                line.len() as int
            } else if self.c < from {
                from
            } else {
                self.c as int
            },
        )
    }

    /// The word before the cursor that completions are measured against:
    /// what stands on the cursor's line between the last word break before
    /// the cursor and the cursor.  Nothing below the text.
    pub fn completion_prefix(&self) -> (word: Option<String>)
        ensures
            crate::config::option_view(word) == if self.r >= crate::text::line_count(
                self.code.chars(),
            ) {
                None
            } else {
                Some(self.typed_word())
            },
    {
        if self.r >= self.code.len_lines() {
            return None;
        }
        let line = self.code.line_string(self.r);
        let prev = crate::utils::find_prev_word(line.as_str(), self.c);
        proof {
            crate::utils::lemma_prev_break(line@, self.c as int);
        }
        let chars = str_chars(line.as_str());
        let from = if prev > chars.len() {
            chars.len()
        } else {
            prev
        };
        let to = if self.c > chars.len() {
            chars.len()
        } else if self.c < from {
            from
        } else {
            self.c
        };
        let mut word: Vec<char> = Vec::new();
        let mut i = from;
        while i < to
            invariant
                from <= i <= to <= chars@.len(),
                word@ == chars@.subrange(from as int, i as int),
            decreases to - i,
        {
            word.push(chars[i]);
            i += 1;
            assert(word@ =~= chars@.subrange(from as int, i as int));
        }
        Some(chars_to_string(&word))
    }
}

} // verus!
