//! What the editor shows: the rows of text with their colours, the cursor,
//! the status line and the messages of the language server, as plain values
//! for a painter.

use crate::chars::{char_bytes, chars_to_string, is_control, is_control_code, str_chars};
use crate::code::{in_text, runnable_at};
use crate::editing::above;
use crate::editor::{CachedSpans, Diagnostic, Editor, Severity};
use crate::framing::{decimal, decimal_digits};
use crate::screen::{Cell, Color};
use crate::selection::{Point, Selection};
use crate::text::{byte_offset, line_count, line_start, line_width};
use crate::utils::spaces;
use crate::width::{cells, cells_of, count_fitting, fitting, text_cells, text_width};
use vstd::prelude::*;

verus! {

/// The colour of the first span that covers byte `at`; the terminal's own
/// where none does.
pub open spec fn colour_at(spans: Seq<(usize, usize, Color)>, at: usize, i: int) -> Color
    decreases spans.len() - i,
{
    if i < 0 || i >= spans.len() {
        Color::Reset
    } else if spans[i].0 <= at && at < spans[i].1 {
        spans[i].2
    } else {
        colour_at(spans, at, i + 1)
    }
}

/// The colour of the first span that covers byte `at`.
pub fn span_colour(spans: &Vec<(usize, usize, Color)>, at: usize) -> (color: Color)
    ensures
        color == colour_at(spans@, at, 0),
{
    let mut i: usize = 0;
    while i < spans.len()
        invariant
            i <= spans@.len(),
            colour_at(spans@, at, i as int) == colour_at(spans@, at, 0),
        decreases spans@.len() - i,
    {
        let (start, end, color) = spans[i];
        if start <= at && at < end {
            return color;
        }
        i += 1;
    }
    Color::Reset
}

/// `text` in the middle of `width` cells: spaces on both sides, the odd one
/// on the right.  A text that is longer stays as it is.
pub open spec fn centred(text: Seq<char>, width: int) -> Seq<char> {
    if text.len() >= width {
        text
    } else {
        spaces(((width - text.len()) / 2) as nat) + text + spaces(
            (width - text.len() - (width - text.len()) / 2) as nat,
        )
    }
}

/// `n` spaces.
pub fn blanks(n: usize) -> (v: Vec<char>)
    ensures
        v@ == spaces(n as nat),
{
    let mut v: Vec<char> = Vec::new();
    while v.len() < n
        invariant
            v@.len() <= n,
            v@ == spaces(v@.len()),
        decreases n - v@.len(),
    {
        v.push(' ');
        assert(v@ =~= spaces(v@.len()));
    }
    v
}

/// `text` in the middle of `width` cells.
pub fn centre(text: &Vec<char>, width: usize) -> (out: Vec<char>)
    ensures
        out@ == centred(text@, width as int),
{
    if text.len() >= width {
        return text.clone();
    }
    let room = width - text.len();
    let mut out = blanks(room / 2);
    let mut copy = text.clone();
    out.append(&mut copy);
    let mut right = blanks(room - room / 2);
    out.append(&mut right);
    out
}

/// The decimal digits of `n`, as characters.
pub open spec fn digits_of(n: nat) -> Seq<char> {
    decimal(n).map_values(|b: u8| b as char)
}

/// The decimal digits of `n`, as characters.
pub fn number_chars(n: usize) -> (v: Vec<char>)
    ensures
        v@ == digits_of(n as nat),
{
    let digits = decimal_digits(n);
    let mut v: Vec<char> = Vec::new();
    let mut i: usize = 0;
    while i < digits.len()
        invariant
            i <= digits@.len(),
            v@ == digits@.take(i as int).map_values(|b: u8| b as char),
        decreases digits@.len() - i,
    {
        v.push(digits[i] as char);
        i += 1;
        assert(v@ =~= digits@.take(i as int).map_values(|b: u8| b as char));
    }
    assert(digits@.take(i as int) =~= digits@);
    v
}

/// One row of text as it is painted: where, what stands before the text,
/// and the cells of the text.
#[derive(Debug)]
pub struct RowView {
    /// The row of the screen.
    pub screen_row: usize,
    /// The line of the document.
    pub line: usize,
    /// The line has a run button.
    pub runnable: bool,
    /// The line number, in the middle of its cells.
    pub number: String,
    /// The colour of the line number: that of errors where the language
    /// server tells of an error on the line.
    pub number_color: Color,
    /// The cells of the text that is in view.
    pub cells: Vec<Cell>,
    /// The column of the text behind which messages are shown.
    pub end_col: usize,
}

/// A message of the language server as it is painted behind a line.
#[derive(Debug)]
pub struct MessageView {
    pub x: usize,
    pub y: usize,
    pub text: String,
    pub color: Color,
}

/// The colour in which a message of this severity is painted.
pub open spec fn severity_colour(severity: Option<Severity>) -> Color {
    match severity {
        Some(Severity::Error) => Color::Red,
        Some(Severity::Warning) => Color::Yellow,
        Some(Severity::Information) => Color::Cyan,
        Some(Severity::Hint) => Color::Green,
        None => Color::Reset,
    }
}

/// The colour in which a message of this severity is painted.
pub fn colour_of_severity(severity: Option<Severity>) -> (color: Color)
    ensures
        color == severity_colour(severity),
{
    match severity {
        Some(Severity::Error) => Color::Red,
        Some(Severity::Warning) => Color::Yellow,
        Some(Severity::Information) => Color::Cyan,
        Some(Severity::Hint) => Color::Green,
        None => Color::Reset,
    }
}

/// The space that is left between a line and the messages behind it.
pub const MESSAGE_GAP: usize = 5;

/// A message as it is shown behind a line: a gap, and the first `limit`
/// characters of the message with its line feeds turned into spaces.
pub open spec fn message_text(message: Seq<char>, limit: int) -> Seq<char> {
    spaces(MESSAGE_GAP as nat) + message.take(
        if limit < 0 {
            0
        } else if limit > message.len() {
            message.len() as int
        } else {
            limit
        },
    ).map_values(
        |c: char|
            if c == '\n' {
                ' '
            } else {
                c
            },
    )
}

/// A message as it is shown behind a line.
pub fn shown_message(message: &str, limit: usize) -> (text: String)
    ensures
        text@ == message_text(message@, limit as int),
{
    let chars = str_chars(message);
    let mut out = blanks(MESSAGE_GAP);
    let n = if limit > chars.len() {
        chars.len()
    } else {
        limit
    };
    let ghost flat = |c: char|
        if c == '\n' {
            ' '
        } else {
            c
        };
    let mut i: usize = 0;
    while i < n
        invariant
            i <= n <= chars@.len(),
            chars@ == message@,
            flat == (|c: char|
                if c == '\n' {
                    ' '
                } else {
                    c
                }),
            out@ == spaces(MESSAGE_GAP as nat) + message@.take(i as int).map_values(flat),
        decreases n - i,
    {
        let c = chars[i];
        out.push(
            if c == '\n' {
                ' '
            } else {
                c
            },
        );
        i += 1;
        assert(out@ =~= spaces(MESSAGE_GAP as nat) + message@.take(i as int).map_values(flat));
    }
    chars_to_string(&out)
}

impl Editor {
    /// The spans of colour for a range of bytes: those that were found for
    /// it before, or else those that the document gives, which are kept.
    pub fn cached_highlight_interval(&mut self, start: usize, end: usize) -> (spans: Vec<
        (usize, usize, Color),
    >)
        requires
            old(self).wf(),
            start <= end,
        ensures
            final(self).wf(),
            *final(self) == (Editor {
                code: final(self).code,
                highlights_cache: final(self).highlights_cache,
                ..*old(self)
            }),
            final(self).code.doc() == old(self).code.doc(),
            final(self).code.text == old(self).code.text,
            final(self).code.runnables == old(self).code.runnables,
            final(self).code.same_setting(&old(self).code),
            match cached_at(old(self).highlights_cache@, start, end, 0) {
                Some(i) => spans@ == old(self).highlights_cache@[i].spans@
                    && final(self).highlights_cache == old(self).highlights_cache
                    && final(self).code == old(self).code,
                None => final(self).highlights_cache@ == old(self).highlights_cache@.push(
                    final(self).highlights_cache@.last(),
                ) && final(self).highlights_cache@.last().spans@ == spans@
                    && final(self).highlights_cache@.last().start == start
                    && final(self).highlights_cache@.last().end == end,
            },
    {
        let mut i: usize = 0;
        while i < self.highlights_cache.len()
            invariant
                i <= self.highlights_cache@.len(),
                *self == *old(self),
                self.wf(),
                cached_at(self.highlights_cache@, start, end, i as int) == cached_at(
                    self.highlights_cache@,
                    start,
                    end,
                    0,
                ),
            decreases self.highlights_cache@.len() - i,
        {
            if self.highlights_cache[i].start == start && self.highlights_cache[i].end == end {
                return copy_spans(&self.highlights_cache[i].spans);
            }
            i += 1;
        }
        let highlights = self.code.highlight_interval(start, end, &self.theme);
        let kept = copy_spans(&highlights);
        self.highlights_cache.push(CachedSpans { start, end, spans: kept });
        highlights
    }

    /// Whether a popup takes a row of the screen.
    pub fn is_overlay(&self, row: usize) -> (r: bool)
        ensures
            r == self.overlay_lines@.contains(row),
    {
        let mut i: usize = 0;
        while i < self.overlay_lines.len()
            invariant
                i <= self.overlay_lines@.len(),
                forall|j: int| 0 <= j < i ==> self.overlay_lines@[j] != row,
            decreases self.overlay_lines@.len() - i,
        {
            if self.overlay_lines[i] == row {
                return true;
            }
            i += 1;
        }
        false
    }

    /// The text of the status line: two spaces, and for a document with a
    /// name the cursor's row and column counted from 1, the language, the
    /// name, and a star where the document has changes that are not saved.
    pub open spec fn status_text(&self) -> Seq<char> {
        if self.code.file_name@.len() == 0 {
            seq![' ', ' ']
        } else {
            seq![' ', ' '] + digits_of(crate::editing::above(self.r + 1) as nat) + seq![':']
                + digits_of(crate::editing::above(self.c + 1) as nat) + seq![' '] + self.code.lang@
                + seq![' '] + self.code.file_name@ + seq![
                if self.code.changed {
                    '*'
                } else {
                    ' '
                },
            ]
        }
    }

    /// The text of the status line.
    pub fn status_line(&self) -> (status: String)
        ensures
            status@ == self.status_text(),
    {
        let mut out: Vec<char> = Vec::new();
        out.push(' ');
        out.push(' ');
        if self.code.file_name.as_str().is_empty() {
            assert(out@ =~= seq![' ', ' ']);
            return chars_to_string(&out);
        }
        let mut row = number_chars(self.r.saturating_add(1));
        out.append(&mut row);
        out.push(':');
        let mut col = number_chars(self.c.saturating_add(1));
        out.append(&mut col);
        out.push(' ');
        let mut lang = str_chars(self.code.lang.as_str());
        out.append(&mut lang);
        out.push(' ');
        let mut name = str_chars(self.code.file_name.as_str());
        out.append(&mut name);
        out.push(
            if self.code.changed {
                '*'
            } else {
                ' '
            },
        );
        assert(out@ =~= self.status_text());
        chars_to_string(&out)
    }

    /// Where the status line starts: so far from the right edge as it is
    /// wide, on the last row.  Nothing on a screen that is too small.
    pub fn status_place(&self) -> (place: Option<(usize, usize)>)
        ensures
            place == if self.height == 0 || text_cells(self.status_text()) > self.width {
                None
            } else {
                Some(
                    (
                        (self.width - text_cells(self.status_text())) as usize,
                        (self.height - 1) as usize,
                    ),
                )
            },
    {
        let status = self.status_line();
        let w = text_width(status.as_str());
        if self.height == 0 || w > self.width {
            None
        } else {
            Some((self.width - w, self.height - 1))
        }
    }

    /// The column of the screen that the cursor would stand in were the
    /// view not moved sideways: behind the file panel, the line numbers and
    /// the cells of the text before it on its row.
    pub open spec fn cursor_column(&self) -> usize {
        let start = line_start(self.code.chars(), self.r as int);
        above(
            above(self.lp_width + gutter(self)) + text_cells(
                self.code.chars().subrange(start, start + self.c),
            ),
        )
    }

    /// The cell of the screen at which the cursor is shown: on the row of
    /// the view that holds its row, as many columns to the left of
    /// `cursor_column` as the view is moved sideways.  Nothing where the
    /// cursor lies outside the view or outside the text, or the document has
    /// no name.
    pub open spec fn cursor_cell(&self) -> Option<(usize, usize)> {
        if self.code.file_name@.len() == 0 || self.r < self.y || self.r - self.y >= self.height
            || self.c < self.x || !in_text(self.code.chars(), self.r as int, self.c as int)
            || self.r >= line_count(self.code.chars()) || self.cursor_column() < self.x
            || self.cursor_column() - self.x >= self.width {
            None
        } else {
            Some(((self.cursor_column() - self.x) as usize, (self.r - self.y) as usize))
        }
    }

    /// The cell of the screen at which the cursor is shown.
    pub fn cursor_place(&self) -> (place: Option<(usize, usize)>)
        ensures
            place == self.cursor_cell(),
    {
        if self.code.file_name.as_str().is_empty() {
            return None;
        }
        let line_number_digits = self.get_line_number_width();
        if self.r < self.y || self.r - self.y >= self.height || self.c < self.x {
            return None;
        }
        if !self.code.has_position(self.r, self.c) || self.r >= self.code.len_lines() {
            return None;
        }
        proof {
            crate::text::lemma_line_start_monotone(self.code.chars(), self.r as int, self.r as int);
        }
        // Taken for its bound: the number of characters fits in `usize`.
        let total = self.code.len_chars();
        let line_start_char = self.code.line_to_char(self.r);
        let line_text = self.code.char_slice(line_start_char, line_start_char + self.c);
        let visual_cursor_pos = text_width(line_text.as_str());
        let left = self.lp_width.saturating_add(line_number_digits).saturating_add(visual_cursor_pos);
        if left < self.x || left - self.x >= self.width {
            return None;
        }
        Some((left - self.x, self.r - self.y))
    }

    /// The messages that the language server has for the lines from
    /// `start_row` to `end_row`, in the order in which it gave them.
    pub fn get_lines_errors(&self, start_row: usize, end_row: usize) -> (errors: Vec<Diagnostic>)
        ensures
            errors@ == (match crate::editing::diagnostics_at(self.diagnostics@, self.uri(), 0) {
                Some(k) => on_lines(
                    self.diagnostics@[k].items@,
                    start_row,
                    end_row,
                    self.diagnostics@[k].items@.len(),
                ),
                None => Seq::empty(),
            }),
    {
        let uri = crate::lsp::uri_of(self.code.abs_path.as_str());
        let mut errors: Vec<Diagnostic> = Vec::new();
        if let Some(k) = crate::editing::find_diagnostics(&self.diagnostics, uri.as_str()) {
            let items = &self.diagnostics[k].items;
            let mut i: usize = 0;
            while i < items.len()
                invariant
                    i <= items@.len(),
                    errors@ == on_lines(items@, start_row, end_row, i as nat),
                decreases items@.len() - i,
            {
                let line = items[i].line;
                if start_row <= line && line <= end_row {
                    errors.push(items[i].clone());
                }
                i += 1;
            }
        }
        errors
    }

    /// The messages of one line as they are painted behind it from cell `x`
    /// of row `y` on, one below the other in the order of `errors`, as far
    /// as the screen goes: each as much of it as fits before the right edge,
    /// in the colour of its severity.
    pub fn draw_error(&self, errors: &Vec<Diagnostic>, line: usize, x: usize, y: usize) -> (shown:
        Vec<MessageView>)
        ensures
            shown@.len() == (if x >= self.width || y >= self.height {
                0
            } else if on_lines(errors@, line, line, errors@.len()).len() <= self.height - y {
                on_lines(errors@, line, line, errors@.len()).len() as int
            } else {
                self.height - y
            }),
            forall|k: int|
                0 <= k < shown@.len() ==> {
                    let error = on_lines(errors@, line, line, errors@.len())[k];
                    &&& (#[trigger] shown@[k]).x == x
                    &&& shown@[k].y == y + k
                    &&& shown@[k].text@ == message_text(
                        error.message@,
                        if self.width - x >= MESSAGE_GAP {
                            self.width - x - MESSAGE_GAP
                        } else {
                            0
                        },
                    )
                    &&& shown@[k].color == severity_colour(error.severity)
                },
    {
        let mut shown: Vec<MessageView> = Vec::new();
        let mut i: usize = 0;
        let mut n: usize = 0;
        let ghost all = on_lines(errors@, line, line, errors@.len());
        while i < errors.len()
            invariant
                i <= errors@.len(),
                n == shown@.len(),
                n == on_lines(errors@, line, line, i as nat).len(),
                all == on_lines(errors@, line, line, errors@.len()),
                n > 0 ==> x < self.width && y + n <= self.height,
                forall|k: int|
                    0 <= k < shown@.len() ==> {
                        let error = on_lines(errors@, line, line, i as nat)[k];
                        &&& (#[trigger] shown@[k]).x == x
                        &&& shown@[k].y == y + k
                        &&& shown@[k].text@ == message_text(
                            error.message@,
                            if self.width - x >= MESSAGE_GAP {
                                self.width - x - MESSAGE_GAP
                            } else {
                                0
                            },
                        )
                        &&& shown@[k].color == severity_colour(error.severity)
                    },
            decreases errors@.len() - i,
        {
            proof {
                lemma_on_lines_prefix(errors@, line, line, i as nat + 1, errors@.len());
                lemma_on_lines_prefix(errors@, line, line, i as nat, errors@.len());
            }
            if errors[i].line == line {
                let draw_y = y.saturating_add(n);
                if x >= self.width || draw_y >= self.height {
                    return shown;
                }
                let available_width = self.width - x;
                let message_limit = available_width.saturating_sub(MESSAGE_GAP);
                shown.push(
                    MessageView {
                        x,
                        y: draw_y,
                        text: shown_message(errors[i].message.as_str(), message_limit),
                        color: colour_of_severity(errors[i].severity),
                    },
                );
                n += 1;
            }
            i += 1;
        }
        shown
    }

    /// The cells that a row of text has room for: those of the editor's
    /// area without the line numbers and the file panel.
    pub open spec fn paint_room(&self) -> usize {
        let after_numbers = if self.area().width >= gutter(self) {
            self.area().width - gutter(self)
        } else {
            0
        };
        if after_numbers >= self.area().x {
            (after_numbers - self.area().x) as usize
        } else {
            0
        }
    }

    /// What the language server tells of the document in view.
    pub open spec fn told(&self) -> Seq<Diagnostic> {
        match crate::editing::diagnostics_at(self.diagnostics@, self.uri(), 0) {
            Some(k) => self.diagnostics@[k].items@,
            None => Seq::empty(),
        }
    }

    /// `row` is what is painted of a line: on the row of the screen that
    /// the line has in the view, its number in the middle of the cells for
    /// numbers and in the colour of errors where the language server tells
    /// of one on the line, whether it has a run button, and the cells of its
    /// text from
    /// the first column in view as far as they fit, painted with the colours
    /// of `spans`.
    pub open spec fn paints(&self, row: RowView, spans: Seq<(usize, usize, Color)>) -> bool {
        let text = self.code.chars();
        let start = line_start(text, row.line as int);
        let width = line_width(text, row.line as int);
        let line = text.subrange(start, start + width);
        let from = if self.x < width {
            self.x as int
        } else {
            width
        };
        &&& row.line == row.screen_row + self.y
        &&& row.line < line_count(text)
        &&& row.runnable == (runnable_at(self.code.runnables@, row.line, 0) is Some)
        &&& row.number@ == centred(digits_of((row.line + 1) as nat), gutter(self) - 1)
        &&& row.number_color == if error_on(self.told(), row.line, self.told().len()) {
            self.ecolor
        } else {
            self.lncolor
        }
        &&& row.end_col == from + fitting(line, from, self.paint_room() as int, 0)
        &&& row.cells@ == cells_from(
            line,
            from,
            row.end_col as int,
            self.paint_room() as int,
            Brush {
                used: 0,
                row: row.line,
                column: from as usize,
                byte: byte_offset(text, start + from) as usize,
            },
            spans,
            self.selection,
            self.selcolor,
        )
    }

    /// The rows of text that are in view, as they are painted: one for each
    /// row of the screen that no popup takes and that shows a line, from the
    /// top down.  Tabs are shown as spaces and control codes not at all.
    /// The colours are those that were found for the bytes in view, now or
    /// before.
    pub fn draw_editor(&mut self) -> (rows: Vec<RowView>)
        requires
            old(self).wf(),
        ensures
            final(self).wf(),
            final(self).same_frame(old(self)),
            final(self).code.doc() == old(self).code.doc(),
            final(self).r == old(self).r,
            final(self).c == old(self).c,
            final(self).x == old(self).x,
            final(self).y == old(self).y,
            final(self).selection == old(self).selection,
            forall|i: int|
                0 <= i < rows@.len() ==> (#[trigger] rows@[i]).screen_row < old(self).area().height
                    && !old(self).overlay_lines@.contains(rows@[i].screen_row) && exists|
                    spans: Seq<(usize, usize, Color)>,
                | #[trigger] old(self).paints(rows@[i], spans),
            forall|i: int, j: int|
                0 <= i < j < rows@.len() ==> (#[trigger] rows@[i]).screen_row < (
                #[trigger] rows@[j]).screen_row,
            forall|row: usize|
                row < old(self).area().height && !(#[trigger] old(self).overlay_lines@.contains(row))
                    && row + old(self).y < line_count(old(self).code.chars()) ==> exists|i: int|
                    0 <= i < rows@.len() && (#[trigger] rows@[i]).screen_row == row,
    {
        let area = self.editor_area();
        let total_lines = self.code.len_lines();
        let line_number_width = self.get_line_number_width();
        let told = self.current_errors();
        let mut rows: Vec<RowView> = Vec::new();
        let height = area.height as usize;
        let mut screen_y: usize = 0;
        while screen_y < height
            invariant
                screen_y <= height,
                height == old(self).area().height,
                area == old(self).area(),
                self.wf(),
                self.same_frame(old(self)),
                self.code.doc() == old(self).code.doc(),
                self.code.text == old(self).code.text,
                self.code.runnables == old(self).code.runnables,
                self.overlay_lines == old(self).overlay_lines,
                self.selection == old(self).selection,
                self.selcolor == old(self).selcolor,
                self.lncolor == old(self).lncolor,
                self.ecolor == old(self).ecolor,
                told@ == old(self).told(),
                self.r == old(self).r,
                self.c == old(self).c,
                self.x == old(self).x,
                self.y == old(self).y,
                total_lines == line_count(self.code.chars()),
                line_number_width == gutter(self),
                line_number_width >= 7,
                forall|i: int|
                    0 <= i < rows@.len() ==> (#[trigger] rows@[i]).screen_row < screen_y
                        && !self.overlay_lines@.contains(rows@[i].screen_row) && exists|
                        spans: Seq<(usize, usize, Color)>,
                    | #[trigger] old(self).paints(rows@[i], spans),
                forall|i: int, j: int|
                    0 <= i < j < rows@.len() ==> (#[trigger] rows@[i]).screen_row < (
                    #[trigger] rows@[j]).screen_row,
                forall|row: usize|
                    row < screen_y && !(#[trigger] self.overlay_lines@.contains(row)) && row
                        + self.y < total_lines ==> exists|i: int|
                        0 <= i < rows@.len() && (#[trigger] rows@[i]).screen_row == row,
            decreases height - screen_y,
        {
            let row = screen_y;
            screen_y += 1;
            if self.is_overlay(row) {
                continue ;
            }
            if self.y >= total_lines || row >= total_lines - self.y {
                return rows;
            }
            let line_idx = self.y + row;
            let number = chars_to_string(
                &centre(&number_chars(line_idx + 1), line_number_width - 1),
            );
            let runnable = self.code.is_runnable(line_idx);
            let number_color = if has_error(&told, line_idx) {
                self.ecolor
            } else {
                self.lncolor
            };
            let line_len = self.code.line_len(line_idx);
            let available_width = (area.width as usize).saturating_sub(
                line_number_width,
            ).saturating_sub(area.left() as usize);
            let start_col = if self.x < line_len {
                self.x
            } else {
                line_len
            };
            proof {
                crate::text::lemma_line_start_monotone(
                    self.code.chars(),
                    line_idx as int,
                    line_idx + 1,
                );
            }
            // Taken for its bound: the number of characters fits in `usize`.
            let total = self.code.len_chars();
            let line_start_char = self.code.line_to_char(line_idx);
            let line_text = self.code.char_slice(line_start_char, line_start_char + line_len);
            let line = str_chars(line_text.as_str());
            let max_chars = count_fitting(&line, start_col, available_width);
            let end_col = start_col + max_chars;
            let char_start = line_start_char + start_col;
            let char_end = line_start_char + end_col;
            let start_byte = self.code.char_to_byte(char_start);
            let end_byte = self.code.char_to_byte(char_end);
            proof {
                lemma_offsets_grow(self.code.chars(), char_start as int, char_end as int);
            }
            let highlights = self.cached_highlight_interval(start_byte, end_byte);
            let cells = self.paint_cells(
                &line,
                start_col,
                end_col,
                line_idx,
                start_byte,
                available_width,
                &highlights,
            );
            let painted = RowView {
                screen_row: row,
                line: line_idx,
                runnable,
                number,
                number_color,
                cells,
                end_col,
            };
            proof {
                assert(old(self).paints(painted, highlights@));
                let ghost before = rows@;
                assert forall|at: usize|
                    at < screen_y && !(#[trigger] self.overlay_lines@.contains(at)) && at + self.y
                        < total_lines implies exists|i: int|
                    0 <= i < before.push(painted).len() && (#[trigger] before.push(
                        painted,
                    )[i]).screen_row == at by {
                    if at < row {
                        let i = choose|i: int|
                            0 <= i < before.len() && (#[trigger] before[i]).screen_row == at;
                        assert(before.push(painted)[i].screen_row == at);
                    } else {
                        assert(before.push(painted)[before.len() as int].screen_row == at);
                    }
                }
            }
            rows.push(painted);
        }
        rows
    }

    /// The cells of the characters of `line` from `from` up to `to`, as they
    /// are painted into `room` cells.  `line_idx` is the row of the line and
    /// `start_byte` the offset in bytes of its character `from`.
    pub fn paint_cells(
        &mut self,
        line: &Vec<char>,
        from: usize,
        to: usize,
        line_idx: usize,
        start_byte: usize,
        room: usize,
        spans: &Vec<(usize, usize, Color)>,
    ) -> (painted: Vec<Cell>)
        requires
            from <= to <= line@.len(),
        ensures
            *final(self) == *old(self),
            painted@ == cells_from(
                line@,
                from as int,
                to as int,
                room as int,
                Brush { used: 0, row: line_idx, column: from, byte: start_byte },
                spans@,
                old(self).selection,
                old(self).selcolor,
            ),
    {
        let mut painted: Vec<Cell> = Vec::new();
        let mut vis_x: usize = 0;
        let mut char_pos = from;
        let mut byte_idx = start_byte;
        let mut i = from;
        let ghost all = cells_from(
            line@,
            from as int,
            to as int,
            room as int,
            Brush { used: 0, row: line_idx, column: from, byte: start_byte },
            spans@,
            self.selection,
            self.selcolor,
        );
        while i < to
            invariant
                from <= i <= to <= line@.len(),
                *self == *old(self),
                vis_x <= room,
                all == cells_from(
                    line@,
                    from as int,
                    to as int,
                    room as int,
                    Brush { used: 0, row: line_idx, column: from, byte: start_byte },
                    spans@,
                    self.selection,
                    self.selcolor,
                ),
                all == painted@ + cells_from(
                    line@,
                    i as int,
                    to as int,
                    room as int,
                    Brush { used: vis_x, row: line_idx, column: char_pos, byte: byte_idx },
                    spans@,
                    self.selection,
                    self.selcolor,
                ),
            decreases to - i,
        {
            let ghost here = cells_from(
                line@,
                i as int,
                to as int,
                room as int,
                Brush { used: vis_x, row: line_idx, column: char_pos, byte: byte_idx },
                spans@,
                self.selection,
                self.selcolor,
            );
            let raw = line[i];
            i += 1;
            let ch = if raw == '\t' {
                ' '
            } else {
                raw
            };
            if is_control(ch) {
                continue ;
            }
            let ch_width = cells(ch);
            if ch_width > room - vis_x {
                assert(here =~= Seq::<Cell>::empty());
                assert(all =~= painted@);
                return painted;
            }
            let fcolor = span_colour(spans, byte_idx);
            let bcolor = if self.selection.is_selected(line_idx, char_pos) {
                self.selcolor
            } else {
                Color::Reset
            };
            let ghost rest = cells_from(
                line@,
                i as int,
                to as int,
                room as int,
                Brush {
                    used: (vis_x + ch_width) as usize,
                    row: line_idx,
                    column: above(char_pos + 1),
                    byte: above(byte_idx + char_bytes(ch)),
                },
                spans@,
                self.selection,
                self.selcolor,
            );
            proof {
                lemma_cells_step(
                    line@,
                    i - 1,
                    to as int,
                    room as int,
                    Brush { used: vis_x, row: line_idx, column: char_pos, byte: byte_idx },
                    spans@,
                    self.selection,
                    self.selcolor,
                );
                assert(all =~= painted@.push(
                    Cell { character: ch, fg_color: fcolor, bg_color: bcolor },
                ) + rest);
            }
            painted.push(Cell::new(ch, fcolor, bcolor));
            vis_x += ch_width;
            char_pos = char_pos.saturating_add(1);
            byte_idx = byte_idx.saturating_add(crate::chars::utf8_len(ch));
        }
        assert(all =~= painted@);
        painted
    }
}

/// Where the painting of a row stands: the cells that are taken, and the
/// row, the column and the offset in bytes of the next character.
pub struct Brush {
    pub used: usize,
    pub row: usize,
    pub column: usize,
    pub byte: usize,
}

/// The cells of the characters of `line` from `i` up to `to`, as they are
/// painted into `room` cells.  A tab is shown as a space, and a control code
/// is not shown and not counted as a column.  Each cell has the colour of the
/// first span that covers the byte of its character, and the selection's
/// colour behind it where the selection covers it.  The painting ends before
/// the first character that does not fit.
pub open spec fn cells_from(
    line: Seq<char>,
    i: int,
    to: int,
    room: int,
    brush: Brush,
    spans: Seq<(usize, usize, Color)>,
    selection: Selection,
    selcolor: Color,
) -> Seq<Cell>
    decreases to - i,
{
    if i < 0 || i >= to || i >= line.len() {
        Seq::empty()
    } else {
        let ch = shown_char(line[i]);
        if is_control_code(ch) {
            cells_from(line, i + 1, to, room, brush, spans, selection, selcolor)
        } else if cells_of(ch) > room - brush.used {
            Seq::empty()
        } else {
            seq![
                Cell {
                    character: ch,
                    fg_color: colour_at(spans, brush.byte, 0),
                    bg_color: if selection.shown() && selection.covers(
                        Point::at(brush.row, brush.column),
                    ) {
                        selcolor
                    } else {
                        Color::Reset
                    },
                },
            ] + cells_from(
                line,
                i + 1,
                to,
                room,
                Brush {
                    used: (brush.used + cells_of(ch)) as usize,
                    row: brush.row,
                    column: above(brush.column + 1),
                    byte: above(brush.byte + char_bytes(ch)),
                },
                spans,
                selection,
                selcolor,
            )
        }
    }
}

/// A copy of a list of spans.
pub fn copy_spans(spans: &Vec<(usize, usize, Color)>) -> (copy: Vec<(usize, usize, Color)>)
    ensures
        copy@ == spans@,
{
    let mut copy: Vec<(usize, usize, Color)> = Vec::new();
    let mut i: usize = 0;
    while i < spans.len()
        invariant
            i <= spans@.len(),
            copy@ == spans@.take(i as int),
        decreases spans@.len() - i,
    {
        copy.push(spans[i]);
        i += 1;
        assert(copy@ =~= spans@.take(i as int));
    }
    assert(spans@.take(i as int) =~= spans@);
    copy
}

/// One of the first `n` messages tells of an error on line `line`.
pub open spec fn error_on(items: Seq<Diagnostic>, line: usize, n: nat) -> bool
    decreases n,
{
    if n == 0 || n > items.len() {
        false
    } else {
        (items[n - 1].line == line && items[n - 1].severity == Some(Severity::Error)) || error_on(
            items,
            line,
            (n - 1) as nat,
        )
    }
}

/// Whether a message tells of an error on line `line`.
pub fn has_error(items: &Vec<Diagnostic>, line: usize) -> (r: bool)
    ensures
        r == error_on(items@, line, items@.len()),
{
    let mut i: usize = 0;
    let mut found = false;
    while i < items.len()
        invariant
            i <= items@.len(),
            found == error_on(items@, line, i as nat),
        decreases items@.len() - i,
    {
        if items[i].line == line {
            if let Some(Severity::Error) = items[i].severity {
                found = true;
            }
        }
        i += 1;
    }
    found
}

/// Those of the first `n` messages that are about the lines from `start` to
/// `end`, in their order.
pub open spec fn on_lines(items: Seq<Diagnostic>, start: usize, end: usize, n: nat) -> Seq<
    Diagnostic,
>
    decreases n,
{
    if n == 0 || n > items.len() {
        Seq::empty()
    } else {
        let before = on_lines(items, start, end, (n - 1) as nat);
        if start <= items[n - 1].line <= end {
            before.push(items[n - 1])
        } else {
            before
        }
    }
}

/// What is found among fewer messages is the start of what is found among
/// more.
pub proof fn lemma_on_lines_prefix(items: Seq<Diagnostic>, start: usize, end: usize, i: nat, n: nat)
    requires
        i <= n <= items.len(),
    ensures
        on_lines(items, start, end, i).len() <= on_lines(items, start, end, n).len(),
        forall|k: int|
            0 <= k < on_lines(items, start, end, i).len() ==> on_lines(items, start, end, i)[k]
                == on_lines(items, start, end, n)[k],
    decreases n,
{
    if i < n {
        lemma_on_lines_prefix(items, start, end, i, (n - 1) as nat);
    }
}

/// The painting of a character that is shown and fits: its cell, and then
/// what is painted of the rest.
pub proof fn lemma_cells_step(
    line: Seq<char>,
    i: int,
    to: int,
    room: int,
    brush: Brush,
    spans: Seq<(usize, usize, Color)>,
    selection: Selection,
    selcolor: Color,
)
    requires
        0 <= i < to,
        i < line.len(),
        !is_control_code(shown_char(line[i])),
        cells_of(shown_char(line[i])) <= room - brush.used,
    ensures
        cells_from(line, i, to, room, brush, spans, selection, selcolor) == seq![
            Cell {
                character: shown_char(line[i]),
                fg_color: colour_at(spans, brush.byte, 0),
                bg_color: if selection.shown() && selection.covers(
                    Point::at(brush.row, brush.column),
                ) {
                    selcolor
                } else {
                    Color::Reset
                },
            },
        ] + cells_from(
            line,
            i + 1,
            to,
            room,
            Brush {
                used: (brush.used + cells_of(shown_char(line[i]))) as usize,
                row: brush.row,
                column: above(brush.column + 1),
                byte: above(brush.byte + char_bytes(shown_char(line[i]))),
            },
            spans,
            selection,
            selcolor,
        ),
{
}

/// The character that is shown for `c`: a space for a tab.
pub open spec fn shown_char(c: char) -> char {
    if c == '\t' {
        ' '
    } else {
        c
    }
}

/// The width of the line numbers of the editor's document.
pub open spec fn gutter(editor: &Editor) -> int {
    crate::editor::gutter_width(line_count(editor.code.chars()))
}

/// The index of the spans that were found for a range of bytes.
pub open spec fn cached_at(cache: Seq<CachedSpans>, start: usize, end: usize, i: int) -> Option<int>
    decreases cache.len() - i,
{
    if i < 0 || i >= cache.len() {
        None
    } else if cache[i].start == start && cache[i].end == end {
        Some(i)
    } else {
        cached_at(cache, start, end, i + 1)
    }
}

/// The bytes before a character are no more than those before a later one.
pub proof fn lemma_offsets_grow(text: Seq<char>, a: int, b: int)
    requires
        0 <= a <= b <= text.len(),
    ensures
        crate::text::byte_offset(text, a) <= crate::text::byte_offset(text, b),
{
    assert(text.subrange(0, b) =~= text.subrange(0, a) + text.subrange(a, b));
    lemma_encode_concat(text.subrange(0, a), text.subrange(a, b));
}

/// The bytes of two texts in a row are those of the first followed by those
/// of the second.
pub proof fn lemma_encode_concat(a: Seq<char>, b: Seq<char>)
    ensures
        vstd::utf8::encode_utf8(a + b) == vstd::utf8::encode_utf8(a) + vstd::utf8::encode_utf8(b),
    decreases a.len(),
{
    if a.len() == 0 {
        assert(a + b =~= b);
        assert(vstd::utf8::encode_utf8(a) + vstd::utf8::encode_utf8(b) =~= vstd::utf8::encode_utf8(
            b,
        ));
    } else {
        assert((a + b).drop_first() =~= a.drop_first() + b);
        lemma_encode_concat(a.drop_first(), b);
        assert(vstd::utf8::encode_utf8(a + b) =~= vstd::utf8::encode_utf8(a)
            + vstd::utf8::encode_utf8(b));
    }
}

} // verus!
