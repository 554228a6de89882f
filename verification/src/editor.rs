//! The controller of the editor: the document in view, the cursor, the
//! scroll offsets, the selection and the size of the screen, and how they
//! change with what the user does.
//!
//! The controller decides; it neither reads keys nor paints.  What has to be
//! told to the language server is returned as a list of changes.

use crate::code::Code;
use crate::config::Config;
use crate::framing::{decimal, decimal_digits};
use crate::screen::{Color, Rect};
use crate::selection::Selection;
use crate::syntax::{NodePath, Theme};
use crate::text::{line_count, line_width};
use crate::utils::CursorHistory;
use vstd::prelude::*;

verus! {

/// The width of the file panel where the configuration gives none.
pub const DEFAULT_PANEL_WIDTH: usize = 25;

/// A change of the document that the language server has to be told of: the
/// range that it replaces, by line and column of its start and its end, and
/// the text that stands there now.
#[derive(Debug)]
pub struct LspChange {
    pub start_line: usize,
    pub start_column: usize,
    pub end_line: usize,
    pub end_column: usize,
    pub text: String,
}

/// How bad what a diagnostic tells is.
#[derive(Clone, Copy, Debug, PartialEq, Eq, Structural)]
pub enum Severity {
    Error,
    Warning,
    Information,
    Hint,
}

/// What a language server tells of a place in a document.
#[derive(Debug)]
pub struct Diagnostic {
    pub line: usize,
    pub character: usize,
    pub end_line: usize,
    pub end_character: usize,
    pub severity: Option<Severity>,
    pub message: String,
}

impl Clone for Diagnostic {
    fn clone(&self) -> (d: Self)
        ensures
            d == *self,
    {
        Diagnostic {
            line: self.line,
            character: self.character,
            end_line: self.end_line,
            end_character: self.end_character,
            severity: self.severity,
            message: self.message.clone(),
        }
    }
}

/// The diagnostics of one document, by its address.
#[derive(Debug)]
pub struct FileDiagnostics {
    pub uri: String,
    pub items: Vec<Diagnostic>,
}

/// No two of the diagnostics are for one document.
pub open spec fn told_once(all: Seq<FileDiagnostics>) -> bool {
    forall|i: int, j: int|
        0 <= i < j < all.len() ==> (#[trigger] all[i]).uri@ != (#[trigger] all[j]).uri@
}

/// The spans of colour that were found for a range of bytes.
pub struct CachedSpans {
    pub start: usize,
    pub end: usize,
    pub spans: Vec<(usize, usize, Color)>,
}

/// The state of the editor.
pub struct Editor {
    /// The configuration.
    pub config: Config,
    /// The document in view.
    pub code: Code,
    /// The documents that are open but not in view.
    pub codes: Vec<Code>,
    /// What was copied last, for when the system has no clipboard.
    pub clipboard: Option<String>,
    /// The height of the terminal.
    pub height: usize,
    /// The width of the terminal.
    pub width: usize,
    /// The row of the cursor.
    pub r: usize,
    /// The column of the cursor.
    pub c: usize,
    /// The first column in view.
    pub x: usize,
    /// The first row in view.
    pub y: usize,
    /// The width of the file panel.
    pub lp_width: usize,
    /// The screen has to be painted anew.
    pub upd: bool,
    /// The colours of the captures.
    pub theme: Theme,
    /// The spans of colour found so far, by range of bytes.
    pub highlights_cache: Vec<CachedSpans>,
    /// The colour of line numbers.
    pub lncolor: Color,
    /// The colour of the status line.
    pub scolor: Color,
    /// The colour of the selection.
    pub selcolor: Color,
    /// The colour of errors.
    pub ecolor: Color,
    /// The colour of the run buttons.
    pub lbcolor: Color,
    /// The selection.
    pub selection: Selection,
    /// The rows of the screen that a popup takes.
    pub overlay_lines: Vec<usize>,
    /// The places that the cursor can go back to.
    pub cursor_history: CursorHistory,
    /// The file panel has the keyboard.
    pub is_lp_focused: bool,
    /// The chain of nodes that a structural selection grows along.
    pub node_path: Option<NodePath>,
    /// The next change of the file on disk is the editor's own.
    pub self_update: bool,
    /// The last click: its time and the offset that it hit.
    pub last_click: Option<(u64, usize)>,
    /// The click before the last one.
    pub last_last_click: Option<(u64, usize)>,
    /// The line whose run button the mouse is over.
    pub hovered_runnable_line: Option<usize>,
    /// What the language servers tell of the documents, by address.
    pub diagnostics: Vec<FileDiagnostics>,
    /// The state of the search line.
    pub search: crate::search::Search,
    /// The runner of commands.
    pub process: crate::process::Process,
    /// The edge of the file panel is being dragged.
    pub panel_moving: bool,
}

/// An editor that holds the same documents, the same history of places and
/// the same diagnostics as a well-formed one is well formed too.
pub proof fn lemma_wf_kept(before: Editor, after: Editor)
    requires
        before.wf(),
        after.code == before.code,
        after.codes == before.codes,
        after.cursor_history == before.cursor_history,
        after.diagnostics == before.diagnostics,
    ensures
        after.wf(),
{
}

/// The number of cells that the line numbers take for a document of `lines`
/// lines: the digits of the largest number, five at least, and two more.
pub open spec fn gutter_width(lines: nat) -> int {
    (if decimal(if lines < 1 { 1 } else { lines }).len() < 5 {
        5
    } else {
        decimal(if lines < 1 { 1 } else { lines }).len() as int
    }) + 2
}

/// The first cell in view after the view was moved so that cell `at` is in
/// it: `at` itself where it lay before the view, the cell that makes `at` the
/// last one in view where it lay behind, and `first` where it was in view.
pub open spec fn brought_into_view(first: usize, at: usize, room: usize) -> usize {
    if at < first {
        at
    } else if first + room <= at {
        if room >= 1 && at >= room - 1 {
            (at - (room - 1)) as usize
        } else {
            0
        }
    } else {
        first
    }
}

/// The first cell in view after the view was moved so that cell `at` is in
/// it.
pub fn bring_into_view(first: usize, at: usize, room: usize) -> (moved: usize)
    ensures
        moved == brought_into_view(first, at, room),
{
    if at < first {
        at
    } else if room <= at && first <= at - room {
        if room >= 1 {
            at.saturating_sub(room - 1)
        } else {
            0
        }
    } else {
        first
    }
}

impl Editor {
    /// The document in view and those behind it are well formed, and the
    /// history of the cursor too; and the diagnostics hold no document
    /// twice.
    pub open spec fn wf(&self) -> bool {
        &&& self.code.wf()
        &&& forall|i: int| 0 <= i < self.codes@.len() ==> (#[trigger] self.codes@[i]).wf()
        &&& self.cursor_history.wf()
        &&& told_once(self.diagnostics@)
    }

    /// What an edit of the document in view leaves alone: the other
    /// documents, the history of the cursor and the sizes.
    pub open spec fn same_frame(&self, other: &Editor) -> bool {
        &&& self.codes == other.codes
        &&& self.cursor_history == other.cursor_history
        &&& self.width == other.width
        &&& self.height == other.height
        &&& self.lp_width == other.lp_width
    }

    /// What moving the cursor or the view leaves alone: the documents, the
    /// history of the cursor, the diagnostics, the colours that were found
    /// and the size of the screen.
    pub open spec fn kept(self, after: Editor) -> bool {
        &&& after.code == self.code
        &&& after.codes == self.codes
        &&& after.cursor_history == self.cursor_history
        &&& after.diagnostics == self.diagnostics
        &&& after.highlights_cache == self.highlights_cache
        &&& after.width == self.width
        &&& after.height == self.height
    }

    /// The cursor stands in the text: on a line of it, and not behind the
    /// line's last column.
    pub open spec fn cursor_in_text(&self) -> bool {
        self.r < line_count(self.code.chars()) && self.c <= line_width(
            self.code.chars(),
            self.r as int,
        )
    }

    /// An editor with an empty document, no size yet and the panel closed.
    pub fn new(config: Config) -> (editor: Self)
        ensures
            editor.wf(),
            editor.config == config,
            editor.code.chars().len() == 0,
            editor.code.doc().undo.len() == 0 && editor.code.doc().redo.len() == 0,
            editor.code.file_name@.len() == 0 && editor.code.abs_path@.len() == 0,
            editor.code.is_plain() && editor.code.conf() is None,
            editor.codes@.len() == 0,
            editor.clipboard is None,
            editor.r == 0 && editor.c == 0 && editor.x == 0 && editor.y == 0,
            editor.width == 0 && editor.height == 0 && editor.lp_width == 0,
            editor.lncolor == Color::Reset && editor.scolor == Color::Reset && editor.selcolor
                == Color::Reset && editor.ecolor == Color::Reset && editor.lbcolor == Color::Reset,
            forall|name: Seq<char>| editor.theme.colour(name) is None,
            editor.upd,
            !editor.is_lp_focused && !editor.panel_moving && !editor.self_update,
            editor.selection == (Selection {
                start: crate::selection::Point::nowhere(),
                end: crate::selection::Point::nowhere(),
                active: false,
                keep_once: false,
            }),
            editor.overlay_lines@.len() == 0,
            editor.highlights_cache@.len() == 0,
            editor.diagnostics@.len() == 0,
            editor.cursor_history@.index == 0 && editor.cursor_history@.positions.len() == 0,
            editor.node_path is None,
            editor.last_click is None && editor.last_last_click is None,
            editor.hovered_runnable_line is None,
            !editor.search.active && editor.search.pattern_chars().len() == 0
                && editor.search.results@.len() == 0 && editor.search.index == 0
                && editor.search.cursor_pos == 0,
            editor.process.last_cmd@.len() == 0,
    {
        Editor {
            config,
            code: Code::new(),
            clipboard: None,
            height: 0,
            width: 0,
            r: 0,
            c: 0,
            x: 0,
            y: 0,
            lncolor: Color::Reset,
            scolor: Color::Reset,
            selcolor: Color::Reset,
            ecolor: Color::Reset,
            lbcolor: Color::Reset,
            upd: true,
            theme: Theme::new(),
            highlights_cache: Vec::new(),
            selection: Selection::new(),
            lp_width: 0,
            codes: Vec::new(),
            overlay_lines: Vec::new(),
            cursor_history: CursorHistory::new(),
            is_lp_focused: false,
            node_path: None,
            self_update: false,
            last_click: None,
            last_last_click: None,
            hovered_runnable_line: None,
            diagnostics: Vec::new(),
            search: crate::search::Search::new(),
            process: crate::process::Process::new(),
            panel_moving: false,
        }
    }

    /// Puts a document that was read from a file in view, with the cursor at
    /// its start.
    pub fn load_file(&mut self, code: Code)
        requires
            old(self).wf(),
            code.wf(),
        ensures
            final(self).wf(),
            *final(self) == (Editor {
                code,
                r: 0,
                c: 0,
                y: 0,
                x: 0,
                selection: Selection {
                    start: crate::selection::Point::nowhere(),
                    end: crate::selection::Point::nowhere(),
                    active: false,
                    ..old(self).selection
                },
                highlights_cache: final(self).highlights_cache,
                ..*old(self)
            }),
            final(self).highlights_cache@.len() == 0,
    {
        self.code = code;
        self.r = 0;
        self.c = 0;
        self.y = 0;
        self.x = 0;
        self.selection.clean();
        self.reset_highlight_cache();
    }

    /// Forgets the spans of colour that were found: after an edit they hold
    /// no more.
    pub fn reset_highlight_cache(&mut self)
        ensures
            *final(self) == (Editor { highlights_cache: final(self).highlights_cache, ..*old(self) }),
            final(self).highlights_cache@.len() == 0,
    {
        self.highlights_cache = Vec::new();
    }

    /// Takes the size of the terminal.  A size without width or height is
    /// not taken.
    pub fn resize(&mut self, w: usize, h: usize)
        ensures
            w == 0 || h == 0 ==> *final(self) == *old(self),
            w != 0 && h != 0 ==> *final(self) == (Editor {
                width: w,
                height: h,
                upd: true,
                ..*old(self)
            }),
    {
        if w == 0 || h == 0 {
            return ;
        }
        self.width = w;
        self.height = h;
        self.upd = true;
    }

    /// The width that the file panel has when it is open.
    pub open spec fn panel_width(&self) -> usize {
        match self.config.left_panel_width {
            Some(w) => w,
            None => DEFAULT_PANEL_WIDTH,
        }
    }

    /// The editor with the file panel open and the keyboard in it.
    pub open spec fn panel_opened(self) -> Editor {
        (Editor {
            lp_width: self.panel_width(),
            is_lp_focused: true,
            upd: self.upd || (self.width != 0 && self.height != 0),
            ..self
        })
    }

    /// Opens the file panel and gives it the keyboard.
    pub fn open_left_panel(&mut self)
        ensures
            *final(self) == old(self).panel_opened(),
    {
        self.lp_width = match self.config.left_panel_width {
            Some(w) => w,
            None => DEFAULT_PANEL_WIDTH,
        };
        self.is_lp_focused = true;
        self.resize(self.width, self.height);
    }

    /// The editor with the file panel closed.
    pub open spec fn panel_closed(self) -> Editor {
        (Editor {
            lp_width: 0,
            upd: self.upd || (self.width != 0 && self.height != 0),
            ..self
        })
    }

    /// Closes the file panel.
    pub fn close_left_panel(&mut self)
        ensures
            *final(self) == old(self).panel_closed(),
    {
        self.lp_width = 0;
        self.resize(self.width, self.height);
    }

    /// The editor with the file panel open where it was closed, and closed
    /// where it was open.
    pub open spec fn panel_switched(self) -> Editor {
        (Editor {
            lp_width: if self.lp_width > 0 {
                0
            } else {
                self.panel_width()
            },
            upd: true,
            ..self
        })
    }

    /// Opens the file panel where it is closed, and closes it where it is
    /// open.
    pub fn left_panel_toggle(&mut self)
        ensures
            *final(self) == old(self).panel_switched(),
    {
        if self.lp_width > 0 {
            self.lp_width = 0;
        } else {
            self.lp_width = match self.config.left_panel_width {
                Some(w) => w,
                None => DEFAULT_PANEL_WIDTH,
            };
        }
        self.resize(self.width, self.height);
        self.upd = true;
    }

    /// The editor after Control and `t`: the panel open where it was closed,
    /// with the keyboard where it was open without it, and closed where it
    /// had the keyboard.
    pub open spec fn panel_toggled(self) -> Editor {
        (Editor {
            lp_width: if self.lp_width == 0 {
                self.panel_width()
            } else if self.is_lp_focused {
                0
            } else {
                self.lp_width
            },
            is_lp_focused: self.lp_width == 0 || !self.is_lp_focused,
            upd: true,
            ..self
        })
    }

    /// What Control and `t` does: it opens the panel where it is closed,
    /// gives it the keyboard where it is open without it, and closes it
    /// where it has the keyboard.
    pub fn toggle_left_panel(&mut self)
        ensures
            *final(self) == old(self).panel_toggled(),
    {
        if self.lp_width == 0 {
            self.is_lp_focused = true;
            self.left_panel_toggle();
        } else {
            if !self.is_lp_focused {
                self.is_lp_focused = true;
            } else {
                self.is_lp_focused = false;
                self.left_panel_toggle();
            }
        }
        self.upd = true;
    }

    /// The number of cells that the line numbers take.
    pub fn get_line_number_width(&self) -> (w: usize)
        ensures
            w == gutter_width(line_count(self.code.chars())),
            w >= 7,
    {
        let total_lines = self.code.len_lines();
        let max_line_number = if total_lines < 1 {
            1
        } else {
            total_lines
        };
        let digits = decimal_digits(max_line_number).len();
        let line_number_digits = if digits < 5 {
            5
        } else {
            digits
        };
        proof {
            lemma_decimal_short(max_line_number as nat);
        }
        line_number_digits + 2
    }

    /// The cursor is in view: its column and its row are not before the
    /// first ones in view, and lie among those that the view holds, where it
    /// holds any.
    pub open spec fn seen(self) -> bool {
        &&& self.x <= self.c
        &&& self.text_room() >= 1 ==> self.c < self.x + self.text_room()
        &&& self.y <= self.r
        &&& self.row_room() >= 1 ==> self.r < self.y + self.row_room()
    }

    /// The editor after the view was moved so that the cursor is in it.
    pub open spec fn focused(self) -> Editor {
        Editor {
            x: brought_into_view(self.x, self.c, self.text_room()),
            y: brought_into_view(self.y, self.r, self.row_room()),
            upd: self.upd || self.c < self.x || self.x + self.text_room() <= self.c || self.r
                < self.y || self.y + self.row_room() <= self.r,
            ..self
        }
    }

    /// Moves the view so that the cursor is in it.
    pub fn focus(&mut self)
        ensures
            *final(self) == old(self).focused(),
            final(self).seen(),
    {
        let visible_width = self.visible_width();
        let visible_height = self.visible_height();
        let col = self.c;
        let line = self.r;
        if col < self.x || (visible_width <= col && self.x <= col - visible_width) {
            self.upd = true;
        }
        if line < self.y || (visible_height <= line && self.y <= line - visible_height) {
            self.upd = true;
        }
        self.x = bring_into_view(self.x, col, visible_width);
        self.y = bring_into_view(self.y, line, visible_height);
    }

    /// The part of the screen that the editor has: to the right of the file
    /// panel, as far as coordinates go.
    pub open spec fn area(&self) -> Rect {
        let x = self.lp_width as u16;
        let w = self.width as u16;
        let h = self.height as u16;
        Rect {
            x,
            y: 0,
            width: if w > u16::MAX - x {
                (u16::MAX - x) as u16
            } else {
                w
            },
            height: h,
        }
    }

    /// The part of the screen that the editor has.
    pub fn editor_area(&self) -> (area: Rect)
        ensures
            area == self.area(),
    {
        Rect::new(
            #[verifier::truncate] (self.lp_width as u16),
            0,
            #[verifier::truncate] (self.width as u16),
            #[verifier::truncate] (self.height as u16),
        )
    }

    /// The number of digits that line numbers are given.
    pub open spec fn digits(&self) -> int {
        gutter_width(line_count(self.code.chars())) - 2
    }

    /// The columns of text that the view holds.
    pub open spec fn text_room(&self) -> usize {
        if self.area().width >= self.digits() {
            (self.area().width - self.digits()) as usize
        } else {
            0
        }
    }

    /// The rows of text that the view holds.
    pub open spec fn row_room(&self) -> usize {
        self.area().height as usize
    }

    /// The columns of text that the view holds.
    pub fn visible_width(&self) -> (w: usize)
        ensures
            w == self.text_room(),
    {
        let area = self.editor_area();
        let digits = self.get_line_number_width() - 2;
        (area.width as usize).saturating_sub(digits)
    }

    /// The rows of text that the view holds.
    pub fn visible_height(&self) -> (h: usize)
        ensures
            h == self.row_room(),
    {
        let area = self.editor_area();
        area.height as usize
    }

    /// The editor with the cursor's row in the middle of the view, where
    /// the cursor stands below the middle of the first screen.
    pub open spec fn centred_view(self) -> Editor {
        (Editor {
            y: if self.r > self.height / 2 {
                (self.r - self.height / 2) as usize
            } else {
                self.y
            },
            ..self
        })
    }

    /// Moves the view so that the cursor is in the middle of it, where it
    /// lies below the middle of the first screen.
    pub fn focus_to_center(&mut self)
        ensures
            *final(self) == old(self).centred_view(),
    {
        if self.r > self.height / 2 {
            self.y = self.r - (self.height / 2);
        }
    }

    /// The number of columns of line `row`; none for a line that the
    /// document does not have.
    pub open spec fn width_at(&self, row: int) -> usize {
        if 0 <= row < line_count(self.code.chars()) {
            line_width(self.code.chars(), row) as usize
        } else {
            0
        }
    }

    /// The number of columns of line `row`.
    pub fn line_len_at(&self, row: usize) -> (w: usize)
        ensures
            w == self.width_at(row as int),
    {
        if row < self.code.len_lines() {
            self.code.line_len(row)
        } else {
            0
        }
    }

    /// The last line of the document.
    pub open spec fn last_row(&self) -> usize {
        (line_count(self.code.chars()) - 1) as usize
    }

    /// The editor with the cursor brought into the text: to the last line
    /// where it lies below it, and to the end of its line where it lies
    /// behind it.
    pub open spec fn fitted(self) -> Editor {
        let r = if self.r >= line_count(self.code.chars()) {
            self.last_row()
        } else {
            self.r
        };
        Editor {
            r,
            c: if self.c > self.width_at(r as int) {
                self.width_at(r as int)
            } else {
                self.c
            },
            ..self
        }
    }

    /// Brings the cursor into the text.
    pub fn fit_cursor(&mut self)
        ensures
            *final(self) == old(self).fitted(),
            final(self).cursor_in_text(),
    {
        let len_lines = self.code.len_lines();
        if self.r >= len_lines {
            self.r = len_lines - 1;
        }
        let line_len = self.code.line_len(self.r);
        if self.c > line_len {
            self.c = line_len;
        }
    }

    /// The editor with the cursor one row up, where there is one.
    pub open spec fn gone_up(self) -> Editor {
        if self.r > 0 {
            (Editor { r: (self.r - 1) as usize, ..self }).fitted().focused()
        } else {
            self
        }
    }

    /// The cursor one row up, where there is one.
    pub fn handle_up(&mut self)
        ensures
            *final(self) == old(self).gone_up(),
    {
        if self.r > 0 {
            self.r -= 1;
            self.fit_cursor();
            self.focus();
        }
    }

    /// The editor with the cursor one row down, where there is one.
    pub open spec fn gone_down(self) -> Editor {
        if self.r < self.last_row() {
            (Editor { r: (self.r + 1) as usize, ..self }).fitted().focused()
        } else {
            self
        }
    }

    /// The cursor one row down, where there is one.
    pub fn handle_down(&mut self)
        ensures
            *final(self) == old(self).gone_down(),
    {
        if self.r < self.code.len_lines() - 1 {
            self.r += 1;
            self.fit_cursor();
            self.focus();
        }
    }

    /// The editor with the view and the cursor one screen up.
    pub open spec fn paged_up(self) -> Editor {
        if self.y > 0 {
            (Editor {
                y: if self.y > self.height {
                    (self.y - self.height) as usize
                } else {
                    0
                },
                r: if self.r > self.height {
                    (self.r - self.height) as usize
                } else {
                    0
                },
                ..self
            }).fitted().shown().focused()
        } else {
            self
        }
    }

    /// The view and the cursor one screen up.
    pub fn handle_page_up(&mut self)
        ensures
            *final(self) == old(self).paged_up(),
    {
        if self.y > 0 {
            self.y = if self.y > self.height {
                self.y - self.height
            } else {
                0
            };
            self.r = if self.r > self.height {
                self.r - self.height
            } else {
                0
            };
            self.fit_cursor();
            self.upd = true;
            self.focus();
        }
    }

    /// The editor, to be painted anew.
    pub open spec fn shown(self) -> Editor {
        Editor { upd: true, ..self }
    }

    /// The first row of the last screen of the document.
    pub open spec fn last_page(&self) -> usize {
        if line_count(self.code.chars()) > self.height {
            (line_count(self.code.chars()) - self.height) as usize
        } else {
            0
        }
    }

    /// The editor with the view and the cursor one screen down.
    pub open spec fn paged_down(self) -> Editor {
        if self.y < self.last_page() {
            (Editor {
                y: if self.y + self.height < self.last_page() {
                    (self.y + self.height) as usize
                } else {
                    self.last_page()
                },
                r: if self.r + self.height < line_count(self.code.chars()) {
                    (self.r + self.height) as usize
                } else {
                    self.last_row()
                },
                ..self
            }).fitted().shown().focused()
        } else {
            self
        }
    }

    /// The view and the cursor one screen down.
    pub fn handle_page_down(&mut self)
        ensures
            *final(self) == old(self).paged_down(),
    {
        let lines = self.code.len_lines();
        let max_y = if lines > self.height {
            lines - self.height
        } else {
            0
        };
        if self.y < max_y {
            self.y = if self.height < max_y - self.y {
                self.y + self.height
            } else {
                max_y
            };
            self.r = if self.r < lines && self.height < lines - self.r {
                self.r + self.height
            } else {
                lines - 1
            };
            self.fit_cursor();
            self.upd = true;
            self.focus();
        }
    }

    /// The editor with the cursor one column to the left, or at the end of
    /// the row before.
    pub open spec fn gone_left(self) -> Editor {
        (if self.c > 0 {
            Editor { c: (self.c - 1) as usize, ..self }
        } else if self.r > 0 {
            Editor {
                r: (self.r - 1) as usize,
                c: self.width_at(self.r - 1),
                ..self
            }
        } else {
            self
        }).shown().focused()
    }

    /// The cursor one column to the left, or to the end of the line before.
    pub fn handle_left(&mut self)
        ensures
            *final(self) == old(self).gone_left(),
    {
        if self.c > 0 {
            self.c -= 1;
        } else if self.r > 0 {
            self.r -= 1;
            self.c = self.line_len_at(self.r);
        }
        self.upd = true;
        self.focus();
    }

    /// The editor with the cursor one column to the right, or at the start
    /// of the next row.
    pub open spec fn gone_right(self) -> Editor {
        (if self.c < self.width_at(self.r as int) {
            Editor { c: (self.c + 1) as usize, ..self }
        } else if self.r < self.last_row() {
            Editor { r: (self.r + 1) as usize, c: 0, ..self }
        } else {
            self
        }).shown().focused()
    }

    /// The cursor one column to the right, or to the start of the next
    /// line.
    pub fn handle_right(&mut self)
        ensures
            *final(self) == old(self).gone_right(),
    {
        if self.c < self.line_len_at(self.r) {
            self.c += 1;
        } else if self.r < self.code.len_lines() - 1 {
            self.r += 1;
            self.c = 0;
        }
        self.upd = true;
        self.focus();
    }

    /// The editor with the view one row down, where the text goes on.
    pub open spec fn scrolled_down(self) -> Editor {
        if self.y + self.height >= line_count(
            self.code.chars(),
        ) {
            self
        } else {
            Editor { y: (self.y + 1) as usize, upd: true, ..self }
        }
    }

    /// The view one row down, where the document goes on below it.
    pub fn scroll_down(&mut self)
        ensures
            *final(self) == old(self).scrolled_down(),
    {
        let lines = self.code.len_lines();
        if self.y >= lines || self.height >= lines - self.y {
            return ;
        }
        self.y += 1;
        self.upd = true;
    }

    /// The editor with the view one row up, where there is one.
    pub open spec fn scrolled_up(self) -> Editor {
        if self.y == 0 {
            self
        } else {
            Editor { y: (self.y - 1) as usize, upd: true, ..self }
        }
    }

    /// The view one row up, where there is one.
    pub fn scroll_up(&mut self)
        ensures
            *final(self) == old(self).scrolled_up(),
    {
        if self.y == 0 {
            return ;
        }
        self.y -= 1;
        self.upd = true;
    }

    /// The editor with the cursor at the next word break of its row, looked
    /// for from the column behind the cursor on, or on the last character of
    /// the row where there is none.  Nothing moves on an empty row or below
    /// the text.
    pub open spec fn at_next_word(self) -> Editor {
        let line = crate::text::line_text(self.code.chars(), self.r as int);
        if self.r >= line_count(self.code.chars()) || self.c == usize::MAX || line.len() == 0 {
            self
        } else {
            (Editor {
                c: crate::utils::next_break(line, self.c + 1) as usize,
                upd: true,
                ..self
            }).focused()
        }
    }

    /// The editor with the cursor behind the last word break of its row
    /// before the column before the cursor, or at the start of the row
    /// where there is none.  Nothing moves below the text.
    pub open spec fn at_word_before(self) -> Editor {
        let line = crate::text::line_text(self.code.chars(), self.r as int);
        if self.r >= line_count(self.code.chars()) {
            self
        } else {
            (Editor {
                c: crate::utils::prev_break(
                    line,
                    if self.c > 0 {
                        self.c - 1
                    } else {
                        usize::MAX as int
                    },
                ) as usize,
                upd: true,
                ..self
            }).focused()
        }
    }

    /// The cursor to the end of the word that it stands in or before.  The
    /// cursor stays on an empty line and below the text.
    pub fn handle_right_word(&mut self)
        ensures
            *final(self) == old(self).at_next_word(),
    {
        if self.r >= self.code.len_lines() || self.c == usize::MAX {
            return ;
        }
        let line = self.code.line_string(self.r);
        if line.as_str().is_empty() {
            return ;
        }
        self.c = crate::utils::find_next_word(line.as_str(), self.c + 1);
        self.upd = true;
        self.focus();
    }

    /// The cursor to the start of the word that it stands in or behind.  The
    /// cursor stays below the text.
    pub fn handle_left_word(&mut self)
        ensures
            *final(self) == old(self).at_word_before(),
    {
        if self.r >= self.code.len_lines() {
            return ;
        }
        let from = if self.c > 0 {
            self.c - 1
        } else {
            usize::MAX
        };
        let line = self.code.line_string(self.r);
        self.c = crate::utils::find_prev_word(line.as_str(), from);
        self.upd = true;
        self.focus();
    }
}

/// Ten to the power of `k`.
pub open spec fn pow10(k: nat) -> nat
    decreases k,
{
    if k == 0 {
        1
    } else {
        10 * pow10((k - 1) as nat)
    }
}

/// A number below ten to the power of `k` has `k` digits at most.
pub proof fn lemma_decimal_len(n: nat, k: nat)
    requires
        k >= 1,
        n < pow10(k),
    ensures
        1 <= decimal(n).len() <= k,
    decreases k,
{
    if n >= 10 {
        assert(pow10(1) == 10) by {
            reveal_with_fuel(pow10, 2);
        }
        assert(k >= 2);
        lemma_decimal_len(n / 10, (k - 1) as nat);
    }
}

/// A number that the machine holds has twenty digits at most.
pub proof fn lemma_decimal_short(n: nat)
    requires
        n <= usize::MAX,
    ensures
        1 <= decimal(n).len() <= 20,
{
    assert(pow10(20) == 100000000000000000000) by {
        reveal_with_fuel(pow10, 21);
    }
    lemma_decimal_len(n, 20);
}

} // verus!
