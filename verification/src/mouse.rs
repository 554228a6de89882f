//! What the mouse does: it drags the edge of the file panel, presses run
//! buttons, moves the cursor and selects.

use crate::chars::str_chars;
use crate::code::{line_around, place_of, runnable_at, word_around};
use crate::editing::above;
use crate::editor::Editor;
use crate::keys::Modifiers;
use crate::screen::Rect;
use crate::selection::{Point, Selection};
use crate::text::{line_count, line_start, line_width};
use crate::utils::ClickType;
use crate::view::gutter;
use crate::width::{cells, fitting, text_cells, text_width};
use vstd::prelude::*;

verus! {

/// What the mouse did.  Buttons other than the left one, and a mouse that
/// only moves, are `Other`.
#[derive(Clone, Copy, Debug, PartialEq, Eq, Structural)]
pub enum MouseKind {
    Down,
    Drag,
    Up,
    ScrollUp,
    ScrollDown,
    Other,
}

/// The mouse at a cell of the screen.
#[derive(Clone, Copy, Debug, PartialEq, Eq, Structural)]
pub struct MouseEvent {
    pub kind: MouseKind,
    pub column: u16,
    pub row: u16,
    pub modifiers: Modifiers,
}

/// What is left to do after the editor took note of the mouse.
#[derive(Debug)]
pub enum MouseOutcome {
    /// Nothing.
    Done,
    /// The command of a run button is to be run.
    Run(String),
    /// The definition of what the cursor stands on is asked for.
    Definition,
    /// The references to what the cursor stands on are asked for.
    References,
    /// The mouse is over the file panel, which takes it from here.
    Panel,
}

/// The least width that is left to the editor when the panel is dragged.
pub const EDITOR_MIN_WIDTH: usize = 20;

/// The width that the file panel gets when its edge is dragged to `column`
/// on a screen of `width` columns: the column, but one at least and no more
/// than leaves the editor its least width.
pub open spec fn dragged_width(column: u16, width: usize) -> usize {
    let most = (if width >= EDITOR_MIN_WIDTH {
        width - EDITOR_MIN_WIDTH
    } else {
        0
    }) as u16;
    if most < 1 {
        1
    } else if column < 1 {
        1
    } else if column > most {
        most as usize
    } else {
        column as usize
    }
}

/// The width that the file panel gets when its edge is dragged.
pub fn drag_width(column: u16, width: usize) -> (w: usize)
    ensures
        w == dragged_width(column, width),
{
    let most = #[verifier::truncate] (width.saturating_sub(EDITOR_MIN_WIDTH) as u16);
    if most < 1 || column < 1 {
        1
    } else if column > most {
        most as usize
    } else {
        column as usize
    }
}

impl Editor {
    /// Whether the mouse is on the edge of the file panel: from the column
    /// before the panel's width to two columns behind it, on a line without
    /// a run button.
    pub open spec fn on_divider(&self, e: MouseEvent) -> bool {
        e.column >= (if self.lp_width >= 1 {
            self.lp_width - 1
        } else {
            0
        }) && e.column < self.lp_width + 3 && runnable_at(
            self.code.runnables@,
            above(e.row + self.y),
            0,
        ) is None
    }

    /// Whether the mouse is on the edge of the file panel.
    pub fn is_on_divider(&self, e: &MouseEvent) -> (on: bool)
        ensures
            on == self.on_divider(*e),
    {
        let col = e.column as usize;
        let line = (e.row as usize).saturating_add(self.y);
        col >= self.lp_width.saturating_sub(1) && (self.lp_width > usize::MAX - 3 || col
            < self.lp_width + 3) && !self.code.is_runnable(line)
    }

    /// Whether a column is that of the run buttons.
    pub fn is_on_runnable_button(&self, col: u16) -> (on: bool)
        ensures
            on == (col == self.lp_width),
    {
        col as usize == self.lp_width
    }

    /// The offset of the character that a cell of the screen shows, for a
    /// cell of the text: none for a cell outside `area`, in the line numbers
    /// or below the text.  The character is the first one, from the first
    /// column in view on, that does not fit into the cells before the
    /// mouse.  A cell behind what the row shows stands for the end of the
    /// row, before a line feed that ends it.
    pub open spec fn mouse_offset(&self, mouse_x: u16, mouse_y: u16, area: Rect) -> Option<usize> {
        let text = self.code.chars();
        let left = above(area.x + gutter(self));
        let bottom = if area.y + area.height > u16::MAX {
            u16::MAX as int
        } else {
            area.y + area.height
        };
        let row = above(mouse_y - area.y + self.y);
        let col = mouse_x - left;
        let start = line_start(text, row as int);
        let width = line_width(text, row as int);
        let line = text.subrange(start, start + width);
        let from = if self.x < width {
            self.x as int
        } else {
            width
        };
        let index = if col + self.x >= text_cells(line) {
            if width > 0 && line[width - 1] == '\n' {
                width - 1
            } else {
                width
            }
        } else {
            from + fitting(line, from, col, 0)
        };
        if mouse_y < area.y || mouse_y >= bottom || mouse_x < left || row >= line_count(text) {
            None
        } else {
            Some((start + index) as usize)
        }
    }

    /// The offset of the character that a cell of the screen shows.
    pub fn cursor_from_mouse(&self, mouse_x: u16, mouse_y: u16, area: &Rect) -> (at: Option<usize>)
        ensures
            at == self.mouse_offset(mouse_x, mouse_y, *area),
            at matches Some(offset) ==> offset <= self.code.chars().len(),
    {
        let line_number_width = self.get_line_number_width();
        if mouse_y < area.top() || mouse_y >= area.bottom() {
            return None;
        }
        let left = (area.left() as usize).saturating_add(line_number_width);
        if (mouse_x as usize) < left {
            return None;
        }
        let clicked_row = ((mouse_y - area.top()) as usize).saturating_add(self.y);
        if clicked_row >= self.code.len_lines() {
            return None;
        }
        let clicked_col = mouse_x as usize - left;
        proof {
            crate::text::lemma_line_start_monotone(
                self.code.chars(),
                clicked_row as int,
                clicked_row + 1,
            );
        }
        // Taken for its bound: the number of characters fits in `usize`.
        let total = self.code.len_chars();
        let line_start_char = self.code.line_to_char(clicked_row);
        let line_len = self.code.line_len(clicked_row);
        let start_col = if self.x < line_len {
            self.x
        } else {
            line_len
        };
        let line_text = self.code.char_slice(line_start_char, line_start_char + line_len);
        let line = str_chars(line_text.as_str());
        let mut char_idx = start_col + crate::width::count_fitting(&line, start_col, clicked_col);
        let visual_width = text_width(line_text.as_str());
        if clicked_col.saturating_add(self.x) >= visual_width {
            let mut end_idx = line.len();
            if end_idx > 0 && line[end_idx - 1] == '\n' {
                end_idx -= 1;
            }
            char_idx = end_idx;
        }
        Some(line_start_char + char_idx)
    }

    /// The editor after a click on the character at offset `cursor` at time
    /// `now`: a single click puts the cursor there, a double click selects
    /// the word around it and a triple click its line, with the cursor at
    /// the end of what is selected.  The click is kept as the last one.
    pub open spec fn clicked(self, cursor: usize, now: u64) -> Editor {
        let text = self.code.chars();
        let range = match ClickType::kind(now, cursor, self.last_click, self.last_last_click) {
            ClickType::Triple => line_around(text, cursor),
            ClickType::Double => word_around(text, cursor),
            ClickType::Single => (cursor, cursor),
        };
        let from = place_of(text, range.0 as int);
        let to = place_of(text, range.1 as int);
        Editor {
            selection: Selection {
                start: Point::at(from.0, from.1),
                end: Point::at(to.0, to.1),
                active: true,
                ..self.selection
            },
            last_last_click: self.last_click,
            last_click: Some((now, cursor)),
            upd: true,
            r: to.0,
            c: to.1,
            ..self
        }
    }

    /// The editor after the mouse was dragged to the character at offset
    /// `cursor`: the selection ends there, and the cursor stands there.
    pub open spec fn dragged_to(self, cursor: usize) -> Editor {
        let to = place_of(self.code.chars(), cursor as int);
        Editor {
            selection: Selection { end: Point::at(to.0, to.1), active: true, ..self.selection },
            r: to.0,
            c: to.1,
            upd: true,
            ..self
        }
    }

    /// `after` is this editor once the place of its cursor was noted in the
    /// history of places.  A document without a path is not noted.
    pub open spec fn noted(self, after: Editor) -> bool {
        &&& after == (Editor { cursor_history: after.cursor_history, ..self })
        &&& if self.code.abs_path@.len() == 0 {
            after == self
        } else {
            exists|p: crate::utils::CursorPosition|
                #![trigger self.cursor_history@.pushed(p)]
                p.filename@ == self.code.abs_path@ && p.row == self.r && p.col == self.c && p.y
                    == self.y && p.x == self.x && after.cursor_history@
                    == self.cursor_history@.pushed(p)
        }
    }

    /// What the mouse does in the text, the editor being `after` then and
    /// `outcome` left to do.  A click with Control alone or Alt alone puts
    /// the cursor under the mouse and asks for the definition or the
    /// references.  Else the wheel moves the view by a row, a click moves
    /// the cursor and selects as `clicked` says and notes the place, and
    /// dragging selects as `dragged_to` says.  Outside the text the mouse
    /// does nothing.
    pub open spec fn mouse_in_text(
        self,
        e: MouseEvent,
        area: Rect,
        now: u64,
        after: Editor,
        outcome: MouseOutcome,
    ) -> bool {
        let at = self.mouse_offset(e.column, e.row, area);
        let control = e.modifiers.control && !e.modifiers.alt && !e.modifiers.shift
            && !e.modifiers.other;
        let alt = !e.modifiers.control && e.modifiers.alt && !e.modifiers.shift
            && !e.modifiers.other;
        if e.kind == MouseKind::Down && (control || alt) && at is Some {
            let to = place_of(self.code.chars(), at->0 as int);
            &&& after == (Editor { r: to.0, c: to.1, ..self })
            &&& if control {
                outcome is Definition
            } else {
                outcome is References
            }
        } else {
            &&& outcome is Done
            &&& match e.kind {
                MouseKind::ScrollUp => after == if self.y == 0 {
                    self
                } else {
                    Editor { y: (self.y - 1) as usize, upd: true, ..self }
                },
                MouseKind::ScrollDown => after == if self.y + self.height >= line_count(
                    self.code.chars(),
                ) {
                    self
                } else {
                    Editor { y: (self.y + 1) as usize, upd: true, ..self }
                },
                MouseKind::Down => match at {
                    Some(cursor) => self.clicked(cursor, now).noted(after),
                    None => after == self,
                },
                MouseKind::Drag => match at {
                    Some(cursor) => after == self.dragged_to(cursor),
                    None => after == self,
                },
                _ => after == self,
            }
        }
    }

    /// What the mouse does, the editor being `after` then and `outcome`
    /// left to do.  The file panel has the keyboard from then on where the
    /// mouse is over it.  Pressing the edge of the panel takes hold of it,
    /// dragging sets the panel's width while it is held, and releasing lets
    /// go of it.  Over a run button the button is marked, and releasing the
    /// mouse there asks for its command to be run, which is kept as the one
    /// run last.  Elsewhere no button is marked; over the panel the mouse
    /// is the panel's, and over the text it does what `mouse_in_text` says.
    pub open spec fn mouse_done(
        self,
        e: MouseEvent,
        now: u64,
        after: Editor,
        outcome: MouseOutcome,
    ) -> bool {
        let over = Editor { is_lp_focused: e.column < self.lp_width, ..self };
        let line = above(e.row + self.y);
        let button = runnable_at(self.code.runnables@, line, 0);
        if e.kind == MouseKind::Down && self.on_divider(e) {
            outcome is Done && after == (Editor { panel_moving: true, upd: true, ..over })
        } else if e.kind == MouseKind::Drag && self.panel_moving {
            outcome is Done && after == (Editor {
                lp_width: dragged_width(e.column, self.width),
                upd: true,
                ..over
            })
        } else if e.kind == MouseKind::Up && self.panel_moving {
            outcome is Done && after == (Editor { panel_moving: false, upd: true, ..over })
        } else if e.column == self.lp_width && button is Some {
            if e.kind == MouseKind::Up {
                &&& outcome matches MouseOutcome::Run(cmd) && cmd@
                    == self.code.runnables@[button->0].cmd@
                &&& after.process.last_cmd@ == self.code.runnables@[button->0].cmd@
                &&& after == (Editor {
                    hovered_runnable_line: Some(line),
                    process: after.process,
                    ..over
                })
            } else {
                outcome is Done && after == (Editor { hovered_runnable_line: Some(line), ..over })
            }
        } else if over.is_lp_focused {
            outcome is Panel && after == (Editor { hovered_runnable_line: None, ..over })
        } else {
            (Editor { hovered_runnable_line: None, ..over }).mouse_in_text(
                e,
                self.area(),
                now,
                after,
                outcome,
            )
        }
    }

    /// Takes note of the mouse.  Dragging the edge of the panel sets its
    /// width.  A click on a run button asks for its command to be run.  In
    /// the text the wheel moves the view, a click moves the cursor there, a
    /// double click selects the word and a triple click the line, and
    /// dragging selects up to the mouse; with Control or Alt a click asks for
    /// the definition or the references.  `now` is the time of the event in
    /// milliseconds.
    pub fn handle_mouse(&mut self, e: MouseEvent, now: u64) -> (outcome: MouseOutcome)
        requires
            old(self).wf(),
        ensures
            final(self).wf(),
            old(self).mouse_done(e, now, *final(self), outcome),
            final(self).code == old(self).code,
            final(self).codes == old(self).codes,
            final(self).width == old(self).width,
            final(self).height == old(self).height,
    {
        self.is_lp_focused = (e.column as usize) < self.lp_width;
        match e.kind {
            MouseKind::Down => {
                if self.is_on_divider(&e) {
                    self.panel_moving = true;
                    self.upd = true;
                    return MouseOutcome::Done;
                }
            },
            MouseKind::Drag => {
                if self.panel_moving {
                    self.lp_width = drag_width(e.column, self.width);
                    self.upd = true;
                    return MouseOutcome::Done;
                }
            },
            MouseKind::Up => {
                if self.panel_moving {
                    self.panel_moving = false;
                    self.upd = true;
                    return MouseOutcome::Done;
                }
            },
            _ => {},
        }
        let line = (e.row as usize).saturating_add(self.y);
        if self.is_on_runnable_button(e.column) && self.code.is_runnable(line) {
            self.hovered_runnable_line = Some(line);
            if e.kind == MouseKind::Up {
                if let Some(runnable) = self.code.get_runnable(line) {
                    self.process.remember(runnable.cmd.as_str());
                    return MouseOutcome::Run(runnable.cmd);
                }
            }
            return MouseOutcome::Done;
        }
        self.hovered_runnable_line = None;
        if self.is_lp_focused {
            return MouseOutcome::Panel;
        }
        let area = self.editor_area();
        self.handle_mouse_editor(e, &area, now)
    }

    /// Takes note of the mouse in the text.
    pub fn handle_mouse_editor(&mut self, e: MouseEvent, area: &Rect, now: u64) -> (outcome:
        MouseOutcome)
        requires
            old(self).wf(),
        ensures
            final(self).wf(),
            old(self).mouse_in_text(e, *area, now, *final(self), outcome),
            final(self).code == old(self).code,
            final(self).codes == old(self).codes,
            final(self).width == old(self).width,
            final(self).height == old(self).height,
            final(self).lp_width == old(self).lp_width,
            final(self).is_lp_focused == old(self).is_lp_focused,
    {
        let control = e.modifiers.control && !e.modifiers.alt && !e.modifiers.shift
            && !e.modifiers.other;
        let alt = !e.modifiers.control && e.modifiers.alt && !e.modifiers.shift
            && !e.modifiers.other;
        if e.kind == MouseKind::Down && (control || alt) {
            if let Some(cursor) = self.cursor_from_mouse(e.column, e.row, area) {
                let (r, c) = self.code.point(cursor);
                self.r = r;
                self.c = c;
                return if control {
                    MouseOutcome::Definition
                } else {
                    MouseOutcome::References
                };
            }
        }
        match e.kind {
            MouseKind::ScrollUp => self.scroll_up(),
            MouseKind::ScrollDown => self.scroll_down(),
            MouseKind::Down => {
                if let Some(cursor) = self.cursor_from_mouse(e.column, e.row, area) {
                    let click_type = ClickType::from_click_history(
                        now,
                        cursor,
                        self.last_click,
                        self.last_last_click,
                    );
                    let (start, end) = match click_type {
                        ClickType::Triple => self.code.line_boundaries(cursor),
                        ClickType::Double => self.code.word_boundaries(cursor),
                        ClickType::Single => (cursor, cursor),
                    };
                    self.last_last_click = self.last_click;
                    self.last_click = Some((now, cursor));
                    let start_point = self.code.point(start);
                    let end_point = self.code.point(end);
                    self.selection.set_start(start_point.0, start_point.1);
                    self.selection.set_end(end_point.0, end_point.1);
                    self.selection.active = true;
                    self.upd = true;
                    self.r = end_point.0;
                    self.c = end_point.1;
                    self.save_cursor_to_history();
                }
            },
            MouseKind::Drag => {
                if let Some(cursor) = self.cursor_from_mouse(e.column, e.row, area) {
                    let point = self.code.point(cursor);
                    self.selection.set_end(point.0, point.1);
                    self.r = point.0;
                    self.c = point.1;
                    self.selection.active = true;
                    self.upd = true;
                }
            },
            _ => {},
        }
        MouseOutcome::Done
    }

    /// Takes note of where the cursor stands, so that it can go back there.
    /// A document without a path is not noted.
    pub fn save_cursor_to_history(&mut self)
        requires
            old(self).wf(),
        ensures
            final(self).wf(),
            old(self).noted(*final(self)),
    {
        if self.code.abs_path.as_str().is_empty() {
            return ;
        }
        let cp = crate::utils::CursorPosition {
            filename: self.code.abs_path.clone(),
            row: self.r,
            col: self.c,
            y: self.y,
            x: self.x,
        };
        self.cursor_history.push(cp);
    }
}

} // verus!
