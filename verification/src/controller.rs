//! What the editor does with commands that are not edits: searching,
//! switching between documents, going back and forth between places of the
//! cursor, and jumping to what the language server points at.

use crate::chars::same_text;
use crate::code::{place_of, Code};
use crate::editing::{above, cleared, diagnostics_at, typed, Step};
use crate::editor::{Diagnostic, Editor, LspChange};
use crate::keys::{
    command_of, panel_command_of, route_key, route_panel_key, Command, Direction, Key, Modifiers,
    PanelCommand,
};
use crate::lsp::{path_in, path_of_uri, uri_of};
use crate::rope::{rope_from_str, rope_insert_char, rope_len_chars, rope_remove, rope_substring};
use crate::search::{places, Search, SearchResult, SearchView};
use crate::selection::Selection;
use crate::text::{insert_at, line_count, occurrences, remove_range};
use crate::utils::CursorPosition;
use crate::width::{text_cells, text_width};
use vstd::prelude::*;

verus! {

/// How far a place lies from the cursor, for choosing the nearest: rows
/// count a thousand times as much as columns.
pub open spec fn distance(line: usize, column: usize, r: usize, c: usize) -> int {
    (if line >= r {
        line - r
    } else {
        r - line
    }) * 1000 + (if column >= c {
        column - c
    } else {
        c - column
    })
}

/// How far a place lies from the cursor.
pub fn distance_to(line: usize, column: usize, r: usize, c: usize) -> (d: u128)
    ensures
        d == distance(line, column, r, c),
{
    let dy = if line >= r {
        line - r
    } else {
        r - line
    };
    let dx = if column >= c {
        column - c
    } else {
        c - column
    };
    assert(dy * 1000 + dx <= u128::MAX) by (nonlinear_arith)
        requires
            dy <= usize::MAX,
            dx <= usize::MAX,
    ;
    (dy as u128) * 1000 + (dx as u128)
}

/// The index of the one among the first `n` places that lies nearest to the
/// cursor, the first of those that lie as near; 0 where there is no place.
pub open spec fn nearest(spots: Seq<(usize, usize)>, r: usize, c: usize, n: nat) -> int
    decreases n,
{
    if n <= 1 || n > spots.len() {
        0
    } else {
        let best = nearest(spots, r, c, (n - 1) as nat);
        if distance(spots[n - 1].0, spots[n - 1].1, r, c) < distance(
            spots[best].0,
            spots[best].1,
            r,
            c,
        ) {
            n - 1
        } else {
            best
        }
    }
}

/// The places at which `pattern` is found in `text`, one search starting
/// behind the match before it; none for an empty pattern.
pub open spec fn places_of(text: Seq<char>, pattern: Seq<char>) -> Seq<(usize, usize)> {
    if pattern.len() == 0 {
        Seq::empty()
    } else {
        occurrences(text, pattern, 0).map_values(|at: int| place_of(text, at))
    }
}

/// The index of the place that lies nearest to the cursor, the first of
/// those that lie as near; 0 where there is no place.
pub fn closest(results: &Vec<SearchResult>, r: usize, c: usize) -> (index: usize)
    ensures
        index == nearest(places(results@), r, c, results@.len()),
        results@.len() == 0 ==> index == 0,
        results@.len() > 0 ==> index < results@.len() && (forall|j: int|
            0 <= j < results@.len() ==> distance(
                results@[index as int].line,
                results@[index as int].column,
                r,
                c,
            ) <= distance((#[trigger] results@[j]).line, results@[j].column, r, c))
            && (forall|j: int|
            0 <= j < index ==> distance(
                results@[index as int].line,
                results@[index as int].column,
                r,
                c,
            ) < distance((#[trigger] results@[j]).line, results@[j].column, r, c)),
{
    if results.len() == 0 {
        return 0;
    }
    let mut best: usize = 0;
    let mut best_d = distance_to(results[0].line, results[0].column, r, c);
    let mut i: usize = 1;
    while i < results.len()
        invariant
            1 <= i <= results@.len(),
            best < i,
            best == nearest(places(results@), r, c, i as nat),
            best_d == distance(results@[best as int].line, results@[best as int].column, r, c),
            forall|j: int|
                0 <= j < i ==> best_d <= distance(
                    (#[trigger] results@[j]).line,
                    results@[j].column,
                    r,
                    c,
                ),
            forall|j: int|
                0 <= j < best ==> best_d < distance(
                    (#[trigger] results@[j]).line,
                    results@[j].column,
                    r,
                    c,
                ),
        decreases results@.len() - i,
    {
        let d = distance_to(results[i].line, results[i].column, r, c);
        if d < best_d {
            best = i;
            best_d = d;
        }
        i += 1;
    }
    best
}

/// What a key does to the search line.
#[derive(Clone, Copy, Debug, PartialEq, Eq, Structural)]
pub enum SearchStep {
    /// The search goes on.
    Continue,
    /// The search goes on in all files.
    Global,
    /// The search ends.
    End,
}

/// Where the cursor stood and what was selected when a search or a list
/// began, to go back to.
pub struct SavedView {
    pub r: usize,
    pub c: usize,
    pub y: usize,
    pub x: usize,
    pub selection: Selection,
    pub path: String,
}

/// What has to be done to get somewhere.
#[derive(Debug)]
pub enum Jump {
    /// The cursor is there.
    Done,
    /// The file at this path has to be read and put in view first.
    NeedsFile(String),
    /// There is no such place.
    Nowhere,
}

impl Editor {
    /// The search line once `pattern` was looked for in the document: with
    /// the places at which it is found, and the one shown that lies nearest
    /// to the cursor.
    pub open spec fn searched_for(self, pattern: Seq<char>, cursor_pos: usize) -> SearchView {
        let spots = places_of(self.code.chars(), pattern);
        SearchView {
            active: self.search.active,
            pattern,
            places: spots,
            index: nearest(spots, self.r, self.c, spots.len()) as usize,
            cursor_pos,
        }
    }

    /// Finds the places of the search pattern in the document anew and
    /// chooses the one that lies nearest to the cursor.  An empty pattern is
    /// found nowhere.
    pub fn update_search_results(&mut self)
        ensures
            final(self).search@ == old(self).searched_for(
                old(self).search.pattern_chars(),
                old(self).search.cursor_pos,
            ),
            final(self).search.pattern == old(self).search.pattern,
            *final(self) == (Editor { search: final(self).search, ..*old(self) }),
    {
        let len = rope_len_chars(&self.search.pattern);
        if len > 0 {
            let pattern = rope_substring(&self.search.pattern, 0, len);
            let found = self.code.search(pattern.as_str());
            let mut results: Vec<SearchResult> = Vec::new();
            let mut i: usize = 0;
            while i < found.len()
                invariant
                    i <= found@.len(),
                    results@.len() == i,
                    forall|j: int|
                        0 <= j < i ==> ((#[trigger] results@[j]).line, results@[j].column)
                            == found@[j],
                decreases found@.len() - i,
            {
                results.push(SearchResult { line: found[i].0, column: found[i].1, preview: None });
                i += 1;
            }
            let index = closest(&results, self.r, self.c);
            proof {
                assert(pattern@ =~= self.search.pattern_chars());
                let occ = occurrences(self.code.chars(), self.search.pattern_chars(), 0);
                assert(found@.len() == occ.len());
                assert forall|j: int| 0 <= j < occ.len() implies ((#[trigger] results@[j]).line,
                    results@[j].column) == place_of(self.code.chars(), occ[j]) by {
                    assert(found@[j] == place_of(self.code.chars(), occ[j]));
                }
            }
            proof {
                assert(places(results@) =~= places_of(
                    self.code.chars(),
                    self.search.pattern_chars(),
                ));
            }
            self.search.results = results;
            self.search.index = index;
        } else {
            self.search.results = Vec::new();
            self.search.index = 0;
            assert(places(self.search.results@) =~= Seq::<(usize, usize)>::empty());
        }
    }

    /// What the view is when a search or a list begins.
    pub fn save_view(&self) -> (saved: SavedView)
        ensures
            saved.r == self.r,
            saved.c == self.c,
            saved.y == self.y,
            saved.x == self.x,
            saved.selection == self.selection,
            saved.path@ == self.code.abs_path@,
    {
        SavedView {
            r: self.r,
            c: self.c,
            y: self.y,
            x: self.x,
            selection: self.selection,
            path: self.code.abs_path.clone(),
        }
    }

    /// The pattern that a search starts with: what is selected, where a
    /// selection is shown that can be cut; else the pattern of the search
    /// before.
    pub open spec fn first_pattern(self) -> Seq<char> {
        if self.selection.shown() && self.can_cut() {
            self.selected()
        } else {
            self.search.pattern_chars()
        }
    }

    /// Starts a search in the document.  What is selected becomes the
    /// pattern; without a selection the pattern of the search before is
    /// taken up.  Returns whether there is a pattern to show the places of.
    pub fn start_search(&mut self) -> (changed: bool)
        requires
            old(self).wf(),
        ensures
            final(self).wf(),
            *final(self) == (Editor { search: final(self).search, ..*old(self) }),
            changed == (old(self).first_pattern().len() > 0 || (old(self).selection.shown()
                && old(self).can_cut())),
            final(self).search@ == if changed {
                SearchView {
                    active: true,
                    ..old(self).searched_for(
                        old(self).first_pattern(),
                        old(self).first_pattern().len() as usize,
                    )
                }
            } else {
                SearchView { active: true, ..old(self).search@ }
            },
    {
        self.search.active = true;
        if self.selection.non_empty_and_active() {
            if let Some(selected) = self.selected_text() {
                self.search.pattern = rope_from_str(selected.as_str());
                self.search.cursor_pos = rope_len_chars(&self.search.pattern);
                self.update_search_results();
                return true;
            }
        }
        if rope_len_chars(&self.search.pattern) > 0 {
            self.search.cursor_pos = rope_len_chars(&self.search.pattern);
            self.update_search_results();
            return true;
        }
        false
    }

    /// The editor showing the place of the pattern that is chosen: the
    /// cursor behind it, the view moved so that the cursor is in it and not
    /// on its last row, and the place selected.  Where the pattern is found
    /// nowhere the selection is hidden; nothing is shown for an empty
    /// pattern.
    pub open spec fn at_result(self) -> Editor {
        let s = self.search@;
        let spot = s.places[s.index as int];
        let to = above(spot.1 + text_cells(s.pattern));
        let there = (Editor { r: spot.0, c: to, ..self }).focused();
        if s.pattern.len() == 0 {
            self
        } else if s.places.len() == 0 {
            Editor { selection: Selection { active: false, ..self.selection }, upd: true, ..self }
        } else if s.index >= s.places.len() {
            self
        } else {
            Editor {
                y: if there.height > 0 && there.r >= there.y && there.r - there.y == there.height
                    - 1 && there.y < usize::MAX {
                    (there.y + 1) as usize
                } else {
                    there.y
                },
                selection: Selection {
                    start: crate::selection::Point::at(spot.0, spot.1),
                    end: crate::selection::Point::at(spot.0, to),
                    active: true,
                    ..there.selection
                },
                upd: true,
                ..there
            }
        }
    }

    /// Shows the place of the pattern that is chosen: the cursor goes behind
    /// it, the view follows, and the place is selected.  Where the pattern is
    /// found nowhere the selection is hidden.
    pub fn show_search_result(&mut self)
        ensures
            *final(self) == old(self).at_result(),
    {
        let len = rope_len_chars(&self.search.pattern);
        if len == 0 {
            return ;
        }
        if self.search.results.len() == 0 {
            self.selection.active = false;
            self.upd = true;
            return ;
        }
        if self.search.index >= self.search.results.len() {
            return ;
        }
        let pattern = rope_substring(&self.search.pattern, 0, len);
        assert(pattern@ =~= self.search.pattern_chars());
        let w = text_width(pattern.as_str());
        let sy = self.search.results[self.search.index].line;
        let sx = self.search.results[self.search.index].column;
        self.r = sy;
        self.c = sx.saturating_add(w);
        self.focus();
        if self.height > 0 && self.r >= self.y && self.r - self.y == self.height - 1
            && self.y < usize::MAX {
            self.y += 1;
        }
        self.selection.active = true;
        self.selection.set_start(sy, sx);
        self.selection.set_end(sy, sx.saturating_add(w));
        self.upd = true;
    }

    /// Ends a search with Escape: the cursor and the selection are as they
    /// were when it began.
    pub fn cancel_search(&mut self, saved: &SavedView)
        ensures
            *final(self) == (Editor {
                r: saved.r,
                c: saved.c,
                selection: saved.selection,
                upd: true,
                search: final(self).search,
                ..*old(self)
            }),
            final(self).search == (Search { active: false, ..old(self).search }),
    {
        self.r = saved.r;
        self.c = saved.c;
        self.selection = saved.selection;
        self.upd = true;
        self.search.active = false;
    }

    /// Ends a search.
    pub fn end_search(&mut self)
        ensures
            *final(self) == (Editor { upd: true, search: final(self).search, ..*old(self) }),
            final(self).search == (Search { active: false, ..old(self).search }),
    {
        self.upd = true;
        self.search.active = false;
    }

    /// The search line after `text` was put into the pattern at its cursor
    /// and the pattern looked for anew.  Nothing is put in where the cursor
    /// lies behind the pattern.
    pub open spec fn search_with(self, text: Seq<char>) -> SearchView {
        let s = self.search@;
        if s.cursor_pos <= s.pattern.len() {
            self.searched_for(
                insert_at(s.pattern, s.cursor_pos as int, text),
                (s.cursor_pos + text.len()) as usize,
            )
        } else {
            s
        }
    }

    /// The search line after a key.  Control and `v` puts what was copied
    /// into the pattern.  Up and Down choose the place before and the next
    /// one, going round.  Left and Right move the cursor in the pattern.
    /// Backspace removes the character before the cursor and a character
    /// is put in at the cursor, and the pattern is then looked for anew.
    pub open spec fn search_after(
        self,
        key: Key,
        m: Modifiers,
        pasted: Option<Seq<char>>,
    ) -> SearchView {
        let s = self.search@;
        if m.only_control() && key == Key::Char('v') {
            match pasted {
                Some(text) => self.search_with(text),
                None => s,
            }
        } else if m.only_control() && key == Key::Char('g') {
            s
        } else {
            match key {
                Key::Up => SearchView {
                    index: if s.index > 0 {
                        (s.index - 1) as usize
                    } else if s.places.len() > 0 {
                        (s.places.len() - 1) as usize
                    } else {
                        s.index
                    },
                    ..s
                },
                Key::Down => SearchView {
                    index: if s.index + 1 >= s.places.len() {
                        0
                    } else {
                        (s.index + 1) as usize
                    },
                    ..s
                },
                Key::Left => SearchView {
                    cursor_pos: if s.cursor_pos > 0 {
                        (s.cursor_pos - 1) as usize
                    } else {
                        0
                    },
                    ..s
                },
                Key::Right => SearchView {
                    cursor_pos: if s.cursor_pos < s.pattern.len() {
                        (s.cursor_pos + 1) as usize
                    } else {
                        s.cursor_pos
                    },
                    ..s
                },
                Key::Backspace => if 0 < s.cursor_pos <= s.pattern.len() {
                    self.searched_for(
                        remove_range(s.pattern, s.cursor_pos - 1, s.cursor_pos as int),
                        (s.cursor_pos - 1) as usize,
                    )
                } else {
                    s
                },
                Key::Char(ch) => self.search_with(seq![ch]),
                _ => s,
            }
        }
    }

    /// What a key of the search line changes besides the search line: the
    /// editor is painted anew after Up, Down, and Enter in an editor without
    /// a file, and the rows that popups took are given back where the
    /// search goes on in all files.
    pub open spec fn search_frame(self, key: Key, m: Modifiers, after: Editor) -> bool {
        let chosen = !(m.only_control() && (key == Key::Char('v') || key == Key::Char('g')));
        let global = search_step_of(key, m, self.code.file_name@.len() == 0) is Global;
        &&& after == (Editor {
            search: after.search,
            overlay_lines: after.overlay_lines,
            upd: self.upd || (chosen && (key == Key::Up || key == Key::Down || (key == Key::Enter
                && global))),
            ..self
        })
        &&& after.overlay_lines@ == if global {
            Seq::empty()
        } else {
            self.overlay_lines@
        }
    }

    /// Puts `text` into the search pattern at its cursor.
    pub fn search_insert(&mut self, text: &str)
        ensures
            final(self).search@ == old(self).search_with(text@),
            *final(self) == (Editor { search: final(self).search, ..*old(self) }),
    {
        let len = rope_len_chars(&self.search.pattern);
        if self.search.cursor_pos > len {
            return ;
        }
        crate::rope::rope_insert(&mut self.search.pattern, self.search.cursor_pos, text);
        let new_len = rope_len_chars(&self.search.pattern);
        self.search.cursor_pos = self.search.cursor_pos + (new_len - len);
        self.update_search_results();
    }

    /// What a key does to the search line.  The cursor keys choose the
    /// place before or the next one, going round, and move the cursor in the
    /// pattern; characters are typed into the pattern and Backspace removes
    /// the one before the cursor; Control and `v` puts in what was copied,
    /// which is `pasted`; Control and `g`, and Enter in an editor without a
    /// file, go on to search in all files; Enter and Escape end the search.
    pub fn handle_search_event(&mut self, key: Key, m: Modifiers, pasted: Option<&str>) -> (step:
        SearchStep)
        ensures
            step == search_step_of(key, m, old(self).code.file_name@.len() == 0),
            final(self).search@ == old(self).search_after(
                key,
                m,
                match pasted {
                    Some(text) => Some(text@),
                    None => None,
                },
            ),
            old(self).search_frame(key, m, *final(self)),
    {
        let only_control = m.control && !m.alt && !m.shift && !m.other;
        if only_control {
            if let Key::Char('v') = key {
                if let Some(text) = pasted {
                    self.search_insert(text);
                }
                return SearchStep::Continue;
            }
            if let Key::Char('g') = key {
                self.overlay_lines = Vec::new();
                return SearchStep::Global;
            }
        }
        match key {
            Key::Up => {
                if self.search.index > 0 {
                    self.search.index -= 1;
                } else if self.search.results.len() > 0 {
                    self.search.index = self.search.results.len() - 1;
                }
                self.upd = true;
                SearchStep::Continue
            },
            Key::Down => {
                if self.search.index >= self.search.results.len() || self.search.index + 1
                    >= self.search.results.len() {
                    self.search.index = 0;
                } else {
                    self.search.index += 1;
                }
                self.upd = true;
                SearchStep::Continue
            },
            Key::Left => {
                if self.search.cursor_pos > 0 {
                    self.search.cursor_pos -= 1;
                }
                SearchStep::Continue
            },
            Key::Right => {
                if self.search.cursor_pos < rope_len_chars(&self.search.pattern) {
                    self.search.cursor_pos += 1;
                }
                SearchStep::Continue
            },
            Key::Enter => {
                if self.code.file_name.as_str().is_empty() {
                    self.overlay_lines = Vec::new();
                    self.upd = true;
                    SearchStep::Global
                } else {
                    SearchStep::End
                }
            },
            Key::Esc => SearchStep::End,
            Key::Backspace => {
                let len = rope_len_chars(&self.search.pattern);
                if self.search.cursor_pos > 0 && self.search.cursor_pos <= len {
                    self.search.cursor_pos -= 1;
                    rope_remove(
                        &mut self.search.pattern,
                        self.search.cursor_pos,
                        self.search.cursor_pos + 1,
                    );
                    self.update_search_results();
                }
                SearchStep::Continue
            },
            Key::Char(ch) => {
                let len = rope_len_chars(&self.search.pattern);
                if self.search.cursor_pos <= len {
                    rope_insert_char(&mut self.search.pattern, self.search.cursor_pos, ch);
                    // Taken for its bound: the number of characters fits in `usize`.
                    let new_len = rope_len_chars(&self.search.pattern);
                    self.search.cursor_pos += 1;
                    self.update_search_results();
                }
                SearchStep::Continue
            },
            _ => SearchStep::Continue,
        }
    }
}

/// Whether a key ends the search, hands it on to the search in all files, or
/// lets it go on.  `unnamed` tells that the document in view has no name.
pub open spec fn search_step_of(key: Key, m: Modifiers, unnamed: bool) -> SearchStep {
    if m.only_control() && key == Key::Char('v') {
        SearchStep::Continue
    } else if m.only_control() && key == Key::Char('g') {
        SearchStep::Global
    } else {
        match key {
            Key::Enter => if unnamed {
                SearchStep::Global
            } else {
                SearchStep::End
            },
            Key::Esc => SearchStep::End,
            _ => SearchStep::Continue,
        }
    }
}

/// The index of the first document at or behind `i` whose path is `path`.
pub open spec fn code_at(codes: Seq<Code>, path: Seq<char>, i: int) -> Option<int>
    decreases codes.len() - i,
{
    if i < 0 || i >= codes.len() {
        None
    } else if codes[i].abs_path@ == path {
        Some(i)
    } else {
        code_at(codes, path, i + 1)
    }
}

/// The index of the first document whose path is `path`.
pub fn find_code(codes: &Vec<Code>, path: &str) -> (at: Option<usize>)
    ensures
        (match at {
            Some(i) => Some(i as int),
            None => None,
        }) == code_at(codes@, path@, 0),
        at matches Some(i) ==> i < codes@.len() && codes@[i as int].abs_path@ == path@,
{
    let mut i: usize = 0;
    while i < codes.len()
        invariant
            i <= codes@.len(),
            code_at(codes@, path@, i as int) == code_at(codes@, path@, 0),
        decreases codes@.len() - i,
    {
        if same_text(codes[i].abs_path.as_str(), path) {
            return Some(i);
        }
        i += 1;
    }
    None
}

impl Editor {
    /// Whether the document at `path` is open behind the one in view.
    pub fn is_open(&self, path: &str) -> (open: bool)
        ensures
            open == (code_at(self.codes@, path@, 0) is Some),
    {
        find_code(&self.codes, path).is_some()
    }

    /// The document in view as it is kept behind another one: with the
    /// cursor and the view that it has.
    pub open spec fn parked(self) -> Code {
        Code { r: self.r, c: self.c, y: self.y, x: self.x, ..self.code }
    }

    /// The editor with document `i` of those behind in view, with the cursor
    /// and the view that it was left with, and `codes` behind it.
    pub open spec fn showing(self, i: int, codes: Vec<Code>) -> Editor {
        Editor {
            code: self.codes@[i],
            codes,
            r: self.codes@[i].r,
            c: self.codes@[i].c,
            y: self.codes@[i].y,
            x: self.codes@[i].x,
            ..self
        }
    }

    /// `after` has document `i` of those behind in view and the document
    /// that was in view last among those behind.
    pub open spec fn brings(self, i: int, after: Editor) -> bool {
        &&& after == self.showing(i, after.codes)
        &&& after.codes@ == self.codes@.remove(i).push(self.parked())
    }

    /// `after` has the fresh document `code` in view, with the cursor at its
    /// start, nothing selected and no colours kept, and the document that
    /// was in view last among those behind.
    pub open spec fn takes(self, code: Code, after: Editor) -> bool {
        &&& after == (Editor {
            code,
            codes: after.codes,
            r: 0,
            c: 0,
            y: 0,
            x: 0,
            selection: cleared(self.selection),
            highlights_cache: after.highlights_cache,
            ..self
        })
        &&& after.codes@ == self.codes@.push(self.parked())
        &&& after.highlights_cache@.len() == 0
    }

    /// Puts a document in view and the one that was in view behind it, with
    /// the cursor that it had.  A document that is open behind comes in view
    /// with the cursor that it was left with, and `fresh` is not looked at;
    /// else `fresh`, which was read from the file at `path`, comes in view,
    /// with the cursor at its start.  Nothing is done where the document is
    /// not open and there is no fresh one.  Returns whether the document in
    /// view is a fresh one, of which the language server has to be told.
    pub fn open_file(&mut self, path: &str, fresh: Option<Code>) -> (opened: bool)
        requires
            old(self).wf(),
            fresh matches Some(code) ==> code.wf(),
        ensures
            final(self).wf(),
            match code_at(old(self).codes@, path@, 0) {
                Some(i) => !opened && old(self).brings(i, *final(self)),
                None => match fresh {
                    Some(code) => opened && old(self).takes(code, *final(self)),
                    None => !opened && *final(self) == *old(self),
                },
            },
    {
        match find_code(&self.codes, path) {
            Some(i) => {
                let mut code = self.codes.remove(i);
                let (r, c, y, x) = code.get_cursor_position();
                self.code.set_cursor_position(self.r, self.c, self.y, self.x);
                let mut oldcode = code;
                std::mem::swap(&mut self.code, &mut oldcode);
                self.codes.push(oldcode);
                self.r = r;
                self.c = c;
                self.y = y;
                self.x = x;
                false
            },
            None => {
                let code = match fresh {
                    Some(code) => code,
                    None => {
                        return false;
                    },
                };
                self.code.set_cursor_position(self.r, self.c, self.y, self.x);
                let mut current = code;
                std::mem::swap(&mut self.code, &mut current);
                self.codes.push(current);
                self.r = 0;
                self.c = 0;
                self.y = 0;
                self.x = 0;
                self.selection.clean();
                self.reset_highlight_cache();
                true
            },
        }
    }

    /// The editor with the cursor and the view where they were at a place
    /// of the cursor's history, the cursor brought into the text.
    pub open spec fn restored(self, place: CursorPosition) -> Editor {
        (Editor {
            r: place.row,
            c: place.col,
            y: place.y,
            x: place.x,
            upd: true,
            ..self
        }).fitted().focused()
    }

    /// `after` is this editor gone to a place of the cursor's history: in
    /// the document in view, or in the one behind it that the place lies
    /// in, which comes in view.  Nothing changes for a place in a document
    /// that is not open.
    pub open spec fn went_to(self, place: CursorPosition, after: Editor) -> bool {
        if place.filename@ == self.code.abs_path@ {
            after == self.restored(place)
        } else {
            match code_at(self.codes@, place.filename@, 0) {
                Some(i) => after == self.showing(i, after.codes).restored(place) && after.codes@
                    == self.codes@.remove(i).push(self.parked()),
                None => after == self,
            }
        }
    }

    /// The editor with the history of places that `after` has.
    pub open spec fn with_history(self, after: Editor) -> Editor {
        Editor { cursor_history: after.cursor_history, ..self }
    }

    /// Puts the cursor and the view where they were at a place of the
    /// cursor's history, in the document in view.
    pub fn restore_cursor(&mut self, place: &CursorPosition)
        ensures
            *final(self) == old(self).restored(*place),
    {
        self.r = place.row;
        self.c = place.col;
        self.y = place.y;
        self.x = place.x;
        self.upd = true;
        self.fit_cursor();
        self.focus();
    }

    /// The cursor stands at `place`: in its document, on its row and in its
    /// column.
    pub open spec fn stands_at(self, place: CursorPosition) -> bool {
        place.row == self.r && place.col == self.c && place.filename@ == self.code.abs_path@
    }

    /// How many places back going back has to look: past the place that was
    /// reached last where the cursor stands there, and then one more, as far
    /// as there are places.
    pub open spec fn steps_back(self) -> nat {
        let h = self.cursor_history@;
        let skipped = if h.index > 0 && self.stands_at(h.positions[h.index - 1]) {
            (h.index - 1) as nat
        } else {
            h.index
        };
        skipped
    }

    /// Where the history stands after going back.
    pub open spec fn back_index(self) -> nat {
        if self.steps_back() > 0 {
            (self.steps_back() - 1) as nat
        } else {
            0
        }
    }

    /// Where the history stands once going forward has passed the next
    /// place where the cursor stands there.
    pub open spec fn skipped_forth(self) -> nat {
        let h = self.cursor_history@;
        if h.index < h.positions.len() && self.stands_at(h.positions[h.index as int]) {
            h.index + 1
        } else {
            h.index
        }
    }

    /// Where the history stands after going forward.
    pub open spec fn forth_index(self) -> nat {
        if self.skipped_forth() < self.cursor_history@.positions.len() {
            self.skipped_forth() + 1
        } else {
            self.skipped_forth()
        }
    }

    /// What is handed back for a place of the history: the place, where its
    /// document is not open; else nothing.
    pub open spec fn asked_for(self, place: CursorPosition) -> Option<CursorPosition> {
        if place.filename@ != self.code.abs_path@ && code_at(self.codes@, place.filename@, 0)
            is None {
            Some(place)
        } else {
            None
        }
    }

    /// `after` is this editor gone back in the history of the cursor, and
    /// `jump` what is handed back.  The history goes past the place that was
    /// reached last where the cursor stands there, and then one place back;
    /// the cursor goes to that place.
    pub open spec fn went_back(self, after: Editor, jump: Option<CursorPosition>) -> bool {
        let place = self.cursor_history@.positions[self.back_index() as int];
        &&& after.cursor_history@.positions == self.cursor_history@.positions
        &&& after.cursor_history@.index == self.back_index()
        &&& if self.steps_back() == 0 {
            jump is None && after == self.with_history(after)
        } else {
            self.with_history(after).went_to(place, after) && jump == self.asked_for(place)
        }
    }

    /// `after` is this editor gone forward in the history of the cursor,
    /// and `jump` what is handed back.  The history goes past the next place
    /// where the cursor stands there, and then one place forward; the cursor
    /// goes to that place.
    pub open spec fn went_forth(self, after: Editor, jump: Option<CursorPosition>) -> bool {
        let place = self.cursor_history@.positions[self.skipped_forth() as int];
        &&& after.cursor_history@.positions == self.cursor_history@.positions
        &&& after.cursor_history@.index == self.forth_index()
        &&& if self.forth_index() == self.skipped_forth() {
            jump is None && after == self.with_history(after)
        } else {
            self.with_history(after).went_to(place, after) && jump == self.asked_for(place)
        }
    }

    /// Goes back in the history of the cursor: to the place before the one
    /// where the cursor stands.  Where that lies in a document that is not
    /// open, the place is returned, for the file to be read and the cursor
    /// to be put there.
    pub fn undo_cursor(&mut self) -> (jump: Option<CursorPosition>)
        requires
            old(self).wf(),
        ensures
            final(self).wf(),
            old(self).went_back(*final(self), jump),
    {
        let here = match self.cursor_history.current() {
            Some(prev) => prev.row == self.r && prev.col == self.c && same_text(
                prev.filename.as_str(),
                self.code.abs_path.as_str(),
            ),
            None => false,
        };
        if here {
            let _ = self.cursor_history.undo();
        }
        match self.cursor_history.undo() {
            Some(place) => self.go_to_place(place),
            None => None,
        }
    }

    /// Goes forward in the history of the cursor.
    pub fn redo_cursor(&mut self) -> (jump: Option<CursorPosition>)
        requires
            old(self).wf(),
        ensures
            final(self).wf(),
            old(self).went_forth(*final(self), jump),
    {
        let here = match self.cursor_history.peek_redo() {
            Some(next) => next.row == self.r && next.col == self.c && same_text(
                next.filename.as_str(),
                self.code.abs_path.as_str(),
            ),
            None => false,
        };
        if here {
            let _ = self.cursor_history.redo();
        }
        match self.cursor_history.redo() {
            Some(place) => self.go_to_place(place),
            None => None,
        }
    }

    /// Puts the cursor at a place of its history, in the document in view
    /// or in one that is open behind it.  A place in a document that is not
    /// open is returned.
    pub fn go_to_place(&mut self, place: CursorPosition) -> (jump: Option<CursorPosition>)
        requires
            old(self).wf(),
        ensures
            final(self).wf(),
            old(self).went_to(place, *final(self)),
            jump == old(self).asked_for(place),
    {
        if !same_text(place.filename.as_str(), self.code.abs_path.as_str()) {
            if !self.is_open(place.filename.as_str()) {
                return Some(place);
            }
            let _ = self.open_file(place.filename.as_str(), None);
        }
        self.restore_cursor(&place);
        None
    }

    /// The editor with another history of places.
    pub open spec fn with_places(self, history: crate::utils::CursorHistory) -> Editor {
        Editor { cursor_history: history, ..self }
    }

    /// What going to a place in a document that is open does, `noted` being
    /// the history of places once the place that the cursor leaves was
    /// noted.  The document of the place comes in view where it is behind.
    /// The cursor goes to the place, the view follows, and the place is
    /// noted too.  A place below the document or behind its row is not gone
    /// to.
    pub open spec fn left_for(
        self,
        noted: crate::utils::CursorHistory,
        uri: Seq<char>,
        line: usize,
        character: usize,
        after: Editor,
        jump: Jump,
    ) -> bool {
        let here = uri == self.uri();
        let behind = code_at(self.codes@, path_in(uri)->0, 0);
        let first = self.with_places(noted);
        let there = if here {
            first
        } else {
            first.showing(behind->0, after.codes)
        };
        let text = there.code.chars();
        let at = (Editor { r: line, c: character, ..there }).focused();
        &&& self.noted(first)
        &&& !here ==> after.codes@ == self.codes@.remove(behind->0).push(self.parked())
        &&& if line >= line_count(text) || character > crate::text::line_width(
            text,
            line as int,
        ) {
            jump is Nowhere && after == there
        } else {
            jump is Done && at.noted(at.with_places(after.cursor_history)) && after == (Editor {
                upd: true,
                ..at.with_places(after.cursor_history)
            })
        }
    }

    /// What going to a place that the language server points at does, the
    /// editor being `after` then and `jump` handed back.  For a place in a
    /// document that is not open the path of its file is handed back and
    /// nothing changes; nor does anything change where the address names no
    /// file.  Else the place is gone to as `left_for` says.
    pub open spec fn jumped(
        self,
        uri: Seq<char>,
        line: usize,
        character: usize,
        after: Editor,
        jump: Jump,
    ) -> bool {
        let here = uri == self.uri();
        let path = path_in(uri);
        if !here && path is None {
            jump is Nowhere && after == self
        } else if !here && code_at(self.codes@, path->0, 0) is None {
            jump matches Jump::NeedsFile(p) && p@ == path->0 && after == self
        } else {
            exists|noted: crate::utils::CursorHistory| #[trigger]
                self.left_for(noted, uri, line, character, after, jump)
        }
    }

    /// Puts the cursor where the language server points: at a line and a
    /// character of the document at an address.  The place is noted in the
    /// history of the cursor, and the place that the cursor leaves too.  For
    /// a document that is not open the path is returned, for the file to be
    /// read first.  A place below the document, or behind its line, is not
    /// gone to.
    pub fn jump_to(&mut self, uri: &str, line: usize, character: usize) -> (jump: Jump)
        requires
            old(self).wf(),
        ensures
            final(self).wf(),
            old(self).jumped(uri@, line, character, *final(self), jump),
    {
        let here = uri_of(self.code.abs_path.as_str());
        let ghost mut noted = self.cursor_history;
        if !same_text(uri, here.as_str()) {
            let path = match path_of_uri(uri) {
                Some(path) => path,
                None => {
                    return Jump::Nowhere;
                },
            };
            if !self.is_open(path.as_str()) {
                return Jump::NeedsFile(path);
            }
            self.save_cursor_to_history();
            proof {
                noted = self.cursor_history;
            }
            let _ = self.open_file(path.as_str(), None);
        } else {
            self.save_cursor_to_history();
            proof {
                noted = self.cursor_history;
            }
        }
        let lines = self.code.len_lines();
        if line >= lines || character > self.code.line_len(line) {
            assert(old(self).left_for(noted, uri@, line, character, *self, Jump::Nowhere));
            return Jump::Nowhere;
        }
        self.r = line;
        self.c = character;
        self.focus();
        self.save_cursor_to_history();
        self.upd = true;
        assert(old(self).left_for(noted, uri@, line, character, *self, Jump::Done));
        Jump::Done
    }

    /// The rows of the screen that a list at its bottom takes: those of its
    /// `shown` entries, one above them and one below.
    pub open spec fn list_rows(height: usize, shown: usize) -> Seq<usize> {
        let first = if height >= shown + 1 {
            (height - shown - 1) as usize
        } else {
            0
        };
        Seq::new((height - first + 1) as nat, |i: int| (first + i) as usize)
    }

    /// Keeps the rows of a list at the bottom of the screen free of text.
    pub fn reserve_list_rows(&mut self, shown: usize)
        requires
            old(self).height < usize::MAX,
        ensures
            final(self).overlay_lines@ == old(self).overlay_lines@ + Self::list_rows(
                old(self).height,
                shown,
            ),
            *final(self) == (Editor { overlay_lines: final(self).overlay_lines, ..*old(self) }),
    {
        let first = if self.height > shown {
            self.height - shown - 1
        } else {
            0
        };
        let ghost before = self.overlay_lines@;
        let mut i = first;
        while i <= self.height
            invariant
                first <= i <= self.height + 1,
                self.height < usize::MAX,
                *self == (Editor { overlay_lines: self.overlay_lines, ..*old(self) }),
                self.overlay_lines@ == before + Seq::new(
                    (i - first) as nat,
                    |k: int| (first + k) as usize,
                ),
            decreases self.height + 1 - i,
        {
            self.overlay_lines.push(i);
            i += 1;
            assert(self.overlay_lines@ =~= before + Seq::new(
                (i - first) as nat,
                |k: int| (first + k) as usize,
            ));
        }
    }

    /// Gives the rows that popups took back to the text.
    pub fn clear_overlay(&mut self)
        ensures
            final(self).overlay_lines@.len() == 0,
            *final(self) == (Editor { overlay_lines: final(self).overlay_lines, ..*old(self) }),
    {
        self.overlay_lines = Vec::new();
    }

    /// The editor showing an entry of a list of places: the cursor at its
    /// start, in the middle of the view, and the place selected.
    pub open spec fn previewing(
        self,
        line: usize,
        character: usize,
        end_line: usize,
        end_character: usize,
    ) -> Editor {
        let there = (Editor { r: line, c: character, ..self }).focused().centred_view();
        Editor {
            selection: Selection {
                start: crate::selection::Point::at(line, character),
                end: crate::selection::Point::at(end_line, end_character),
                active: true,
                ..there.selection
            },
            ..there
        }
    }

    /// The editor with the view that it had when a list began: the cursor
    /// and the view where they were, nothing selected.
    pub open spec fn back_at(self, saved: SavedView) -> Editor {
        let there = (Editor { r: saved.r, c: saved.c, y: saved.y, x: saved.x, ..self }).focused();
        Editor { selection: cleared(there.selection), upd: true, ..there }
    }

    /// Shows an entry of a list of places: the cursor goes to its start, in
    /// the middle of the view, and the place is selected.
    pub fn preview_place(
        &mut self,
        line: usize,
        character: usize,
        end_line: usize,
        end_character: usize,
    )
        ensures
            *final(self) == old(self).previewing(line, character, end_line, end_character),
    {
        self.r = line;
        self.c = character;
        self.focus();
        self.focus_to_center();
        self.selection.set_start(line, character);
        self.selection.set_end(end_line, end_character);
        self.selection.activate();
    }

    /// Takes the view back to what it was when a list began, in the same
    /// document.
    pub fn restore_view(&mut self, saved: &SavedView)
        ensures
            *final(self) == (Editor {
                overlay_lines: final(self).overlay_lines,
                ..old(self).back_at(*saved)
            }),
            final(self).overlay_lines@.len() == 0,
    {
        self.r = saved.r;
        self.c = saved.c;
        self.y = saved.y;
        self.x = saved.x;
        self.focus();
        self.selection.clean();
        self.upd = true;
        self.overlay_lines = Vec::new();
    }
}

/// What is left to do after the editor took a key.
#[derive(Debug)]
pub enum KeyOutcome {
    /// Nothing but, maybe, painting.
    Done,
    /// The editor ends.
    Quit,
    /// The document changed: the language server is told these changes.
    Changed(Vec<LspChange>),
    /// The document is to be written to its file, where it has changes.
    Save(bool),
    /// This text is to be put on the clipboard.
    Copy(Option<String>),
    /// This text is to be put on the clipboard; it was cut, and the
    /// language server is told these changes.
    Cut(Option<String>, Vec<LspChange>),
    /// What the clipboard holds is to be pasted.
    Paste,
    /// The search line is to be opened.
    Search,
    /// The language server is to be asked for the references.
    References,
    /// The language server is to be asked for the definition.
    Definition,
    /// The list of errors is to be opened.
    Errors,
    /// The language server is to be asked for the hover text.
    Hover,
    /// The language server is to be asked for completions.
    Completion,
    /// The cursor is to go to this place, in a file that has to be read.
    Place(CursorPosition),
    /// The key is for the file panel.
    Panel(PanelCommand),
}

/// What kind of outcome a command has.
pub open spec fn asks_for(command: Command) -> int {
    match command {
        Command::Quit => 1,
        Command::Save => 2,
        Command::Copy => 3,
        Command::Cut => 4,
        Command::Paste => 5,
        Command::Search => 6,
        Command::References => 7,
        Command::Definition => 8,
        Command::Errors => 9,
        Command::Hover => 10,
        Command::Completion => 11,
        _ => 0,
    }
}

/// The kind of an outcome.
pub open spec fn kind_of_outcome(outcome: KeyOutcome) -> int {
    match outcome {
        KeyOutcome::Quit => 1,
        KeyOutcome::Save(_) => 2,
        KeyOutcome::Copy(_) => 3,
        KeyOutcome::Cut(_, _) => 4,
        KeyOutcome::Paste => 5,
        KeyOutcome::Search => 6,
        KeyOutcome::References => 7,
        KeyOutcome::Definition => 8,
        KeyOutcome::Errors => 9,
        KeyOutcome::Hover => 10,
        KeyOutcome::Completion => 11,
        _ => 0,
    }
}

impl Editor {
    /// The editor with the cursor one step on in a direction.
    #[verifier::opaque]
    pub open spec fn moved_by(self, direction: Direction) -> Editor {
        match direction {
            Direction::Up => self.gone_up(),
            Direction::Down => self.gone_down(),
            Direction::Left => self.gone_left(),
            Direction::Right => self.gone_right(),
        }
    }

    /// The editor without a selection, where one was shown.
    #[verifier::opaque]
    pub open spec fn unselected(self) -> Editor {
        if self.selection.shown() {
            Editor {
                selection: Selection { keep_once: false, ..cleared(self.selection) },
                upd: true,
                ..self
            }
        } else {
            self
        }
    }

    /// The editor with the selection made to end at the cursor, after the
    /// cursor went one step on where a direction is given.  A selection that
    /// is not shown starts where the cursor stood.
    #[verifier::opaque]
    pub open spec fn extended(self, direction: Option<Direction>) -> Editor {
        let anchored = if self.selection.shown() {
            self
        } else {
            Editor {
                selection: Selection {
                    start: crate::selection::Point::at(self.r, self.c),
                    ..self.selection
                },
                ..self
            }
        };
        let moved = match direction {
            Some(d) => anchored.moved_by(d),
            None => anchored,
        };
        Editor {
            selection: Selection {
                end: crate::selection::Point::at(moved.r, moved.c),
                active: true,
                ..moved.selection
            },
            upd: true,
            ..moved
        }
    }

    /// What an edit that a key asks for leaves of the document and the
    /// cursor, and what it tells the language server; nothing for a command
    /// that is no edit.
    pub open spec fn edit_step(self, command: Command) -> Option<Step> {
        match command {
            Command::MoveLineUp => Some(
                if self.r > 0 {
                    self.swapped(self.r - 1, (self.r - 1) as usize)
                } else {
                    self.at_rest()
                },
            ),
            Command::MoveLineDown => Some(self.swapped(self.r as int, above(self.r + 1))),
            Command::CutLine => Some(self.line_cut()),
            Command::Duplicate => Some(self.duplicated()),
            Command::Undo => Some(self.undone()),
            Command::Redo => Some(self.redone()),
            Command::Enter => Some(self.entered()),
            Command::Delete => Some(self.deleted()),
            Command::CommentLine => Some(self.commented()),
            Command::Insert(c) => Some(
                typed(
                    self.without_selection(),
                    seq![c],
                    (self.without_selection().r, above(self.without_selection().c + 1)),
                ),
            ),
            Command::InsertTab => Some(self.tabbed()),
            _ => None,
        }
    }

    /// The edit ends the selection.
    pub open spec fn ends_selection(command: Command) -> bool {
        command is Enter || command is Delete || command is CommentLine || command is Insert
            || command is InsertTab
    }

    /// What a command does that moves the cursor, the view, the selection
    /// or the file panel, the editor being `after` then.  The cursor keys
    /// move the cursor and end the selection; with Shift they make the
    /// selection end at the cursor.  Other commands change nothing.
    pub open spec fn nav_done(self, command: Command, after: Editor) -> bool {
        match command {
            Command::SelectMore => self.grows(after),
            Command::SelectLess => self.shrinks(after),
            Command::WordLeft => after == self.at_word_before(),
            Command::WordRight => after == self.at_next_word(),
            Command::TogglePanel => after == self.panel_toggled(),
            Command::ExtendSelection(direction) => after == self.extended(direction),
            Command::Move(direction) => after == self.moved_by(direction).unselected(),
            Command::PageUp => after == self.paged_up().unselected(),
            Command::PageDown => after == self.paged_down().unselected(),
            Command::Idle => after == self.unselected(),
            _ => after == self,
        }
    }

    /// What a command does, the editor being `after` then and `outcome`
    /// left to do.  An edit is made as `edit_step` says and its changes are
    /// handed on; where it changes the text the editor is refreshed.  The
    /// cursor, the view and the selection move as `nav_done` says.  What
    /// needs the clipboard, the file or the language server is handed on
    /// and changes nothing, but for a cut, which takes out what is selected,
    /// and for saving, after which the document has no changes that are not
    /// saved.
    pub open spec fn key_done(self, command: Command, after: Editor, outcome: KeyOutcome) -> bool {
        match command {
            Command::Quit => outcome is Quit && after == self,
            Command::Nothing => outcome is Done && after == self,
            Command::Paste => outcome is Paste && after == self,
            Command::Search => outcome is Search && after == self,
            Command::References => outcome is References && after == self,
            Command::Definition => outcome is Definition && after == self,
            Command::Errors => outcome is Errors && after == self,
            Command::Hover => outcome is Hover && after == self,
            Command::Completion => outcome is Completion && after == self,
            Command::Copy => outcome matches KeyOutcome::Copy(text) && after == self
                && crate::config::option_view(text) == self.copied(),
            Command::Cut => outcome matches KeyOutcome::Cut(text, changes)
                && crate::config::option_view(text) == self.copied() && after.reached(changes@)
                == self.cut() && (changes@.len() > 0 ==> self.refreshed(after)),
            Command::Save => outcome == KeyOutcome::Save(self.code.changed) && after == (Editor {
                code: Code { changed: false, ..self.code },
                upd: true,
                self_update: false,
                ..self
            }),
            Command::SelectMore | Command::SelectLess | Command::WordLeft | Command::WordRight
            | Command::TogglePanel | Command::ExtendSelection(_) | Command::Move(_)
            | Command::PageUp | Command::PageDown | Command::Idle => outcome is Done
                && self.nav_done(command, after),
            Command::CursorBack => match outcome {
                KeyOutcome::Place(place) => self.went_back(after, Some(place)),
                KeyOutcome::Done => self.went_back(after, None),
                _ => false,
            },
            Command::CursorForward => match outcome {
                KeyOutcome::Place(place) => self.went_forth(after, Some(place)),
                KeyOutcome::Done => self.went_forth(after, None),
                _ => false,
            },
            _ => outcome matches KeyOutcome::Changed(changes) && Some(after.reached(changes@))
                == self.edit_step(command) && (Self::ends_selection(command)
                ==> !after.selection.shown()) && (changes@.len() > 0 ==> self.refreshed(after)),
        }
    }

    /// Moves the cursor one step.
    pub fn move_cursor(&mut self, direction: Direction)
        ensures
            *final(self) == old(self).moved_by(direction),
            old(self).kept(*final(self)),
    {
        proof {
            reveal(Editor::moved_by);
        }
        match direction {
            Direction::Up => self.handle_up(),
            Direction::Down => self.handle_down(),
            Direction::Left => self.handle_left(),
            Direction::Right => self.handle_right(),
        }
    }

    /// Ends the selection after a key that does not select: the next key
    /// finds none.
    pub fn drop_selection(&mut self)
        ensures
            *final(self) == old(self).unselected(),
            old(self).kept(*final(self)),
            final(self).r == old(self).r,
            final(self).c == old(self).c,
            !final(self).selection.shown(),
            old(self).upd ==> final(self).upd,
    {
        proof {
            reveal(Editor::unselected);
        }
        if self.selection.active || self.selection.keep_once {
            self.selection.clean();
            self.selection.keep_once = false;
            self.upd = true;
        }
    }

    /// Takes a key.  While the file panel has the keyboard the key is the
    /// panel's, but for the one that closes it.  Else the key is carried out
    /// as the keymap says: edits are made and the changes returned, and what
    /// needs the clipboard, a file or the language server is handed back.
    /// Shift with a cursor key moves the cursor and selects up to it; any
    /// key that is taken as it is ends the selection.
    pub fn handle_keyboard(&mut self, key: Key, m: Modifiers) -> (outcome: KeyOutcome)
        requires
            old(self).wf(),
        ensures
            final(self).wf(),
            final(self).width == old(self).width,
            final(self).height == old(self).height,
            old(self).is_lp_focused ==> (match panel_command_of(key, m) {
                PanelCommand::Close => outcome is Done && *final(self) == (Editor {
                    is_lp_focused: false,
                    ..*old(self)
                }).panel_switched(),
                other => outcome == KeyOutcome::Panel(other) && *final(self) == *old(self),
            }),
            !old(self).is_lp_focused ==> old(self).key_done(
                command_of(key, m),
                *final(self),
                outcome,
            ),
            !old(self).is_lp_focused ==> kind_of_outcome(outcome) == asks_for(command_of(key, m)),
    {
        if self.is_lp_focused {
            let command = route_panel_key(key, m);
            if command == PanelCommand::Close {
                self.is_lp_focused = false;
                self.left_panel_toggle();
                return KeyOutcome::Done;
            }
            return KeyOutcome::Panel(command);
        }
        self.run(route_key(key, m))
    }

    /// Carries out a command of the keymap.
    pub fn run(&mut self, command: Command) -> (outcome: KeyOutcome)
        requires
            old(self).wf(),
        ensures
            final(self).wf(),
            final(self).width == old(self).width,
            final(self).height == old(self).height,
            old(self).key_done(command, *final(self), outcome),
            kind_of_outcome(outcome) == asks_for(command),
    {
        match command {
            Command::Quit => KeyOutcome::Quit,
            Command::Nothing => KeyOutcome::Done,
            Command::Save => {
                let write = self.code.save_file();
                self.upd = true;
                self.self_update = false;
                KeyOutcome::Save(write)
            },
            Command::Copy => KeyOutcome::Copy(self.copy_to_clipboard(None)),
            Command::Paste => KeyOutcome::Paste,
            Command::Search => KeyOutcome::Search,
            Command::References => KeyOutcome::References,
            Command::Definition => KeyOutcome::Definition,
            Command::Errors => KeyOutcome::Errors,
            Command::Hover => KeyOutcome::Hover,
            Command::Completion => KeyOutcome::Completion,
            Command::Cut => {
                let text = self.copy_to_clipboard(None);
                let changes = self.handle_cut();
                KeyOutcome::Cut(text, changes)
            },
            Command::CursorBack => match self.undo_cursor() {
                Some(place) => KeyOutcome::Place(place),
                None => KeyOutcome::Done,
            },
            Command::CursorForward => match self.redo_cursor() {
                Some(place) => KeyOutcome::Place(place),
                None => KeyOutcome::Done,
            },
            Command::SelectMore | Command::SelectLess | Command::WordLeft | Command::WordRight
            | Command::TogglePanel | Command::ExtendSelection(_) | Command::Move(_)
            | Command::PageUp | Command::PageDown | Command::Idle => {
                self.navigate(command);
                KeyOutcome::Done
            },
            _ => KeyOutcome::Changed(self.edit(command)),
        }
    }

    /// Makes the selection end at the cursor, after the cursor went one
    /// step on where a direction is given.
    fn extend_selection(&mut self, direction: Option<Direction>)
        ensures
            *final(self) == old(self).extended(direction),
            old(self).kept(*final(self)),
    {
        proof {
            reveal(Editor::extended);
        }
        if !self.selection.active && !self.selection.keep_once {
            self.selection.set_start(self.r, self.c);
        }
        if let Some(d) = direction {
            self.move_cursor(d);
        }
        self.selection.set_end(self.r, self.c);
        self.selection.active = true;
        self.upd = true;
    }

    /// Moves the cursor one step and ends the selection.
    fn step(&mut self, direction: Direction)
        ensures
            *final(self) == old(self).moved_by(direction).unselected(),
            old(self).kept(*final(self)),
    {
        self.move_cursor(direction);
        self.drop_selection();
    }

    /// Moves the view and the cursor one screen up or down and ends the
    /// selection.
    fn page(&mut self, down: bool)
        ensures
            *final(self) == if down {
                old(self).paged_down().unselected()
            } else {
                old(self).paged_up().unselected()
            },
            old(self).kept(*final(self)),
    {
        if down {
            self.handle_page_down();
        } else {
            self.handle_page_up();
        }
        self.drop_selection();
    }

    /// Carries out a command that moves the cursor, the view, the selection
    /// or the file panel.  Other commands do nothing.
    fn navigate(&mut self, command: Command)
        requires
            old(self).wf(),
        ensures
            final(self).wf(),
            final(self).width == old(self).width,
            final(self).height == old(self).height,
            old(self).nav_done(command, *final(self)),
    {
        match command {
            Command::SelectMore => self.select_more(),
            Command::SelectLess => self.select_less(),
            Command::WordLeft => self.handle_left_word(),
            Command::WordRight => self.handle_right_word(),
            Command::TogglePanel => self.toggle_left_panel(),
            _ => self.travel(command),
        }
    }

    /// Carries out a command of the cursor keys.  Other commands do
    /// nothing.
    fn travel(&mut self, command: Command)
        requires
            old(self).wf(),
        ensures
            final(self).wf(),
            final(self).width == old(self).width,
            final(self).height == old(self).height,
            match command {
                Command::ExtendSelection(direction) => *final(self) == old(self).extended(
                    direction,
                ),
                Command::Move(direction) => *final(self) == old(self).moved_by(
                    direction,
                ).unselected(),
                Command::PageUp => *final(self) == old(self).paged_up().unselected(),
                Command::PageDown => *final(self) == old(self).paged_down().unselected(),
                Command::Idle => *final(self) == old(self).unselected(),
                _ => *final(self) == *old(self),
            },
    {
        match command {
            Command::ExtendSelection(direction) => self.extend_selection(direction),
            Command::Move(direction) => self.step(direction),
            Command::PageUp => self.page(false),
            Command::PageDown => self.page(true),
            Command::Idle => self.drop_selection(),
            _ => {},
        }
        proof {
            crate::editor::lemma_wf_kept(*old(self), *self);
        }
    }

    /// Carries out a command that edits the document, and returns what the
    /// language server is told.  Other commands do nothing.
    fn edit(&mut self, command: Command) -> (changes: Vec<LspChange>)
        requires
            old(self).wf(),
        ensures
            final(self).wf(),
            final(self).width == old(self).width,
            final(self).height == old(self).height,
            match old(self).edit_step(command) {
                Some(step) => final(self).reached(changes@) == step && (Self::ends_selection(
                    command,
                ) ==> !final(self).selection.shown()) && (changes@.len() > 0 ==> old(
                    self,
                ).refreshed(*final(self))),
                None => *final(self) == *old(self) && changes@.len() == 0,
            },
    {
        let changes = match command {
            Command::MoveLineUp => self.move_line_up(),
            Command::MoveLineDown => self.move_line_down(),
            Command::CutLine => self.handle_cut_line(),
            Command::Duplicate => self.handle_duplicate(),
            Command::Undo => self.undo(),
            Command::Redo => self.redo(),
            Command::Enter => self.handle_enter(),
            Command::Delete => self.handle_delete(),
            Command::CommentLine => self.comment_line(),
            Command::Insert(c) => self.insert_char(c),
            Command::InsertTab => self.insert_tab(),
            _ => {
                return Vec::new();
            },
        };
        match command {
            Command::Enter | Command::Delete | Command::CommentLine | Command::Insert(_)
            | Command::InsertTab => self.drop_selection(),
            _ => {},
        }
        changes
    }
}

/// What of the screen has to be painted.
#[derive(Clone, Copy, Debug, PartialEq, Eq, Structural)]
pub enum DrawPlan {
    /// Nothing: the screen has no rows.
    Nothing,
    /// The file panel, the logo and the status line: no file is in view.
    Welcome,
    /// The file panel and the cursor: the text is as it was painted.
    Cursor,
    /// The file panel, the text, the status line and the cursor.
    Whole,
}

impl Editor {
    /// What of the screen has to be painted.
    pub fn draw_plan(&self) -> (plan: DrawPlan)
        ensures
            plan == if self.height < 1 {
                DrawPlan::Nothing
            } else if self.code.file_name@.len() == 0 {
                DrawPlan::Welcome
            } else if !self.upd {
                DrawPlan::Cursor
            } else {
                DrawPlan::Whole
            },
    {
        if self.height < 1 {
            DrawPlan::Nothing
        } else if self.code.file_name.as_str().is_empty() {
            DrawPlan::Welcome
        } else if !self.upd {
            DrawPlan::Cursor
        } else {
            DrawPlan::Whole
        }
    }

    /// Takes note that the text was painted as it is.
    pub fn painted(&mut self)
        ensures
            *final(self) == (Editor { upd: false, ..*old(self) }),
    {
        self.upd = false;
    }

    /// The completions that a language server offers, in the order in which
    /// they are listed: each scored against the word before the cursor, the
    /// best score first.  None where the cursor stands below the text.
    pub fn rank_completions(&self, offered: Vec<(String, Option<String>)>) -> (items: Vec<
        crate::popup::CompletionItem,
    >)
        ensures
            self.r >= line_count(self.code.chars()) ==> items@.len() == 0,
            self.r < line_count(self.code.chars()) ==> exists|scored: Seq<
                crate::popup::CompletionItem,
            >|
                #![trigger crate::popup::all_scored(scored, offered@, self.typed_word())]
                crate::popup::all_scored(scored, offered@, self.typed_word())
                    && crate::order::sorted_from(scored, items@),
    {
        let word = match self.completion_prefix() {
            Some(word) => word,
            None => {
                return Vec::new();
            },
        };
        let mut items: Vec<crate::popup::CompletionItem> = Vec::new();
        let ghost total = offered@;
        for entry in it: offered
            invariant
                it.seq() == total,
                items@.len() == it.index(),
                forall|i: int|
                    0 <= i < items@.len() ==> crate::popup::is_scored(
                        #[trigger] items@[i],
                        total[i].0,
                        total[i].1,
                        word@,
                    ),
        {
            let (label, new_text) = entry;
            items.push(crate::popup::scored(label, new_text, word.as_str()));
        }
        proof {
            assert(crate::popup::all_scored(items@, total, self.typed_word()));
        }
        crate::popup::sort_completions(items)
    }

    /// What the language server tells of the document in view.
    pub fn current_errors(&self) -> (errors: Vec<Diagnostic>)
        ensures
            match diagnostics_at(self.diagnostics@, self.uri(), 0) {
                Some(i) => errors@ == self.diagnostics@[i].items@,
                None => errors@.len() == 0,
            },
    {
        let uri = uri_of(self.code.abs_path.as_str());
        let mut errors: Vec<Diagnostic> = Vec::new();
        if let Some(k) = crate::editing::find_diagnostics(&self.diagnostics, uri.as_str()) {
            let items = &self.diagnostics[k].items;
            let mut i: usize = 0;
            while i < items.len()
                invariant
                    i <= items@.len(),
                    errors@ == items@.take(i as int),
                decreases items@.len() - i,
            {
                errors.push(items[i].clone());
                i += 1;
                assert(errors@ =~= items@.take(i as int));
            }
            assert(items@.take(i as int) =~= items@);
        }
        errors
    }

    /// The command that starts the language server of the document in view.
    pub fn lsp_start_command(&self) -> (cmd: Option<String>)
        ensures
            crate::config::option_view(cmd) == (match self.code.conf() {
                Some(l) => match l.lsp {
                    Some(words) => Some(crate::setup::spaced(words, words.len())),
                    None => None,
                },
                None => None,
            }),
    {
        match self.code.get_lang_conf() {
            Some(conf) => match &conf.lsp {
                Some(words) => Some(crate::setup::join_spaced(words)),
                None => None,
            },
            None => None,
        }
    }
}

} // verus!
