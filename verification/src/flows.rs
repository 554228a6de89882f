//! The steps of what goes on over several keys: the search line, the list of
//! completions, the hover text, and the lists of references, of errors and
//! of places found in all files.  Each step takes one key and says what is
//! left to do.

use crate::chars::same_text;
use crate::controller::{code_at, search_step_of, Jump, SavedView, SearchStep};
use crate::editing::{above, cleared, typed};
use crate::editor::{Diagnostic, Editor, LspChange};
use crate::keys::{Key, Modifiers};
use crate::lsp::{path_in, uri_of};
use crate::popup::{
    completion_step, completion_step_of, errors_step, errors_step_of, list_step, list_step_of,
    COMPLETION_HEIGHT, CompletionItem, CompletionStep, HOVER_HEIGHT, LIST_HEIGHT, ListPopup,
    ListStep,
};
use crate::search::{Search, SearchResult};
use crate::width::text_cells;
use vstd::prelude::*;

verus! {

/// A place in a document that the language server points at.
#[derive(Debug)]
pub struct Place {
    pub uri: String,
    pub line: usize,
    pub character: usize,
    pub end_line: usize,
    pub end_character: usize,
}

/// What is left to do after a key in the list of completions.
#[derive(Debug)]
pub enum CompletionOutcome {
    /// The list is closed.
    Close,
    /// The list is closed; the chosen entry was applied, and the language
    /// server is told these changes.
    Applied(Vec<LspChange>),
    /// The list stays.
    Stay,
    /// The text or the cursor changed: the language server is told these
    /// changes and asked for completions anew.
    Again(Vec<LspChange>),
}

impl Editor {
    /// The editor as a key of the search line leaves it, before the place
    /// that is chosen is shown or the search ends, given the editor `after`
    /// that.
    pub open spec fn searching(self, key: Key, m: Modifiers, after: Editor) -> Editor {
        let chosen = !(m.only_control() && (key == Key::Char('v') || key == Key::Char('g')));
        let global = search_step_of(key, m, self.code.file_name@.len() == 0) is Global;
        Editor {
            search: Search { active: self.search.active, ..after.search },
            overlay_lines: after.overlay_lines,
            upd: self.upd || (chosen && (key == Key::Up || key == Key::Down || (key == Key::Enter
                && global))),
            ..self
        }
    }

    /// One key in the search line.  Escape ends the search and puts the
    /// cursor and the selection back where they were when it began.  Any
    /// other key is the search line's, and the place that is then chosen is
    /// shown.
    pub fn handle_local_search(
        &mut self,
        key: Key,
        m: Modifiers,
        pasted: Option<&str>,
        saved: &SavedView,
    ) -> (step: SearchStep)
        ensures
            key == Key::Esc ==> step == SearchStep::End && *final(self) == (Editor {
                r: saved.r,
                c: saved.c,
                selection: saved.selection,
                upd: true,
                search: final(self).search,
                ..*old(self)
            }) && final(self).search == (Search { active: false, ..old(self).search }),
            key != Key::Esc ==> {
                let mid = old(self).searching(key, m, *final(self));
                &&& step == search_step_of(key, m, old(self).code.file_name@.len() == 0)
                &&& old(self).search_frame(key, m, mid)
                &&& mid.search@ == old(self).search_after(
                    key,
                    m,
                    match pasted {
                        Some(text) => Some(text@),
                        None => None,
                    },
                )
                &&& if step is Continue {
                    *final(self) == mid.at_result()
                } else {
                    *final(self) == (Editor { upd: true, search: final(self).search, ..mid })
                        && final(self).search == (Search { active: false, ..mid.search })
                }
            },
    {
        if let Key::Esc = key {
            self.cancel_search(saved);
            return SearchStep::End;
        }
        let step = self.handle_search_event(key, m, pasted);
        match step {
            SearchStep::Continue => {
                self.show_search_result();
            },
            _ => {
                self.end_search();
            },
        }
        step
    }

    /// What a step in the list of completions does, the editor being
    /// `after` then and `outcome` left to do.  Closing paints the editor
    /// anew.  The chosen entry is applied in place of the word around the
    /// cursor.  Left and Right move the cursor, Backspace removes and a
    /// character is typed as they do in the text, and completions are then
    /// asked for anew.
    pub open spec fn completion_done(
        self,
        step: CompletionStep,
        options: Seq<CompletionItem>,
        after: Editor,
        outcome: CompletionOutcome,
    ) -> bool {
        match step {
            CompletionStep::Close => outcome is Close && after == (Editor { upd: true, ..self }),
            CompletionStep::Apply(i) => if i < options.len() {
                outcome matches CompletionOutcome::Applied(changes) && after.reached(changes@)
                    == self.completed(options[i as int])
            } else {
                outcome is Close && after == self
            },
            CompletionStep::Stay => outcome is Stay && after == self,
            CompletionStep::Left => outcome matches CompletionOutcome::Again(changes)
                && changes@.len() == 0 && after == self.gone_left(),
            CompletionStep::Right => outcome matches CompletionOutcome::Again(changes)
                && changes@.len() == 0 && after == self.gone_right(),
            CompletionStep::Backspace => outcome matches CompletionOutcome::Again(changes)
                && after.reached(changes@) == self.deleted() && after.upd,
            CompletionStep::Insert(c) => outcome matches CompletionOutcome::Again(changes)
                && after.reached(changes@) == typed(
                self.without_selection(),
                seq![c],
                (self.without_selection().r, above(self.without_selection().c + 1)),
            ) && after.upd,
        }
    }

    /// One key in the list of completions.  The cursor keys choose; Enter
    /// and Tab put the chosen entry into the text; Escape and the space bar
    /// close the list; Left, Right, Backspace and characters are carried out
    /// in the text, after which completions are asked for anew.
    pub fn completion(
        &mut self,
        popup: &mut ListPopup,
        key: Key,
        m: Modifiers,
        options: &Vec<CompletionItem>,
    ) -> (outcome: CompletionOutcome)
        requires
            old(self).wf(),
        ensures
            final(self).wf(),
            final(self).same_frame(old(self)),
            *final(popup) == completion_step_of(
                *old(popup),
                key,
                m,
                options@.len() as usize,
            ).0.scrolled(COMPLETION_HEIGHT),
            old(self).completion_done(
                completion_step_of(*old(popup), key, m, options@.len() as usize).1,
                options@,
                *final(self),
                outcome,
            ),
    {
        let step = completion_step(popup, key, m, options.len());
        popup.scroll(COMPLETION_HEIGHT);
        match step {
            CompletionStep::Close => {
                self.upd = true;
                CompletionOutcome::Close
            },
            CompletionStep::Apply(i) => {
                if i < options.len() {
                    CompletionOutcome::Applied(self.lsp_completion_apply(&options[i]))
                } else {
                    CompletionOutcome::Close
                }
            },
            CompletionStep::Stay => CompletionOutcome::Stay,
            CompletionStep::Left => {
                self.handle_left();
                self.upd = true;
                CompletionOutcome::Again(Vec::new())
            },
            CompletionStep::Right => {
                self.handle_right();
                self.upd = true;
                CompletionOutcome::Again(Vec::new())
            },
            CompletionStep::Backspace => {
                let changes = self.handle_delete();
                self.upd = true;
                CompletionOutcome::Again(changes)
            },
            CompletionStep::Insert(c) => {
                let changes = self.insert_char(c);
                self.upd = true;
                CompletionOutcome::Again(changes)
            },
        }
    }

    /// One key in the hover text.  The cursor keys move through its lines;
    /// Escape, Enter and Tab close it.
    pub fn hover(&mut self, popup: &mut ListPopup, key: Key, m: Modifiers, lines: usize) -> (step:
        ListStep)
        ensures
            *final(popup) == list_step_of(*old(popup), key, m, lines).0.scrolled(HOVER_HEIGHT),
            step == list_step_of(*old(popup), key, m, lines).1,
            step is Stay ==> *final(self) == *old(self),
            !(step is Stay) ==> *final(self) == (Editor { upd: true, ..*old(self) }),
    {
        let step = list_step(popup, key, m, lines);
        popup.scroll(HOVER_HEIGHT);
        match step {
            ListStep::Stay => {},
            _ => {
                self.upd = true;
            },
        }
        step
    }

    /// The editor with the list of places of `shown` entries at the bottom
    /// of the screen in place of what popups took, showing a place: the
    /// cursor at its start, in the middle of the view, and the place
    /// selected.
    pub open spec fn listing(self, place: Place, after: Editor) -> Editor {
        Editor {
            overlay_lines: after.overlay_lines,
            upd: true,
            ..self.previewing(place.line, place.character, place.end_line, place.end_character)
        }
    }

    /// What showing the chosen one of a list of places does, the editor
    /// being `after` then and `jump` handed back.  A place in the document
    /// in view, or in one that is open behind it, which then comes in view,
    /// is shown as `listing` says, above the rows that the list takes.  For
    /// a place in a document that is not open the path of its file is
    /// handed back and nothing changes; nor does anything change where no
    /// entry is chosen or the address of the place names no file.
    pub open spec fn place_shown(
        self,
        chosen: usize,
        places: Seq<Place>,
        after: Editor,
        jump: Jump,
    ) -> bool {
        let place = places[chosen as int];
        let here = place.uri@ == self.uri();
        let path = path_in(place.uri@);
        let behind = code_at(self.codes@, path->0, 0);
        let rows = Editor::list_rows(
            self.height,
            if places.len() < LIST_HEIGHT {
                places.len() as usize
            } else {
                LIST_HEIGHT
            },
        );
        if chosen >= places.len() || (!here && path is None) {
            jump is Nowhere && after == self
        } else if !here && behind is None {
            jump matches Jump::NeedsFile(p) && p@ == path->0 && after == self
        } else if here {
            jump is Done && after == self.listing(place, after) && after.overlay_lines@ == rows
        } else {
            &&& jump is Done
            &&& after == self.showing(behind->0, after.codes).listing(place, after)
            &&& after.overlay_lines@ == rows
            &&& after.codes@ == self.codes@.remove(behind->0).push(self.parked())
        }
    }

    /// Shows the chosen one of a list of places: in its document, with the
    /// cursor at its start, in the middle of the view, and the place
    /// selected; the rows of the list are kept free.  For a document that is
    /// not open the path is returned, for the file to be read first.
    pub fn show_place(&mut self, popup: &mut ListPopup, places: &Vec<Place>) -> (jump: Jump)
        requires
            old(self).wf(),
            old(self).height < usize::MAX,
        ensures
            final(self).wf(),
            *final(popup) == old(popup).scrolled(LIST_HEIGHT),
            old(self).place_shown(old(popup).selected, places@, *final(self), jump),
    {
        popup.scroll(LIST_HEIGHT);
        if popup.selected >= places.len() {
            return Jump::Nowhere;
        }
        let place = &places[popup.selected];
        let here = uri_of(self.code.abs_path.as_str());
        if !same_text(place.uri.as_str(), here.as_str()) {
            let path = match crate::lsp::path_of_uri(place.uri.as_str()) {
                Some(path) => path,
                None => {
                    return Jump::Nowhere;
                },
            };
            if !self.is_open(path.as_str()) {
                return Jump::NeedsFile(path);
            }
            let _ = self.open_file(path.as_str(), None);
        }
        self.preview_place(place.line, place.character, place.end_line, place.end_character);
        let shown = if places.len() < LIST_HEIGHT {
            places.len()
        } else {
            LIST_HEIGHT
        };
        self.upd = true;
        self.clear_overlay();
        self.reserve_list_rows(shown);
        Jump::Done
    }

    /// One key in the list of references.  The cursor keys choose another
    /// place; Enter and Tab go to the chosen place for good; Escape goes back
    /// to where the list began, in the document in view.
    pub fn references(
        &mut self,
        popup: &mut ListPopup,
        key: Key,
        m: Modifiers,
        places: &Vec<Place>,
        saved: &SavedView,
    ) -> (step: ListStep)
        requires
            old(self).wf(),
        ensures
            final(self).wf(),
            (*final(popup), step) == list_step_of(*old(popup), key, m, places@.len() as usize),
            match step {
                ListStep::Cancel => *final(self) == (Editor {
                    overlay_lines: final(self).overlay_lines,
                    ..old(self).back_at(*saved)
                }) && final(self).overlay_lines@.len() == 0,
                ListStep::Accept(_) => *final(self) == (Editor {
                    selection: cleared(old(self).selection),
                    overlay_lines: final(self).overlay_lines,
                    upd: true,
                    ..*old(self)
                }) && final(self).overlay_lines@.len() == 0,
                _ => *final(self) == (Editor { upd: true, ..*old(self) }),
            },
    {
        let step = list_step(popup, key, m, places.len());
        match step {
            ListStep::Cancel => {
                self.restore_view(saved);
            },
            ListStep::Accept(_) => {
                self.selection.clean();
                self.clear_overlay();
                self.upd = true;
            },
            _ => {
                self.upd = true;
            },
        }
        step
    }

    /// Goes to a place for good: the place that the cursor leaves and the
    /// place that it reaches are noted in its history.
    pub fn apply_reference(&mut self, place: &Place) -> (jump: Jump)
        requires
            old(self).wf(),
        ensures
            final(self).wf(),
            old(self).jumped(place.uri@, place.line, place.character, *final(self), jump),
    {
        self.jump_to(place.uri.as_str(), place.line, place.character)
    }

    /// Goes to where the language server says the definition is, where it
    /// names one place.
    pub fn definition(&mut self, places: &Vec<Place>) -> (jump: Jump)
        requires
            old(self).wf(),
        ensures
            final(self).wf(),
            places@.len() != 1 ==> jump is Nowhere && *final(self) == *old(self),
            places@.len() == 1 ==> old(self).jumped(
                places@[0].uri@,
                places@[0].line,
                places@[0].character,
                *final(self),
                jump,
            ),
    {
        if places.len() != 1 {
            return Jump::Nowhere;
        }
        self.apply_reference(&places[0])
    }

    /// Shows the chosen one of the errors of the document in view: the
    /// cursor at its start, in the middle of the view; the rows of the list
    /// are kept free.
    pub fn show_error(&mut self, popup: &mut ListPopup, errors: &Vec<Diagnostic>) -> (shown: bool)
        requires
            old(self).height < usize::MAX,
        ensures
            *final(popup) == old(popup).scrolled(LIST_HEIGHT),
            shown == (old(popup).selected < errors@.len()),
            !shown ==> *final(self) == *old(self),
            shown ==> {
                let error = errors@[old(popup).selected as int];
                &&& *final(self) == (Editor {
                    overlay_lines: final(self).overlay_lines,
                    upd: true,
                    ..(Editor {
                        r: error.line,
                        c: error.character,
                        ..*old(self)
                    }).focused().centred_view()
                })
                &&& final(self).overlay_lines@ == old(self).overlay_lines@ + Editor::list_rows(
                    old(self).height,
                    if errors@.len() < LIST_HEIGHT {
                        errors@.len() as usize
                    } else {
                        LIST_HEIGHT
                    },
                )
            },
    {
        popup.scroll(LIST_HEIGHT);
        if popup.selected >= errors.len() {
            return false;
        }
        let error = &errors[popup.selected];
        self.r = error.line;
        self.c = error.character;
        let shown = if errors.len() < LIST_HEIGHT {
            errors.len()
        } else {
            LIST_HEIGHT
        };
        self.reserve_list_rows(shown);
        self.focus();
        self.focus_to_center();
        self.upd = true;
        true
    }

    /// One key in the list of errors.  The cursor keys choose; Enter stays
    /// at the chosen error; `c` copies its message; Escape takes the cursor
    /// back to where it was.  Returns the message to copy, where there is
    /// one.
    pub fn handle_errors(
        &mut self,
        popup: &mut ListPopup,
        key: Key,
        m: Modifiers,
        errors: &Vec<Diagnostic>,
        saved: &SavedView,
    ) -> (result: (ListStep, Option<String>))
        ensures
            (*final(popup), result.0) == errors_step_of(
                *old(popup),
                key,
                m,
                errors@.len() as usize,
            ),
            crate::config::option_view(result.1) == (match result.0 {
                ListStep::Copy(i) if i < errors@.len() => Some(errors@[i as int].message@),
                _ => None,
            }),
            match result.0 {
                ListStep::Accept(_) => *final(self) == (Editor {
                    selection: cleared(old(self).focused().selection),
                    overlay_lines: final(self).overlay_lines,
                    upd: true,
                    ..old(self).focused()
                }) && final(self).overlay_lines@.len() == 0,
                ListStep::Cancel => *final(self) == (Editor {
                    r: saved.r,
                    c: saved.c,
                    overlay_lines: final(self).overlay_lines,
                    upd: true,
                    ..*old(self)
                }) && final(self).overlay_lines@.len() == 0,
                ListStep::Copy(_) => *final(self) == *old(self),
                ListStep::Stay => *final(self) == (Editor { upd: true, ..*old(self) }),
            },
    {
        let step = errors_step(popup, key, m, errors.len());
        let mut copied: Option<String> = None;
        match step {
            ListStep::Accept(_) => {
                self.focus();
                self.selection.clean();
                self.upd = true;
                self.clear_overlay();
            },
            ListStep::Cancel => {
                self.r = saved.r;
                self.c = saved.c;
                self.upd = true;
                self.clear_overlay();
            },
            ListStep::Copy(i) => {
                if i < errors.len() {
                    copied = Some(errors[i].message.clone());
                }
            },
            ListStep::Stay => {
                self.upd = true;
            },
        }
        (step, copied)
    }

    /// What showing the chosen one of the places found in all files does,
    /// the editor being `after` then and `jump` handed back.  The place is
    /// shown as long as the pattern is wide, in the document in view or in
    /// one that is open behind it, which then comes in view, and the rows of
    /// the list are kept free.  For a place in a document that is not open
    /// the path of its file is handed back and nothing changes; nor does
    /// anything change where no entry is chosen, or its line is counted
    /// from 0.
    pub open spec fn result_shown(
        self,
        chosen: usize,
        results: Seq<(String, SearchResult)>,
        after: Editor,
        jump: Jump,
    ) -> bool {
        let path = results[chosen as int].0;
        let result = results[chosen as int].1;
        let here = path@ == self.code.abs_path@;
        let behind = code_at(self.codes@, path@, 0);
        let base = if here {
            self
        } else {
            self.showing(behind->0, after.codes)
        };
        let shown = base.previewing(
            (result.line - 1) as usize,
            result.column,
            (result.line - 1) as usize,
            above(result.column + text_cells(self.search.pattern_chars())),
        );
        if chosen >= results.len() || result.line == 0 {
            jump is Nowhere && after == self
        } else if !here && behind is None {
            jump matches Jump::NeedsFile(p) && p@ == path@ && after == self
        } else {
            &&& jump is Done
            &&& after == (Editor { overlay_lines: after.overlay_lines, upd: true, ..shown })
            &&& after.overlay_lines@ == self.overlay_lines@ + Editor::list_rows(
                self.height,
                if results.len() < LIST_HEIGHT {
                    results.len() as usize
                } else {
                    LIST_HEIGHT
                },
            )
            &&& !here ==> after.codes@ == self.codes@.remove(behind->0).push(self.parked())
        }
    }

    /// Shows the chosen one of the places that a search in all files found:
    /// in its document, with the cursor at its start and what was found
    /// selected.  Lines are counted from 1 in the results.
    pub fn show_global_result(
        &mut self,
        popup: &mut ListPopup,
        results: &Vec<(String, SearchResult)>,
    ) -> (jump: Jump)
        requires
            old(self).wf(),
            old(self).height < usize::MAX,
        ensures
            final(self).wf(),
            *final(popup) == if results@.len() > 0 {
                old(popup).scrolled(
                    if results@.len() < LIST_HEIGHT {
                        results@.len() as usize
                    } else {
                        LIST_HEIGHT
                    },
                )
            } else {
                *old(popup)
            },
            old(self).result_shown(old(popup).selected, results@, *final(self), jump),
    {
        let shown = if results.len() < LIST_HEIGHT {
            results.len()
        } else {
            LIST_HEIGHT
        };
        if shown > 0 {
            popup.scroll(shown);
        }
        if popup.selected >= results.len() {
            return Jump::Nowhere;
        }
        let (path, result) = &results[popup.selected];
        if result.line == 0 {
            return Jump::Nowhere;
        }
        if !same_text(path.as_str(), self.code.abs_path.as_str()) {
            if !self.is_open(path.as_str()) {
                return Jump::NeedsFile(path.clone());
            }
            let _ = self.open_file(path.as_str(), None);
        }
        let len = crate::rope::rope_len_chars(&self.search.pattern);
        let pattern = crate::rope::rope_substring(&self.search.pattern, 0, len);
        assert(pattern@ =~= self.search.pattern_chars());
        let width = crate::width::text_width(pattern.as_str());
        self.preview_place(
            result.line - 1,
            result.column,
            result.line - 1,
            result.column.saturating_add(width),
        );
        self.upd = true;
        self.reserve_list_rows(shown);
        Jump::Done
    }

    /// One key in the list of places that a search in all files found.  The
    /// cursor keys choose another place; Enter and Tab stay at the chosen
    /// place; Escape goes back to where the search began, in the document in
    /// view.
    pub fn hanle_global_search(
        &mut self,
        popup: &mut ListPopup,
        key: Key,
        m: Modifiers,
        results: usize,
        saved: &SavedView,
    ) -> (step: ListStep)
        ensures
            (*final(popup), step) == list_step_of(*old(popup), key, m, results),
            *final(self) == if step is Cancel {
                let there = (Editor {
                    r: saved.r,
                    c: saved.c,
                    selection: saved.selection,
                    ..*old(self)
                }).focused();
                Editor { selection: cleared(there.selection), upd: true, ..there }
            } else {
                *old(self)
            },
    {
        let step = list_step(popup, key, m, results);
        if let ListStep::Cancel = step {
            self.r = saved.r;
            self.c = saved.c;
            self.selection = saved.selection;
            self.focus();
            self.selection.clean();
            self.upd = true;
        }
        step
    }
}

} // verus!
