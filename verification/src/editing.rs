//! What the editor does to the text: typing, removing, cutting and pasting,
//! moving lines, undoing and redoing.  Each returns what the language server
//! has to be told.

use crate::chars::{
    is_space, joined, push_char, repeat, repeated, same_text, str_chars, str_to_string,
};
use crate::code::{
    first_non_space, in_text, indents, moved, offset_of, scan_match, space, tab, tab_text,
};
use crate::editor::{told_once, Diagnostic, Editor, FileDiagnostics, LspChange};
use crate::history::{edited, insertion, removal, views, Change, ChangeView, DocView, Operation};
use crate::lsp::uri_of;
use crate::popup::CompletionItem;
use crate::selection::{Point, Selection};
use crate::syntax::{NodePath, NodeSpan};
use crate::text::{line_count, line_text, line_width};
use crate::width::{cells, cells_of, text_cells};
use vstd::prelude::*;
use vstd::utf8::encode_utf8;

verus! {

/// A change of the document, as plain values.
pub struct LspChangeView {
    pub start_line: int,
    pub start_column: int,
    pub end_line: int,
    pub end_column: int,
    pub text: Seq<char>,
}

impl View for LspChange {
    type V = LspChangeView;

    open spec fn view(&self) -> LspChangeView {
        LspChangeView {
            start_line: self.start_line as int,
            start_column: self.start_column as int,
            end_line: self.end_line as int,
            end_column: self.end_column as int,
            text: self.text@,
        }
    }
}

/// The views of a list of changes.
pub open spec fn change_views(changes: Seq<LspChange>) -> Seq<LspChangeView> {
    changes.map_values(|c: LspChange| c@)
}

/// The change that puts `text` at `(line, column)`.
pub open spec fn put_at(line: int, column: int, text: Seq<char>) -> LspChangeView {
    LspChangeView {
        start_line: line,
        start_column: column,
        end_line: line,
        end_column: column,
        text,
    }
}

/// The change that takes out what stands between two places.
pub open spec fn taken_out(line: int, column: int, end_line: int, end_column: int) -> LspChangeView {
    LspChangeView {
        start_line: line,
        start_column: column,
        end_line,
        end_column,
        text: Seq::empty(),
    }
}

/// The change that puts `text` at `(line, column)`.
pub fn change_put(line: usize, column: usize, text: &str) -> (change: LspChange)
    ensures
        change@ == put_at(line as int, column as int, text@),
{
    LspChange {
        start_line: line,
        start_column: column,
        end_line: line,
        end_column: column,
        text: str_to_string(text),
    }
}

/// The change that takes out what stands between two places.
pub fn change_take(line: usize, column: usize, end_line: usize, end_column: usize) -> (change:
    LspChange)
    ensures
        change@ == taken_out(line as int, column as int, end_line as int, end_column as int),
{
    LspChange {
        start_line: line,
        start_column: column,
        end_line,
        end_column,
        text: String::new(),
    }
}

/// There are as many views as changes, and none of no changes.
pub proof fn lemma_told(changes: Seq<LspChange>)
    ensures
        change_views(changes).len() == changes.len(),
        changes.len() == 0 ==> change_views(changes) == Seq::<LspChangeView>::empty(),
{
    if changes.len() == 0 {
        assert(change_views(changes) =~= Seq::<LspChangeView>::empty());
    }
}

/// The views of a list with one more change are the views with one more.
pub proof fn lemma_told_push(before: Seq<LspChange>, change: LspChange)
    ensures
        change_views(before.push(change)) == change_views(before).push(change@),
{
    assert(change_views(before.push(change)) =~= change_views(before).push(change@));
}

/// What an edit leaves: the document, the cursor, and the changes that the
/// language server is told, in their order.
pub struct Step {
    pub doc: DocView,
    pub r: usize,
    pub c: usize,
    pub told: Seq<LspChangeView>,
}

/// The step after `text` was put in at the cursor, which then goes to `to`.
/// Nothing is put in where the cursor does not stand in the text.
pub open spec fn typed(s: Step, text: Seq<char>, to: (usize, usize)) -> Step {
    if in_text(s.doc.text, s.r as int, s.c as int) {
        Step {
            doc: edited(
                s.doc,
                insertion(offset_of(s.doc.text, s.r as int, s.c as int), text, s.r as int, s.c as int),
            ),
            r: to.0,
            c: to.1,
            told: s.told.push(put_at(s.r as int, s.c as int, text)),
        }
    } else {
        s
    }
}

/// The step after what stands between the places `from` and `to` was taken
/// out, the cursor then going to `cursor`.
pub open spec fn removed(s: Step, from: (int, int), to: (int, int), cursor: (usize, usize)) -> Step {
    let at = offset_of(s.doc.text, from.0, from.1);
    let end = offset_of(s.doc.text, to.0, to.1);
    Step {
        doc: edited(s.doc, removal(at, s.doc.text.subrange(at, end), to.0, to.1)),
        r: cursor.0,
        c: cursor.1,
        told: s.told.push(taken_out(from.0, from.1, to.0, to.1)),
    }
}

/// The index of the diagnostics of the document at `uri`.
pub open spec fn diagnostics_at(all: Seq<FileDiagnostics>, uri: Seq<char>, i: int) -> Option<int>
    decreases all.len() - i,
{
    if i < 0 || i >= all.len() {
        None
    } else if all[i].uri@ == uri {
        Some(i)
    } else {
        diagnostics_at(all, uri, i + 1)
    }
}

/// The index of the diagnostics of the document at `uri`.
pub fn find_diagnostics(all: &Vec<FileDiagnostics>, uri: &str) -> (at: Option<usize>)
    ensures
        (match at {
            Some(i) => Some(i as int),
            None => None,
        }) == diagnostics_at(all@, uri@, 0),
        at matches Some(i) ==> i < all@.len() && all@[i as int].uri@ == uri@,
{
    let mut i: usize = 0;
    while i < all.len()
        invariant
            i <= all@.len(),
            diagnostics_at(all@, uri@, i as int) == diagnostics_at(all@, uri@, 0),
        decreases all@.len() - i,
    {
        if same_text(all[i].uri.as_str(), uri) {
            return Some(i);
        }
        i += 1;
    }
    None
}

/// The diagnostics without those of the document at `uri`.
pub open spec fn cleaned(all: Seq<FileDiagnostics>, uri: Seq<char>) -> Seq<FileDiagnostics> {
    match diagnostics_at(all, uri, 0) {
        Some(i) => all.remove(i),
        None => all,
    }
}

/// What is found from `i` on is the first entry for the document from there
/// on; where nothing is found there is none.
pub proof fn lemma_diagnostics_at(all: Seq<FileDiagnostics>, uri: Seq<char>, i: int)
    requires
        0 <= i,
    ensures
        match diagnostics_at(all, uri, i) {
            Some(k) => i <= k < all.len() && all[k].uri@ == uri && forall|j: int|
                i <= j < k ==> (#[trigger] all[j]).uri@ != uri,
            None => forall|j: int| i <= j < all.len() ==> (#[trigger] all[j]).uri@ != uri,
        },
    decreases all.len() - i,
{
    if i < all.len() && all[i].uri@ != uri {
        lemma_diagnostics_at(all, uri, i + 1);
    }
}

/// Diagnostics that hold no document twice hold none twice once those of a
/// document are dropped, and then hold none of that document.
pub proof fn lemma_cleaned(all: Seq<FileDiagnostics>, uri: Seq<char>)
    requires
        told_once(all),
    ensures
        told_once(cleaned(all, uri)),
        diagnostics_at(cleaned(all, uri), uri, 0) is None,
        cleaned(cleaned(all, uri), uri) == cleaned(all, uri),
{
    lemma_diagnostics_at(all, uri, 0);
    let after = cleaned(all, uri);
    match diagnostics_at(all, uri, 0) {
        Some(k) => {
            assert forall|j: int| 0 <= j < after.len() implies (#[trigger] after[j]).uri@
                != uri by {
                if j < k {
                    assert(after[j] == all[j]);
                } else {
                    assert(after[j] == all[j + 1]);
                    assert(all[k].uri@ != all[j + 1].uri@);
                }
            }
            assert forall|i: int, j: int| 0 <= i < j < after.len() implies (#[trigger] after[i]).uri@
                != (#[trigger] after[j]).uri@ by {
                let a = if i < k {
                    i
                } else {
                    i + 1
                };
                let b = if j < k {
                    j
                } else {
                    j + 1
                };
                assert(after[i] == all[a] && after[j] == all[b]);
                assert(all[a].uri@ != all[b].uri@);
            }
        },
        None => {},
    }
    lemma_diagnostics_at(after, uri, 0);
}

/// Diagnostics that hold no document twice hold none twice once an entry
/// for a document takes the place of the one that was there, or joins them
/// where there was none.
pub proof fn lemma_told_put(all: Seq<FileDiagnostics>, entry: FileDiagnostics)
    requires
        told_once(all),
    ensures
        told_once(
            match diagnostics_at(all, entry.uri@, 0) {
                Some(i) => all.update(i, entry),
                None => all.push(entry),
            },
        ),
{
    lemma_diagnostics_at(all, entry.uri@, 0);
    match diagnostics_at(all, entry.uri@, 0) {
        Some(k) => {
            let after = all.update(k, entry);
            assert forall|i: int, j: int| 0 <= i < j < after.len() implies (#[trigger] after[i]).uri@
                != (#[trigger] after[j]).uri@ by {
                assert(after[i].uri@ == all[i].uri@ && after[j].uri@ == all[j].uri@);
                assert(all[i].uri@ != all[j].uri@);
            }
        },
        None => {
            let after = all.push(entry);
            assert forall|i: int, j: int| 0 <= i < j < after.len() implies (#[trigger] after[i]).uri@
                != (#[trigger] after[j]).uri@ by {
                if j < all.len() {
                    assert(after[i] == all[i] && after[j] == all[j]);
                    assert(all[i].uri@ != all[j].uri@);
                } else {
                    assert(after[i] == all[i]);
                }
            }
        },
    }
}

impl Editor {
    /// The address of the document in view.
    pub open spec fn uri(&self) -> Seq<char> {
        "file://"@ + self.code.abs_path@
    }

    /// Takes what a language server tells of a document, in place of what
    /// it told of it before.
    pub fn handle_diagnostic_update(&mut self, uri: String, items: Vec<Diagnostic>)
        requires
            old(self).wf(),
        ensures
            final(self).wf(),
            *final(self) == (Editor { diagnostics: final(self).diagnostics, upd: true, ..*old(self) }),
            final(self).diagnostics@ == (match diagnostics_at(old(self).diagnostics@, uri@, 0) {
                Some(i) => old(self).diagnostics@.update(i, FileDiagnostics { uri, items }),
                None => old(self).diagnostics@.push(FileDiagnostics { uri, items }),
            }),
    {
        proof {
            lemma_told_put(self.diagnostics@, FileDiagnostics { uri, items });
        }
        match find_diagnostics(&self.diagnostics, uri.as_str()) {
            Some(i) => {
                self.diagnostics.set(i, FileDiagnostics { uri, items });
            },
            None => {
                self.diagnostics.push(FileDiagnostics { uri, items });
            },
        }
        self.upd = true;
    }

    /// Forgets what was told of the document in view: after an edit it
    /// holds no more.
    pub fn clean_diagnostics(&mut self)
        requires
            old(self).wf(),
        ensures
            final(self).wf(),
            *final(self) == (Editor { diagnostics: final(self).diagnostics, ..*old(self) }),
            final(self).diagnostics@ == cleaned(old(self).diagnostics@, old(self).uri()),
    {
        proof {
            lemma_cleaned(self.diagnostics@, self.uri());
        }
        let uri = uri_of(self.code.abs_path.as_str());
        if let Some(i) = find_diagnostics(&self.diagnostics, uri.as_str()) {
            self.diagnostics.remove(i);
        }
    }

    /// What every edit ends with: the screen is to be painted anew, and what
    /// was found for the text before is forgotten.
    pub fn after_edit(&mut self)
        requires
            old(self).wf(),
        ensures
            old(self).seen() ==> final(self).seen(),
            final(self).wf(),
            *final(self) == (Editor {
                upd: true,
                diagnostics: final(self).diagnostics,
                highlights_cache: final(self).highlights_cache,
                ..*old(self)
            }),
            old(self).refreshed(*final(self)),
            diagnostics_at(final(self).diagnostics@, old(self).uri(), 0) is None,
    {
        proof {
            lemma_cleaned(self.diagnostics@, self.uri());
        }
        self.upd = true;
        self.clean_diagnostics();
        self.reset_highlight_cache();
    }

    /// The document and the cursor as they are, with nothing told.
    pub open spec fn at_rest(self) -> Step {
        Step { doc: self.code.doc(), r: self.r, c: self.c, told: Seq::empty() }
    }

    /// The document and the cursor as they are, after `changes` were told.
    pub open spec fn reached(self, changes: Seq<LspChange>) -> Step {
        Step { doc: self.code.doc(), r: self.r, c: self.c, told: change_views(changes) }
    }

    /// What cutting leaves: the text without what was selected and the
    /// cursor where that began; nothing is cut where `can_cut` does not hold.
    pub open spec fn cut(self) -> Step {
        let from = self.selection.lower().indices();
        let to = self.selection.upper().indices();
        let at = offset_of(self.code.chars(), from.0 as int, from.1 as int);
        let end = offset_of(self.code.chars(), to.0 as int, to.1 as int);
        if self.can_cut() {
            Step {
                doc: edited(
                    self.code.doc(),
                    removal(at, self.code.chars().subrange(at, end), to.0 as int, to.1 as int),
                ),
                r: from.0,
                c: from.1,
                told: seq![taken_out(from.0 as int, from.1 as int, to.0 as int, to.1 as int)],
            }
        } else {
            self.at_rest()
        }
    }

    /// What is left once a selection that is shown has been cut.
    pub open spec fn without_selection(self) -> Step {
        if self.selection.shown() && !self.selection.is_empty() {
            self.cut()
        } else {
            self.at_rest()
        }
    }

    /// `after` is to be painted anew, keeps no colours that were found
    /// before, and has dropped what the language server told of the
    /// document in view: so an edit leaves the editor.
    pub open spec fn refreshed(self, after: Editor) -> bool {
        &&& after.upd
        &&& after.highlights_cache@.len() == 0
        &&& after.diagnostics@ == cleaned(self.diagnostics@, self.uri())
    }

    /// Whether the selection can be taken out of the text: it is not empty,
    /// and both its ends are places in the text.
    pub open spec fn can_cut(&self) -> bool {
        let from = self.selection.lower().indices();
        let to = self.selection.upper().indices();
        &&& !self.selection.is_empty()
        &&& in_text(self.code.chars(), from.0 as int, from.1 as int)
        &&& in_text(self.code.chars(), to.0 as int, to.1 as int)
        &&& offset_of(self.code.chars(), from.0 as int, from.1 as int) <= offset_of(
            self.code.chars(),
            to.0 as int,
            to.1 as int,
        )
    }

    /// Removes what is selected and puts the cursor where it stood.  Nothing
    /// is done without a selection, or with one that does not lie in the
    /// text.
    pub fn handle_cut(&mut self) -> (changes: Vec<LspChange>)
        requires
            old(self).wf(),
        ensures
            changes@.len() == 0 ==> *final(self) == *old(self),
            changes@.len() > 0 ==> old(self).refreshed(*final(self)),
            final(self).wf(),
            final(self).same_frame(old(self)),
            final(self).reached(changes@) == old(self).cut(),
            final(self).code.same_setting(&old(self).code),
            !old(self).can_cut() ==> final(self).code == old(self).code,
            old(self).can_cut() ==> final(self).selection.is_empty() && final(self).upd
                && !final(self).selection.shown(),
    {
        let mut changes: Vec<LspChange> = Vec::new();
        proof {
            lemma_told(changes@);
        }
        if self.selection.empty() {
            return changes;
        }
        let (y, x) = self.selection.from();
        let (yto, xto) = self.selection.to();
        if !self.code.has_position(y, x) || !self.code.has_position(yto, xto) {
            return changes;
        }
        // Taken for its bound: the number of characters fits in `usize`.
        let len = self.code.len_chars();
        if self.code.offset(y, x) > self.code.offset(yto, xto) {
            return changes;
        }
        self.code.remove_text(y, x, yto, xto);
        changes.push(change_take(y, x, yto, xto));
        assert(change_views(changes@) =~= seq![
            taken_out(y as int, x as int, yto as int, xto as int),
        ]);
        self.r = y;
        self.c = x;
        self.selection.clean();
        self.selection.keep_once = false;
        self.after_edit();
        changes
    }

    /// Types a character at the cursor, in place of the selection where
    /// there is one.  Nothing is typed where the cursor does not stand in
    /// the text.
    pub fn insert_char(&mut self, ch: char) -> (changes: Vec<LspChange>)
        requires
            old(self).wf(),
        ensures
            in_text(
                old(self).without_selection().doc.text,
                old(self).without_selection().r as int,
                old(self).without_selection().c as int,
            ) ==> final(self).seen(),
            changes@.len() > 0 ==> old(self).refreshed(*final(self)),
            final(self).wf(),
            final(self).same_frame(old(self)),
            final(self).reached(changes@) == typed(
                old(self).without_selection(),
                seq![ch],
                (old(self).without_selection().r, above(old(self).without_selection().c + 1)),
            ),
            final(self).code.same_setting(&old(self).code),
    {
        proof {
            lemma_cleaned(self.diagnostics@, self.uri());
        }
        let mut changes: Vec<LspChange> = Vec::new();
        proof {
            lemma_told(changes@);
        }
        if self.selection.non_empty_and_active() {
            changes = self.handle_cut();
        }
        if !self.code.has_position(self.r, self.c) {
            return changes;
        }
        // Taken for its bound: the number of characters fits in `usize`.
        let len = self.code.len_chars();
        let ghost mid = self.code.chars();
        self.code.insert_char(ch, self.r, self.c);
        // Taken for its bound: the number of characters fits in `usize`.
        let new_len = self.code.len_chars();
        let mut text = String::new();
        push_char(&mut text, ch);
        let change = change_put(self.r, self.c, text.as_str());
        proof {
            assert(text@ =~= seq![ch]);
            lemma_told_push(changes@, change);
            crate::text::lemma_line_start_monotone(mid, self.r as int, self.r as int);
        }
        changes.push(change);
        self.c += 1;
        self.upd = true;
        self.focus();
        self.after_edit();
        changes
    }

    /// What the tab key leaves: what it stands for put in at the cursor,
    /// and the cursor as many columns on as that is wide.
    pub open spec fn tabbed(self) -> Step {
        if self.can_tab() {
            typed(
                self.at_rest(),
                tab_text(self.code.conf()),
                (self.r, above(self.c + text_cells(tab_text(self.code.conf())))),
            )
        } else {
            self.at_rest()
        }
    }

    /// Types what the tab key stands for at the cursor.  Nothing is typed
    /// where the cursor does not stand in the text, or the language indents
    /// by a negative number of spaces.
    pub fn insert_tab(&mut self) -> (changes: Vec<LspChange>)
        requires
            old(self).wf(),
        ensures
            old(self).can_tab() ==> final(self).seen(),
            changes@.len() > 0 ==> old(self).refreshed(*final(self)),
            final(self).wf(),
            final(self).same_frame(old(self)),
            final(self).reached(changes@) == old(self).tabbed(),
            final(self).code.same_setting(&old(self).code),
            !old(self).can_tab() ==> final(self).code == old(self).code,
    {
        let mut changes: Vec<LspChange> = Vec::new();
        proof {
            lemma_told(changes@);
        }
        let (r, c) = (self.r, self.c);
        if !self.code.has_position(r, c) {
            return changes;
        }
        proof {
            reveal_strlit(" ");
            assert(" "@ =~= space());
        }
        let fits = match self.code.get_lang_conf() {
            Some(conf) => !same_text(conf.indent.unit.as_str(), " ") || conf.indent.width >= 0,
            None => true,
        };
        if !fits {
            return changes;
        }
        let inserted = self.code.insert_tab(r, c);
        self.c = self.c.saturating_add(crate::width::text_width(inserted.as_str()));
        changes.push(change_put(r, c, inserted.as_str()));
        assert(change_views(changes@) =~= seq![
            put_at(r as int, c as int, tab_text(old(self).code.conf())),
        ]);
        self.upd = true;
        self.focus();
        self.after_edit();
        changes
    }

    /// Whether a tab can be typed: the cursor stands in the text, and the
    /// language does not indent by a negative number of spaces.
    pub open spec fn can_tab(&self) -> bool {
        &&& in_text(self.code.chars(), self.r as int, self.c as int)
        &&& (self.code.conf() matches Some(l) ==> l.indent_unit == space() ==> l.indent_width >= 0)
    }

    /// What cutting the cursor's row leaves: the text without the row and
    /// its line break, and the cursor on the row that is there then, in its
    /// column or at the end of that row.  Nothing is cut where the cursor
    /// stands below the text.
    pub open spec fn line_cut(self) -> Step {
        let r = self.r as int;
        let cut = removed(self.at_rest(), (r, 0), (r + 1, 0), (self.r, self.c));
        let width = if r < line_count(cut.doc.text) {
            line_width(cut.doc.text, r) as usize
        } else {
            0
        };
        if self.r < line_count(self.code.chars()) {
            Step {
                c: if self.c > width {
                    width
                } else {
                    self.c
                },
                ..cut
            }
        } else {
            self.at_rest()
        }
    }

    /// Removes the line of the cursor, up to the start of the next line.
    /// Nothing is removed where the cursor stands below the text.
    pub fn handle_cut_line(&mut self) -> (changes: Vec<LspChange>)
        requires
            old(self).wf(),
        ensures
            changes@.len() > 0 ==> old(self).refreshed(*final(self)),
            final(self).wf(),
            final(self).same_frame(old(self)),
            final(self).reached(changes@) == old(self).line_cut(),
            final(self).code.same_setting(&old(self).code),
            old(self).r < line_count(old(self).code.chars()) ==> final(self).selection.is_empty(),
            old(self).r >= line_count(old(self).code.chars()) ==> final(self).code == old(self).code,
    {
        let mut changes: Vec<LspChange> = Vec::new();
        proof {
            lemma_told(changes@);
        }
        let lines = self.code.len_lines();
        if self.r >= lines {
            return changes;
        }
        proof {
            crate::text::lemma_line_start_monotone(
                self.code.chars(),
                self.r as int,
                self.r + 1,
            );
        }
        self.code.remove_text(self.r, 0, self.r + 1, 0);
        changes.push(change_take(self.r, 0, self.r + 1, 0));
        assert(change_views(changes@) =~= seq![taken_out(self.r as int, 0, self.r + 1, 0)]);
        let width = self.line_len_at(self.r);
        if self.c > width {
            self.c = width;
        }
        self.selection.clean();
        self.selection.keep_once = false;
        self.after_edit();
        changes
    }
}

/// What the backspace key removes.
#[derive(Clone, Copy, Debug, PartialEq, Eq, Structural)]
pub enum Deletion {
    /// What is selected.
    Selection,
    /// The indentation before the cursor, from column `from` on.
    Indent { from: usize },
    /// The character before the cursor.
    Char,
    /// The line break before the cursor's line, which ends at column
    /// `column` of the line before.
    LineBreak { column: usize },
    /// Nothing.
    Nothing,
}

impl Editor {
    /// Only white space stands before the cursor on its line.
    pub open spec fn in_indentation(&self) -> bool {
        self.r < line_count(self.code.chars()) && self.c > 0 && forall|j: int|
            0 <= j < self.c && j < line_text(self.code.chars(), self.r as int).len() ==> is_space(
                #[trigger] line_text(self.code.chars(), self.r as int)[j],
            )
    }

    /// The column from which the backspace key removes indentation: that of
    /// the last indent before the cursor's line's text.  Where the language
    /// indents by tabs that is one column for each indent before the last,
    /// where it indents by spaces as many as the indent is wide, and else
    /// the column before the cursor.
    pub open spec fn indent_start(&self) -> int {
        let conf = self.code.conf()->0;
        let level = indents(self.code.conf(), line_text(self.code.chars(), self.r as int));
        if conf.indent_unit == tab() {
            level - 1
        } else if conf.indent_unit == space() {
            (conf.indent_width as usize) * (level - 1)
        } else {
            self.c - 1
        }
    }

    /// What the backspace key removes.  With a selection it is the
    /// selection.  Within the indentation of a line that is indented it is
    /// the last indent, where that ends before the cursor.  Else it is the
    /// character before the cursor, or at the start of a line the line break
    /// before it.
    pub open spec fn deletion(&self) -> Deletion {
        if self.selection.shown() && !self.selection.is_empty() {
            Deletion::Selection
        } else if self.code.conf() is Some && self.in_indentation() && indents(
            self.code.conf(),
            line_text(self.code.chars(), self.r as int),
        ) > 0 {
            if 0 <= self.indent_start() <= self.c && in_text(
                self.code.chars(),
                self.r as int,
                self.c as int,
            ) {
                Deletion::Indent { from: self.indent_start() as usize }
            } else {
                Deletion::Nothing
            }
        } else if self.c > 0 {
            if in_text(self.code.chars(), self.r as int, self.c as int) {
                Deletion::Char
            } else {
                Deletion::Nothing
            }
        } else if self.r != 0 && self.r <= line_count(self.code.chars()) {
            Deletion::LineBreak { column: self.width_at(self.r - 1) }
        } else {
            Deletion::Nothing
        }
    }

    /// What the backspace key removes.
    pub fn plan_delete(&mut self) -> (plan: Deletion)
        ensures
            plan == old(self).deletion(),
            *final(self) == *old(self),
    {
        if self.selection.non_empty_and_active() {
            return Deletion::Selection;
        }
        let lines = self.code.len_lines();
        proof {
            reveal_strlit(" ");
            reveal_strlit("\t");
            assert(" "@ =~= space());
            assert("\t"@ =~= tab());
        }
        if self.code.get_lang_conf().is_some() && self.c != 0 && self.code.is_only_indentation_before(
            self.r,
            self.c,
        ) && self.code.indentation_level(self.r) > 0 {
            let il = self.code.indentation_level(self.r);
            let conf = self.code.get_lang_conf().unwrap();
            let indent_from = if same_text(conf.indent.unit.as_str(), "\t") {
                Some(il - 1)
            } else if same_text(conf.indent.unit.as_str(), " ") {
                let w = #[verifier::truncate] (conf.indent.width as usize);
                w.checked_mul(il - 1)
            } else {
                Some(self.c - 1)
            };
            return match indent_from {
                Some(from) => {
                    if from <= self.c && self.code.has_position(self.r, self.c) {
                        Deletion::Indent { from }
                    } else {
                        Deletion::Nothing
                    }
                },
                None => Deletion::Nothing,
            };
        }
        if self.c > 0 {
            return if self.code.has_position(self.r, self.c) {
                Deletion::Char
            } else {
                Deletion::Nothing
            };
        }
        if self.r != 0 && self.r <= lines {
            return Deletion::LineBreak { column: self.line_len_at(self.r - 1) };
        }
        Deletion::Nothing
    }

    /// What the backspace key leaves: the text without what `deletion`
    /// says, and the cursor where that began.
    pub open spec fn deleted(self) -> Step {
        let r = self.r as int;
        let c = self.c as int;
        match self.deletion() {
            Deletion::Selection => self.cut(),
            Deletion::Indent { from } => removed(
                self.at_rest(),
                (r, from as int),
                (r, c),
                (self.r, from),
            ),
            Deletion::Char => removed(
                self.at_rest(),
                (r, c - 1),
                (r, c),
                (self.r, (c - 1) as usize),
            ),
            Deletion::LineBreak { column } => removed(
                self.at_rest(),
                (r - 1, column as int),
                (r, 0),
                ((r - 1) as usize, column),
            ),
            Deletion::Nothing => self.at_rest(),
        }
    }

    /// What the backspace key does: it removes what `deletion` says and
    /// leaves the cursor where the removed text began.
    pub fn handle_delete(&mut self) -> (changes: Vec<LspChange>)
        requires
            old(self).wf(),
        ensures
            old(self).deletion() is Char || old(self).deletion() is LineBreak ==> final(self).seen(),
            changes@.len() > 0 ==> old(self).refreshed(*final(self)),
            final(self).wf(),
            final(self).same_frame(old(self)),
            final(self).reached(changes@) == old(self).deleted(),
            final(self).code.same_setting(&old(self).code),
            old(self).deletion() is Nothing ==> final(self).code == old(self).code,
    {
        let mut changes: Vec<LspChange> = Vec::new();
        proof {
            lemma_told(changes@);
        }
        match self.plan_delete() {
            Deletion::Selection => {
                return self.handle_cut();
            },
            Deletion::Indent { from } => {
                proof {
                    crate::text::lemma_line_start_monotone(
                        self.code.chars(),
                        self.r as int,
                        self.r as int,
                    );
                }
                self.code.remove_text(self.r, from, self.r, self.c);
                changes.push(change_take(self.r, from, self.r, self.c));
                assert(change_views(changes@) =~= seq![
                    taken_out(self.r as int, from as int, self.r as int, self.c as int),
                ]);
                self.c = from;
                self.after_edit();
                return changes;
            },
            Deletion::Char => {
                proof {
                    crate::text::lemma_line_start_monotone(
                        self.code.chars(),
                        self.r as int,
                        self.r as int,
                    );
                }
                self.code.remove_char(self.r, self.c);
                changes.push(change_take(self.r, self.c - 1, self.r, self.c));
                assert(change_views(changes@) =~= seq![
                    taken_out(self.r as int, self.c - 1, self.r as int, self.c as int),
                ]);
                self.c -= 1;
                self.after_edit();
            },
            Deletion::LineBreak { column } => {
                proof {
                    crate::text::lemma_line_start_monotone(
                        self.code.chars(),
                        self.r - 1,
                        self.r as int,
                    );
                }
                self.code.remove_text(self.r - 1, column, self.r, self.c);
                changes.push(change_take(self.r - 1, column, self.r, self.c));
                assert(change_views(changes@) =~= seq![
                    taken_out(self.r - 1, column as int, self.r as int, 0),
                ]);
                self.r -= 1;
                self.c = column;
                self.after_edit();
            },
            Deletion::Nothing => {
                return changes;
            },
        }
        self.focus();
        changes
    }
}

/// Where the cursor stands after it went over `text` from `(r, c)`: a line
/// feed takes it to the start of the next row, any other character as many
/// columns on as it is wide.
pub open spec fn advanced(r: usize, c: usize, text: Seq<char>) -> (usize, usize)
    decreases text.len(),
{
    if text.len() == 0 {
        (r, c)
    } else {
        let before = advanced(r, c, text.drop_last());
        if text.last() == '\n' {
            (above(before.0 + 1), 0)
        } else {
            (before.0, above(before.1 + cells_of(text.last())))
        }
    }
}

/// Where the cursor stands after it went down one row from `(r, c)`: in the
/// same column, or at the end of the row where that is shorter; where it
/// was, on the last row.
pub open spec fn one_down(text: Seq<char>, r: usize, c: usize) -> (usize, usize) {
    if r + 1 < line_count(text) {
        (
            (r + 1) as usize,
            if c > line_width(text, r + 1) as usize {
                line_width(text, r + 1) as usize
            } else {
                c
            },
        )
    } else {
        (r, c)
    }
}

/// `n`, or the largest index where `n` is larger.
pub open spec fn above(n: int) -> usize {
    if n > usize::MAX {
        usize::MAX
    } else {
        n as usize
    }
}

/// Where the cursor stands after it went over `text` from `(r, c)`.
pub fn advance(r: usize, c: usize, text: &str) -> (at: (usize, usize))
    ensures
        at == advanced(r, c, text@),
{
    let chars = str_chars(text);
    let mut row = r;
    let mut col = c;
    let mut i: usize = 0;
    while i < chars.len()
        invariant
            i <= chars@.len(),
            chars@ == text@,
            (row, col) == advanced(r, c, text@.take(i as int)),
        decreases chars@.len() - i,
    {
        let ch = chars[i];
        proof {
            assert(text@.take(i + 1).drop_last() =~= text@.take(i as int));
        }
        if ch == '\n' {
            row = row.saturating_add(1);
            col = 0;
        } else {
            col = col.saturating_add(cells(ch));
        }
        i += 1;
    }
    assert(text@.take(i as int) =~= text@);
    (row, col)
}

/// Where a text that was inserted at `(r, c)` ends: a line feed opens a new
/// row, any other character takes one column.
pub open spec fn end_of(r: usize, c: usize, text: Seq<char>) -> (usize, usize)
    decreases text.len(),
{
    if text.len() == 0 {
        (r, c)
    } else {
        let before = end_of(r, c, text.drop_last());
        if text.last() == '\n' {
            (above(before.0 + 1), 0)
        } else {
            (before.0, above(before.1 + 1))
        }
    }
}

/// Where a text that was inserted at `(r, c)` ends.
pub fn text_end(r: usize, c: usize, text: &str) -> (at: (usize, usize))
    ensures
        at == end_of(r, c, text@),
{
    let chars = str_chars(text);
    let mut row = r;
    let mut col = c;
    let mut i: usize = 0;
    while i < chars.len()
        invariant
            i <= chars@.len(),
            chars@ == text@,
            (row, col) == end_of(r, c, text@.take(i as int)),
        decreases chars@.len() - i,
    {
        proof {
            assert(text@.take(i + 1).drop_last() =~= text@.take(i as int));
        }
        if chars[i] == '\n' {
            row = row.saturating_add(1);
            col = 0;
        } else {
            col = col.saturating_add(1);
        }
        i += 1;
    }
    assert(text@.take(i as int) =~= text@);
    (row, col)
}

/// Where a text that was removed up to `(r, c)` began, as far as that can be
/// told from the text: a line feed leads to the start of the row before, any
/// other character one column back.
pub open spec fn start_of(r: usize, c: usize, text: Seq<char>) -> (usize, usize)
    decreases text.len(),
{
    if text.len() == 0 {
        (r, c)
    } else {
        let before = start_of(r, c, text.drop_last());
        if text.last() == '\n' {
            (
                if before.0 > 0 {
                    (before.0 - 1) as usize
                } else {
                    0
                },
                0,
            )
        } else {
            (
                before.0,
                if before.1 > 0 {
                    (before.1 - 1) as usize
                } else {
                    0
                },
            )
        }
    }
}

/// Where a text that was removed up to `(r, c)` began.
pub fn text_start(r: usize, c: usize, text: &str) -> (at: (usize, usize))
    ensures
        at == start_of(r, c, text@),
{
    let chars = str_chars(text);
    let mut row = r;
    let mut col = c;
    let mut i: usize = 0;
    while i < chars.len()
        invariant
            i <= chars@.len(),
            chars@ == text@,
            (row, col) == start_of(r, c, text@.take(i as int)),
        decreases chars@.len() - i,
    {
        proof {
            assert(text@.take(i + 1).drop_last() =~= text@.take(i as int));
        }
        if chars[i] == '\n' {
            row = row.saturating_sub(1);
            col = 0;
        } else {
            col = col.saturating_sub(1);
        }
        i += 1;
    }
    assert(text@.take(i as int) =~= text@);
    (row, col)
}

/// What the language server is told when a change is undone: an insertion
/// is taken out, from its place to where its text ends; what was removed is
/// put back where it began.  Marks tell nothing.
pub open spec fn undo_told(change: ChangeView) -> Option<LspChangeView> {
    let (r, c) = (change.row as usize, change.column as usize);
    match change.operation {
        Operation::Insert => Some(
            taken_out(
                r as int,
                c as int,
                end_of(r, c, change.text).0 as int,
                end_of(r, c, change.text).1 as int,
            ),
        ),
        Operation::Remove => Some(
            put_at(
                start_of(r, c, change.text).0 as int,
                start_of(r, c, change.text).1 as int,
                change.text,
            ),
        ),
        _ => None,
    }
}

/// What the language server is told when a change is redone: an insertion
/// replaces the range from its place to where its text ends by its text;
/// where text is removed again, an empty change is told at the place where
/// it began.
pub open spec fn redo_told(change: ChangeView) -> Option<LspChangeView> {
    let (r, c) = (change.row as usize, change.column as usize);
    match change.operation {
        Operation::Insert => Some(
            LspChangeView {
                start_line: r as int,
                start_column: c as int,
                end_line: end_of(r, c, change.text).0 as int,
                end_column: end_of(r, c, change.text).1 as int,
                text: change.text,
            },
        ),
        Operation::Remove => Some(
            put_at(
                start_of(r, c, change.text).0 as int,
                start_of(r, c, change.text).1 as int,
                Seq::empty(),
            ),
        ),
        _ => None,
    }
}

/// What the language server is told when a change is undone.
pub fn told_on_undo(change: &Change) -> (told: Option<LspChange>)
    ensures
        (match told {
            Some(t) => Some(t@),
            None => None,
        }) == undo_told(change@),
{
    match change.operation {
        Operation::Insert => {
            let (r_end, c_end) = text_end(change.row, change.column, change.text.as_str());
            Some(change_take(change.row, change.column, r_end, c_end))
        },
        Operation::Remove => {
            let (r, c) = text_start(change.row, change.column, change.text.as_str());
            Some(change_put(r, c, change.text.as_str()))
        },
        _ => None,
    }
}

/// What the language server is told when a change is redone.
pub fn told_on_redo(change: &Change) -> (told: Option<LspChange>)
    ensures
        (match told {
            Some(t) => Some(t@),
            None => None,
        }) == redo_told(change@),
{
    match change.operation {
        Operation::Insert => {
            let (r_end, c_end) = text_end(change.row, change.column, change.text.as_str());
            Some(
                LspChange {
                    start_line: change.row,
                    start_column: change.column,
                    end_line: r_end,
                    end_column: c_end,
                    text: change.text.clone(),
                },
            )
        },
        Operation::Remove => {
            let (r, c) = text_start(change.row, change.column, change.text.as_str());
            Some(
                LspChange {
                    start_line: r,
                    start_column: c,
                    end_line: r,
                    end_column: c,
                    text: String::new(),
                },
            )
        },
        _ => None,
    }
}

/// The selection that covers a node, and is shown.
pub open spec fn covering(s: Selection, node: NodeSpan) -> Selection {
    Selection {
        start: Point::at(node.0.0, node.0.1),
        end: Point::at(node.1.0, node.1.1),
        active: true,
        ..s
    }
}

/// The selection without its anchors, and not active.
pub open spec fn cleared(s: Selection) -> Selection {
    Selection { start: Point::nowhere(), end: Point::nowhere(), active: false, ..s }
}

/// What the language server is told of changes that were taken back, or
/// made again, in their order: of each edit what `undo_told`, or
/// `redo_told`, says.
pub open spec fn told_of(changes: Seq<ChangeView>, undone: bool) -> Seq<LspChangeView>
    decreases changes.len(),
{
    if changes.len() == 0 {
        Seq::empty()
    } else {
        let before = told_of(changes.drop_last(), undone);
        let last = if undone {
            undo_told(changes.last())
        } else {
            redo_told(changes.last())
        };
        match last {
            Some(t) => before.push(t),
            None => before,
        }
    }
}

impl Editor {
    /// What undoing leaves: the document one step back, the cursor where the
    /// last change that was taken back was made, and the language server
    /// told of each edit taken back.
    pub open spec fn undone(self) -> Step {
        let step = crate::history::undo_step(self.code.doc());
        match step.changes {
            Some(taken) => Step {
                doc: step.doc,
                r: if taken.len() > 0 {
                    taken.last().row as usize
                } else {
                    self.r
                },
                c: if taken.len() > 0 {
                    taken.last().column as usize
                } else {
                    self.c
                },
                told: told_of(taken, true),
            },
            None => Step { doc: step.doc, ..self.at_rest() },
        }
    }

    /// What redoing leaves: the document one step on, the cursor where the
    /// last change was made again, one column on for an insertion, and the
    /// language server told of each edit made again.
    pub open spec fn redone(self) -> Step {
        let step = crate::history::redo_step(self.code.doc());
        match step.changes {
            Some(done) => Step {
                doc: step.doc,
                r: if done.len() > 0 {
                    done.last().row as usize
                } else {
                    self.r
                },
                c: if done.len() == 0 {
                    self.c
                } else if done.last().operation is Insert {
                    above(done.last().column + 1)
                } else {
                    done.last().column as usize
                },
                told: told_of(done, false),
            },
            None => Step { doc: step.doc, ..self.at_rest() },
        }
    }

    /// Takes back the last edit and puts the cursor where the last change
    /// taken back was made.  Returns what the language server is told: one
    /// change for each edit taken back.
    pub fn undo(&mut self) -> (changes: Vec<LspChange>)
        requires
            old(self).wf(),
        ensures
            final(self).seen(),
            changes@.len() > 0 ==> old(self).refreshed(*final(self)),
            final(self).wf(),
            final(self).same_frame(old(self)),
            final(self).reached(changes@) == old(self).undone(),
            final(self).code.same_setting(&old(self).code),
            final(self).upd,
    {
        proof {
            lemma_cleaned(self.diagnostics@, self.uri());
        }
        let mut told: Vec<LspChange> = Vec::new();
        proof {
            lemma_told(told@);
        }
        if let Some(multiple) = self.code.undo() {
            let mut i: usize = 0;
            while i < multiple.changes.len()
                invariant
                    i <= multiple.changes@.len(),
                    change_views(told@) == told_of(views(multiple.changes@).take(i as int), true),
                    self.wf(),
                    self.same_frame(old(self)),
                    self.code.doc() == crate::history::undo_step(old(self).code.doc()).doc,
                    self.code.same_setting(&old(self).code),
                    self.diagnostics == old(self).diagnostics,
                    i == 0 ==> self.r == old(self).r && self.c == old(self).c,
                    i > 0 ==> self.r == multiple.changes@[i - 1].row && self.c
                        == multiple.changes@[i - 1].column,
                decreases multiple.changes@.len() - i,
            {
                let change = &multiple.changes[i];
                self.r = change.row;
                self.c = change.column;
                proof {
                    let all = views(multiple.changes@);
                    assert(all.take(i + 1).drop_last() =~= all.take(i as int));
                    assert(all.take(i + 1).last() == change@);
                }
                if let Some(t) = told_on_undo(change) {
                    proof {
                        lemma_told_push(told@, t);
                    }
                    told.push(t);
                }
                i += 1;
            }
            assert(views(multiple.changes@).take(i as int) =~= views(multiple.changes@));
        }
        self.upd = true;
        self.focus();
        self.after_edit();
        told
    }

    /// Makes the last edit that was taken back again and puts the cursor
    /// where the last change was made, behind the first character of an
    /// insertion.  Returns what the language server is told: one change for
    /// each edit made again.
    pub fn redo(&mut self) -> (changes: Vec<LspChange>)
        requires
            old(self).wf(),
        ensures
            final(self).seen(),
            changes@.len() > 0 ==> old(self).refreshed(*final(self)),
            final(self).wf(),
            final(self).same_frame(old(self)),
            final(self).reached(changes@) == old(self).redone(),
            final(self).code.same_setting(&old(self).code),
            final(self).upd,
    {
        proof {
            lemma_cleaned(self.diagnostics@, self.uri());
        }
        let mut told: Vec<LspChange> = Vec::new();
        proof {
            lemma_told(told@);
        }
        if let Some(multiple) = self.code.redo() {
            let mut i: usize = 0;
            while i < multiple.changes.len()
                invariant
                    i <= multiple.changes@.len(),
                    change_views(told@) == told_of(views(multiple.changes@).take(i as int), false),
                    self.wf(),
                    self.same_frame(old(self)),
                    self.code.doc() == crate::history::redo_step(old(self).code.doc()).doc,
                    self.code.same_setting(&old(self).code),
                    self.diagnostics == old(self).diagnostics,
                    i == 0 ==> self.r == old(self).r && self.c == old(self).c,
                    i > 0 ==> {
                        let last = multiple.changes@[i - 1];
                        &&& self.r == last.row
                        &&& self.c == if last.operation is Insert {
                            above(last.column + 1)
                        } else {
                            last.column
                        }
                    },
                decreases multiple.changes@.len() - i,
            {
                let change = &multiple.changes[i];
                self.r = change.row;
                self.c = change.column;
                if let Operation::Insert = change.operation {
                    self.c = self.c.saturating_add(1);
                }
                proof {
                    let all = views(multiple.changes@);
                    assert(all.take(i + 1).drop_last() =~= all.take(i as int));
                    assert(all.take(i + 1).last() == change@);
                }
                if let Some(t) = told_on_redo(change) {
                    proof {
                        lemma_told_push(told@, t);
                    }
                    told.push(t);
                }
                i += 1;
            }
            assert(views(multiple.changes@).take(i as int) =~= views(multiple.changes@));
        }
        self.upd = true;
        self.focus();
        self.after_edit();
        told
    }

    /// What is left after row `r` and the next one changed places, the
    /// cursor going to row `to`.  Nothing changes where the rows cannot
    /// change places.
    pub open spec fn swapped(self, r: int, to: usize) -> Step {
        match moved(self.code.doc(), r) {
            Some(doc) => Step { doc, r: to, c: self.c, told: self.swap_told(r) },
            None => self.at_rest(),
        }
    }

    /// What the language server is told when row `r` and the next one change
    /// places: the first row taken out, the second put in its place, the
    /// second taken out below, and the first put there.
    pub open spec fn swap_told(self, r: int) -> Seq<LspChangeView> {
        seq![
            taken_out(r, 0, r, self.width_at(r) as int),
            put_at(r, 0, self.row_text(r + 1)),
            taken_out(r + 1, 0, r + 1, self.width_at(r + 1) as int),
            put_at(r + 1, 0, self.row_text(r)),
        ]
    }

    /// Makes the line of the cursor and the next one change places, and the
    /// cursor go with its line.  Returns what the language server is told:
    /// the first line taken out, the second put in its place, the second
    /// taken out below, and the first put there.
    pub fn move_line_down(&mut self) -> (changes: Vec<LspChange>)
        requires
            old(self).wf(),
        ensures
            changes@.len() > 0 ==> old(self).refreshed(*final(self)),
            final(self).wf(),
            final(self).same_frame(old(self)),
            final(self).reached(changes@) == old(self).swapped(
                old(self).r as int,
                above(old(self).r + 1),
            ),
            final(self).code.same_setting(&old(self).code),
            moved(old(self).code.doc(), old(self).r as int) is Some
                ==> final(self).selection.is_empty(),
    {
        let mut changes: Vec<LspChange> = Vec::new();
        proof {
            lemma_told(changes@);
        }
        let lines = self.code.len_lines();
        if self.r >= lines - 1 {
            return changes;
        }
        let r = self.r;
        let line1len = self.code.line_len(r);
        let line2len = self.code.line_len(r + 1);
        proof {
            crate::text::lemma_line_start_monotone(self.code.chars(), r as int, r + 1);
            crate::text::lemma_line_start_monotone(self.code.chars(), r + 1, r + 2);
        }
        let line1 = self.code.get_text(r, 0, r, line1len);
        let line2 = self.code.get_text(r + 1, 0, r + 1, line2len);
        let success = self.code.move_line_down(r);
        if !success {
            return changes;
        }
        changes.push(change_take(r, 0, r, line1len));
        changes.push(change_put(r, 0, line2.as_str()));
        changes.push(change_take(r + 1, 0, r + 1, line2len));
        changes.push(change_put(r + 1, 0, line1.as_str()));
        assert(change_views(changes@) =~= seq![
            taken_out(r as int, 0, r as int, line1len as int),
            put_at(r as int, 0, line2@),
            taken_out(r + 1, 0, r + 1, line2len as int),
            put_at(r + 1, 0, line1@),
        ]);
        self.r += 1;
        self.selection.clean();
        self.selection.keep_once = false;
        self.after_edit();
        changes
    }

    /// The text of line `row` without the last character of its line break.
    pub open spec fn row_text(&self, row: int) -> Seq<char> {
        self.code.chars().subrange(
            offset_of(self.code.chars(), row, 0),
            offset_of(self.code.chars(), row, self.width_at(row) as int),
        )
    }

    /// Makes the line of the cursor and the one before change places, and
    /// the cursor go with its line.  Where the lines cannot change places
    /// nothing changes.
    pub fn move_line_up(&mut self) -> (changes: Vec<LspChange>)
        requires
            old(self).wf(),
        ensures
            changes@.len() > 0 ==> old(self).refreshed(*final(self)),
            final(self).wf(),
            final(self).same_frame(old(self)),
            final(self).reached(changes@) == if old(self).r > 0 {
                old(self).swapped(old(self).r - 1, (old(self).r - 1) as usize)
            } else {
                old(self).at_rest()
            },
            final(self).code.same_setting(&old(self).code),
            old(self).r > 0 && moved(old(self).code.doc(), old(self).r - 1) is Some
                ==> final(self).selection.is_empty(),
    {
        if self.r == 0 || self.r >= self.code.len_lines() {
            let changes: Vec<LspChange> = Vec::new();
            proof {
                lemma_told(changes@);
            }
            return changes;
        }
        self.r -= 1;
        let changes = self.move_line_down();
        proof {
            lemma_told(changes@);
        }
        if changes.len() == 0 {
            self.r += 1;
            return changes;
        }
        self.r -= 1;
        changes
    }
}

impl Editor {
    /// The indent of this document's language, as far as it can be told: an
    /// empty unit gives an empty indent, and an indent of negative width is
    /// none.
    pub open spec fn indent_text(self) -> Option<Seq<char>> {
        match self.code.conf() {
            Some(l) => if l.indent_unit.len() == 0 {
                Some(Seq::empty())
            } else if l.indent_width >= 0 {
                Some(repeated(l.indent_unit, l.indent_width as nat))
            } else {
                None
            },
            None => None,
        }
    }

    /// What the Enter key leaves.  A selection that is shown is cut; a line
    /// feed is put in at the cursor, which goes to the start of the next
    /// row; there the indent of the language is put in as many times as the
    /// row that the cursor stood on was indented, and the cursor goes behind
    /// it.  Nothing is done where the cursor stands below the text.
    pub open spec fn entered(self) -> Step {
        let start = self.without_selection();
        let broken = typed(start, seq!['\n'], (start.r, above(start.c + 1)));
        let below = Step { r: (broken.r + 1) as usize, c: 0, ..broken };
        let indentation = repeated(
            self.indent_text().unwrap_or(Seq::empty()),
            indents(self.code.conf(), line_text(self.code.chars(), self.r as int)),
        );
        if self.r >= line_count(self.code.chars()) || self.r == usize::MAX {
            self.at_rest()
        } else if broken.told.len() == 0 || broken.r == usize::MAX {
            broken
        } else if self.indent_text() is Some {
            typed(below, indentation, (below.r, text_cells(indentation)))
        } else {
            below
        }
    }

    /// What the Enter key does: it breaks the line at the cursor and indents
    /// the new line as the line was indented that the cursor stood on.
    /// Nothing is done where the cursor does not stand in the text.
    pub fn handle_enter(&mut self) -> (changes: Vec<LspChange>)
        requires
            old(self).wf(),
        ensures
            changes@.len() > 0 && final(self).r != old(self).without_selection().r
                ==> final(self).seen(),
            changes@.len() > 0 ==> old(self).refreshed(*final(self)),
            final(self).wf(),
            final(self).same_frame(old(self)),
            final(self).reached(changes@) == old(self).entered(),
            final(self).code.same_setting(&old(self).code),
    {
        proof {
            lemma_cleaned(self.diagnostics@, self.uri());
        }
        if self.r >= self.code.len_lines() || self.r == usize::MAX {
            let changes: Vec<LspChange> = Vec::new();
            proof {
                lemma_told(changes@);
            }
            return changes;
        }
        let ic = self.code.indentation_level(self.r);
        let mut changes = self.insert_char('\n');
        proof {
            lemma_told(changes@);
        }
        if changes.len() == 0 {
            return changes;
        }
        if self.r == usize::MAX {
            return changes;
        }
        self.upd = true;
        self.r += 1;
        self.c = 0;
        let fits = match self.code.get_lang_conf() {
            Some(conf) => conf.indent.width >= 0 || conf.indent.unit.as_str().is_empty(),
            None => true,
        };
        if fits {
            if let Some(indent_string) = self.code.indent_string() {
                let indentation = repeat(indent_string.as_str(), ic);
                if self.code.has_position(self.r, self.c) {
                    self.code.insert_text(indentation.as_str(), self.r, self.c);
                    let change = change_put(self.r, self.c, indentation.as_str());
                    proof {
                        lemma_told_push(changes@, change);
                    }
                    changes.push(change);
                    self.c = crate::width::text_width(indentation.as_str());
                }
            }
        }
        self.focus();
        self.after_edit();
        changes
    }

    /// Puts `text` into the document at the cursor, in place of the
    /// selection where there is one, and the cursor behind it.  Nothing is
    /// done with an empty text, or where the cursor does not stand in the
    /// text.
    pub fn paste(&mut self, text: &str) -> (changes: Vec<LspChange>)
        requires
            old(self).wf(),
        ensures
            text@.len() > 0 && in_text(
                old(self).without_selection().doc.text,
                old(self).without_selection().r as int,
                old(self).without_selection().c as int,
            ) ==> final(self).seen(),
            changes@.len() > 0 ==> old(self).refreshed(*final(self)),
            final(self).wf(),
            final(self).same_frame(old(self)),
            text@.len() == 0 ==> final(self).code == old(self).code && final(self).reached(changes@)
                == old(self).at_rest(),
            text@.len() > 0 ==> final(self).reached(changes@) == typed(
                old(self).without_selection(),
                text@,
                advanced(
                    old(self).without_selection().r,
                    old(self).without_selection().c,
                    text@,
                ),
            ),
            final(self).code.same_setting(&old(self).code),
    {
        proof {
            lemma_cleaned(self.diagnostics@, self.uri());
        }
        let mut changes: Vec<LspChange> = Vec::new();
        proof {
            lemma_told(changes@);
        }
        if text.is_empty() {
            return changes;
        }
        if self.selection.non_empty_and_active() {
            changes = self.handle_cut();
        }
        if !self.code.has_position(self.r, self.c) {
            return changes;
        }
        self.code.insert_text(text, self.r, self.c);
        let change = change_put(self.r, self.c, text);
        proof {
            lemma_told_push(changes@, change);
        }
        changes.push(change);
        let (r, c) = advance(self.r, self.c, text);
        self.r = r;
        self.c = c;
        self.upd = true;
        self.focus();
        self.after_edit();
        changes
    }

    /// What a copy takes: what is selected, where that can be cut.
    pub open spec fn copied(self) -> Option<Seq<char>> {
        if self.can_cut() {
            Some(self.selected())
        } else {
            None
        }
    }

    /// What is selected, where both ends of the selection are places in the
    /// text.
    pub fn selected_text(&mut self) -> (text: Option<String>)
        ensures
            *final(self) == *old(self),
            crate::config::option_view(text) == old(self).copied(),
    {
        if self.selection.empty() {
            return None;
        }
        let (y, x) = self.selection.from();
        let (yto, xto) = self.selection.to();
        if !self.code.has_position(y, x) || !self.code.has_position(yto, xto) {
            return None;
        }
        // Taken for its bound: the number of characters fits in `usize`.
        let len = self.code.len_chars();
        if self.code.offset(y, x) > self.code.offset(yto, xto) {
            return None;
        }
        Some(self.code.get_text(y, x, yto, xto))
    }

    /// The text that a copy takes: the one that is given, or else what is
    /// selected.
    pub fn copy_to_clipboard(&mut self, maybe_text: Option<String>) -> (text: Option<String>)
        ensures
            *final(self) == *old(self),
            maybe_text is Some ==> text == maybe_text,
            maybe_text is None ==> crate::config::option_view(text) == old(self).copied(),
    {
        match maybe_text {
            Some(text) => Some(text),
            None => self.selected_text(),
        }
    }

    /// Keeps what was copied, for when the system has no clipboard.
    pub fn keep_copy(&mut self, text: String)
        ensures
            *final(self) == (Editor { clipboard: Some(text), ..*old(self) }),
    {
        self.clipboard = Some(text);
    }

    /// What a paste takes: what the system's clipboard holds, or else what
    /// was kept.
    pub fn get_clipboard(&self, system: Option<String>) -> (text: Option<String>)
        ensures
            system is Some ==> text == system,
            system is None && self.clipboard is None ==> text is None,
            system is None && self.clipboard is Some ==> text is Some && text->0@
                == self.clipboard->0@,
    {
        match system {
            Some(text) => Some(text),
            None => match &self.clipboard {
                Some(kept) => Some(kept.clone()),
                None => None,
            },
        }
    }

    /// What is selected, where that can be cut.
    pub open spec fn selected(self) -> Seq<char> {
        let from = self.selection.lower().indices();
        let to = self.selection.upper().indices();
        self.code.chars().subrange(
            offset_of(self.code.chars(), from.0 as int, from.1 as int),
            offset_of(self.code.chars(), to.0 as int, to.1 as int),
        )
    }

    /// What duplicating leaves.  With a selection that is shown, what is
    /// selected is put in once more at the cursor, which goes behind it.
    /// Without one, the row of the cursor, with its line break, is put in
    /// once more below itself, and the cursor goes down one row; the
    /// language server is told this as a line feed and the row, put in at
    /// the column that the row's bytes count.  The last row is not
    /// duplicated.
    pub open spec fn duplicated(self) -> Step {
        let at = offset_of(self.code.chars(), self.r as int, 0);
        let end = offset_of(self.code.chars(), self.r + 1, 0);
        let row = self.code.chars().subrange(at, end);
        if self.selection.shown() && !self.selection.is_empty() {
            if self.can_cut() {
                typed(self.at_rest(), self.selected(), advanced(self.r, self.c, self.selected()))
            } else {
                self.at_rest()
            }
        } else if self.r + 1 < line_count(self.code.chars()) {
            Step {
                doc: edited(self.code.doc(), insertion(end, row, self.r + 1, 0)),
                r: (self.r + 1) as usize,
                c: self.c,
                told: seq![
                    put_at(self.r as int, encode_utf8(row).len() as int, seq!['\n'] + row),
                ],
            }
        } else {
            self.at_rest()
        }
    }

    /// Duplicates the selection, or else the row of the cursor.
    pub fn handle_duplicate(&mut self) -> (changes: Vec<LspChange>)
        requires
            old(self).wf(),
        ensures
            changes@.len() > 0 ==> final(self).seen(),
            changes@.len() > 0 ==> old(self).refreshed(*final(self)),
            final(self).wf(),
            final(self).same_frame(old(self)),
            final(self).reached(changes@) == old(self).duplicated(),
            final(self).code.same_setting(&old(self).code),
            old(self).selection.shown() && old(self).can_cut() && in_text(
                old(self).code.chars(),
                old(self).r as int,
                old(self).c as int,
            ) ==> final(self).selection.is_empty() && !final(self).selection.shown(),
    {
        let mut changes: Vec<LspChange> = Vec::new();
        proof {
            lemma_told(changes@);
        }
        if self.selection.non_empty_and_active() {
            let text = match self.selected_text() {
                Some(text) => text,
                None => {
                    return changes;
                },
            };
            if !self.code.has_position(self.r, self.c) {
                return changes;
            }
            self.code.insert_text(text.as_str(), self.r, self.c);
            let change = change_put(self.r, self.c, text.as_str());
            proof {
                lemma_told_push(changes@, change);
            }
            changes.push(change);
            let (r, c) = advance(self.r, self.c, text.as_str());
            self.r = r;
            self.c = c;
            self.selection.clean();
            self.selection.keep_once = false;
            self.upd = true;
            self.focus();
            self.after_edit();
        } else if self.r < self.code.len_lines() - 1 {
            proof {
                crate::text::lemma_line_start_monotone(self.code.chars(), self.r as int, self.r + 1);
            }
            let text = self.code.get_text(self.r, 0, self.r + 1, 0);
            self.r += 1;
            self.code.insert_text(text.as_str(), self.r, 0);
            let at = text.as_str().as_bytes().len();
            let change = change_put(self.r - 1, at, joined("\n", text.as_str()).as_str());
            proof {
                reveal_strlit("\n");
                assert("\n"@ =~= seq!['\n']);
                lemma_told_push(changes@, change);
                assert(change_views(changes@.push(change)) =~= seq![change@]);
            }
            changes.push(change);
            self.upd = true;
            self.focus();
            self.after_edit();
        }
        changes
    }

    /// What toggling the comment of the cursor's row leaves.  Where the
    /// scan finds the comment token of the language in the row, the token
    /// is taken out; else it is put in before the first character that is
    /// no white space, looked for up to the cursor, or at the start of the
    /// row where there is none.  The cursor then goes down one row.
    /// Nothing is done in a document without a language or with an empty
    /// token, nor where the token would not lie in the text.  The token is
    /// taken to span as many columns as it has bytes.
    pub open spec fn commented(self) -> Step {
        let text = self.code.chars();
        let r = self.r as int;
        let line = line_text(text, r);
        let token = self.code.conf()->0.comment;
        let has_row = self.r < line_count(text);
        let found = if has_row {
            scan_match(line, token, 0, 0)
        } else {
            None
        };
        let blank = if has_row {
            first_non_space(line, self.c as int, 0)
        } else {
            None
        };
        let at = if found is Some {
            found->0
        } else if blank is Some {
            blank->0
        } else {
            0
        };
        let end = at + encode_utf8(token).len();
        let change = if found is Some {
            removal(
                offset_of(text, r, at),
                text.subrange(offset_of(text, r, at), offset_of(text, r, end)),
                r,
                end,
            )
        } else {
            insertion(offset_of(text, r, at), token, r, at)
        };
        let doc = edited(self.code.doc(), change);
        if self.code.conf() is None || token.len() == 0 {
            self.at_rest()
        } else if !in_text(text, r, at) || (found is Some && (end > usize::MAX || !in_text(
            text,
            r,
            end,
        ))) {
            self.at_rest()
        } else {
            Step {
                doc,
                r: one_down(doc.text, self.r, self.c).0,
                c: one_down(doc.text, self.r, self.c).1,
                told: seq![
                    if found is Some {
                        taken_out(r, at, r, end)
                    } else {
                        put_at(r, at, token)
                    },
                ],
            }
        }
    }

    /// Toggles the comment of the cursor's row.
    pub fn comment_line(&mut self) -> (changes: Vec<LspChange>)
        requires
            old(self).wf(),
        ensures
            changes@.len() > 0 ==> final(self).seen(),
            changes@.len() > 0 ==> old(self).refreshed(*final(self)),
            final(self).wf(),
            final(self).same_frame(old(self)),
            final(self).reached(changes@) == old(self).commented(),
            final(self).code.same_setting(&old(self).code),
            changes@.len() == 0 ==> *final(self) == *old(self),
    {
        let mut changes: Vec<LspChange> = Vec::new();
        proof {
            lemma_told(changes@);
        }
        let comment = match self.code.get_lang_comment() {
            Some(comment) => comment,
            None => {
                return changes;
            },
        };
        if comment.as_str().is_empty() {
            return changes;
        }
        match self.code.find_comment(self.r) {
            Some(comment_index) => {
                let comment_len = comment.as_str().as_bytes().len();
                let end = match comment_index.checked_add(comment_len) {
                    Some(end) => end,
                    None => {
                        return changes;
                    },
                };
                if !self.code.has_position(self.r, comment_index) || !self.code.has_position(
                    self.r,
                    end,
                ) {
                    return changes;
                }
                self.code.remove_text(self.r, comment_index, self.r, end);
                let change = change_take(self.r, comment_index, self.r, end);
                proof {
                    lemma_told_push(changes@, change);
                    assert(change_views(changes@.push(change)) =~= seq![change@]);
                }
                changes.push(change);
            },
            None => {
                let first_non_whitespace = match self.code.find_first_non_whitespace(self.r, self.c) {
                    Some(at) => at,
                    None => 0,
                };
                if !self.code.has_position(self.r, first_non_whitespace) {
                    return changes;
                }
                self.code.insert_text(comment.as_str(), self.r, first_non_whitespace);
                let change = change_put(self.r, first_non_whitespace, comment.as_str());
                proof {
                    lemma_told_push(changes@, change);
                    assert(change_views(changes@.push(change)) =~= seq![change@]);
                }
                changes.push(change);
            },
        }
        self.upd = true;
        self.focus();
        // Taken for its bound: the number of lines fits in `usize`.
        let lines = self.code.len_lines();
        self.handle_down();
        self.after_edit();
        changes
    }

    /// What applying a completion leaves: the word around the cursor, from
    /// the break before the cursor to the next one, gives way to the text of
    /// the entry, and the cursor goes as many columns behind the start of
    /// the word as that text has bytes.  Nothing is done with an entry that
    /// has neither a text nor a label, on an empty row, or where the word
    /// does not lie in the text.
    pub open spec fn completed(self, item: CompletionItem) -> Step {
        let text = self.code.chars();
        let r = self.r as int;
        let line = line_text(text, r);
        let prev = crate::utils::prev_break(line, self.c as int);
        let next = crate::utils::next_break(line, self.c as int);
        let at = offset_of(text, r, prev);
        let end = offset_of(text, r, next);
        let cut = edited(self.code.doc(), removal(at, text.subrange(at, end), r, next));
        if (item.new_text is None && item.label@.len() == 0) || self.r >= line_count(text)
            || line.len() == 0 || prev > next || !in_text(text, r, prev) || !in_text(
            text,
            r,
            next,
        ) {
            self.at_rest()
        } else {
            Step {
                doc: edited(
                    cut,
                    insertion(offset_of(cut.text, r, prev), item.insert_text(), r, prev),
                ),
                r: self.r,
                c: above(prev + encode_utf8(item.insert_text()).len()),
                told: seq![taken_out(r, prev, r, next), put_at(r, prev, item.insert_text())],
            }
        }
    }

    /// Applies a completion: the word around the cursor gives way to the
    /// text of the item.
    pub fn lsp_completion_apply(&mut self, item: &CompletionItem) -> (changes: Vec<LspChange>)
        requires
            old(self).wf(),
        ensures
            changes@.len() > 0 ==> old(self).refreshed(*final(self)),
            final(self).wf(),
            final(self).same_frame(old(self)),
            final(self).code.same_setting(&old(self).code),
            final(self).reached(changes@) == old(self).completed(*item),
            changes@.len() == 0 ==> final(self).code == old(self).code,
    {
        let mut changes: Vec<LspChange> = Vec::new();
        proof {
            lemma_told(changes@);
        }
        if item.new_text.is_none() && item.label.as_str().is_empty() {
            return changes;
        }
        if self.r >= self.code.len_lines() {
            return changes;
        }
        let line = self.code.line_string(self.r);
        if line.as_str().is_empty() {
            return changes;
        }
        let prev = crate::utils::find_prev_word(line.as_str(), self.c);
        let next = crate::utils::find_next_word(line.as_str(), self.c);
        let insert_text = match &item.new_text {
            Some(text) => text.as_str(),
            None => item.label.as_str(),
        };
        if !self.code.has_position(self.r, prev) || !self.code.has_position(self.r, next) || prev
            > next {
            return changes;
        }
        proof {
            crate::text::lemma_place_survives_removal(
                self.code.chars(),
                self.r as int,
                prev as int,
                offset_of(self.code.chars(), self.r as int, next as int),
            );
        }
        self.code.remove_text(self.r, prev, self.r, next);
        self.code.insert_text(insert_text, self.r, prev);
        let taken = change_take(self.r, prev, self.r, next);
        let put = change_put(self.r, prev, insert_text);
        proof {
            lemma_told_push(changes@, taken);
            lemma_told_push(changes@.push(taken), put);
            assert(change_views(changes@.push(taken).push(put)) =~= seq![taken@, put@]);
        }
        changes.push(taken);
        changes.push(put);
        self.c = prev.saturating_add(insert_text.as_bytes().len());
        self.after_edit();
        changes
    }

    /// The chain of nodes that a structural selection grows along belongs
    /// to the place of the cursor.
    pub open spec fn on_path(self) -> bool {
        self.node_path matches Some(p) && p.row == self.r && p.column == self.c
    }

    /// `after` has a chain that was found anew for the place of the cursor,
    /// and selects the first node of it; where there is no chain, or no node
    /// in it, its selection is `otherwise`.
    pub open spec fn fresh_path(self, after: Editor, otherwise: Selection) -> bool {
        match after.node_path {
            Some(q) => q.row == self.r && q.column == self.c && q.current == 0
                && after.selection == if q.nodes@.len() > 0 {
                covering(self.selection, q.nodes@[0])
            } else {
                otherwise
            },
            None => after.selection == otherwise,
        }
    }

    /// `after` differs from this editor in nothing but the structural
    /// selection: the chain of nodes, what is selected, and that it has to
    /// be painted.
    pub open spec fn reselected(self, after: Editor) -> bool {
        &&& after == (Editor {
            selection: after.selection,
            node_path: after.node_path,
            upd: after.upd,
            ..self
        })
        &&& self.upd ==> after.upd
        &&& self.code.is_plain() && !self.on_path() ==> after.node_path is None
    }

    /// `after` is this editor with the structural selection grown: along
    /// the chain to the next node around, the last one at most, where the
    /// chain belongs to the place of the cursor; else to the first node of a
    /// chain found anew.
    pub open spec fn grows(self, after: Editor) -> bool {
        &&& self.reselected(after)
        &&& if self.on_path() {
            let p = self.node_path->0;
            let next = if p.nodes@.len() == 0 {
                p.current
            } else if p.current + 1 >= p.nodes@.len() {
                (p.nodes@.len() - 1) as usize
            } else {
                (p.current + 1) as usize
            };
            &&& after.node_path is Some
            &&& after.node_path->0 == (NodePath { current: next, ..p })
            &&& after.selection == if p.nodes@.len() == 0 {
                self.selection
            } else {
                covering(self.selection, p.nodes@[next as int])
            }
        } else {
            self.fresh_path(after, self.selection)
        }
    }

    /// `after` is this editor with the structural selection shrunk: along
    /// the chain to the node within, and to nothing from the first node,
    /// where the chain belongs to the place of the cursor; else to the first
    /// node of a chain found anew, or to nothing where there is none.
    pub open spec fn shrinks(self, after: Editor) -> bool {
        &&& self.reselected(after)
        &&& after.upd
        &&& if self.on_path() {
            let p = self.node_path->0;
            &&& after.node_path is Some
            &&& after.node_path->0 == (NodePath {
                current: if p.current > 0 {
                    (p.current - 1) as usize
                } else {
                    0
                },
                ..p
            })
            &&& after.selection == if 0 < p.current <= p.nodes@.len() {
                covering(self.selection, p.nodes@[p.current - 1])
            } else {
                cleared(self.selection)
            }
        } else {
            self.fresh_path(after, cleared(self.selection))
        }
    }

    /// Grows the structural selection: to the smallest node around the
    /// cursor first, and with each further step to the node around that.
    /// Nothing is selected in a plain document.
    pub fn select_more(&mut self)
        requires
            old(self).wf(),
        ensures
            final(self).wf(),
            old(self).grows(*final(self)),
    {
        let next = match &self.node_path {
            Some(path) => path.row == self.r && path.column == self.c,
            None => false,
        };
        if !next {
            self.node_path = self.code.get_node_path(self.r, self.c);
        }
        let node = match &mut self.node_path {
            Some(path) => {
                if next {
                    if path.nodes.len() == 0 {
                        None
                    } else {
                        match path.next_node() {
                            Some(node) => Some(*node),
                            None => None,
                        }
                    }
                } else {
                    match path.current_node() {
                        Some(node) => Some(*node),
                        None => None,
                    }
                }
            },
            None => None,
        };
        if let Some(((start_row, start_column), (end_row, end_column))) = node {
            self.selection.set_start(start_row, start_column);
            self.selection.set_end(end_row, end_column);
            self.selection.active = true;
            self.upd = true;
        }
    }

    /// Shrinks the structural selection to the node within, and ends it at
    /// the smallest node.
    pub fn select_less(&mut self)
        requires
            old(self).wf(),
        ensures
            final(self).wf(),
            old(self).shrinks(*final(self)),
    {
        let prev = match &self.node_path {
            Some(path) => path.row == self.r && path.column == self.c,
            None => false,
        };
        if !prev {
            self.node_path = self.code.get_node_path(self.r, self.c);
        }
        let node = match &mut self.node_path {
            Some(path) => {
                if prev {
                    match path.prev_node() {
                        Some(node) => Some(*node),
                        None => None,
                    }
                } else {
                    match path.current_node() {
                        Some(node) => Some(*node),
                        None => None,
                    }
                }
            },
            None => None,
        };
        match node {
            Some(((start_row, start_column), (end_row, end_column))) => {
                self.selection.set_start(start_row, start_column);
                self.selection.set_end(end_row, end_column);
                self.selection.active = true;
            },
            None => {
                self.selection.clean();
            },
        }
        self.upd = true;
    }
}

} // verus!
