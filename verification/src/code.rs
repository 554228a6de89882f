//! A document: its text in a rope, its edit history and its language
//! settings.
//!
//! Every edit goes through `insert_text`, `remove_text` or a function built
//! on them.  Each records what it did, so that `undo` can take it back and
//! `redo` can carry it out again.

use crate::chars::{
    is_space, is_whitespace, is_word_char, repeat, repeated, same_text, str_chars, word_char,
};
use crate::config::{option_view, Config, LanguageConf, LanguageView};
use crate::history::{
    consistent, edit_count, edited, grouped, insertion, is_edit, lemma_apply_revert,
    lemma_edit_count_push, lemma_edited_consistent, lemma_edited_tidy, lemma_group_tidy,
    lemma_mark_redoable, lemma_mark_undoable, lemma_redo_after_undo, lemma_revert_apply,
    lemma_undo_after_redo, tidy, lemma_views_drop_last, lemma_views_push, mark,
    redo_from, redo_step, removal, undo_from, undo_step, views, Change, ChangeView, DocView,
    MultipleChange, Operation,
};
use crate::order::in_order;
use crate::rope::{
    rope_char, rope_char_to_byte, rope_char_to_line, rope_chars, rope_clone, rope_from_str,
    rope_insert, rope_len_chars, rope_len_lines, rope_line_to_char, rope_new, rope_remove,
    rope_str, rope_substring,
};
use crate::screen::Color;
use crate::syntax::{
    grammar_at, larger, node_text, order_spans, paint_list, painted, widen, Grammar, NodePath,
    Span, Syntax, SyntaxError, Theme,
};
use crate::text::{
    breaks_before, byte_offset, ceil_div, insert_at, leading, leading_from,
    lemma_breaks_monotone, lemma_line_not_empty, lemma_line_start, lemma_line_start_monotone,
    lemma_line_start_past_end, lemma_place_survives_removal, line_count, line_start, line_text,
    line_width, occurrences, remove_range,
};
use vstd::prelude::*;

verus! {

/// The character offset of column `col` of line `row`.
pub open spec fn offset_of(text: Seq<char>, row: int, col: int) -> int {
    line_start(text, row) + col
}

/// `(row, col)` names a place in `text`: a line of it, or the line one past
/// the last, and an offset that lies within the text.
pub open spec fn in_text(text: Seq<char>, row: int, col: int) -> bool {
    0 <= row <= line_count(text) && 0 <= col && offset_of(text, row, col) <= text.len()
}

/// A document: its text, its names and language, its history, the cursor
/// that it keeps while it is not in view, and its syntax where it has one.
pub struct Code {
    pub file_name: String,
    pub abs_path: String,
    pub lang: String,
    pub text: ropey::Rope,
    pub changed: bool,
    pub undo_history: Vec<Change>,
    pub redo_history: Vec<Change>,
    pub r: usize,
    pub c: usize,
    pub x: usize,
    pub y: usize,
    pub lang_conf: Option<LanguageConf>,
    pub runnables: Vec<Runnable>,
    pub syntax: Option<Syntax>,
}

impl Code {
    /// The characters of the document.
    pub open spec fn chars(&self) -> Seq<char> {
        rope_chars(self.text)
    }

    /// The document as far as its history goes.
    pub open spec fn doc(&self) -> DocView {
        DocView {
            text: rope_chars(self.text),
            undo: views(self.undo_history@),
            redo: views(self.redo_history@),
        }
    }

    /// The document is sound and its stacks are tidy: made of edits and of
    /// whole groups of edits.
    pub open spec fn wf(&self) -> bool {
        &&& self.sound()
        &&& tidy(self.doc())
    }

    /// The two stacks fit the text: what they record can be taken back and
    /// carried out again.  A plain document has no runnables.  This holds
    /// while a group is being recorded, too.
    pub open spec fn sound(&self) -> bool {
        &&& consistent(self.doc())
        &&& self.syntax matches Some(syntax) ==> syntax.wf()
        &&& self.is_plain() ==> self.runnables@.len() == 0
    }

    /// The document is plain text: it has no syntax.
    pub open spec fn is_plain(&self) -> bool {
        self.syntax is None
    }

    /// The cursor that the document keeps while it is not shown: row, column,
    /// and the scroll offsets.
    pub open spec fn cursor(&self) -> (usize, usize, usize, usize) {
        (self.r, self.c, self.y, self.x)
    }

    /// The settings of the document's language.
    pub open spec fn conf(&self) -> Option<LanguageView> {
        match self.lang_conf {
            Some(l) => Some(l@),
            None => None,
        }
    }

    /// What an edit leaves alone: names, language, settings and the kept
    /// cursor.
    pub open spec fn same_setting(&self, other: &Code) -> bool {
        &&& self.file_name@ == other.file_name@
        &&& self.abs_path@ == other.abs_path@
        &&& self.lang@ == other.lang@
        &&& self.cursor() == other.cursor()
        &&& self.conf() == other.conf()
        &&& self.is_plain() == other.is_plain()
    }

    /// An empty document without a name or a language.
    pub fn new() -> (code: Self)
        ensures
            code.wf(),
            code.chars().len() == 0,
            code.doc().undo.len() == 0,
            code.doc().redo.len() == 0,
            !code.changed,
            code.file_name@.len() == 0,
            code.abs_path@.len() == 0,
            code.lang@.len() == 0,
            code.cursor() == (0usize, 0usize, 0usize, 0usize),
            code.conf() is None,
            code.is_plain(),
            code.runnables@.len() == 0,
    {
        let code = Self {
            text: rope_new(),
            file_name: String::new(),
            abs_path: String::new(),
            changed: false,
            undo_history: Vec::new(),
            redo_history: Vec::new(),
            lang: String::new(),
            r: 0,
            c: 0,
            x: 0,
            y: 0,
            lang_conf: None,
            runnables: Vec::new(),
            syntax: None,
        };
        assert(views(code.undo_history@) =~= Seq::<ChangeView>::empty());
        assert(views(code.redo_history@) =~= Seq::<ChangeView>::empty());
        code
    }

    /// A document that holds `text`, put in by one recorded insertion.
    pub fn from_str(text: &str) -> (code: Self)
        ensures
            code.wf(),
            code.chars() == text@,
            code.doc().undo == seq![insertion(0, text@, 0, 0)],
            code.doc().redo.len() == 0,
            code.changed,
    {
        let mut code = Self::new();
        proof {
            crate::text::lemma_empty_text();
        }
        code.insert_text(text, 0, 0);
        assert(code.chars() =~= text@);
        assert(code.doc().undo =~= seq![insertion(0, text@, 0, 0)]);
        code
    }

    /// Keeps a cursor and a view for when the document comes in view again.
    pub fn set_cursor_position(&mut self, r: usize, c: usize, y: usize, x: usize)
        ensures
            *final(self) == (Code { r, c, y, x, ..*old(self) }),
    {
        self.r = r;
        self.c = c;
        self.y = y;
        self.x = x;
    }

    /// The cursor and the view that the document keeps.
    pub fn get_cursor_position(&mut self) -> (p: (usize, usize, usize, usize))
        ensures
            p == old(self).cursor(),
            *final(self) == *old(self),
    {
        (self.r, self.c, self.y, self.x)
    }

    /// Puts `text` before the character at offset `from`.
    fn insert(&mut self, text: &str, from: usize)
        requires
            from <= old(self).chars().len(),
            old(self).syntax matches Some(syntax) ==> syntax.wf(),
        ensures
            old(self).has_tree() ==> old(self).rebuilt(final(self)),
            !old(self).has_tree() ==> final(self).runnables == old(self).runnables
                && !final(self).has_tree(),
            final(self).is_plain() ==> final(self).runnables == old(self).runnables,
            final(self).chars() == insert_at(old(self).chars(), from as int, text@),
            final(self).undo_history == old(self).undo_history,
            final(self).redo_history == old(self).redo_history,
            final(self).changed,
            final(self).same_setting(old(self)),
            final(self).syntax matches Some(syntax) ==> syntax.wf(),
    {
        let offset_byte = rope_char_to_byte(&self.text, from);
        rope_insert(&mut self.text, from, text);
        self.changed = true;
        // Taken for its bound: the number of characters fits in `usize`.
        let len = rope_len_chars(&self.text);
        let end = from + text.unicode_len();
        let new_end_byte = rope_char_to_byte(&self.text, end);
        self.apply_edit(offset_byte, offset_byte, new_end_byte);
    }

    /// The document has a syntax tree: it is not plain, and its text could
    /// be parsed.
    pub open spec fn has_tree(&self) -> bool {
        self.syntax matches Some(syntax) && syntax.tree is Some
    }

    /// The runnables of `after` were found anew for this document: they are
    /// those of its language for its path and the tests that the test query
    /// found.  A document without language settings keeps those that it had.
    pub open spec fn rebuilt(&self, after: &Code) -> bool {
        match self.conf() {
            Some(conf) => exists|tests: Seq<(Seq<char>, usize)>|
                #![trigger runnables_for(conf, self.abs_path@, tests)]
                runnable_views(after.runnables@) == runnables_for(conf, self.abs_path@, tests),
            None => after.runnables == self.runnables,
        }
    }

    /// Runnables that were found anew stay so when they are found anew once
    /// more, for a document with the same settings and path.
    pub proof fn lemma_rebuilt_again(&self, between: &Code, after: &Code)
        requires
            self.conf() == between.conf(),
            self.abs_path@ == between.abs_path@,
            self.rebuilt(between) || between.runnables == self.runnables,
            between.rebuilt(after) || (after.runnables == between.runnables && self.rebuilt(
                between,
            )),
        ensures
            self.rebuilt(after),
    {
    }

    /// Tells the syntax tree of an edit, has the text parsed anew and the
    /// runnable lines found again.  A plain document has nothing to do.
    fn apply_edit(&mut self, start_byte: usize, old_end_byte: usize, new_end_byte: usize)
        requires
            old(self).syntax matches Some(syntax) ==> syntax.wf(),
        ensures
            *final(self) == (Code {
                syntax: final(self).syntax,
                runnables: final(self).runnables,
                ..*old(self)
            }),
            final(self).is_plain() == old(self).is_plain(),
            final(self).syntax matches Some(syntax) ==> syntax.wf(),
            old(self).has_tree() ==> old(self).rebuilt(final(self)),
            !old(self).has_tree() ==> *final(self) == *old(self),
    {
        let parsed = match &mut self.syntax {
            Some(syntax) => syntax.edit(&self.text, start_byte, old_end_byte, new_end_byte),
            None => false,
        };
        if parsed {
            self.update_runnables();
        }
    }

    /// Finds the lines that can be run: line 0 where the language has a
    /// command to run a file, and each line on which the test query finds a
    /// test where it has a command to run a test.  A document without
    /// language settings keeps the lines that it has.
    pub fn update_runnables(&mut self)
        requires
            old(self).syntax matches Some(syntax) ==> syntax.wf(),
        ensures
            *final(self) == (Code { runnables: final(self).runnables, ..*old(self) }),
            old(self).is_plain() ==> final(self).runnables@.len() == 0,
            !old(self).is_plain() ==> old(self).rebuilt(final(self)),
    {
        if self.syntax.is_none() {
            self.runnables = Vec::new();
            return ;
        }
        let lang = match &self.lang_conf {
            Some(lang) => lang,
            None => {
                return ;
            },
        };
        let mut found: Vec<Runnable> = Vec::new();
        let mut tests: Vec<(String, usize)> = Vec::new();
        let runs = match lang.executable {
            Some(true) => true,
            _ => false,
        };
        assert(runnable_views(found@) =~= Seq::<RunnableView>::empty());
        if runs {
            if let Some(template) = &lang.exec_cmd {
                if let Some(runnable) = file_runnable(template.as_str(), self.abs_path.as_str()) {
                    put_runnable(&mut found, runnable);
                    assert(runnable_views(found@) =~= seq![runnable@]);
                }
            }
            if let Some(template) = &lang.exectest {
                if let Some(syntax) = &self.syntax {
                    let captures = syntax.test_captures(&self.text);
                    let mut i: usize = 0;
                    while i < captures.len()
                        invariant
                            i <= captures@.len(),
                        decreases captures@.len() - i,
                    {
                        let capture = &captures[i];
                        let name = node_text(&self.text, capture.start_byte, capture.end_byte);
                        tests.push((name, capture.row));
                        i += 1;
                    }
                }
                add_tests(&mut found, template.as_str(), self.abs_path.as_str(), &tests);
            }
        }
        proof {
            assert(tests_view(tests@).len() == tests@.len());
            assert(runnable_views(found@) == runnables_for(
                self.conf()->0,
                self.abs_path@,
                tests_view(tests@),
            ));
        }
        self.runnables = found;
    }

    /// Takes out the characters from offset `from` up to `to`.
    fn remove(&mut self, from: usize, to: usize)
        requires
            from <= to <= old(self).chars().len(),
            old(self).syntax matches Some(syntax) ==> syntax.wf(),
        ensures
            old(self).has_tree() ==> old(self).rebuilt(final(self)),
            !old(self).has_tree() ==> final(self).runnables == old(self).runnables
                && !final(self).has_tree(),
            final(self).is_plain() ==> final(self).runnables == old(self).runnables,
            final(self).chars() == remove_range(old(self).chars(), from as int, to as int),
            final(self).undo_history == old(self).undo_history,
            final(self).redo_history == old(self).redo_history,
            final(self).changed,
            final(self).same_setting(old(self)),
            final(self).syntax matches Some(syntax) ==> syntax.wf(),
    {
        let from_byte = rope_char_to_byte(&self.text, from);
        let to_byte = rope_char_to_byte(&self.text, to);
        rope_remove(&mut self.text, from, to);
        self.changed = true;
        self.apply_edit(from_byte, to_byte, from_byte);
    }

    /// The offset of a place in the text.
    fn position(&self, row: usize, col: usize) -> (at: usize)
        requires
            in_text(self.chars(), row as int, col as int),
        ensures
            at == offset_of(self.chars(), row as int, col as int),
            at <= self.chars().len(),
    {
        proof {
            lemma_line_start_monotone(self.chars(), row as int, row as int);
        }
        let len = rope_len_chars(&self.text);
        let start = rope_line_to_char(&self.text, row).unwrap();
        assert(start + col <= len);
        start + col
    }

    /// Whether `(row, col)` names a place in the text, so that an edit may be
    /// made there.
    pub fn has_position(&self, row: usize, col: usize) -> (r: bool)
        ensures
            r == in_text(self.chars(), row as int, col as int),
    {
        match rope_line_to_char(&self.text, row) {
            Some(start) => {
                proof {
                    lemma_line_start_monotone(self.chars(), row as int, row as int);
                }
                let len = rope_len_chars(&self.text);
                start <= len && col <= len - start
            },
            None => false,
        }
    }

    /// Inserts `text` at column `column` of line `row`, and records the
    /// insertion.  The redo stack is emptied.
    pub fn insert_text(&mut self, text: &str, row: usize, column: usize)
        requires
            old(self).wf(),
            in_text(old(self).chars(), row as int, column as int),
        ensures
            old(self).has_tree() ==> old(self).rebuilt(final(self)),
            final(self).wf(),
            !old(self).has_tree() ==> final(self).runnables == old(self).runnables,
            final(self).doc() == edited(
                old(self).doc(),
                insertion(
                    offset_of(old(self).chars(), row as int, column as int),
                    text@,
                    row as int,
                    column as int,
                ),
            ),
            final(self).changed,
            final(self).same_setting(old(self)),
    {
        self.put_text(text, row, column);
        proof {
            lemma_edited_tidy(old(self).doc(), self.doc().undo.last());
        }
    }

    /// Inserts `text` at column `column` of line `row` and records the
    /// insertion, also while a group is being recorded.
    fn put_text(&mut self, text: &str, row: usize, column: usize)
        requires
            old(self).sound(),
            in_text(old(self).chars(), row as int, column as int),
        ensures
            old(self).has_tree() ==> old(self).rebuilt(final(self)),
            final(self).sound(),
            !old(self).has_tree() ==> final(self).runnables == old(self).runnables
                && !final(self).has_tree(),
            final(self).doc() == edited(
                old(self).doc(),
                insertion(
                    offset_of(old(self).chars(), row as int, column as int),
                    text@,
                    row as int,
                    column as int,
                ),
            ),
            final(self).changed,
            final(self).same_setting(old(self)),
    {
        let from = self.position(row, column);
        self.insert(text, from);

        let change = Change {
            start: from,
            operation: Operation::Insert,
            text: crate::chars::str_to_string(text),
            row,
            column,
        };
        proof {
            lemma_views_push(self.undo_history@, change);
            lemma_edited_consistent(old(self).doc(), change@);
        }
        self.undo_history.push(change);
        self.redo_history.clear();
        assert(views(self.redo_history@) =~= Seq::<ChangeView>::empty());
    }

    /// Inserts one character.
    pub fn insert_char(&mut self, c: char, row: usize, column: usize)
        requires
            old(self).wf(),
            in_text(old(self).chars(), row as int, column as int),
        ensures
            old(self).has_tree() ==> old(self).rebuilt(final(self)),
            final(self).wf(),
            !old(self).has_tree() ==> final(self).runnables == old(self).runnables,
            final(self).doc() == edited(
                old(self).doc(),
                insertion(
                    offset_of(old(self).chars(), row as int, column as int),
                    seq![c],
                    row as int,
                    column as int,
                ),
            ),
            final(self).changed,
            final(self).same_setting(old(self)),
    {
        let mut s = String::new();
        crate::chars::push_char(&mut s, c);
        assert(s@ =~= seq![c]);
        self.insert_text(s.as_str(), row, column);
    }

    /// Removes the text from `(row, col)` up to `(row1, col1)`, and records
    /// what was removed and where it ended.  The redo stack is emptied.
    pub fn remove_text(&mut self, row: usize, col: usize, row1: usize, col1: usize)
        requires
            old(self).wf(),
            in_text(old(self).chars(), row as int, col as int),
            in_text(old(self).chars(), row1 as int, col1 as int),
            offset_of(old(self).chars(), row as int, col as int) <= offset_of(
                old(self).chars(),
                row1 as int,
                col1 as int,
            ),
        ensures
            old(self).has_tree() ==> old(self).rebuilt(final(self)),
            final(self).wf(),
            !old(self).has_tree() ==> final(self).runnables == old(self).runnables,
            final(self).doc() == edited(
                old(self).doc(),
                removal(
                    offset_of(old(self).chars(), row as int, col as int),
                    old(self).chars().subrange(
                        offset_of(old(self).chars(), row as int, col as int),
                        offset_of(old(self).chars(), row1 as int, col1 as int),
                    ),
                    row1 as int,
                    col1 as int,
                ),
            ),
            final(self).changed,
            final(self).same_setting(old(self)),
    {
        self.cut_text(row, col, row1, col1);
        proof {
            lemma_edited_tidy(old(self).doc(), self.doc().undo.last());
        }
    }

    /// Removes the text from `(row, col)` up to `(row1, col1)` and records
    /// it, also while a group is being recorded.
    fn cut_text(&mut self, row: usize, col: usize, row1: usize, col1: usize)
        requires
            old(self).sound(),
            in_text(old(self).chars(), row as int, col as int),
            in_text(old(self).chars(), row1 as int, col1 as int),
            offset_of(old(self).chars(), row as int, col as int) <= offset_of(
                old(self).chars(),
                row1 as int,
                col1 as int,
            ),
        ensures
            old(self).has_tree() ==> old(self).rebuilt(final(self)),
            final(self).sound(),
            !old(self).has_tree() ==> final(self).runnables == old(self).runnables
                && !final(self).has_tree(),
            final(self).doc() == edited(
                old(self).doc(),
                removal(
                    offset_of(old(self).chars(), row as int, col as int),
                    old(self).chars().subrange(
                        offset_of(old(self).chars(), row as int, col as int),
                        offset_of(old(self).chars(), row1 as int, col1 as int),
                    ),
                    row1 as int,
                    col1 as int,
                ),
            ),
            final(self).changed,
            final(self).same_setting(old(self)),
    {
        let from = self.position(row, col);
        let to = self.position(row1, col1);
        let text = rope_substring(&self.text, from, to);

        self.remove(from, to);

        let change = Change {
            start: from,
            operation: Operation::Remove,
            text,
            row: row1,
            column: col1,
        };
        proof {
            lemma_views_push(self.undo_history@, change);
            lemma_edited_consistent(old(self).doc(), change@);
        }
        self.undo_history.push(change);
        self.redo_history.clear();
        assert(views(self.redo_history@) =~= Seq::<ChangeView>::empty());
    }

    /// Removes the character before column `column` of line `row`.
    pub fn remove_char(&mut self, row: usize, column: usize)
        requires
            old(self).wf(),
            column >= 1,
            in_text(old(self).chars(), row as int, column as int),
        ensures
            old(self).has_tree() ==> old(self).rebuilt(final(self)),
            final(self).wf(),
            !old(self).has_tree() ==> final(self).runnables == old(self).runnables,
            final(self).doc() == edited(
                old(self).doc(),
                removal(
                    offset_of(old(self).chars(), row as int, column - 1),
                    old(self).chars().subrange(
                        offset_of(old(self).chars(), row as int, column - 1),
                        offset_of(old(self).chars(), row as int, column as int),
                    ),
                    row as int,
                    column as int,
                ),
            ),
            final(self).changed,
            final(self).same_setting(old(self)),
    {
        proof {
            lemma_line_start_monotone(self.chars(), row as int, row as int);
        }
        self.remove_text(row, column - 1, row, column);
    }

    /// The text from `(row, col)` up to `(row1, col1)`.
    pub fn get_text(&mut self, row: usize, col: usize, row1: usize, col1: usize) -> (s: String)
        requires
            in_text(old(self).chars(), row as int, col as int),
            in_text(old(self).chars(), row1 as int, col1 as int),
            offset_of(old(self).chars(), row as int, col as int) <= offset_of(
                old(self).chars(),
                row1 as int,
                col1 as int,
            ),
        ensures
            *final(self) == *old(self),
            s@ == old(self).chars().subrange(
                offset_of(old(self).chars(), row as int, col as int),
                offset_of(old(self).chars(), row1 as int, col1 as int),
            ),
    {
        let from = self.position(row, col);
        let to = self.position(row1, col1);
        rope_substring(&self.text, from, to)
    }

    /// The number of columns of line `idx`: its characters, without the last
    /// one of its line break.
    pub fn line_len(&self, idx: usize) -> (n: usize)
        requires
            idx < line_count(self.chars()),
        ensures
            n == line_width(self.chars(), idx as int),
    {
        proof {
            lemma_line_start_monotone(self.chars(), idx as int, idx + 1);
        }
        let lines = rope_len_lines(&self.text);
        let start = rope_line_to_char(&self.text, idx).unwrap();
        let end = rope_line_to_char(&self.text, idx + 1).unwrap();
        let len = end - start;
        if idx == lines - 1 {
            len
        } else {
            len.saturating_sub(1)
        }
    }

    /// The byte offset at which the character at `char_idx` starts.
    pub fn char_to_byte(&self, char_idx: usize) -> (b: usize)
        requires
            char_idx <= self.chars().len(),
        ensures
            b == byte_offset(self.chars(), char_idx as int),
    {
        rope_char_to_byte(&self.text, char_idx)
    }

    /// The number of lines: one more than the line breaks.
    pub fn len_lines(&self) -> (n: usize)
        ensures
            n == line_count(self.chars()),
            n >= 1,
    {
        rope_len_lines(&self.text)
    }

    /// The number of characters of the document.
    pub fn len_chars(&self) -> (n: usize)
        ensures
            n == self.chars().len(),
    {
        rope_len_chars(&self.text)
    }

    /// The offset at which line `line_idx` starts; for the line one past the
    /// last, the length of the text.
    pub fn line_to_char(&self, line_idx: usize) -> (at: usize)
        requires
            line_idx <= line_count(self.chars()),
        ensures
            at == line_start(self.chars(), line_idx as int),
            at <= self.chars().len(),
    {
        proof {
            lemma_line_start_monotone(self.chars(), line_idx as int, line_idx as int);
        }
        rope_line_to_char(&self.text, line_idx).unwrap()
    }

    /// The line and column of the character at `offset`.
    pub fn point(&self, offset: usize) -> (p: (usize, usize))
        requires
            offset <= self.chars().len(),
        ensures
            p.0 == breaks_before(self.chars(), offset as int),
            p.0 < line_count(self.chars()),
            p.1 == offset - line_start(self.chars(), p.0 as int),
            offset_of(self.chars(), p.0 as int, p.1 as int) == offset,
    {
        let row = rope_char_to_line(&self.text, offset);
        proof {
            lemma_breaks_monotone(self.chars(), offset as int, self.chars().len() as int);
            lemma_line_start(self.chars(), row as int);
        }
        let line_start = rope_line_to_char(&self.text, row).unwrap();
        let col = offset - line_start;
        (row, col)
    }

    /// The offset of column `col` of line `row`.
    pub fn offset(&self, row: usize, col: usize) -> (at: usize)
        requires
            row <= line_count(self.chars()),
            offset_of(self.chars(), row as int, col as int) <= usize::MAX,
        ensures
            at == offset_of(self.chars(), row as int, col as int),
    {
        proof {
            lemma_line_start_monotone(self.chars(), row as int, row as int);
        }
        let line_start = rope_line_to_char(&self.text, row).unwrap();
        line_start + col
    }

    /// Whether the document holds no character.
    pub fn is_empty(&self) -> (r: bool)
        ensures
            r == (self.chars().len() == 0),
    {
        rope_len_chars(&self.text) == 0
    }

    /// Takes back the last edit, or the last group of edits, and moves what
    /// it took back to the redo stack, a group with its marks.  Returns the
    /// changes it took back, in that order; nothing where the undo stack is
    /// empty.
    pub fn undo(&mut self) -> (r: Option<MultipleChange>)
        requires
            old(self).wf(),
        ensures
            final(self).wf(),
            r.is_some() == (old(self).doc().undo.len() > 0),
            !old(self).has_tree() ==> final(self).runnables == old(self).runnables,
            old(self).has_tree() && (r matches Some(m) && m.changes@.len() > 0) ==> old(
                self,
            ).rebuilt(final(self)),
            final(self).doc() == undo_step(old(self).doc()).doc,
            changes_view(r) == undo_step(old(self).doc()).changes,
            final(self).changed == (old(self).changed || edit_count(final(self).doc().redo)
                > edit_count(old(self).doc().redo)),
            final(self).same_setting(old(self)),
    {
        let mut multiple_change = MultipleChange::default();
        let mut multiple = false;
        assert(views(multiple_change.changes@) =~= Seq::<ChangeView>::empty());
        proof {
            lemma_redo_after_undo(self.doc());
        }

        loop
            invariant
                self.sound(),
                !old(self).has_tree() ==> self.runnables == old(self).runnables && !self.has_tree(),
                multiple_change.changes@.len() == 0 ==> self.runnables == old(self).runnables
                    && self.has_tree() == old(self).has_tree(),
                old(self).has_tree() && multiple_change.changes@.len() > 0 ==> old(self).rebuilt(
                    self,
                ),
                tidy(undo_step(old(self).doc()).doc),
                undo_step(old(self).doc()).changes is Some <==> old(self).doc().undo.len() > 0,
                undo_from(self.doc(), views(multiple_change.changes@), multiple) == undo_step(
                    old(self).doc(),
                ),
                edit_count(self.doc().redo) >= edit_count(old(self).doc().redo),
                self.changed == (old(self).changed || edit_count(self.doc().redo) > edit_count(
                    old(self).doc().redo,
                )),
                self.same_setting(old(self)),
            decreases self.undo_history@.len(),
        {
            let ghost before = self.doc();
            let ghost earlier = *self;
            let ghost stack = self.undo_history@;
            match self.undo_history.pop() {
                None => {
                    return None;
                },
                Some(change) => {
                    proof {
                        lemma_views_drop_last(stack);
                        assert(self.undo_history@ =~= stack.drop_last());
                                            }
                    match change.operation {
                        Operation::Insert => {
                            let from = change.start;
                            // Taken for its bound: the number of characters fits in `usize`.
                            let len = rope_len_chars(&self.text);
                            let to = from + change.text.as_str().unicode_len();
                            self.remove(from, to);
                            proof {
                                if old(self).has_tree() {
                                    old(self).lemma_rebuilt_again(&earlier, self);
                                }
                                lemma_apply_revert(before.text, change@);
                                lemma_views_push(multiple_change.changes@, change);
                                lemma_views_push(self.redo_history@, change);
                                lemma_edit_count_push(before.redo, change@);
                                assert(before.redo.push(change@).drop_last() =~= before.redo);
                            }
                            multiple_change.changes.push(change.clone());
                            self.redo_history.push(change);
                            if !multiple {
                                return Some(multiple_change);
                            }
                        },
                        Operation::Remove => {
                            self.insert(change.text.as_str(), change.start);
                            proof {
                                if old(self).has_tree() {
                                    old(self).lemma_rebuilt_again(&earlier, self);
                                }
                                lemma_apply_revert(before.text, change@);
                                lemma_views_push(multiple_change.changes@, change);
                                lemma_views_push(self.redo_history@, change);
                                lemma_edit_count_push(before.redo, change@);
                                assert(before.redo.push(change@).drop_last() =~= before.redo);
                            }
                            multiple_change.changes.push(change.clone());
                            self.redo_history.push(change);
                            if !multiple {
                                return Some(multiple_change);
                            }
                        },
                        Operation::End => {
                            proof {
                                lemma_views_push(self.redo_history@, change);
                                lemma_edit_count_push(before.redo, change@);
                                lemma_mark_redoable(before.text, before.redo, change@);
                            }
                            self.redo_history.push(change);
                            multiple = true;
                        },
                        Operation::Start => {
                            proof {
                                lemma_views_push(self.redo_history@, change);
                                lemma_edit_count_push(before.redo, change@);
                                lemma_mark_redoable(before.text, before.redo, change@);
                            }
                            self.redo_history.push(change);
                            return Some(multiple_change);
                        },
                    }
                },
            }
        }
    }

    /// Carries out again what the last undo took back: one edit, or a group
    /// from its opening mark to its closing mark, and moves it back to the
    /// undo stack.  Returns the changes it carried out; nothing where the
    /// redo stack is empty.
    pub fn redo(&mut self) -> (r: Option<MultipleChange>)
        requires
            old(self).wf(),
        ensures
            final(self).wf(),
            r.is_some() == (old(self).doc().redo.len() > 0),
            !old(self).has_tree() ==> final(self).runnables == old(self).runnables,
            old(self).has_tree() && (r matches Some(m) && m.changes@.len() > 0) ==> old(
                self,
            ).rebuilt(final(self)),
            final(self).doc() == redo_step(old(self).doc()).doc,
            changes_view(r) == redo_step(old(self).doc()).changes,
            final(self).changed == (old(self).changed || edit_count(final(self).doc().undo)
                > edit_count(old(self).doc().undo)),
            final(self).same_setting(old(self)),
    {
        let mut multiple_change = MultipleChange::default();
        let mut multiple = false;
        assert(views(multiple_change.changes@) =~= Seq::<ChangeView>::empty());
        proof {
            lemma_undo_after_redo(self.doc());
        }

        loop
            invariant
                self.sound(),
                !old(self).has_tree() ==> self.runnables == old(self).runnables && !self.has_tree(),
                multiple_change.changes@.len() == 0 ==> self.runnables == old(self).runnables
                    && self.has_tree() == old(self).has_tree(),
                old(self).has_tree() && multiple_change.changes@.len() > 0 ==> old(self).rebuilt(
                    self,
                ),
                tidy(redo_step(old(self).doc()).doc),
                redo_step(old(self).doc()).changes is Some <==> old(self).doc().redo.len() > 0,
                redo_from(self.doc(), views(multiple_change.changes@), multiple) == redo_step(
                    old(self).doc(),
                ),
                edit_count(self.doc().undo) >= edit_count(old(self).doc().undo),
                self.changed == (old(self).changed || edit_count(self.doc().undo) > edit_count(
                    old(self).doc().undo,
                )),
                self.same_setting(old(self)),
            decreases self.redo_history@.len(),
        {
            let ghost before = self.doc();
            let ghost earlier = *self;
            let ghost stack = self.redo_history@;
            match self.redo_history.pop() {
                None => {
                    return None;
                },
                Some(change) => {
                    proof {
                        lemma_views_drop_last(stack);
                        assert(self.redo_history@ =~= stack.drop_last());
                    }
                    match change.operation {
                        Operation::Insert => {
                            self.insert(change.text.as_str(), change.start);
                            proof {
                                if old(self).has_tree() {
                                    old(self).lemma_rebuilt_again(&earlier, self);
                                }
                                lemma_revert_apply(before.text, change@);
                                lemma_views_push(multiple_change.changes@, change);
                                lemma_views_push(self.undo_history@, change);
                                lemma_edit_count_push(before.undo, change@);
                                assert(before.undo.push(change@).drop_last() =~= before.undo);
                            }
                            multiple_change.changes.push(change.clone());
                            self.undo_history.push(change);
                            if !multiple {
                                return Some(multiple_change);
                            }
                        },
                        Operation::Remove => {
                            let from = change.start;
                            // Taken for its bound: the number of characters fits in `usize`.
                            let len = rope_len_chars(&self.text);
                            let to = from + change.text.as_str().unicode_len();
                            self.remove(from, to);
                            proof {
                                if old(self).has_tree() {
                                    old(self).lemma_rebuilt_again(&earlier, self);
                                }
                                lemma_revert_apply(before.text, change@);
                                lemma_views_push(multiple_change.changes@, change);
                                lemma_views_push(self.undo_history@, change);
                                lemma_edit_count_push(before.undo, change@);
                                assert(before.undo.push(change@).drop_last() =~= before.undo);
                            }
                            multiple_change.changes.push(change.clone());
                            self.undo_history.push(change);
                            if !multiple {
                                return Some(multiple_change);
                            }
                        },
                        Operation::Start => {
                            proof {
                                lemma_views_push(self.undo_history@, change);
                                lemma_edit_count_push(before.undo, change@);
                                lemma_mark_undoable(before.text, before.undo, change@);
                            }
                            self.undo_history.push(change);
                            multiple = true;
                        },
                        Operation::End => {
                            proof {
                                lemma_views_push(self.undo_history@, change);
                                lemma_edit_count_push(before.undo, change@);
                                lemma_mark_undoable(before.text, before.undo, change@);
                            }
                            self.undo_history.push(change);
                            return Some(multiple_change);
                        },
                    }
                },
            }
        }
    }

    /// Puts a mark on the undo stack.
    fn push_mark(&mut self, operation: Operation, start: usize, row: usize, column: usize)
        requires
            old(self).sound(),
            operation == Operation::Start || operation == Operation::End,
        ensures
            final(self).sound(),
            final(self).doc() == (DocView {
                undo: old(self).doc().undo.push(
                    mark(operation, start as int, row as int, column as int),
                ),
                ..old(self).doc()
            }),
            final(self).changed == old(self).changed,
            final(self).same_setting(old(self)),
            final(self).syntax == old(self).syntax,
            final(self).runnables == old(self).runnables,
    {
        let change = Change { start, operation, text: String::new(), row, column };
        proof {
            lemma_views_push(self.undo_history@, change);
            lemma_mark_undoable(self.doc().text, self.doc().undo, change@);
        }
        self.undo_history.push(change);
    }

    /// Replaces the text from `(row, col)` up to `(row1, col1)` by `text`, as
    /// one group: a removal and an insertion between two marks.
    pub fn replace_text(&mut self, row: usize, col: usize, row1: usize, col1: usize, text: &str)
        requires
            old(self).wf(),
            in_text(old(self).chars(), row as int, col as int),
            in_text(old(self).chars(), row1 as int, col1 as int),
            offset_of(old(self).chars(), row as int, col as int) <= offset_of(
                old(self).chars(),
                row1 as int,
                col1 as int,
            ),
        ensures
            final(self).wf(),
            old(self).has_tree() ==> old(self).rebuilt(final(self)),
            !old(self).has_tree() ==> final(self).runnables == old(self).runnables,
            final(self).doc() == replaced(
                old(self).doc(),
                offset_of(old(self).chars(), row as int, col as int),
                offset_of(old(self).chars(), row1 as int, col1 as int),
                row as int,
                col as int,
                row1 as int,
                col1 as int,
                text@,
            ),
            final(self).changed,
            final(self).same_setting(old(self)),
    {
        let from = self.position(row, col);
        proof {
            lemma_place_survives_removal(
                self.chars(),
                row as int,
                col as int,
                offset_of(self.chars(), row1 as int, col1 as int),
            );
        }
        self.push_mark(Operation::Start, from, row1, col1);
        let ghost opened = *self;
        self.cut_text(row, col, row1, col1);
        let ghost cut = *self;
        self.put_text(text, row, col);
        proof {
            if old(self).has_tree() {
                old(self).lemma_rebuilt_again(&opened, &cut);
                old(self).lemma_rebuilt_again(&cut, self);
            }
        }
        self.push_mark(Operation::End, from, row1, col1);
        self.redo_history.clear();
        assert(views(self.redo_history@) =~= Seq::<ChangeView>::empty());
        proof {
            assert(self.doc().undo.subrange(0, old(self).doc().undo.len() as int) =~= old(
                self,
            ).doc().undo);
            lemma_group_recorded(old(self).doc().undo, self.doc().undo);
        }
    }

    /// Replaces the whole text by `text`, as one group that one undo takes
    /// back.
    pub fn reload(&mut self, text: &str)
        requires
            old(self).wf(),
        ensures
            final(self).wf(),
            old(self).has_tree() ==> old(self).rebuilt(final(self)),
            !old(self).has_tree() ==> final(self).runnables == old(self).runnables,
            final(self).doc() == replaced(
                old(self).doc(),
                0,
                old(self).chars().len() as int,
                0,
                0,
                line_count(old(self).chars()) - 1,
                line_width(old(self).chars(), line_count(old(self).chars()) - 1),
                text@,
            ),
            final(self).changed,
            final(self).same_setting(old(self)),
    {
        let last_row = rope_len_lines(&self.text) - 1;
        proof {
            lemma_line_start_past_end(self.chars(), last_row + 1);
            lemma_line_start_monotone(self.chars(), last_row as int, last_row + 1);
        }
        let last_col = self.line_len(last_row);
        self.replace_text(0, 0, last_row, last_col, text);
    }

    /// Makes line `line_idx` and the next one change places, as one group
    /// that one undo takes back.  Returns whether it did; where it did not,
    /// nothing has changed.
    #[verifier::rlimit(60)]
    pub fn move_line_down(&mut self, line_idx: usize) -> (done: bool)
        requires
            old(self).wf(),
        ensures
            final(self).wf(),
            done && old(self).has_tree() ==> old(self).rebuilt(final(self)),
            !done || !old(self).has_tree() ==> final(self).runnables == old(self).runnables,
            done == moved(old(self).doc(), line_idx as int).is_some(),
            done ==> final(self).doc() == moved(old(self).doc(), line_idx as int)->0
                && final(self).changed,
            !done ==> final(self).doc() == old(self).doc() && final(self).changed == old(
                self,
            ).changed,
            line_count(old(self).chars()) <= 2 || line_idx + 1 >= line_count(old(self).chars())
                ==> !done,
            final(self).same_setting(old(self)),
    {
        let len_lines = rope_len_lines(&self.text);
        if len_lines <= 2 {
            return false;
        }
        if line_idx >= len_lines - 1 {
            return false;
        }
        proof {
            lemma_line_start_monotone(self.chars(), line_idx as int, line_idx + 1);
            lemma_line_start_monotone(self.chars(), line_idx + 1, line_idx + 2);
            lemma_line_not_empty(self.chars(), line_idx as int);
            if line_idx + 2 < len_lines {
                lemma_line_not_empty(self.chars(), line_idx + 1);
            } else {
                lemma_line_start_past_end(self.chars(), line_idx + 2);
            }
        }
        let len_chars = rope_len_chars(&self.text);
        let line1_start = rope_line_to_char(&self.text, line_idx).unwrap();
        let line2_start = rope_line_to_char(&self.text, line_idx + 1).unwrap();
        let line1_end = line2_start - 1;
        let next_start = rope_line_to_char(&self.text, line_idx + 2).unwrap();
        let line2_end = if next_start == len_chars {
            next_start
        } else {
            next_start - 1
        };

        let line_1 = rope_substring(&self.text, line1_start, line1_end);
        let line_2 = rope_substring(&self.text, line2_start, line2_end);
        let len_1 = line1_end - line1_start;
        let len_2 = line2_end - line2_start;

        // Try the four edits on a copy first: each has to find its place.
        let mut trial = rope_clone(&self.text);
        rope_remove(&mut trial, line1_start, line1_end);
        let at2 = match rope_line_to_char(&trial, line_idx) {
            Some(at) => at,
            None => {
                return false;
            },
        };
        proof {
            lemma_line_start_monotone(rope_chars(trial), line_idx as int, line_idx as int);
        }
        rope_insert(&mut trial, at2, line_2.as_str());
        let at3 = match rope_line_to_char(&trial, line_idx + 1) {
            Some(at) => at,
            None => {
                return false;
            },
        };
        proof {
            lemma_line_start_monotone(rope_chars(trial), line_idx + 1, line_idx + 1);
        }
        if len_2 > rope_len_chars(&trial) - at3 {
            return false;
        }
        rope_remove(&mut trial, at3, at3 + len_2);
        if rope_line_to_char(&trial, line_idx + 1).is_none() {
            return false;
        }
        proof {
            lemma_line_start_monotone(rope_chars(trial), line_idx + 1, line_idx + 1);
        }

        self.push_mark(Operation::Start, 0, 0, 0);
        let ghost opened = *self;
        self.cut_text(line_idx, 0, line_idx, len_1);
        let ghost first = *self;
        self.put_text(line_2.as_str(), line_idx, 0);
        let ghost second = *self;
        self.cut_text(line_idx + 1, 0, line_idx + 1, len_2);
        let ghost third = *self;
        self.put_text(line_1.as_str(), line_idx + 1, 0);
        proof {
            if old(self).has_tree() {
                old(self).lemma_rebuilt_again(&opened, &first);
                old(self).lemma_rebuilt_again(&first, &second);
                old(self).lemma_rebuilt_again(&second, &third);
                old(self).lemma_rebuilt_again(&third, self);
            }
        }
        self.push_mark(Operation::End, 0, 0, 0);
        proof {
            assert(self.doc().undo.subrange(0, old(self).doc().undo.len() as int) =~= old(
                self,
            ).doc().undo);
            lemma_group_recorded(old(self).doc().undo, self.doc().undo);
        }
        true
    }

    /// Gives the document a language, and the settings that `conf` has for
    /// it: those of the first language of that name.
    pub fn set_lang(&mut self, lang: String, conf: &Config)
        ensures
            final(self).lang@ == lang@,
            final(self).conf() == match conf.find_language_spec(lang@) {
                Some(i) => Some(conf.language@[i as int]@),
                None => None,
            },
            final(self).doc() == old(self).doc(),
            final(self).text == old(self).text,
            final(self).changed == old(self).changed,
            final(self).file_name@ == old(self).file_name@,
            final(self).abs_path@ == old(self).abs_path@,
            final(self).cursor() == old(self).cursor(),
            final(self).syntax == old(self).syntax,
            final(self).runnables == old(self).runnables,
    {
        self.lang = lang;
        self.lang_conf = match conf.find_language(self.lang.as_str()) {
            Some(i) => Some(conf.language[i].clone()),
            None => None,
        };
    }

    /// The characters of line `idx`, its line break included.
    fn line_chars(&self, idx: usize) -> (v: Vec<char>)
        requires
            idx < line_count(self.chars()),
        ensures
            v@ == line_text(self.chars(), idx as int),
    {
        let s = self.line_string(idx);
        str_chars(s.as_str())
    }

    /// Inserts what the tab key stands for at `(row, column)` and returns
    /// it.
    pub fn insert_tab(&mut self, row: usize, column: usize) -> (inserted: String)
        requires
            old(self).wf(),
            in_text(old(self).chars(), row as int, column as int),
            old(self).conf() matches Some(l) ==> l.indent_unit == space() ==> l.indent_width >= 0,
        ensures
            old(self).has_tree() ==> old(self).rebuilt(final(self)),
            inserted@ == tab_text(old(self).conf()),
            final(self).wf(),
            !old(self).has_tree() ==> final(self).runnables == old(self).runnables,
            final(self).doc() == edited(
                old(self).doc(),
                insertion(
                    offset_of(old(self).chars(), row as int, column as int),
                    tab_text(old(self).conf()),
                    row as int,
                    column as int,
                ),
            ),
            final(self).changed,
            final(self).same_setting(old(self)),
    {
        proof {
            reveal_strlit(" ");
            reveal_strlit("\t");
            assert(" "@ =~= space());
            assert("\t"@ =~= tab());
        }
        let text = match &self.lang_conf {
            Some(conf) if same_text(conf.indent.unit.as_str(), " ") => repeat(
                " ",
                conf.indent.width as usize,
            ),
            _ => crate::chars::str_to_string("\t"),
        };
        self.insert_text(text.as_str(), row, column);
        text
    }

    /// Line `idx` as a text of its own, its line break included.
    pub fn line_string(&self, idx: usize) -> (line: String)
        requires
            idx < line_count(self.chars()),
        ensures
            line@ == line_text(self.chars(), idx as int),
    {
        proof {
            lemma_line_start_monotone(self.chars(), idx as int, idx + 1);
        }
        // Taken for its bound: the number of lines fits in `usize`.
        let lines = rope_len_lines(&self.text);
        let start = rope_line_to_char(&self.text, idx).unwrap();
        let end = rope_line_to_char(&self.text, idx + 1).unwrap();
        rope_substring(&self.text, start, end)
    }

    /// Line `idx` as one piece of text, where the rope holds it in one
    /// piece.
    pub fn line_at(&self, idx: usize) -> (line: Option<&str>)
        requires
            idx < line_count(self.chars()),
        ensures
            line matches Some(t) ==> t@ == line_text(self.chars(), idx as int),
    {
        proof {
            lemma_line_start_monotone(self.chars(), idx as int, idx + 1);
        }
        // Taken for its bound: the number of lines fits in `usize`.
        let lines = rope_len_lines(&self.text);
        let start = rope_line_to_char(&self.text, idx).unwrap();
        let end = rope_line_to_char(&self.text, idx + 1).unwrap();
        rope_str(&self.text, start, end)
    }

    /// The characters from offset `start` up to `end`.
    pub fn char_slice(&self, start: usize, end: usize) -> (s: String)
        requires
            start <= end <= self.chars().len(),
        ensures
            s@ == self.chars().subrange(start as int, end as int),
    {
        rope_substring(&self.text, start, end)
    }

    /// The number of indents at the start of line `line`.
    pub fn indentation_level(&self, line: usize) -> (level: usize)
        requires
            line < line_count(self.chars()),
        ensures
            level == indents(self.conf(), line_text(self.chars(), line as int)),
    {
        proof {
            reveal_strlit(" ");
            assert(" "@ =~= space());
        }
        let chars = self.line_chars(line);
        match &self.lang_conf {
            Some(conf) if same_text(conf.indent.unit.as_str(), " ") => {
                let spaces_count = count_leading(&chars, ' ');
                let width: usize = if conf.indent.width > 0 {
                    conf.indent.width as usize
                } else {
                    2
                };
                if spaces_count % width == 0 {
                    spaces_count / width
                } else {
                    assert(spaces_count / width < spaces_count) by (nonlinear_arith)
                        requires
                            spaces_count % width != 0,
                            width > 0,
                    ;
                    spaces_count / width + 1
                }
            },
            _ => count_leading(&chars, '\t'),
        }
    }

    /// The places at which `search_query` occurs, in the order of the text:
    /// each search starts behind the occurrence before it.
    #[verifier::loop_isolation(false)]
    pub fn search(&self, search_query: &str) -> (results: Vec<(usize, usize)>)
        requires
            search_query@.len() > 0,
        ensures
            results@ == occurrences(self.chars(), search_query@, 0).map_values(
                |at: int| place_of(self.chars(), at),
            ),
    {
        let mut results: Vec<(usize, usize)> = Vec::new();
        let len = rope_len_chars(&self.text);
        let content = str_chars(rope_substring(&self.text, 0, len).as_str());
        let pattern = str_chars(search_query);
        let ghost text = self.chars();
        let ghost pat = search_query@;
        assert(content@ =~= text);
        let mut start: usize = 0;
        while pattern.len() <= content.len() - start
            invariant
                start <= content@.len(),
                content@ == text,
                text == self.chars(),
                pattern@ == pat,
                pat.len() > 0,
                text.len() == len,
                results@ + occurrences(text, pat, start as int).map_values(
                    |at: int| place_of(text, at),
                ) == occurrences(text, pat, 0).map_values(|at: int| place_of(text, at)),
            decreases content@.len() - start,
        {
            let ghost rest_before = occurrences(text, pat, start as int);
            if matches_at(&content, &pattern, start) {
                let point = self.point(start);
                proof {
                    let rest = occurrences(text, pat, start + pat.len());
                    assert(rest_before =~= seq![start as int] + rest);
                    assert(rest_before.map_values(|at: int| place_of(text, at)) =~= seq![
                        place_of(text, start as int),
                    ] + rest.map_values(|at: int| place_of(text, at)));
                    assert(results@.push(point) + rest.map_values(|at: int| place_of(text, at))
                        =~= results@ + rest_before.map_values(|at: int| place_of(text, at)));
                }
                results.push((point.0, point.1));
                start = start + pattern.len();
            } else {
                start = start + 1;
            }
        }
        proof {
            assert(occurrences(text, pat, start as int) =~= Seq::<int>::empty());
            assert(results@ + Seq::<int>::empty().map_values(|at: int| place_of(text, at))
                =~= results@);
        }
        results
    }

    /// The column at which the scan for `substring` finds it in line `line`;
    /// nothing where it finds none or the document has no such line.
    #[verifier::loop_isolation(false)]
    pub fn find_substring(&self, line: usize, substring: &str) -> (at: Option<usize>)
        requires
            substring@.len() > 0,
        ensures
            line >= line_count(self.chars()) ==> at is None,
            line < line_count(self.chars()) ==> (match at {
                Some(col) => Some(col as int),
                None => None,
            }) == scan_match(line_text(self.chars(), line as int), substring@, 0, 0),
    {
        if line >= rope_len_lines(&self.text) {
            return None;
        }
        let chars = self.line_chars(line);
        let pattern = str_chars(substring);
        let mut i: usize = 0;
        let mut k: usize = 0;
        while i < chars.len()
            invariant
                i <= chars@.len(),
                k < pattern@.len(),
                k <= i,
                scan_match(chars@, pattern@, i as int, k as int) == scan_match(
                    chars@,
                    pattern@,
                    0,
                    0,
                ),
            decreases chars@.len() - i,
        {
            if chars[i] == pattern[k] {
                if k + 1 == pattern.len() {
                    return Some(i + 1 - pattern.len());
                }
                k += 1;
            } else {
                k = 0;
            }
            i += 1;
        }
        None
    }

    /// The column at which the scan finds the language's comment token in
    /// line `line`.
    pub fn find_comment(&self, line: usize) -> (at: Option<usize>)
        requires
            self.conf() matches Some(l) ==> l.comment.len() > 0,
        ensures
            self.conf() is None || line >= line_count(self.chars()) ==> at is None,
            self.conf() is Some && line < line_count(self.chars()) ==> (match at {
                Some(col) => Some(col as int),
                None => None,
            }) == scan_match(
                line_text(self.chars(), line as int),
                self.conf()->0.comment,
                0,
                0,
            ),
    {
        match &self.lang_conf {
            Some(conf) => self.find_substring(line, conf.comment.as_str()),
            None => None,
        }
    }

    /// The language's comment token.
    pub fn get_lang_comment(&self) -> (comment: Option<String>)
        ensures
            crate::config::option_view(comment) == (match self.conf() {
                Some(l) => Some(l.comment),
                None => None,
            }),
    {
        match &self.lang_conf {
            Some(conf) => Some(conf.comment.clone()),
            None => None,
        }
    }

    /// The settings of the document's language.
    pub fn get_lang_conf(&self) -> (conf: Option<&LanguageConf>)
        ensures
            (match conf {
                Some(l) => Some(l@),
                None => None,
            }) == self.conf(),
    {
        self.lang_conf.as_ref()
    }

    /// The first column below `stop_index` of line `line_index` that holds no
    /// white space; nothing where there is none or no such line.
    #[verifier::loop_isolation(false)]
    pub fn find_first_non_whitespace(&self, line_index: usize, stop_index: usize) -> (at: Option<
        usize,
    >)
        ensures
            line_index >= line_count(self.chars()) ==> at is None,
            line_index < line_count(self.chars()) ==> (match at {
                Some(col) => Some(col as int),
                None => None,
            }) == first_non_space(line_text(self.chars(), line_index as int), stop_index as int, 0),
    {
        if line_index >= rope_len_lines(&self.text) {
            return None;
        }
        let chars = self.line_chars(line_index);
        let mut i: usize = 0;
        while i < chars.len() && i < stop_index
            invariant
                i <= chars@.len(),
                first_non_space(chars@, stop_index as int, i as int) == first_non_space(
                    chars@,
                    stop_index as int,
                    0,
                ),
            decreases chars@.len() - i,
        {
            if !is_whitespace(chars[i]) {
                return Some(i);
            }
            i += 1;
        }
        None
    }

    /// One indent of the language: its unit, as many times as the indent is
    /// wide.
    pub fn indent_string(&self) -> (indent: Option<String>)
        requires
            self.conf() matches Some(l) ==> l.indent_width >= 0 || l.indent_unit.len() == 0,
        ensures
            crate::config::option_view(indent) == (match self.conf() {
                Some(l) => Some(
                    if l.indent_unit.len() == 0 {
                        Seq::empty()
                    } else {
                        repeated(l.indent_unit, l.indent_width as nat)
                    },
                ),
                None => None,
            }),
    {
        match &self.lang_conf {
            Some(conf) => {
                proof {
                    if conf.indent.unit@.len() == 0 {
                        crate::chars::lemma_repeated_empty(
                            conf.indent.unit@,
                            (#[verifier::truncate] (conf.indent.width as usize)) as nat,
                        );
                    }
                }
                Some(
                    repeat(
                        conf.indent.unit.as_str(),
                        #[verifier::truncate] (conf.indent.width as usize),
                    ),
                )
            },
            None => None,
        }
    }

    /// The width of the language's indent.  A negative width wraps.
    pub fn indent_width(&self) -> (width: Option<usize>)
        ensures
            width == (match self.conf() {
                Some(l) => Some(l.indent_width as usize),
                None => None,
            }),
    {
        match &self.lang_conf {
            Some(conf) => Some(#[verifier::truncate] (conf.indent.width as usize)),
            None => None,
        }
    }

    /// The unit of the language's indent.
    pub fn indent_unit(&self) -> (unit: Option<&String>)
        ensures
            (match unit {
                Some(u) => Some(u@),
                None => None,
            }) == (match self.conf() {
                Some(l) => Some(l.indent_unit),
                None => None,
            }),
    {
        match &self.lang_conf {
            Some(conf) => Some(&conf.indent.unit),
            None => None,
        }
    }

    /// Whether line `r` holds nothing but white space before column `c`.  It
    /// does not for column 0, nor for a line that the document does not have.
    #[verifier::loop_isolation(false)]
    pub fn is_only_indentation_before(&self, r: usize, c: usize) -> (only: bool)
        ensures
            only == (r < line_count(self.chars()) && c > 0 && forall|j: int|
                0 <= j < c && j < line_text(self.chars(), r as int).len() ==> is_space(
                    #[trigger] line_text(self.chars(), r as int)[j],
                )),
    {
        if r >= rope_len_lines(&self.text) || c == 0 {
            return false;
        }
        let line = self.line_chars(r);
        let mut col: usize = 0;
        while col < line.len()
            invariant
                col <= line@.len(),
                forall|j: int| 0 <= j < col && j < c ==> is_space(#[trigger] line@[j]),
            decreases line@.len() - col,
        {
            if col >= c {
                break;
            }
            if !is_whitespace(line[col]) {
                return false;
            }
            col += 1;
        }
        true
    }

    /// The offsets between which the line of the character at `pos` lies, its
    /// line break included; `pos` twice where it lies behind the text.
    pub fn line_boundaries(&self, pos: usize) -> (range: (usize, usize))
        ensures
            range == line_around(self.chars(), pos),
            pos < self.chars().len() ==> range.0 <= pos < range.1 <= self.chars().len(),
    {
        let total_chars = rope_len_chars(&self.text);
        if pos >= total_chars {
            return (pos, pos);
        }
        let line = rope_char_to_line(&self.text, pos);
        // Taken for its bound: the number of lines fits in `usize`.
        let lines = rope_len_lines(&self.text);
        proof {
            lemma_breaks_monotone(self.chars(), pos as int, self.chars().len() as int);
            lemma_line_start(self.chars(), line as int);
            lemma_line_start_monotone(self.chars(), line as int, line + 1);
            if line + 1 < line_count(self.chars()) {
                lemma_line_start(self.chars(), line + 1);
                if line_start(self.chars(), line + 1) <= pos {
                    lemma_breaks_monotone(
                        self.chars(),
                        line_start(self.chars(), line + 1),
                        pos as int,
                    );
                }
            } else {
                lemma_line_start_past_end(self.chars(), line + 1);
            }
        }
        let start = rope_line_to_char(&self.text, line).unwrap();
        let end = rope_line_to_char(&self.text, line + 1).unwrap();
        (start, end)
    }

    /// The offsets between which the word around the character at `pos` lies:
    /// the longest run of word characters that ends at `pos` and the longest
    /// that starts there; `pos` twice where it lies behind the text.
    pub fn word_boundaries(&self, pos: usize) -> (range: (usize, usize))
        ensures
            range == word_around(self.chars(), pos),
            pos < self.chars().len() ==> {
                &&& range.0 <= pos <= range.1 <= self.chars().len()
                &&& forall|j: int| range.0 <= j < range.1 ==> is_word_char(#[trigger] self.chars()[j])
                &&& range.0 > 0 ==> !is_word_char(self.chars()[range.0 - 1])
                &&& range.1 < self.chars().len() ==> !is_word_char(self.chars()[range.1 as int])
            },
    {
        let len = rope_len_chars(&self.text);
        if pos >= len {
            return (pos, pos);
        }
        let mut start = pos;
        while start > 0 && word_char(rope_char(&self.text, start - 1))
            invariant
                start <= pos < len,
                len == self.chars().len(),
                word_begin(self.chars(), pos as int) == word_begin(self.chars(), start as int),
                forall|j: int| start <= j < pos ==> is_word_char(#[trigger] self.chars()[j]),
            decreases start,
        {
            start -= 1;
        }

        let mut end = pos;
        while end < len && word_char(rope_char(&self.text, end))
            invariant
                pos <= end <= len,
                len == self.chars().len(),
                word_end(self.chars(), pos as int) == word_end(self.chars(), end as int),
                forall|j: int| pos <= j < end ==> is_word_char(#[trigger] self.chars()[j]),
            decreases len - end,
        {
            end += 1;
        }
        (start, end)
    }

    /// A document with the given text, names and language.  Its settings are
    /// those that `conf` has for the language, and its syntax is made with
    /// the grammar that `grammars` has for it; without one, or with one that
    /// the parser refuses, the document is plain text.  The text is there
    /// from the start: nothing is recorded.  A document is always made.
    pub fn from_file(
        text: &str,
        file_name: String,
        abs_path: String,
        lang: String,
        conf: &Config,
        grammars: &Vec<Grammar>,
    ) -> (r: Result<Self, SyntaxError>)
        ensures
            r matches Ok(code) && {
                &&& code.wf()
                &&& code.chars() == text@
                &&& code.doc().undo.len() == 0
                &&& code.doc().redo.len() == 0
                &&& !code.changed
                &&& code.file_name@ == file_name@
                &&& code.abs_path@ == abs_path@
                &&& code.lang@ == lang@
                &&& code.cursor() == (0usize, 0usize, 0usize, 0usize)
                &&& code.conf() == match conf.find_language_spec(lang@) {
                    Some(i) => Some(conf.language@[i as int]@),
                    None => None,
                }
                &&& grammar_at(grammars@, lang@, 0) is None ==> code.is_plain()
            },
    {
        let syntax = match Syntax::build(lang.as_str(), text, grammars) {
            Ok(syntax) => syntax,
            Err(_) => None,
        };
        let lang_conf = match conf.find_language(lang.as_str()) {
            Some(i) => Some(conf.language[i].clone()),
            None => None,
        };
        let mut code = Self {
            text: rope_from_str(text),
            file_name,
            abs_path,
            lang,
            lang_conf,
            changed: false,
            undo_history: Vec::new(),
            redo_history: Vec::new(),
            r: 0,
            c: 0,
            x: 0,
            y: 0,
            runnables: Vec::new(),
            syntax,
        };
        assert(views(code.undo_history@) =~= Seq::<ChangeView>::empty());
        assert(views(code.redo_history@) =~= Seq::<ChangeView>::empty());
        code.update_runnables();
        Ok(code)
    }

    /// The file is written as it stands: the document has no change that is
    /// not saved.  Returns whether there was one.
    pub fn save_file(&mut self) -> (write: bool)
        ensures
            write == old(self).changed,
            *final(self) == (Code { changed: false, ..*old(self) }),
    {
        let write = self.changed;
        self.changed = false;
        write
    }

    /// The spans to colour between two byte offsets under a theme, in the
    /// order in which they are painted: longer spans first, and of spans of
    /// one length the one whose capture has the larger index.  Each is in a
    /// colour of the theme.  A plain document has none.
    pub fn highlight_interval(&mut self, start: usize, end: usize, theme: &Theme) -> (spans: Vec<
        (usize, usize, Color),
    >)
        requires
            old(self).wf(),
            start <= end,
        ensures
            final(self).wf(),
            final(self).text == old(self).text,
            final(self).doc() == old(self).doc(),
            final(self).changed == old(self).changed,
            final(self).same_setting(old(self)),
            final(self).runnables == old(self).runnables,
            old(self).is_plain() ==> spans@.len() == 0,
            exists|ordered: Seq<Span>|
                #![trigger painted(ordered)]
                in_order(ordered) && spans@ == painted(ordered),
            forall|i: int|
                0 <= i < spans@.len() ==> crate::syntax::themed(*theme, (#[trigger] spans@[i]).2),
    {
        let found = match &mut self.syntax {
            Some(syntax) => syntax.spans(&self.text, start, end, theme),
            None => Vec::new(),
        };
        let ghost all = found@;
        let ordered = order_spans(found);
        proof {
            let from = choose|from: Seq<int>|
                #![trigger crate::order::rearranges(all, ordered@, from)]
                crate::order::rearranges(all, ordered@, from) && crate::order::keeps_ties(
                    ordered@,
                    from,
                );
            assert forall|i: int| 0 <= i < ordered@.len() implies crate::syntax::themed(
                *theme,
                (#[trigger] ordered@[i]).color,
            ) by {
                assert(ordered@[i] == all[from[i]]);
            }
        }
        paint_list(&ordered)
    }

    /// Whether line `line` can be run.
    pub fn is_runnable(&self, line: usize) -> (r: bool)
        ensures
            r == (runnable_at(self.runnables@, line, 0) is Some),
    {
        find_runnable(&self.runnables, line).is_some()
    }

    /// What runs line `line`.
    pub fn get_runnable(&self, line: usize) -> (r: Option<Runnable>)
        ensures
            match runnable_at(self.runnables@, line, 0) {
                Some(i) => r is Some && r->0.row == line && r->0.cmd@ == self.runnables@[i].cmd@,
                None => r is None,
            },
    {
        match find_runnable(&self.runnables, line) {
            Some(i) => Some(self.runnables[i].clone()),
            None => None,
        }
    }

    /// The chain of syntax nodes around `(row, column)`, the smallest named
    /// node that spans the place first, as the parser's tree has them, and
    /// of the nodes around it those that are larger than the one kept before
    /// them.  There is a chain where the document has a tree, and it is not
    /// empty; a plain document has none.
    pub fn get_node_path(&self, row: usize, column: usize) -> (path: Option<NodePath>)
        ensures
            path is Some == (self.syntax matches Some(syntax) && syntax.tree is Some),
            path matches Some(p) ==> p.row == row && p.column == column && p.current == 0,
            path matches Some(p) ==> p.nodes@.len() > 0,
            path matches Some(p) ==> forall|i: int|
                0 <= i < p.nodes@.len() - 1 ==> larger(#[trigger] p.nodes@[i + 1], p.nodes@[i]),
    {
        let syntax = match &self.syntax {
            Some(syntax) => syntax,
            None => {
                return None;
            },
        };
        match syntax.node_chain(row, column) {
            Some(nodes) => Some(NodePath::new(row, column, widen(&nodes))),
            None => None,
        }
    }
}

/// The document after the text from offset `from` up to `to` was replaced by
/// `text`: a removal and an insertion between two marks.  `(row, col)` is the
/// place of `from`, at which the insertion is made once the removal is done,
/// and `(row1, col1)` the place of `to`.
pub open spec fn replaced(
    doc: DocView,
    from: int,
    to: int,
    row: int,
    col: int,
    row1: int,
    col1: int,
    text: Seq<char>,
) -> DocView {
    let cut = remove_range(doc.text, from, to);
    let at = offset_of(cut, row, col);
    DocView {
        text: insert_at(cut, at, text),
        undo: doc.undo.push(mark(Operation::Start, from, row1, col1)).push(
            removal(from, doc.text.subrange(from, to), row1, col1),
        ).push(insertion(at, text, row, col)).push(mark(Operation::End, from, row1, col1)),
        redo: Seq::empty(),
    }
}

/// A group that was recorded on a tidy stack leaves it tidy: the opening
/// mark, then edits, then the closing mark.
pub proof fn lemma_group_recorded(before: Seq<ChangeView>, after: Seq<ChangeView>)
    requires
        grouped(before, Operation::End, false),
        after.len() >= before.len() + 2,
        after.subrange(0, before.len() as int) == before,
        after[before.len() as int].operation == Operation::Start,
        after.last().operation == Operation::End,
        forall|i: int| before.len() < i < after.len() - 1 ==> is_edit(#[trigger] after[i]),
    ensures
        grouped(after, Operation::End, false),
{
    let n = before.len() as int;
    let body = after.subrange(n + 1, after.len() - 1);
    let opened = before.push(after[n]);
    assert(opened.drop_last() =~= before);
    assert(grouped(opened, Operation::End, true));
    lemma_group_tidy(opened, body, true);
    assert(after.drop_last() =~= opened + body);
}

/// The document after line `i` and the next one changed places, or nothing
/// where the move is refused.  Each of the two lines gives its text without
/// the last character of its line break, the last line of the text all of it;
/// the move is a group of four edits, each made at the start of its line as
/// the text stands when its turn comes: line `i` loses its text and gets that
/// of the next line, then line `i + 1` loses as many characters and gets the
/// text that line `i` had.  It is refused for the last line, for a text of
/// fewer than three lines, and where one of the four edits has no place.
pub open spec fn moved(doc: DocView, i: int) -> Option<DocView> {
    let t = doc.text;
    if i < 0 || line_count(t) <= 2 || i + 1 >= line_count(t) {
        None
    } else {
        let a = line_start(t, i);
        let b = line_start(t, i + 1);
        let c = line_start(t, i + 2);
        let first = t.subrange(a, b - 1);
        let second = t.subrange(
            b,
            if c == t.len() {
                c
            } else {
                c - 1
            },
        );
        let t1 = remove_range(t, a, b - 1);
        let at2 = line_start(t1, i);
        let t2 = insert_at(t1, at2, second);
        let at3 = line_start(t2, i + 1);
        let t3 = remove_range(t2, at3, at3 + second.len());
        let at4 = line_start(t3, i + 1);
        if i > line_count(t1) || i + 1 > line_count(t2) || at3 + second.len() > t2.len() || i + 1
            > line_count(t3) {
            None
        } else {
            Some(
                DocView {
                    text: insert_at(t3, at4, first),
                    undo: doc.undo.push(mark(Operation::Start, 0, 0, 0)).push(
                        removal(a, first, i, first.len() as int),
                    ).push(insertion(at2, second, i, 0)).push(
                        removal(
                            at3,
                            t2.subrange(at3, at3 + second.len()),
                            i + 1,
                            second.len() as int,
                        ),
                    ).push(insertion(at4, first, i + 1, 0)).push(mark(Operation::End, 0, 0, 0)),
                    redo: Seq::empty(),
                },
            )
        }
    }
}

/// One space: the indent unit of languages that indent by spaces.
pub open spec fn space() -> Seq<char> {
    seq![' ']
}

/// One tab.
pub open spec fn tab() -> Seq<char> {
    seq!['\t']
}

/// What the tab key inserts: as many spaces as the indent is wide where the
/// language indents by spaces, else one tab.
pub open spec fn tab_text(conf: Option<LanguageView>) -> Seq<char> {
    match conf {
        Some(l) if l.indent_unit == space() => repeated(space(), l.indent_width as nat),
        _ => tab(),
    }
}

/// The number of indents at the start of a line: where the language indents
/// by spaces, its leading spaces divided by the indent width (2 where the
/// width is not positive), rounded up; else its leading tabs.
pub open spec fn indents(conf: Option<LanguageView>, line: Seq<char>) -> nat {
    match conf {
        Some(l) if l.indent_unit == space() => ceil_div(
            leading(line, ' '),
            if l.indent_width > 0 {
                l.indent_width as nat
            } else {
                2
            },
        ),
        _ => leading(line, '\t'),
    }
}

/// The scan that looks for `pat` in a line: it compares the line's
/// characters with the pattern's in turn and starts the pattern over at the
/// next character when one differs.  `i` is the place in the line and `k` the
/// number of characters of the pattern that matched so far.
pub open spec fn scan_match(line: Seq<char>, pat: Seq<char>, i: int, k: int) -> Option<int>
    decreases line.len() - i,
{
    if i < 0 || i >= line.len() || k < 0 || k >= pat.len() {
        None
    } else if line[i] == pat[k] {
        if k + 1 == pat.len() {
            Some(i + 1 - pat.len())
        } else {
            scan_match(line, pat, i + 1, k + 1)
        }
    } else {
        scan_match(line, pat, i + 1, 0)
    }
}

/// What the scan finds is an occurrence of the pattern.
pub proof fn lemma_scan_match_sound(line: Seq<char>, pat: Seq<char>, i: int, k: int)
    requires
        0 <= k <= i,
        line.subrange(i - k, i) == pat.subrange(0, k),
        scan_match(line, pat, i, k) is Some,
    ensures
        0 <= scan_match(line, pat, i, k)->0,
        scan_match(line, pat, i, k)->0 + pat.len() <= line.len(),
        line.subrange(scan_match(line, pat, i, k)->0, scan_match(line, pat, i, k)->0 + pat.len())
            == pat,
    decreases line.len() - i,
{
    if line[i] == pat[k] {
        assert(line.subrange(i - k, i + 1) =~= line.subrange(i - k, i).push(line[i]));
        assert(pat.subrange(0, k + 1) =~= pat.subrange(0, k).push(pat[k]));
        if k + 1 == pat.len() {
            assert(pat.subrange(0, k + 1) =~= pat);
        } else {
            lemma_scan_match_sound(line, pat, i + 1, k + 1);
        }
    } else {
        assert(line.subrange(i + 1, i + 1) =~= pat.subrange(0, 0));
        lemma_scan_match_sound(line, pat, i + 1, 0);
    }
}

/// The first column below `stop` at which `line` holds no white space.
pub open spec fn first_non_space(line: Seq<char>, stop: int, i: int) -> Option<int>
    decreases line.len() - i,
{
    if i < 0 || i >= line.len() || i >= stop {
        None
    } else if !is_space(line[i]) {
        Some(i)
    } else {
        first_non_space(line, stop, i + 1)
    }
}

/// The offsets between which the line of the character at `pos` lies, its
/// line break included; `pos` twice where it lies behind the text.
pub open spec fn line_around(text: Seq<char>, pos: usize) -> (usize, usize) {
    if pos >= text.len() {
        (pos, pos)
    } else {
        (
            line_start(text, breaks_before(text, pos as int) as int) as usize,
            line_start(text, breaks_before(text, pos as int) as int + 1) as usize,
        )
    }
}

/// Where the longest run of word characters that ends before offset `pos`
/// starts.
pub open spec fn word_begin(text: Seq<char>, pos: int) -> int
    decreases pos,
{
    if pos <= 0 || pos > text.len() || !is_word_char(text[pos - 1]) {
        pos
    } else {
        word_begin(text, pos - 1)
    }
}

/// Where the longest run of word characters that starts at offset `pos`
/// ends.
pub open spec fn word_end(text: Seq<char>, pos: int) -> int
    decreases text.len() - pos,
{
    if pos < 0 || pos >= text.len() || !is_word_char(text[pos]) {
        pos
    } else {
        word_end(text, pos + 1)
    }
}

/// The offsets between which the word around the character at `pos` lies;
/// `pos` twice where it lies behind the text.
pub open spec fn word_around(text: Seq<char>, pos: usize) -> (usize, usize) {
    if pos >= text.len() {
        (pos, pos)
    } else {
        (word_begin(text, pos as int) as usize, word_end(text, pos as int) as usize)
    }
}

/// The place of a character offset: its line and its column.
pub open spec fn place_of(text: Seq<char>, at: int) -> (usize, usize) {
    (breaks_before(text, at) as usize, (at - line_start(text, breaks_before(text, at) as int)) as usize)
}

/// A line that can be run, and the command that runs it.
#[derive(Debug)]
pub struct Runnable {
    pub cmd: String,
    pub row: usize,
}

impl Clone for Runnable {
    fn clone(&self) -> (r: Self)
        ensures
            r.row == self.row,
            r.cmd@ == self.cmd@,
    {
        Runnable { cmd: self.cmd.clone(), row: self.row }
    }
}

/// The text that a template gives with the given values for its names, as
/// `strfmt` makes it; nothing where the template is refused.
pub uninterp spec fn formatted(template: Seq<char>, vars: Seq<(Seq<char>, Seq<char>)>) -> Option<
    Seq<char>,
>;

/// The names and values of a list of variables.
pub open spec fn vars_view(vars: Seq<(String, String)>) -> Seq<(Seq<char>, Seq<char>)> {
    vars.map_values(|v: (String, String)| (v.0@, v.1@))
}

/// `strfmt::strfmt` with the variables in a map: the template with each
/// `{name}` replaced by the value of that name; nothing where the template is
/// malformed or names a variable that is not given.
#[verifier::external_body]
fn format_template(template: &str, vars: &Vec<(String, String)>) -> (text: Option<String>)
    ensures
        option_view(text) == formatted(template@, vars_view(vars@)),
{
    let map: std::collections::HashMap<String, String> = vars.iter().cloned().collect();
    strfmt::strfmt(template, &map).ok()
}

/// The variables of the command that runs a file.
pub open spec fn file_vars(path: Seq<char>) -> Seq<(Seq<char>, Seq<char>)> {
    seq![("file"@, path)]
}

/// The variables of the command that runs a test.
pub open spec fn test_vars(test: Seq<char>, path: Seq<char>) -> Seq<(Seq<char>, Seq<char>)> {
    seq![("test"@, test), ("file"@, path)]
}

/// What runs on line `row`: the command that the template gives with the
/// values of `vars` for its names.  A variable that the template does not
/// name is left aside; nothing where the template is refused.
pub fn runnable_with(template: &str, vars: &Vec<(String, String)>, row: usize) -> (r: Option<
    Runnable,
>)
    ensures
        match formatted(template@, vars_view(vars@)) {
            Some(cmd) => r is Some && r->0.row == row && r->0.cmd@ == cmd,
            None => r is None,
        },
{
    match format_template(template, vars) {
        Some(cmd) => Some(Runnable { cmd, row }),
        None => None,
    }
}

/// What runs the file at `path`: line 0, with the command that the template
/// gives for `{file}`.
pub fn file_runnable(template: &str, path: &str) -> (r: Option<Runnable>)
    ensures
        match formatted(template@, file_vars(path@)) {
            Some(cmd) => r is Some && r->0.row == 0 && r->0.cmd@ == cmd,
            None => r is None,
        },
{
    let mut vars: Vec<(String, String)> = Vec::new();
    vars.push((crate::chars::str_to_string("file"), crate::chars::str_to_string(path)));
    assert(vars_view(vars@) =~= file_vars(path@));
    runnable_with(template, &vars, 0)
}

/// What runs the test `test` that starts on line `row` of the file at `path`:
/// the command that the template gives for `{test}` and `{file}`.
pub fn test_runnable(template: &str, test: &str, path: &str, row: usize) -> (r: Option<Runnable>)
    ensures
        match formatted(template@, test_vars(test@, path@)) {
            Some(cmd) => r is Some && r->0.row == row && r->0.cmd@ == cmd,
            None => r is None,
        },
{
    let mut vars: Vec<(String, String)> = Vec::new();
    vars.push((crate::chars::str_to_string("test"), crate::chars::str_to_string(test)));
    vars.push((crate::chars::str_to_string("file"), crate::chars::str_to_string(path)));
    assert(vars_view(vars@) =~= test_vars(test@, path@));
    runnable_with(template, &vars, row)
}

/// A runnable as plain values.
pub struct RunnableView {
    pub cmd: Seq<char>,
    pub row: usize,
}

impl View for Runnable {
    type V = RunnableView;

    open spec fn view(&self) -> RunnableView {
        RunnableView { cmd: self.cmd@, row: self.row }
    }
}

/// The runnables of a list as plain values.
pub open spec fn runnable_views(runnables: Seq<Runnable>) -> Seq<RunnableView> {
    runnables.map_values(|r: Runnable| r@)
}

/// The index of the first of the runnables at or behind `i` that is for line
/// `row`.
pub open spec fn row_at(found: Seq<RunnableView>, row: usize, i: int) -> Option<int>
    decreases found.len() - i,
{
    if i < 0 || i >= found.len() {
        None
    } else if found[i].row == row {
        Some(i)
    } else {
        row_at(found, row, i + 1)
    }
}

/// The runnables with `runnable` as the one of its line: in place of the one
/// that the line had, or behind the others.
pub open spec fn put(found: Seq<RunnableView>, runnable: RunnableView) -> Seq<RunnableView> {
    match row_at(found, runnable.row, 0) {
        Some(i) => found.update(i, runnable),
        None => found.push(runnable),
    }
}

/// The runnables with those of the first `n` tests, each test given by its
/// name and its line: the command of a test is what the template gives for
/// its name and the path of the file, and a test for which it gives nothing
/// is left out.
pub open spec fn with_tests(
    found: Seq<RunnableView>,
    template: Seq<char>,
    path: Seq<char>,
    tests: Seq<(Seq<char>, usize)>,
    n: nat,
) -> Seq<RunnableView>
    decreases n,
{
    if n == 0 || n > tests.len() {
        found
    } else {
        let before = with_tests(found, template, path, tests, (n - 1) as nat);
        match formatted(template, test_vars(tests[n - 1].0, path)) {
            Some(cmd) => put(before, RunnableView { cmd, row: tests[n - 1].1 }),
            None => before,
        }
    }
}

/// The runnables of a document of a language that can be run: the file
/// itself on line 0, where the language has a command for running a file,
/// and the tests, where it has one for running a test.
pub open spec fn runnables_for(
    conf: LanguageView,
    path: Seq<char>,
    tests: Seq<(Seq<char>, usize)>,
) -> Seq<RunnableView> {
    let file = match conf.exec_cmd {
        Some(template) => match formatted(template, file_vars(path)) {
            Some(cmd) => seq![RunnableView { cmd, row: 0 }],
            None => Seq::empty(),
        },
        None => Seq::empty(),
    };
    if conf.executable != Some(true) {
        Seq::empty()
    } else {
        match conf.exectest {
            Some(template) => with_tests(file, template, path, tests, tests.len()),
            None => file,
        }
    }
}

/// A runnable is found among the views where it is found among the
/// runnables.
pub proof fn lemma_row_at(runnables: Seq<Runnable>, row: usize, i: int)
    ensures
        row_at(runnable_views(runnables), row, i) == runnable_at(runnables, row, i),
    decreases runnables.len() - i,
{
    if 0 <= i < runnables.len() && runnables[i].row != row {
        lemma_row_at(runnables, row, i + 1);
    }
}

/// The index of the first runnable at or behind `i` that is for line `row`.
pub open spec fn runnable_at(runnables: Seq<Runnable>, row: usize, i: int) -> Option<int>
    decreases runnables.len() - i,
{
    if i < 0 || i >= runnables.len() {
        None
    } else if runnables[i].row == row {
        Some(i)
    } else {
        runnable_at(runnables, row, i + 1)
    }
}

/// The index of the runnable for line `row`.
pub fn find_runnable(runnables: &Vec<Runnable>, row: usize) -> (at: Option<usize>)
    ensures
        (match at {
            Some(i) => Some(i as int),
            None => None,
        }) == runnable_at(runnables@, row, 0),
        at matches Some(i) ==> i < runnables@.len() && runnables@[i as int].row == row,
{
    let mut i: usize = 0;
    while i < runnables.len()
        invariant
            i <= runnables@.len(),
            runnable_at(runnables@, row, i as int) == runnable_at(runnables@, row, 0),
        decreases runnables@.len() - i,
    {
        if runnables[i].row == row {
            return Some(i);
        }
        i += 1;
    }
    None
}

/// Makes `runnable` the runnable of its line: it takes the place of the one
/// that the line had, or joins the list.
pub fn put_runnable(runnables: &mut Vec<Runnable>, runnable: Runnable)
    ensures
        match runnable_at(old(runnables)@, runnable.row, 0) {
            Some(i) => final(runnables)@ == old(runnables)@.update(i, runnable),
            None => final(runnables)@ == old(runnables)@.push(runnable),
        },
        runnable_views(final(runnables)@) == put(runnable_views(old(runnables)@), runnable@),
{
    proof {
        lemma_row_at(runnables@, runnable.row, 0);
    }
    match find_runnable(runnables, runnable.row) {
        Some(i) => {
            assert(runnable_views(runnables@.update(i as int, runnable)) =~= runnable_views(
                runnables@,
            ).update(i as int, runnable@));
            runnables.set(i, runnable);
        },
        None => {
            assert(runnable_views(runnables@.push(runnable)) =~= runnable_views(runnables@).push(
                runnable@,
            ));
            runnables.push(runnable);
        },
    }
}

/// The names and lines of tests as plain values.
pub open spec fn tests_view(tests: Seq<(String, usize)>) -> Seq<(Seq<char>, usize)> {
    tests.map_values(|t: (String, usize)| (t.0@, t.1))
}

/// Adds the runnables of tests, each given by the name and the line of the
/// test.
pub fn add_tests(
    runnables: &mut Vec<Runnable>,
    template: &str,
    path: &str,
    tests: &Vec<(String, usize)>,
)
    ensures
        runnable_views(final(runnables)@) == with_tests(
            runnable_views(old(runnables)@),
            template@,
            path@,
            tests_view(tests@),
            tests@.len(),
        ),
{
    let mut i: usize = 0;
    while i < tests.len()
        invariant
            i <= tests@.len(),
            runnable_views(runnables@) == with_tests(
                runnable_views(old(runnables)@),
                template@,
                path@,
                tests_view(tests@),
                i as nat,
            ),
        decreases tests@.len() - i,
    {
        if let Some(runnable) = test_runnable(template, tests[i].0.as_str(), path, tests[i].1) {
            put_runnable(runnables, runnable);
        }
        i += 1;
    }
}

/// The number of characters at the start of `chars` that are `c`.
pub fn count_leading(chars: &Vec<char>, c: char) -> (n: usize)
    ensures
        n == leading(chars@, c),
{
    let mut i: usize = 0;
    while i < chars.len() && chars[i] == c
        invariant
            i <= chars@.len(),
            leading_from(chars@, c, i as nat) == leading(chars@, c),
        decreases chars@.len() - i,
    {
        i += 1;
    }
    i
}

/// Whether `pattern` stands in `content` at offset `at`.
pub fn matches_at(content: &Vec<char>, pattern: &Vec<char>, at: usize) -> (r: bool)
    requires
        at + pattern@.len() <= content@.len(),
    ensures
        r == (content@.subrange(at as int, at + pattern@.len()) == pattern@),
{
    let total = content.len();
    let mut k: usize = 0;
    while k < pattern.len()
        invariant
            k <= pattern@.len(),
            total == content@.len(),
            at + pattern@.len() <= content@.len(),
            forall|j: int| 0 <= j < k ==> content@[at + j] == pattern@[j],
        decreases pattern@.len() - k,
    {
        if content[at + k] != pattern[k] {
            assert(content@.subrange(at as int, at + pattern@.len())[k as int] != pattern@[k as int]);
            return false;
        }
        k += 1;
    }
    assert(content@.subrange(at as int, at + pattern@.len()) =~= pattern@);
    true
}

/// The changes that an undo or a redo returned, as plain values.
pub open spec fn changes_view(r: Option<MultipleChange>) -> Option<Seq<ChangeView>> {
    match r {
        Some(m) => Some(views(m.changes@)),
        None => None,
    }
}

} // verus!
