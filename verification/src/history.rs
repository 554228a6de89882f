//! The edit history of a document, as a model: what a recorded change does to
//! a text, what undoing and redoing do to the two stacks, and when a stack
//! fits a text.

use crate::text::{insert_at, lemma_insert_removed, lemma_remove_inserted, remove_range};
use vstd::prelude::*;

verus! {

/// What a recorded change is: an edit, or a mark that opens or closes a group
/// of edits that are undone together.
#[derive(Clone, Copy, Debug, PartialEq, Eq, Structural)]
pub enum Operation {
    Insert,
    Remove,
    Start,
    End,
}

/// One recorded change.  `start` is the character offset of the edit and
/// `text` what was inserted or removed; `row` and `column` are where the
/// cursor belongs when the change is replayed.
#[derive(Debug)]
pub struct Change {
    pub start: usize,
    pub operation: Operation,
    pub text: String,
    pub row: usize,
    pub column: usize,
}

/// A recorded change, as plain values.
pub struct ChangeView {
    pub start: int,
    pub operation: Operation,
    pub text: Seq<char>,
    pub row: int,
    pub column: int,
}

impl View for Change {
    type V = ChangeView;

    open spec fn view(&self) -> ChangeView {
        ChangeView {
            start: self.start as int,
            operation: self.operation,
            text: self.text@,
            row: self.row as int,
            column: self.column as int,
        }
    }
}

impl Clone for Change {
    fn clone(&self) -> (r: Self)
        ensures
            r@ == self@,
            r == *self,
    {
        Change {
            start: self.start,
            operation: self.operation,
            text: self.text.clone(),
            row: self.row,
            column: self.column,
        }
    }
}

/// The changes that one undo or redo has applied, in the order in which it
/// applied them.
#[derive(Debug)]
pub struct MultipleChange {
    pub changes: Vec<Change>,
}

impl Default for MultipleChange {
    fn default() -> (r: Self)
        ensures
            r.changes@.len() == 0,
    {
        MultipleChange { changes: Vec::new() }
    }
}

/// The views of a sequence of changes.
pub open spec fn views(s: Seq<Change>) -> Seq<ChangeView> {
    s.map_values(|c: Change| c@)
}

/// A document as far as its history goes: the text and the two stacks, each
/// with its top at the end.
pub struct DocView {
    pub text: Seq<char>,
    pub undo: Seq<ChangeView>,
    pub redo: Seq<ChangeView>,
}

/// What an undo or a redo leaves: the document, and the changes it applied
/// (`None` where the stack ran out before the step was complete).
pub struct Outcome {
    pub doc: DocView,
    pub changes: Option<Seq<ChangeView>>,
}

/// `c` is an edit, not a mark.
pub open spec fn is_edit(c: ChangeView) -> bool {
    c.operation == Operation::Insert || c.operation == Operation::Remove
}

/// The record of inserting `text` at offset `at`.
pub open spec fn insertion(at: int, text: Seq<char>, row: int, column: int) -> ChangeView {
    ChangeView { start: at, operation: Operation::Insert, text, row, column }
}

/// The record of removing `text` at offset `at`.
pub open spec fn removal(at: int, text: Seq<char>, row: int, column: int) -> ChangeView {
    ChangeView { start: at, operation: Operation::Remove, text, row, column }
}

/// A mark that opens or closes a group.
pub open spec fn mark(operation: Operation, at: int, row: int, column: int) -> ChangeView {
    ChangeView { start: at, operation, text: Seq::<char>::empty(), row, column }
}

/// `c` can be carried out on `text`: an insertion lies within the text, and a
/// removal names what stands there.
pub open spec fn applies(text: Seq<char>, c: ChangeView) -> bool {
    match c.operation {
        Operation::Insert => 0 <= c.start <= text.len(),
        Operation::Remove => 0 <= c.start && c.start + c.text.len() <= text.len() && text.subrange(
            c.start,
            c.start + c.text.len(),
        ) == c.text,
        _ => true,
    }
}

/// `text` after `c` was carried out.
pub open spec fn apply(text: Seq<char>, c: ChangeView) -> Seq<char> {
    match c.operation {
        Operation::Insert => insert_at(text, c.start, c.text),
        Operation::Remove => remove_range(text, c.start, c.start + c.text.len()),
        _ => text,
    }
}

/// `c` can be taken back on `text`: what an insertion put in stands there, and
/// a removal's place lies within the text.
pub open spec fn reverts(text: Seq<char>, c: ChangeView) -> bool {
    match c.operation {
        Operation::Insert => 0 <= c.start && c.start + c.text.len() <= text.len() && text.subrange(
            c.start,
            c.start + c.text.len(),
        ) == c.text,
        Operation::Remove => 0 <= c.start <= text.len(),
        _ => true,
    }
}

/// `text` after `c` was taken back.
pub open spec fn revert(text: Seq<char>, c: ChangeView) -> Seq<char> {
    match c.operation {
        Operation::Insert => remove_range(text, c.start, c.start + c.text.len()),
        Operation::Remove => insert_at(text, c.start, c.text),
        _ => text,
    }
}

/// Every change on the undo stack can be taken back in turn, from the top.
pub open spec fn undoable(text: Seq<char>, undo: Seq<ChangeView>) -> bool
    decreases undo.len(),
{
    undo.len() == 0 || (reverts(text, undo.last()) && undoable(
        revert(text, undo.last()),
        undo.drop_last(),
    ))
}

/// Every change on the redo stack can be carried out in turn, from the top.
pub open spec fn redoable(text: Seq<char>, redo: Seq<ChangeView>) -> bool
    decreases redo.len(),
{
    redo.len() == 0 || (applies(text, redo.last()) && redoable(
        apply(text, redo.last()),
        redo.drop_last(),
    ))
}

/// The stacks fit the text.
pub open spec fn consistent(doc: DocView) -> bool {
    undoable(doc.text, doc.undo) && redoable(doc.text, doc.redo)
}

/// The document after the edit `c`: the text changed, the edit on the undo
/// stack, the redo stack empty.
pub open spec fn edited(doc: DocView, c: ChangeView) -> DocView {
    DocView { text: apply(doc.text, c), undo: doc.undo.push(c), redo: Seq::empty() }
}

/// Undoing, from a state in which `done` has been taken back already.
/// Outside a group one edit is taken back.  A closing mark starts a group:
/// then edits are taken back until the opening mark.  Whatever leaves the
/// undo stack, mark or edit, goes onto the redo stack, so that a redo finds
/// the group again, opening mark first.
pub open spec fn undo_from(doc: DocView, done: Seq<ChangeView>, grouped: bool) -> Outcome
    decreases doc.undo.len(),
{
    if doc.undo.len() == 0 {
        Outcome { doc, changes: None }
    } else {
        let c = doc.undo.last();
        let rest = doc.undo.drop_last();
        match c.operation {
            Operation::End => undo_from(
                DocView { undo: rest, redo: doc.redo.push(c), ..doc },
                done,
                true,
            ),
            Operation::Start => Outcome {
                doc: DocView { undo: rest, redo: doc.redo.push(c), ..doc },
                changes: Some(done),
            },
            _ => {
                let next = DocView { text: revert(doc.text, c), undo: rest, redo: doc.redo.push(c) };
                if grouped {
                    undo_from(next, done.push(c), true)
                } else {
                    Outcome { doc: next, changes: Some(done.push(c)) }
                }
            },
        }
    }
}

/// One undo.
pub open spec fn undo_step(doc: DocView) -> Outcome {
    undo_from(doc, Seq::empty(), false)
}

/// Redoing, from a state in which `done` has been carried out already: the
/// mirror image of `undo_from`, from the redo stack to the undo stack.  There
/// an opening mark starts a group and the closing mark ends it.
pub open spec fn redo_from(doc: DocView, done: Seq<ChangeView>, grouped: bool) -> Outcome
    decreases doc.redo.len(),
{
    if doc.redo.len() == 0 {
        Outcome { doc, changes: None }
    } else {
        let c = doc.redo.last();
        let rest = doc.redo.drop_last();
        match c.operation {
            Operation::Start => redo_from(
                DocView { undo: doc.undo.push(c), redo: rest, ..doc },
                done,
                true,
            ),
            Operation::End => Outcome {
                doc: DocView { undo: doc.undo.push(c), redo: rest, ..doc },
                changes: Some(done),
            },
            _ => {
                let next = DocView { text: apply(doc.text, c), undo: doc.undo.push(c), redo: rest };
                if grouped {
                    redo_from(next, done.push(c), true)
                } else {
                    Outcome { doc: next, changes: Some(done.push(c)) }
                }
            },
        }
    }
}

/// One redo.
pub open spec fn redo_step(doc: DocView) -> Outcome {
    redo_from(doc, Seq::empty(), false)
}

/// The stack, read from its top, is made of edits and of whole groups: a
/// group begins with the mark `opener`, holds edits only, and ends with the
/// other mark.  `inside` says that the reading starts within a group.
pub open spec fn grouped(s: Seq<ChangeView>, opener: Operation, inside: bool) -> bool
    decreases s.len(),
{
    if s.len() == 0 {
        !inside
    } else if is_edit(s.last()) {
        grouped(s.drop_last(), opener, inside)
    } else if s.last().operation == opener {
        !inside && grouped(s.drop_last(), opener, true)
    } else {
        inside && grouped(s.drop_last(), opener, false)
    }
}

/// Both stacks are made of edits and whole groups.  On the undo stack the
/// closing mark is on top of its group, on the redo stack the opening mark.
pub open spec fn tidy(doc: DocView) -> bool {
    grouped(doc.undo, Operation::End, false) && grouped(doc.redo, Operation::Start, false)
}

/// What a redo leaves does not depend on what was carried out before it.
pub proof fn lemma_redo_whatever_done(
    doc: DocView,
    a: Seq<ChangeView>,
    b: Seq<ChangeView>,
    inside: bool,
)
    ensures
        redo_from(doc, a, inside).doc == redo_from(doc, b, inside).doc,
        redo_from(doc, a, inside).changes is Some <==> redo_from(doc, b, inside).changes is Some,
    decreases doc.redo.len(),
{
    if doc.redo.len() > 0 {
        let c = doc.redo.last();
        let rest = doc.redo.drop_last();
        if c.operation == Operation::Start {
            lemma_redo_whatever_done(
                DocView { undo: doc.undo.push(c), redo: rest, ..doc },
                a,
                b,
                true,
            );
        } else if is_edit(c) && inside {
            lemma_redo_whatever_done(
                DocView { text: apply(doc.text, c), undo: doc.undo.push(c), redo: rest },
                a.push(c),
                b.push(c),
                true,
            );
        }
    }
}

/// What an undo leaves does not depend on what was taken back before it.
pub proof fn lemma_undo_whatever_done(
    doc: DocView,
    a: Seq<ChangeView>,
    b: Seq<ChangeView>,
    inside: bool,
)
    ensures
        undo_from(doc, a, inside).doc == undo_from(doc, b, inside).doc,
        undo_from(doc, a, inside).changes is Some <==> undo_from(doc, b, inside).changes is Some,
    decreases doc.undo.len(),
{
    if doc.undo.len() > 0 {
        let c = doc.undo.last();
        let rest = doc.undo.drop_last();
        if c.operation == Operation::End {
            lemma_undo_whatever_done(
                DocView { undo: rest, redo: doc.redo.push(c), ..doc },
                a,
                b,
                true,
            );
        } else if is_edit(c) && inside {
            lemma_undo_whatever_done(
                DocView { text: revert(doc.text, c), undo: rest, redo: doc.redo.push(c) },
                a.push(c),
                b.push(c),
                true,
            );
        }
    }
}

/// Within a group, an undo reaches the opening mark; what it leaves fits and
/// is tidy, and a redo of it comes back to this very state, still within the
/// group.
pub proof fn lemma_undo_within_group(doc: DocView, done: Seq<ChangeView>, again: Seq<ChangeView>)
    requires
        consistent(doc),
        grouped(doc.undo, Operation::End, true),
        grouped(doc.redo, Operation::Start, true),
    ensures
        undo_from(doc, done, true).changes is Some,
        consistent(undo_from(doc, done, true).doc),
        tidy(undo_from(doc, done, true).doc),
        redo_from(undo_from(doc, done, true).doc, again, false).doc == redo_from(
            doc,
            again,
            true,
        ).doc,
        redo_from(undo_from(doc, done, true).doc, again, false).changes is Some <==> redo_from(
            doc,
            again,
            true,
        ).changes is Some,
    decreases doc.undo.len(),
{
    let c = doc.undo.last();
    let rest = doc.undo.drop_last();
    if is_edit(c) {
        let next = DocView { text: revert(doc.text, c), undo: rest, redo: doc.redo.push(c) };
        lemma_apply_revert(doc.text, c);
        assert(next.redo.drop_last() =~= doc.redo);
        assert(rest.push(c) =~= doc.undo);
        lemma_undo_within_group(next, done.push(c), again);
        assert(redo_from(next, again, true) == redo_from(doc, again.push(c), true));
        lemma_redo_whatever_done(doc, again.push(c), again, true);
    } else {
        let out = DocView { undo: rest, redo: doc.redo.push(c), ..doc };
        assert(out.redo.drop_last() =~= doc.redo);
        assert(rest.push(c) =~= doc.undo);
        assert(redo_from(out, again, false) == redo_from(doc, again, true));
    }
}

/// Within a group, a redo reaches the closing mark; what it leaves fits and
/// is tidy, and an undo of it comes back to this very state, still within
/// the group.
pub proof fn lemma_redo_within_group(doc: DocView, done: Seq<ChangeView>, again: Seq<ChangeView>)
    requires
        consistent(doc),
        grouped(doc.undo, Operation::End, true),
        grouped(doc.redo, Operation::Start, true),
    ensures
        redo_from(doc, done, true).changes is Some,
        consistent(redo_from(doc, done, true).doc),
        tidy(redo_from(doc, done, true).doc),
        undo_from(redo_from(doc, done, true).doc, again, false).doc == undo_from(
            doc,
            again,
            true,
        ).doc,
        undo_from(redo_from(doc, done, true).doc, again, false).changes is Some <==> undo_from(
            doc,
            again,
            true,
        ).changes is Some,
    decreases doc.redo.len(),
{
    let c = doc.redo.last();
    let rest = doc.redo.drop_last();
    if is_edit(c) {
        let next = DocView { text: apply(doc.text, c), undo: doc.undo.push(c), redo: rest };
        lemma_revert_apply(doc.text, c);
        assert(next.undo.drop_last() =~= doc.undo);
        assert(rest.push(c) =~= doc.redo);
        lemma_redo_within_group(next, done.push(c), again);
        assert(undo_from(next, again, true) == undo_from(doc, again.push(c), true));
        lemma_undo_whatever_done(doc, again.push(c), again, true);
    } else {
        let out = DocView { undo: doc.undo.push(c), redo: rest, ..doc };
        assert(out.undo.drop_last() =~= doc.undo);
        assert(rest.push(c) =~= doc.redo);
        assert(undo_from(out, again, false) == undo_from(doc, again, true));
    }
}

/// An undo of a tidy document that fits leaves one that is tidy and fits.
/// Where there was something to undo, the undo reports its changes, and a
/// redo then gives the document back as it was, text and both stacks, and
/// reports its changes too.  This holds of a single edit and of a group.
pub proof fn lemma_redo_after_undo(doc: DocView)
    requires
        consistent(doc),
        tidy(doc),
    ensures
        consistent(undo_step(doc).doc),
        tidy(undo_step(doc).doc),
        undo_step(doc).changes is Some <==> doc.undo.len() > 0,
        doc.undo.len() == 0 ==> undo_step(doc).doc == doc,
        doc.undo.len() > 0 ==> redo_step(undo_step(doc).doc).doc == doc && redo_step(
            undo_step(doc).doc,
        ).changes is Some,
{
    if doc.undo.len() > 0 {
        let e = Seq::<ChangeView>::empty();
        let c = doc.undo.last();
        let rest = doc.undo.drop_last();
        assert(rest.push(c) =~= doc.undo);
        if is_edit(c) {
            let next = DocView { text: revert(doc.text, c), undo: rest, redo: doc.redo.push(c) };
            lemma_apply_revert(doc.text, c);
            assert(next.redo.drop_last() =~= doc.redo);
        } else {
            let next = DocView { undo: rest, redo: doc.redo.push(c), ..doc };
            assert(next.redo.drop_last() =~= doc.redo);
            lemma_undo_within_group(next, e, e);
        }
    }
}

/// A redo of a tidy document that fits leaves one that is tidy and fits.
/// Where there was something to redo, the redo reports its changes, and an
/// undo then gives the document back as it was.
pub proof fn lemma_undo_after_redo(doc: DocView)
    requires
        consistent(doc),
        tidy(doc),
    ensures
        consistent(redo_step(doc).doc),
        tidy(redo_step(doc).doc),
        redo_step(doc).changes is Some <==> doc.redo.len() > 0,
        doc.redo.len() == 0 ==> redo_step(doc).doc == doc,
        doc.redo.len() > 0 ==> undo_step(redo_step(doc).doc).doc == doc && undo_step(
            redo_step(doc).doc,
        ).changes is Some,
{
    if doc.redo.len() > 0 {
        let e = Seq::<ChangeView>::empty();
        let c = doc.redo.last();
        let rest = doc.redo.drop_last();
        assert(rest.push(c) =~= doc.redo);
        if is_edit(c) {
            let next = DocView { text: apply(doc.text, c), undo: doc.undo.push(c), redo: rest };
            lemma_revert_apply(doc.text, c);
            assert(next.undo.drop_last() =~= doc.undo);
        } else {
            let next = DocView { undo: doc.undo.push(c), redo: rest, ..doc };
            assert(next.undo.drop_last() =~= doc.undo);
            lemma_redo_within_group(next, e, e);
        }
    }
}

/// An edit keeps a tidy document tidy.
pub proof fn lemma_edited_tidy(doc: DocView, c: ChangeView)
    requires
        tidy(doc),
        is_edit(c),
    ensures
        tidy(edited(doc, c)),
{
    assert(doc.undo.push(c).drop_last() =~= doc.undo);
}

/// A group of edits between its two marks keeps the undo stack tidy.
pub proof fn lemma_group_tidy(undo: Seq<ChangeView>, body: Seq<ChangeView>, inside: bool)
    requires
        grouped(undo, Operation::End, inside),
        forall|i: int| 0 <= i < body.len() ==> is_edit(#[trigger] body[i]),
    ensures
        grouped(undo + body, Operation::End, inside),
    decreases body.len(),
{
    if body.len() == 0 {
        assert(undo + body =~= undo);
    } else {
        lemma_group_tidy(undo, body.drop_last(), inside);
        assert((undo + body).drop_last() =~= undo + body.drop_last());
    }
}

/// Carrying out a change that fits and taking it back gives the text back,
/// and the change can be taken back.
pub proof fn lemma_revert_apply(text: Seq<char>, c: ChangeView)
    requires
        applies(text, c),
    ensures
        reverts(apply(text, c), c),
        revert(apply(text, c), c) == text,
{
    match c.operation {
        Operation::Insert => {
            lemma_remove_inserted(text, c.start, c.text);
        },
        Operation::Remove => {
            lemma_insert_removed(text, c.start, c.start + c.text.len());
        },
        _ => {},
    }
}

/// Taking back a change that fits and carrying it out again gives the text
/// back, and the change can be carried out.
pub proof fn lemma_apply_revert(text: Seq<char>, c: ChangeView)
    requires
        reverts(text, c),
    ensures
        applies(revert(text, c), c),
        apply(revert(text, c), c) == text,
{
    match c.operation {
        Operation::Insert => {
            lemma_insert_removed(text, c.start, c.start + c.text.len());
        },
        Operation::Remove => {
            lemma_remove_inserted(text, c.start, c.text);
        },
        _ => {},
    }
}

/// An edit that fits keeps the stacks fitting.
pub proof fn lemma_edited_consistent(doc: DocView, c: ChangeView)
    requires
        undoable(doc.text, doc.undo),
        applies(doc.text, c),
    ensures
        consistent(edited(doc, c)),
{
    lemma_revert_apply(doc.text, c);
    assert(edited(doc, c).undo.drop_last() =~= doc.undo);
}

/// Pushing a mark keeps the undo stack fitting.
pub proof fn lemma_mark_undoable(text: Seq<char>, undo: Seq<ChangeView>, m: ChangeView)
    requires
        undoable(text, undo),
        !is_edit(m),
    ensures
        undoable(text, undo.push(m)),
{
    assert(undo.push(m).drop_last() =~= undo);
}

/// Pushing a mark keeps the redo stack fitting.
pub proof fn lemma_mark_redoable(text: Seq<char>, redo: Seq<ChangeView>, m: ChangeView)
    requires
        redoable(text, redo),
        !is_edit(m),
    ensures
        redoable(text, redo.push(m)),
{
    assert(redo.push(m).drop_last() =~= redo);
}

/// How many of the changes are edits.
pub open spec fn edit_count(s: Seq<ChangeView>) -> nat
    decreases s.len(),
{
    if s.len() == 0 {
        0
    } else {
        edit_count(s.drop_last()) + if is_edit(s.last()) {
            1nat
        } else {
            0nat
        }
    }
}

/// One more change on a stack counts if it is an edit.
pub proof fn lemma_edit_count_push(s: Seq<ChangeView>, c: ChangeView)
    ensures
        edit_count(s.push(c)) == edit_count(s) + if is_edit(c) {
            1nat
        } else {
            0nat
        },
{
    assert(s.push(c).drop_last() =~= s);
}

/// The views of a stack with one more change on it.
pub proof fn lemma_views_push(s: Seq<Change>, c: Change)
    ensures
        views(s.push(c)) == views(s).push(c@),
{
    assert(views(s.push(c)) =~= views(s).push(c@));
}

/// The views of a stack without its top.
pub proof fn lemma_views_drop_last(s: Seq<Change>)
    requires
        s.len() > 0,
    ensures
        views(s.drop_last()) == views(s).drop_last(),
        views(s).last() == s.last()@,
{
    assert(views(s.drop_last()) =~= views(s).drop_last());
}

} // verus!
