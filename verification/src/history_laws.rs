//! What holds of editing, undoing and redoing, whatever the edits are.

use crate::code::{in_text, moved, offset_of, replaced};
use crate::history::{
    applies, apply, consistent, edited, insertion, is_edit, lemma_redo_after_undo,
    lemma_revert_apply, mark, redo_step, removal, revert, tidy, undo_from, undo_step, ChangeView,
    DocView, Operation,
};
use crate::text::{
    insert_at, lemma_insert_removed, lemma_line_not_empty, lemma_line_start_monotone,
    lemma_line_start_past_end, lemma_place_survives_removal, lemma_remove_inserted, line_count,
    line_start, remove_range,
};
use vstd::prelude::*;
use vstd::utf8::encode_utf8;

verus! {

/// The document after the edits were made in turn.
pub open spec fn edit_all(doc: DocView, edits: Seq<ChangeView>) -> DocView
    decreases edits.len(),
{
    if edits.len() == 0 {
        doc
    } else {
        edited(edit_all(doc, edits.drop_last()), edits.last())
    }
}

/// Each of the edits is an edit, not a mark, and fits the text that the ones
/// before it left.
pub open spec fn edits_fit(doc: DocView, edits: Seq<ChangeView>) -> bool
    decreases edits.len(),
{
    edits.len() == 0 || (edits_fit(doc, edits.drop_last()) && is_edit(edits.last()) && applies(
        edit_all(doc, edits.drop_last()).text,
        edits.last(),
    ))
}

/// The document after `k` undos.
pub open spec fn undo_times(doc: DocView, k: nat) -> DocView
    decreases k,
{
    if k == 0 {
        doc
    } else {
        undo_step(undo_times(doc, (k - 1) as nat)).doc
    }
}

/// The document after `k` redos.
pub open spec fn redo_times(doc: DocView, k: nat) -> DocView
    decreases k,
{
    if k == 0 {
        doc
    } else {
        redo_times(redo_step(doc).doc, (k - 1) as nat)
    }
}

/// The document with an empty text and empty stacks.
pub open spec fn blank() -> DocView {
    DocView { text: Seq::empty(), undo: Seq::empty(), redo: Seq::empty() }
}

/// The last `k` of the edits, the latest first: what `k` undos leave on the
/// redo stack.
pub open spec fn taken_back(edits: Seq<ChangeView>, k: nat) -> Seq<ChangeView>
    decreases k,
{
    if k == 0 || k > edits.len() {
        Seq::empty()
    } else {
        taken_back(edits, (k - 1) as nat).push(edits[edits.len() - k])
    }
}

/// The undo stack after a sequence of edits: the edits on top of what was
/// there.
pub proof fn lemma_edit_all_stack(doc: DocView, edits: Seq<ChangeView>)
    ensures
        edit_all(doc, edits).undo == doc.undo + edits,
        edits.len() > 0 ==> edit_all(doc, edits).redo.len() == 0,
    decreases edits.len(),
{
    if edits.len() == 0 {
        assert(doc.undo + edits =~= doc.undo);
    } else {
        lemma_edit_all_stack(doc, edits.drop_last());
        assert(doc.undo + edits =~= (doc.undo + edits.drop_last()).push(edits.last()));
    }
}

/// One undo of a document whose last change is an edit takes that edit back
/// and moves it to the redo stack.
pub proof fn lemma_undo_one_edit(doc: DocView)
    requires
        doc.undo.len() > 0,
        is_edit(doc.undo.last()),
    ensures
        undo_step(doc).doc == (DocView {
            text: revert(doc.text, doc.undo.last()),
            undo: doc.undo.drop_last(),
            redo: doc.redo.push(doc.undo.last()),
        }),
        undo_step(doc).changes == Some(seq![doc.undo.last()]),
{
    assert(Seq::<ChangeView>::empty().push(doc.undo.last()) =~= seq![doc.undo.last()]);
}

/// One redo of a document whose redo stack has an edit on top carries that
/// edit out and moves it to the undo stack.
pub proof fn lemma_redo_one_edit(doc: DocView)
    requires
        doc.redo.len() > 0,
        is_edit(doc.redo.last()),
    ensures
        redo_step(doc).doc == (DocView {
            text: apply(doc.text, doc.redo.last()),
            undo: doc.undo.push(doc.redo.last()),
            redo: doc.redo.drop_last(),
        }),
        redo_step(doc).changes == Some(seq![doc.redo.last()]),
{
    assert(Seq::<ChangeView>::empty().push(doc.redo.last()) =~= seq![doc.redo.last()]);
}

/// Undoing an empty history changes nothing and reports nothing.
pub proof fn lemma_undo_nothing(doc: DocView)
    requires
        doc.undo.len() == 0,
    ensures
        undo_step(doc).doc == doc,
        undo_step(doc).changes is None,
{
}

/// After any sequence of edits, `k` undos lead back to the document as it was
/// after the edits before the last `k`: the same text and the same undo
/// stack.  The edits taken back lie on the redo stack, the latest at the
/// bottom.
pub proof fn lemma_undo_walks_back(doc: DocView, edits: Seq<ChangeView>, k: nat)
    requires
        edits_fit(doc, edits),
        k <= edits.len(),
        doc.redo.len() == 0,
    ensures
        undo_times(edit_all(doc, edits), k).text == edit_all(
            doc,
            edits.take(edits.len() - k),
        ).text,
        undo_times(edit_all(doc, edits), k).undo == edit_all(
            doc,
            edits.take(edits.len() - k),
        ).undo,
        undo_times(edit_all(doc, edits), k).redo == taken_back(edits, k),
    decreases k,
{
    let n = edits.len() as int;
    if k == 0 {
        assert(edits.take(n) =~= edits);
        if n > 0 {
            lemma_edit_all_stack(doc, edits);
            assert(edit_all(doc, edits).redo =~= Seq::<ChangeView>::empty());
        }
    } else {
        lemma_undo_walks_back(doc, edits, (k - 1) as nat);
        let before = undo_times(edit_all(doc, edits), (k - 1) as nat);
        let prefix = edits.take(n - k + 1);
        let c = edits[n - k];
        assert(prefix.last() == c);
        assert(prefix.drop_last() =~= edits.take(n - k));
        lemma_edits_fit_prefix(doc, edits, n - k + 1);
        lemma_edit_all_stack(doc, prefix);
        assert(before.undo.last() == c);
        assert(before.undo.drop_last() =~= doc.undo + edits.take(n - k));
        lemma_edit_all_stack(doc, edits.take(n - k));
        lemma_undo_one_edit(before);
        lemma_revert_apply(edit_all(doc, edits.take(n - k)).text, c);
    }
}

/// A prefix of fitting edits fits.
pub proof fn lemma_edits_fit_prefix(doc: DocView, edits: Seq<ChangeView>, m: int)
    requires
        edits_fit(doc, edits),
        0 <= m <= edits.len(),
    ensures
        edits_fit(doc, edits.take(m)),
    decreases edits.len(),
{
    if m == edits.len() {
        assert(edits.take(m) =~= edits);
    } else {
        lemma_edits_fit_prefix(doc, edits.drop_last(), m);
        assert(edits.drop_last().take(m) =~= edits.take(m));
    }
}

/// Edits made to the blank document are all taken back by as many undos:
/// the text is empty again, and one more undo finds nothing to do.
pub proof fn lemma_undo_all_from_blank(edits: Seq<ChangeView>)
    requires
        edits_fit(blank(), edits),
    ensures
        undo_times(edit_all(blank(), edits), edits.len()).text == Seq::<char>::empty(),
        undo_times(edit_all(blank(), edits), edits.len()).undo.len() == 0,
        undo_step(undo_times(edit_all(blank(), edits), edits.len())).changes is None,
{
    lemma_undo_walks_back(blank(), edits, edits.len());
    assert(edits.take(0) =~= Seq::<ChangeView>::empty());
}

/// Undos keep a tidy document that fits tidy and fitting.
pub proof fn lemma_undo_times_tidy(doc: DocView, k: nat)
    requires
        consistent(doc),
        tidy(doc),
    ensures
        consistent(undo_times(doc, k)),
        tidy(undo_times(doc, k)),
    decreases k,
{
    if k > 0 {
        lemma_undo_times_tidy(doc, (k - 1) as nat);
        lemma_redo_after_undo(undo_times(doc, (k - 1) as nat));
    }
}

/// After `k` undos that each found something to take back, an edit or a
/// whole group, `k` redos give the document back as it was, text and both
/// stacks, and each of them reports what it carried out.  Where the redo
/// stack was empty before, it is empty again, and one more redo finds
/// nothing and changes nothing.
pub proof fn lemma_redo_rebuilds(doc: DocView, k: nat)
    requires
        consistent(doc),
        tidy(doc),
        forall|j: nat| j < k ==> (#[trigger] undo_step(undo_times(doc, j))).changes is Some,
    ensures
        redo_times(undo_times(doc, k), k) == doc,
        forall|j: nat|
            j < k ==> (#[trigger] redo_step(
                redo_times(undo_times(doc, k), j),
            )).changes is Some,
        doc.redo.len() == 0 ==> redo_step(redo_times(undo_times(doc, k), k)).changes is None
            && redo_step(redo_times(undo_times(doc, k), k)).doc == doc,
    decreases k,
{
    if k > 0 {
        let before = undo_times(doc, (k - 1) as nat);
        let after = undo_times(doc, k);
        lemma_redo_rebuilds(doc, (k - 1) as nat);
        lemma_undo_times_tidy(doc, (k - 1) as nat);
        assert(undo_step(undo_times(doc, (k - 1) as nat)).changes is Some);
        lemma_redo_after_undo(before);
        assert(redo_step(after).doc == before);
        assert forall|j: nat| j < k implies (#[trigger] redo_step(
            redo_times(after, j),
        )).changes is Some by {
            if j > 0 {
                lemma_redo_times_split(after, j);
                assert(redo_step(redo_times(before, (j - 1) as nat)).changes is Some);
            }
        }
        lemma_redo_times_split(after, k);
    }
}

/// The first of some redos can be taken by itself.
pub proof fn lemma_redo_times_split(doc: DocView, k: nat)
    requires
        k > 0,
    ensures
        redo_times(doc, k) == redo_times(redo_step(doc).doc, (k - 1) as nat),
{
}

/// After any sequence of edits, `k` undos followed by `k` redos give the
/// document back as it was: text and both stacks.
pub proof fn lemma_redo_rebuilds_edits(doc: DocView, edits: Seq<ChangeView>, k: nat)
    requires
        edits_fit(doc, edits),
        k <= edits.len(),
        doc.redo.len() == 0,
    ensures
        redo_times(undo_times(edit_all(doc, edits), k), k) == undo_times(
            edit_all(doc, edits),
            0,
        ),
        redo_times(undo_times(edit_all(doc, edits), k), k) == edit_all(doc, edits),
    decreases k,
{
    if k > 0 {
        let n = edits.len() as int;
        lemma_redo_rebuilds_edits(doc, edits, (k - 1) as nat);
        lemma_undo_walks_back(doc, edits, (k - 1) as nat);
        let before = undo_times(edit_all(doc, edits), (k - 1) as nat);
        let prefix = edits.take(n - k + 1);
        let c = edits[n - k];
        assert(prefix.last() == c);
        assert(prefix.drop_last() =~= edits.take(n - k));
        lemma_edits_fit_prefix(doc, edits, n - k + 1);
        lemma_edit_all_stack(doc, prefix);
        lemma_undo_one_edit(before);
        let after = undo_step(before).doc;
        lemma_revert_apply(edit_all(doc, edits.take(n - k)).text, c);
        lemma_redo_one_edit(after);
        assert(after.redo.drop_last() =~= before.redo);
        assert(after.undo.push(c) =~= before.undo);
        assert(redo_step(after).doc == before);
    }
}

/// An edit leaves the redo stack empty, whatever was on it.
pub proof fn lemma_edit_empties_redo(doc: DocView, c: ChangeView)
    ensures
        edited(doc, c).redo.len() == 0,
        redo_step(edited(doc, c)).changes is None,
        redo_step(edited(doc, c)).doc == edited(doc, c),
{
}

/// A replacement is undone by one undo: the text and the undo stack are as
/// they were before it, and the undo reports the insertion and the removal
/// that it took back.
pub proof fn lemma_replace_undone_at_once(
    doc: DocView,
    row: int,
    col: int,
    row1: int,
    col1: int,
    text: Seq<char>,
)
    requires
        in_text(doc.text, row, col),
        in_text(doc.text, row1, col1),
        offset_of(doc.text, row, col) <= offset_of(doc.text, row1, col1),
    ensures
        ({
            let from = offset_of(doc.text, row, col);
            let to = offset_of(doc.text, row1, col1);
            let done = replaced(doc, from, to, row, col, row1, col1, text);
            let cut = remove_range(doc.text, from, to);
            &&& undo_step(done).doc.text == doc.text
            &&& undo_step(done).doc.undo == doc.undo
            &&& undo_step(done).changes == Some(
                seq![
                    insertion(offset_of(cut, row, col), text, row, col),
                    removal(from, doc.text.subrange(from, to), row1, col1),
                ],
            )
        }),
{
    let from = offset_of(doc.text, row, col);
    let to = offset_of(doc.text, row1, col1);
    let done = replaced(doc, from, to, row, col, row1, col1, text);
    let cut = remove_range(doc.text, from, to);
    let at = offset_of(cut, row, col);
    let m0 = mark(Operation::Start, from, row1, col1);
    let rem = removal(from, doc.text.subrange(from, to), row1, col1);
    let ins = insertion(at, text, row, col);
    let m1 = mark(Operation::End, from, row1, col1);
    lemma_line_start_monotone(doc.text, row, row);
    lemma_line_start_monotone(cut, row, row);
    lemma_place_survives_removal(doc.text, row, col, to);
    lemma_remove_inserted(cut, at, text);
    lemma_insert_removed(doc.text, from, to);

    let s4 = doc.undo.push(m0).push(rem).push(ins).push(m1);
    let s3 = doc.undo.push(m0).push(rem).push(ins);
    let s2 = doc.undo.push(m0).push(rem);
    let s1 = doc.undo.push(m0);
    assert(s4.drop_last() =~= s3);
    assert(s3.drop_last() =~= s2);
    assert(s2.drop_last() =~= s1);
    assert(s1.drop_last() =~= doc.undo);
    let e = Seq::<ChangeView>::empty();
    let q = done.redo.push(m1);
    let d3 = DocView { undo: s3, redo: q, ..done };
    let d2 = DocView { text: cut, undo: s2, redo: q.push(ins) };
    let d1 = DocView { text: doc.text, undo: s1, redo: q.push(ins).push(rem) };
    assert(undo_from(d1, e.push(ins).push(rem), true).doc.undo == doc.undo);
    assert(undo_from(d2, e.push(ins), true) == undo_from(d1, e.push(ins).push(rem), true));
    assert(undo_from(d3, e, true) == undo_from(d2, e.push(ins), true));
    assert(undo_from(done, e, false) == undo_from(d3, e, true));
    assert(e.push(ins).push(rem) =~= seq![ins, rem]);
}

/// Inserting any text and removing the range it took restores the text, and
/// so its bytes.
pub proof fn lemma_insert_remove_round_trip(text: Seq<char>, at: int, inserted: Seq<char>)
    requires
        0 <= at <= text.len(),
    ensures
        remove_range(insert_at(text, at, inserted), at, at + inserted.len()) == text,
        encode_utf8(remove_range(insert_at(text, at, inserted), at, at + inserted.len()))
            == encode_utf8(text),
{
    lemma_remove_inserted(text, at, inserted);
}

/// A line move is undone by one undo: the text and the undo stack are as they
/// were before it.
pub proof fn lemma_move_undone_at_once(doc: DocView, i: int)
    requires
        moved(doc, i) is Some,
    ensures
        undo_step(moved(doc, i)->0).doc.text == doc.text,
        undo_step(moved(doc, i)->0).doc.undo == doc.undo,
        undo_step(moved(doc, i)->0).changes matches Some(cs) && cs.len() == 4,
{
    let t = doc.text;
    let a = line_start(t, i);
    let b = line_start(t, i + 1);
    let c = line_start(t, i + 2);
    let e2 = if c == t.len() {
        c
    } else {
        c - 1
    };
    lemma_line_start_monotone(t, i, i + 1);
    lemma_line_start_monotone(t, i + 1, i + 2);
    lemma_line_not_empty(t, i);
    if i + 2 < line_count(t) {
        lemma_line_not_empty(t, i + 1);
    } else {
        lemma_line_start_past_end(t, i + 2);
    }
    let first = t.subrange(a, b - 1);
    let second = t.subrange(b, e2);
    let t1 = remove_range(t, a, b - 1);
    let at2 = line_start(t1, i);
    lemma_line_start_monotone(t1, i, i);
    let t2 = insert_at(t1, at2, second);
    let at3 = line_start(t2, i + 1);
    lemma_line_start_monotone(t2, i + 1, i + 1);
    let t3 = remove_range(t2, at3, at3 + second.len());
    let at4 = line_start(t3, i + 1);
    lemma_line_start_monotone(t3, i + 1, i + 1);
    let t4 = insert_at(t3, at4, first);
    let done = moved(doc, i)->0;

    let m0 = mark(Operation::Start, 0, 0, 0);
    let r1 = removal(a, first, i, first.len() as int);
    let i2 = insertion(at2, second, i, 0);
    let r3 = removal(at3, t2.subrange(at3, at3 + second.len()), i + 1, second.len() as int);
    let i4 = insertion(at4, first, i + 1, 0);
    let m1 = mark(Operation::End, 0, 0, 0);

    lemma_remove_inserted(t3, at4, first);
    lemma_insert_removed(t2, at3, at3 + second.len());
    lemma_remove_inserted(t1, at2, second);
    lemma_insert_removed(t, a, b - 1);

    let s1 = doc.undo.push(m0);
    let s2 = s1.push(r1);
    let s3 = s2.push(i2);
    let s4 = s3.push(r3);
    let s5 = s4.push(i4);
    let s6 = s5.push(m1);
    assert(s6.drop_last() =~= s5);
    assert(s5.drop_last() =~= s4);
    assert(s4.drop_last() =~= s3);
    assert(s3.drop_last() =~= s2);
    assert(s2.drop_last() =~= s1);
    assert(s1.drop_last() =~= doc.undo);
    let e = Seq::<ChangeView>::empty();
    let q0 = done.redo.push(m1);
    let d5 = DocView { undo: s5, redo: q0, ..done };
    let d4 = DocView { text: t3, undo: s4, redo: q0.push(i4) };
    let d3 = DocView { text: t2, undo: s3, redo: q0.push(i4).push(r3) };
    let d2 = DocView { text: t1, undo: s2, redo: q0.push(i4).push(r3).push(i2) };
    let d1 = DocView { text: t, undo: s1, redo: q0.push(i4).push(r3).push(i2).push(r1) };
    let all = e.push(i4).push(r3).push(i2).push(r1);
    assert(undo_from(d1, all, true).doc.undo == doc.undo);
    assert(undo_from(d2, e.push(i4).push(r3).push(i2), true) == undo_from(d1, all, true));
    assert(undo_from(d3, e.push(i4).push(r3), true) == undo_from(
        d2,
        e.push(i4).push(r3).push(i2),
        true,
    ));
    assert(undo_from(d4, e.push(i4), true) == undo_from(d3, e.push(i4).push(r3), true));
    assert(undo_from(d5, e, true) == undo_from(d4, e.push(i4), true));
    assert(undo_from(done, e, false) == undo_from(d5, e, true));
}

} // verus!
